//! References to Docker images:
//! `[registry[:port]/][user/]name[:tag|@digest]`.

use vstd::prelude::*;
use vstd::string::StringExecFns;
use crate::errors::{InvalidValueError, InvalidValueErrorView};
use crate::merge_override::Duplicate;
use crate::raw_or::{parse_result, InterpolatableValue};
use crate::text::{
    all_digits,
    all_in_class,
    chars_of,
    decimal_text,
    has_char,
    in_class,
    is_all_in_class,
    is_digit,
    is_empty_text,
    lacks_char,
    lemma_all_in_class,
    lemma_decimal_text,
    lemma_index_of,
    lemma_span_ends_inside,
    lemma_span_of_whole,
    lemma_span_len,
    parse_decimal,
    parsed_decimal,
    push_decimal,
    same_text,
    scan_class,
    span_len,
    string_of_range,
    CharClass,
};

verus! {

/// A server running a Docker registry.
#[derive(Debug, Clone, PartialEq, Eq)]
pub struct RegistryHost {
    /// Either a hostname or an IP address.
    pub host: String,
    /// An optional port number.
    pub port: Option<u16>,
}

/// A [`RegistryHost`], as plain values.
pub struct RegistryHostView {
    pub host: Seq<char>,
    pub port: Option<u16>,
}

impl DeepView for RegistryHost {
    type V = RegistryHostView;

    open spec fn deep_view(&self) -> RegistryHostView {
        RegistryHostView { host: self.host@, port: self.port }
    }
}

impl RegistryHost {
    /// The text of a registry host: the host, then a colon and the port if
    /// there is one.
    pub open spec fn formatted(v: RegistryHostView) -> Seq<char> {
        match v.port {
            Some(port) => v.host + seq![':'] + decimal_text(port as nat),
            None => v.host,
        }
    }

    /// The text of this registry host.
    pub fn to_string(&self) -> (r: String)
        ensures
            r@ == Self::formatted(self.deep_view()),
    {
        let mut out = self.host.clone();
        if let Some(port) = self.port {
            out.push(':');
            push_decimal(&mut out, port as u64);
        }
        out
    }
}

/// The version of a Docker image.
#[derive(Debug, Clone, PartialEq, Eq)]
pub enum ImageVersion {
    /// A tag, written `:tag`.
    Tag(String),
    /// A unique hash digest, written `@digest`.
    Digest(String),
}

/// An [`ImageVersion`], as plain values.
pub enum ImageVersionView {
    Tag(Seq<char>),
    Digest(Seq<char>),
}

impl DeepView for ImageVersion {
    type V = ImageVersionView;

    open spec fn deep_view(&self) -> ImageVersionView {
        match self {
            ImageVersion::Tag(t) => ImageVersionView::Tag(t@),
            ImageVersion::Digest(d) => ImageVersionView::Digest(d@),
        }
    }
}

impl ImageVersion {
    /// The text of a version, with the sign that introduces it.
    pub open spec fn formatted(v: ImageVersionView) -> Seq<char> {
        match v {
            ImageVersionView::Tag(tag) => seq![':'] + tag,
            ImageVersionView::Digest(digest) => seq!['@'] + digest,
        }
    }

    /// The text of this version, with the sign that introduces it.
    pub fn to_string(&self) -> (r: String)
        ensures
            r@ == Self::formatted(self.deep_view()),
    {
        match self {
            ImageVersion::Tag(tag) => {
                let mut out = String::from_str(":");
                out.append(tag.as_str());
                proof {
                    reveal_strlit(":");
                    assert(":"@ =~= seq![':']);
                }
                out
            },
            ImageVersion::Digest(digest) => {
                let mut out = String::from_str("@");
                out.append(digest.as_str());
                proof {
                    reveal_strlit("@");
                    assert("@"@ =~= seq!['@']);
                }
                out
            },
        }
    }
}

/// The name of a Docker image, with the registry and the user account it
/// comes from and the version that is wanted.
#[derive(Debug, Clone, PartialEq, Eq)]
pub struct Image {
    /// The server running the Docker registry.
    pub registry_host: Option<RegistryHost>,
    /// The name of the user account on the Docker registry.
    pub user_name: Option<String>,
    /// The name of this image.
    pub name: String,
    /// A tag or a digest that picks one version of the image.
    pub version: Option<ImageVersion>,
}

/// An [`Image`], as plain values.
pub struct ImageView {
    pub registry_host: Option<RegistryHostView>,
    pub user_name: Option<Seq<char>>,
    pub name: Seq<char>,
    pub version: Option<ImageVersionView>,
}

impl DeepView for Image {
    type V = ImageView;

    open spec fn deep_view(&self) -> ImageView {
        ImageView {
            registry_host: match self.registry_host {
                Some(r) => Some(r.deep_view()),
                None => None,
            },
            user_name: match self.user_name {
                Some(u) => Some(u@),
                None => None,
            },
            name: self.name@,
            version: match self.version {
                Some(v) => Some(v.deep_view()),
                None => None,
            },
        }
    }
}

/// A registry at the start of an image reference: the host, the digits of
/// the port if there is one, and the number of characters that the
/// registry takes up, slash included.
pub struct RegistryPart {
    pub host: Seq<char>,
    pub port: Option<Seq<char>>,
    pub used: int,
}

/// The registry that `s` starts with, if it starts with one: a host that
/// holds a dot after its first character and before its last, then a colon
/// and a port if there is one, then a slash.
pub open spec fn registry_part(s: Seq<char>) -> Option<RegistryPart> {
    let first = span_len(s, CharClass::NotSlashColonAtDot) as int;
    let rest = span_len(s.skip(first + 1), CharClass::NotSlashColonAt) as int;
    let end = first + 1 + rest;
    let digits = span_len(s.skip(end + 1), CharClass::Digit) as int;
    if !(first > 0 && first < s.len() && s[first] == '.' && rest > 0 && end < s.len()) {
        None
    } else if s[end] == '/' {
        Some(RegistryPart { host: s.take(end), port: None, used: end + 1 })
    } else if s[end] == ':' && digits > 0 && end + 1 + digits < s.len() && s[end + 1 + digits]
        == '/' {
        Some(
            RegistryPart {
                host: s.take(end),
                port: Some(s.subrange(end + 1, end + 1 + digits)),
                used: end + digits + 2,
            },
        )
    } else {
        None
    }
}

/// The length of the user name that `s` starts with, if it starts with
/// one: characters other than `/`, `:`, `@` and `.`, and then a slash.
pub open spec fn user_part(s: Seq<char>) -> Option<int> {
    let user = span_len(s, CharClass::NotSlashColonAtDot) as int;
    if user > 0 && user < s.len() && s[user] == '/' {
        Some(user)
    } else {
        None
    }
}

/// The name and the version that `s` is made of, if it is made of them: a
/// name without `:` and `@`, and then nothing, or a colon and a tag
/// without `/`, `:` and `@`, or an at sign and a digest on one line.
pub open spec fn name_and_version(s: Seq<char>) -> Option<(Seq<char>, Option<ImageVersionView>)> {
    let name = span_len(s, CharClass::NotColonAt) as int;
    let after = s.skip(name + 1);
    if name == 0 {
        None
    } else if name == s.len() {
        Some((s, None))
    } else if s[name] == ':' && after.len() > 0 && span_len(after, CharClass::NotSlashColonAt)
        == after.len() {
        Some((s.take(name), Some(ImageVersionView::Tag(after))))
    } else if s[name] == '@' && after.len() > 0 && span_len(after, CharClass::NotLineBreak)
        == after.len() {
        Some((s.take(name), Some(ImageVersionView::Digest(after))))
    } else {
        None
    }
}

/// How `s` divides into a registry, a user name and the rest: the number
/// of characters that the registry takes up, and the length of the user
/// name, for the first of these divisions that leaves a name and a
/// version: registry and user, registry alone, user alone, neither.
pub open spec fn image_division(s: Seq<char>) -> Option<(Option<RegistryPart>, Option<int>)> {
    let registry = registry_part(s);
    let after_registry = if registry is Some {
        s.skip(registry->0.used)
    } else {
        s
    };
    if registry is Some && user_part(after_registry) is Some && name_and_version(
        after_registry.skip(user_part(after_registry)->0 + 1),
    ) is Some {
        Some((registry, user_part(after_registry)))
    } else if registry is Some && name_and_version(after_registry) is Some {
        Some((registry, None))
    } else if user_part(s) is Some && name_and_version(s.skip(user_part(s)->0 + 1)) is Some {
        Some((None, user_part(s)))
    } else if name_and_version(s) is Some {
        Some((None, None))
    } else {
        None
    }
}

/// What [`Image::from_str`] makes of `s`.
pub open spec fn image_model(s: Seq<char>) -> Result<ImageView, InvalidValueErrorView> {
    let failure = Err(InvalidValueErrorView { wanted: "image"@, input: s });
    match image_division(s) {
        None => failure,
        Some((registry, user)) => {
            let after_registry = if registry is Some {
                s.skip(registry->0.used)
            } else {
                s
            };
            let after_user = if user is Some {
                after_registry.skip(user->0 + 1)
            } else {
                after_registry
            };
            let tail = name_and_version(after_user)->0;
            let user_name = if user is Some {
                Some(after_registry.take(user->0))
            } else {
                None
            };
            match registry {
                None => Ok(
                    ImageView { registry_host: None, user_name, name: tail.0, version: tail.1 },
                ),
                Some(part) => match part.port {
                    None => Ok(
                        ImageView {
                            registry_host: Some(RegistryHostView { host: part.host, port: None }),
                            user_name,
                            name: tail.0,
                            version: tail.1,
                        },
                    ),
                    Some(digits) => match parsed_decimal(digits, 0xffff) {
                        None => failure,
                        Some(port) => Ok(
                            ImageView {
                                registry_host: Some(
                                    RegistryHostView { host: part.host, port: Some(port as u16) },
                                ),
                                user_name,
                                name: tail.0,
                                version: tail.1,
                            },
                        ),
                    },
                },
            }
        },
    }
}

/// A range of indices.
struct Range {
    from: usize,
    to: usize,
}

/// Where the registry at `chars[from..]` ends, and where its port lies.
struct RegistryAt {
    host_end: usize,
    has_port: bool,
    port_from: usize,
    port_to: usize,
    next: usize,
}

/// Find the registry that `chars` starts with.
fn read_registry(chars: &Vec<char>) -> (r: Option<RegistryAt>)
    ensures
        match registry_part(chars@) {
            None => r is None,
            Some(part) => r matches Some(found) && found.next == part.used && found.next
                <= chars.len() && found.host_end <= chars.len() && chars@.take(
                found.host_end as int,
            ) == part.host && match part.port {
                None => !found.has_port,
                Some(digits) => found.has_port && found.port_from <= found.port_to <= chars.len()
                    && chars@.subrange(found.port_from as int, found.port_to as int) == digits,
            },
        },
{
    let n = chars.len();
    proof {
        assert(chars@.skip(0) == chars@);
    }
    let first = scan_class(chars, 0, CharClass::NotSlashColonAtDot);
    if first == 0 || first >= n || chars[first] != '.' {
        return None;
    }
    let end = scan_class(chars, first + 1, CharClass::NotSlashColonAt);
    if end == first + 1 || end >= n {
        return None;
    }
    if chars[end] == '/' {
        return Some(
            RegistryAt { host_end: end, has_port: false, port_from: 0, port_to: 0, next: end + 1 },
        );
    }
    if chars[end] != ':' {
        return None;
    }
    let digits_end = scan_class(chars, end + 1, CharClass::Digit);
    if digits_end == end + 1 || digits_end >= n || chars[digits_end] != '/' {
        return None;
    }
    Some(
        RegistryAt {
            host_end: end,
            has_port: true,
            port_from: end + 1,
            port_to: digits_end,
            next: digits_end + 1,
        },
    )
}

/// Find the user name that `chars[from..]` starts with: the index of the
/// slash that ends it.
fn read_user(chars: &Vec<char>, from: usize) -> (r: Option<usize>)
    requires
        from <= chars.len(),
    ensures
        match user_part(chars@.skip(from as int)) {
            None => r is None,
            Some(user) => r == Some((from + user) as usize) && from + user < chars.len(),
        },
{
    let end = scan_class(chars, from, CharClass::NotSlashColonAtDot);
    proof {
        if end < chars.len() {
            assert(chars@.skip(from as int)[end - from] == chars@[end as int]);
        }
    }
    if end == from || end >= chars.len() || chars[end] != '/' {
        return None;
    }
    Some(end)
}

/// Where the name at `chars[from..]` ends, and which version follows it.
struct TailAt {
    name_end: usize,
    tag: bool,
    digest: bool,
}

/// Read `chars[from..]` as a name and a version.
fn read_name_and_version(chars: &Vec<char>, from: usize) -> (r: Option<TailAt>)
    requires
        from <= chars.len(),
    ensures
        match name_and_version(chars@.skip(from as int)) {
            None => r is None,
            Some((name, version)) => r is Some && from < r->0.name_end <= chars.len()
                && chars@.subrange(from as int, r->0.name_end as int) == name && match version {
                None => !r->0.tag && !r->0.digest && r->0.name_end == chars.len(),
                Some(ImageVersionView::Tag(tag)) => r->0.tag && !r->0.digest && r->0.name_end
                    < chars.len() && chars@.subrange(r->0.name_end + 1, chars.len() as int) == tag,
                Some(ImageVersionView::Digest(digest)) => !r->0.tag && r->0.digest
                    && r->0.name_end < chars.len() && chars@.subrange(
                    r->0.name_end + 1,
                    chars.len() as int,
                ) == digest,
            },
        },
{
    let n = chars.len();
    let ghost s = chars@.skip(from as int);
    let end = scan_class(chars, from, CharClass::NotColonAt);
    if end == from {
        return None;
    }
    proof {
        assert(s.take(end - from) == chars@.subrange(from as int, end as int));
    }
    if end == n {
        proof {
            assert(s.take(s.len() as int) == s);
        }
        return Some(TailAt { name_end: end, tag: false, digest: false });
    }
    proof {
        assert(s[end - from] == chars@[end as int]);
        assert(s.skip(end - from + 1) == chars@.skip(end + 1));
        assert(chars@.skip(end + 1) == chars@.subrange(end + 1, n as int));
        lemma_span_len(s, CharClass::NotColonAt);
    }
    if end + 1 == n {
        return None;
    }
    if chars[end] == ':' {
        let tag_end = scan_class(chars, end + 1, CharClass::NotSlashColonAt);
        if tag_end == n {
            Some(TailAt { name_end: end, tag: true, digest: false })
        } else {
            None
        }
    } else {
        let digest_end = scan_class(chars, end + 1, CharClass::NotLineBreak);
        if digest_end == n {
            Some(TailAt { name_end: end, tag: false, digest: true })
        } else {
            None
        }
    }
}

/// How an image reference divides: where its registry, its user name and
/// its name lie.
struct DivisionAt {
    registry: Option<RegistryAt>,
    user: Option<Range>,
    name_from: usize,
    tail: TailAt,
}

/// Do the parts that were found lie where the division `d` of `s` says?
spec fn divided_as(
    s: Seq<char>,
    found: DivisionAt,
    registry: Option<RegistryPart>,
    user: Option<int>,
) -> bool {
    let after_registry = if registry is Some {
        registry->0.used
    } else {
        0
    };
    let name_from = if user is Some {
        after_registry + user->0 + 1
    } else {
        after_registry
    };
    &&& found.name_from == name_from
    &&& name_from <= s.len()
    &&& tail_found(s, name_from, found.tail)
    &&& match (registry, found.registry) {
        (None, None) => true,
        (Some(part), Some(at)) => registry_found(s, part, at),
        _ => false,
    }
    &&& match (user, found.user) {
        (None, None) => true,
        (Some(length), Some(range)) => range.from == after_registry && range.to == after_registry
            + length && range.to < s.len(),
        _ => false,
    }
}

/// Does the registry that was found lie where `part` says?
spec fn registry_found(s: Seq<char>, part: RegistryPart, at: RegistryAt) -> bool {
    &&& at.next == part.used
    &&& at.next <= s.len()
    &&& at.host_end <= s.len()
    &&& s.take(at.host_end as int) == part.host
    &&& match part.port {
        None => !at.has_port,
        Some(digits) => at.has_port && at.port_from <= at.port_to <= s.len() && s.subrange(
            at.port_from as int,
            at.port_to as int,
        ) == digits,
    }
}

/// Do the name and the version that were found lie where
/// [`name_and_version`] says?
spec fn tail_found(s: Seq<char>, from: int, tail: TailAt) -> bool {
    match name_and_version(s.skip(from)) {
        None => false,
        Some((name, version)) => from < tail.name_end <= s.len() && s.subrange(
            from,
            tail.name_end as int,
        ) == name && match version {
            None => !tail.tag && !tail.digest && tail.name_end == s.len(),
            Some(ImageVersionView::Tag(tag)) => tail.tag && !tail.digest && tail.name_end < s.len()
                && s.subrange(tail.name_end + 1, s.len() as int) == tag,
            Some(ImageVersionView::Digest(digest)) => !tail.tag && tail.digest && tail.name_end
                < s.len() && s.subrange(tail.name_end + 1, s.len() as int) == digest,
        },
    }
}

/// Divide an image reference into its registry, its user name and the
/// rest: see [`image_division`].
fn divide(chars: &Vec<char>) -> (r: Option<DivisionAt>)
    ensures
        match image_division(chars@) {
            None => r is None,
            Some((registry, user)) => r matches Some(found) && divided_as(
                chars@,
                found,
                registry,
                user,
            ),
        },
{
    proof {
        assert(chars@.skip(0) == chars@);
    }
    let registry = read_registry(chars);
    match registry {
        Some(at) => {
            let after_registry = at.next;
            let ghost rest = chars@.skip(after_registry as int);
            if let Some(user_end) = read_user(chars, after_registry) {
                proof {
                    assert(rest.skip(user_end - after_registry + 1) == chars@.skip(user_end + 1));
                }
                if let Some(tail) = read_name_and_version(chars, user_end + 1) {
                    return Some(
                        DivisionAt {
                            registry: Some(at),
                            user: Some(Range { from: after_registry, to: user_end }),
                            name_from: user_end + 1,
                            tail,
                        },
                    );
                }
            }
            if let Some(tail) = read_name_and_version(chars, after_registry) {
                return Some(
                    DivisionAt { registry: Some(at), user: None, name_from: after_registry, tail },
                );
            }
        },
        None => {},
    }
    divide_without_registry(chars)
}

/// Divide an image reference that is taken to start with no registry.
fn divide_without_registry(chars: &Vec<char>) -> (r: Option<DivisionAt>)
    ensures
        match (user_part(chars@), name_and_version(chars@)) {
            (Some(user), _) if name_and_version(chars@.skip(user + 1)) is Some => r matches Some(
                found,
            ) && divided_as(chars@, found, None, Some(user)),
            (_, Some(_)) => r matches Some(found) && divided_as(chars@, found, None, None),
            _ => r is None,
        },
{
    proof {
        assert(chars@.skip(0) == chars@);
    }
    if let Some(user_end) = read_user(chars, 0) {
        if let Some(tail) = read_name_and_version(chars, user_end + 1) {
            return Some(
                DivisionAt {
                    registry: None,
                    user: Some(Range { from: 0, to: user_end }),
                    name_from: user_end + 1,
                    tail,
                },
            );
        }
    }
    match read_name_and_version(chars, 0) {
        Some(tail) => Some(DivisionAt { registry: None, user: None, name_from: 0, tail }),
        None => None,
    }
}

impl Image {
    /// Make an image from an image reference.
    pub fn new(s: &str) -> (r: Result<Image, InvalidValueError>)
        ensures
            parse_result(r) == image_model(s@),
    {
        Image::from_str(s)
    }

    /// This image without its version.
    pub fn without_version(&self) -> (r: Image)
        ensures
            r.deep_view() == (ImageView { version: None, ..self.deep_view() }),
    {
        Image {
            registry_host: match &self.registry_host {
                Some(h) => Some(RegistryHost { host: h.host.clone(), port: h.port }),
                None => None,
            },
            user_name: match &self.user_name {
                Some(u) => Some(u.clone()),
                None => None,
            },
            name: self.name.clone(),
            version: None,
        }
    }

    /// This image without its tag.  A digest stays.
    pub fn without_tag(&self) -> (r: Image)
        ensures
            r.deep_view() == (ImageView {
                version: match self.deep_view().version {
                    Some(ImageVersionView::Digest(d)) => Some(ImageVersionView::Digest(d)),
                    _ => None,
                },
                ..self.deep_view()
            }),
    {
        let mut r = self.without_version();
        if let Some(ImageVersion::Digest(d)) = &self.version {
            r.version = Some(ImageVersion::Digest(d.clone()));
        }
        r
    }

    /// Parse an image reference.
    pub fn from_str(s: &str) -> (r: Result<Image, InvalidValueError>)
        ensures
            parse_result(r) == image_model(s@),
    {
        let chars = chars_of(s);
        match divide(&chars) {
            None => Err(InvalidValueError::new("image", s)),
            Some(found) => {
                proof {
                    let division = image_division(s@)->0;
                    let registry = division.0;
                    let user = division.1;
                    let used: int = if registry is Some {
                        registry->0.used
                    } else {
                        0
                    };
                    let after_registry = s@.skip(used);
                    assert(s@.skip(0) == s@);
                    if user is Some {
                        assert(after_registry.skip(user->0 + 1) == s@.skip(used + user->0 + 1));
                        assert(after_registry.take(user->0) == s@.subrange(used, used + user->0));
                    }
                    assert(tail_found(s@, found.name_from as int, found.tail));
                }
                Image::assemble(
                    s,
                    &chars,
                    found.registry,
                    found.user,
                    found.name_from,
                    found.tail,
                )
            },
        }
    }

    /// Put an image together from the parts that were found.
    fn assemble(
        s: &str,
        chars: &Vec<char>,
        registry: Option<RegistryAt>,
        user: Option<Range>,
        name_from: usize,
        tail: TailAt,
    ) -> (r: Result<Image, InvalidValueError>)
        requires
            chars@ == s@,
            name_from < tail.name_end <= chars.len(),
            tail.tag || tail.digest ==> tail.name_end < chars.len(),
            user matches Some(u) ==> u.from <= u.to <= chars.len(),
            registry matches Some(found) ==> found.host_end <= chars.len() && (found.has_port
                ==> found.port_from <= found.port_to <= chars.len()),
        ensures
            r is Err ==> r->Err_0.deep_view() == (InvalidValueErrorView {
                wanted: "image"@,
                input: s@,
            }),
            r is Err <==> (registry matches Some(found) && found.has_port && parsed_decimal(
                chars@.subrange(found.port_from as int, found.port_to as int),
                0xffff,
            ) is None),
            r is Ok ==> r->Ok_0.deep_view() == (ImageView {
                registry_host: match registry {
                    None => None,
                    Some(found) => Some(
                        RegistryHostView {
                            host: chars@.take(found.host_end as int),
                            port: if found.has_port {
                                Some(
                                    parsed_decimal(
                                        chars@.subrange(
                                            found.port_from as int,
                                            found.port_to as int,
                                        ),
                                        0xffff,
                                    )->0 as u16,
                                )
                            } else {
                                None
                            },
                        },
                    ),
                },
                user_name: match user {
                    None => None,
                    Some(u) => Some(chars@.subrange(u.from as int, u.to as int)),
                },
                name: chars@.subrange(name_from as int, tail.name_end as int),
                version: if tail.tag {
                    Some(
                        ImageVersionView::Tag(
                            chars@.subrange(tail.name_end + 1, chars.len() as int),
                        ),
                    )
                } else if tail.digest {
                    Some(
                        ImageVersionView::Digest(
                            chars@.subrange(tail.name_end + 1, chars.len() as int),
                        ),
                    )
                } else {
                    None
                },
            }),
    {
        let n = chars.len();
        let registry_host = match registry {
            None => None,
            Some(found) => {
                let port = if found.has_port {
                    match parse_decimal(chars, found.port_from, found.port_to, 0xffff) {
                        Some(port) => Some(port as u16),
                        None => {
                            return Err(InvalidValueError::new("image", s));
                        },
                    }
                } else {
                    None
                };
                proof {
                    assert(chars@.take(found.host_end as int) == chars@.subrange(
                        0,
                        found.host_end as int,
                    ));
                }
                Some(RegistryHost { host: string_of_range(chars, 0, found.host_end), port })
            },
        };
        let user_name = match user {
            None => None,
            Some(u) => Some(string_of_range(chars, u.from, u.to)),
        };
        let name = string_of_range(chars, name_from, tail.name_end);
        let version = if tail.tag {
            Some(ImageVersion::Tag(string_of_range(chars, tail.name_end + 1, n)))
        } else if tail.digest {
            Some(ImageVersion::Digest(string_of_range(chars, tail.name_end + 1, n)))
        } else {
            None
        };
        Ok(Image { registry_host, user_name, name, version })
    }

    /// The text of this image reference.
    pub fn to_string(&self) -> (r: String)
        ensures
            r@ == Self::formatted(self.deep_view()),
    {
        let mut out = String::new();
        if let Some(registry_host) = &self.registry_host {
            let text = registry_host.to_string();
            out.append(text.as_str());
            out.push('/');
        }
        if let Some(user_name) = &self.user_name {
            out.append(user_name.as_str());
            out.push('/');
        }
        out.append(self.name.as_str());
        if let Some(version) = &self.version {
            let text = version.to_string();
            out.append(text.as_str());
        }
        proof {
            assert(out@ =~= Self::formatted(self.deep_view()));
        }
        out
    }
}

/// `text` and a slash, or nothing if there is no text.
pub open spec fn with_slash(text: Option<Seq<char>>) -> Seq<char> {
    match text {
        Some(t) => t + seq!['/'],
        None => Seq::empty(),
    }
}

impl Duplicate for Image {
    fn duplicate(&self) -> (r: Image) {
        match &self.version {
            Some(ImageVersion::Tag(t)) => {
                let mut r = self.without_version();
                r.version = Some(ImageVersion::Tag(t.clone()));
                r
            },
            _ => self.without_tag(),
        }
    }
}

impl Image {
    /// Does this image hold the same as `other`?
    pub fn same_as(&self, other: &Image) -> (r: bool)
        ensures
            r == (self.deep_view() == other.deep_view()),
    {
        let same_registry = match (&self.registry_host, &other.registry_host) {
            (Some(a), Some(b)) => same_text(a.host.as_str(), b.host.as_str()) && match (
                a.port,
                b.port,
            ) {
                (Some(p), Some(q)) => p == q,
                (None, None) => true,
                _ => false,
            },
            (None, None) => true,
            _ => false,
        };
        let same_user = match (&self.user_name, &other.user_name) {
            (Some(a), Some(b)) => same_text(a.as_str(), b.as_str()),
            (None, None) => true,
            _ => false,
        };
        let same_version = match (&self.version, &other.version) {
            (Some(ImageVersion::Tag(a)), Some(ImageVersion::Tag(b))) => same_text(
                a.as_str(),
                b.as_str(),
            ),
            (Some(ImageVersion::Digest(a)), Some(ImageVersion::Digest(b))) => same_text(
                a.as_str(),
                b.as_str(),
            ),
            (None, None) => true,
            _ => false,
        };
        same_registry && same_user && same_text(self.name.as_str(), other.name.as_str())
            && same_version
    }
}

impl InterpolatableValue for Image {
    /// The images that are read back from their text as they are: each
    /// part is made of the characters that it may hold, and a name holds a
    /// slash only if a user name stands before it.
    open spec fn valid(v: ImageView) -> bool {
        &&& is_image_name(v.name)
        &&& v.user_name matches Some(u) ==> is_user_name(u)
        &&& v.user_name is None ==> !has_char(v.name, '/')
        &&& v.registry_host matches Some(r) ==> is_registry_host(r.host)
        &&& v.version matches Some(x) ==> is_version(x)
    }

    open spec fn parse_model(s: Seq<char>) -> Result<ImageView, InvalidValueErrorView> {
        image_model(s)
    }

    open spec fn formatted(v: ImageView) -> Seq<char> {
        with_slash(
            match v.registry_host {
                Some(r) => Some(RegistryHost::formatted(r)),
                None => None,
            },
        ) + with_slash(v.user_name) + v.name + match v.version {
            Some(version) => ImageVersion::formatted(version),
            None => Seq::empty(),
        }
    }

    proof fn lemma_parse_formatted(v: ImageView) {
        lemma_image_round_trip(v);
    }

    fn iv_from_str(s: &str) -> (r: Result<Image, InvalidValueError>) {
        Image::from_str(s)
    }

    fn fmt_iv(&self) -> (r: String) {
        self.to_string()
    }

    fn is_valid(&self) -> (r: bool) {
        if is_empty_text(self.name.as_str()) || !is_all_in_class(
            self.name.as_str(),
            CharClass::NotColonAt,
        ) {
            return false;
        }
        match &self.user_name {
            Some(u) => {
                if is_empty_text(u.as_str()) || !is_all_in_class(
                    u.as_str(),
                    CharClass::NotSlashColonAtDot,
                ) {
                    return false;
                }
            },
            None => {
                if !lacks_char(self.name.as_str(), '/') {
                    return false;
                }
            },
        }
        if let Some(r) = &self.registry_host {
            let chars = chars_of(r.host.as_str());
            let n = chars.len();
            proof {
                assert(chars@.skip(0) == chars@);
            }
            let first = scan_class(&chars, 0, CharClass::NotSlashColonAtDot);
            if first == 0 || first >= n || chars[first] != '.' || n - first == 1 {
                return false;
            }
            if scan_class(&chars, first + 1, CharClass::NotSlashColonAt) != n {
                return false;
            }
        }
        match &self.version {
            Some(ImageVersion::Tag(t)) => !is_empty_text(t.as_str()) && is_all_in_class(
                t.as_str(),
                CharClass::NotSlashColonAt,
            ),
            Some(ImageVersion::Digest(d)) => !is_empty_text(d.as_str()) && is_all_in_class(
                d.as_str(),
                CharClass::NotLineBreak,
            ),
            None => true,
        }
    }
}

/// Is `h` the host of a registry?  It holds a dot after its first
/// character and before its last, and no `/`, `:` or `@`.
pub open spec fn is_registry_host(h: Seq<char>) -> bool {
    let first = span_len(h, CharClass::NotSlashColonAtDot) as int;
    0 < first < h.len() && h[first] == '.' && h.len() - first - 1 > 0 && all_in_class(
        h.skip(first + 1),
        CharClass::NotSlashColonAt,
    )
}

/// Is `u` a user name?  It is not empty and holds no `/`, `:`, `@` or `.`.
pub open spec fn is_user_name(u: Seq<char>) -> bool {
    u.len() > 0 && all_in_class(u, CharClass::NotSlashColonAtDot)
}

/// Is `n` the name of an image?  It is not empty and holds no `:` or `@`.
pub open spec fn is_image_name(n: Seq<char>) -> bool {
    n.len() > 0 && all_in_class(n, CharClass::NotColonAt)
}

/// Is `v` a version that can be written?  A tag is not empty and holds no
/// `/`, `:` or `@`, and a digest is one line that is not empty.
pub open spec fn is_version(v: ImageVersionView) -> bool {
    match v {
        ImageVersionView::Tag(t) => t.len() > 0 && all_in_class(t, CharClass::NotSlashColonAt),
        ImageVersionView::Digest(d) => d.len() > 0 && all_in_class(d, CharClass::NotLineBreak),
    }
}

/// The text of a version that may be missing.
pub open spec fn version_text(version: Option<ImageVersionView>) -> Seq<char> {
    match version {
        Some(v) => ImageVersion::formatted(v),
        None => Seq::empty(),
    }
}

/// A name with its version reads back as the two.
proof fn lemma_tail_round_trip(n: Seq<char>, version: Option<ImageVersionView>)
    requires
        is_image_name(n),
        version matches Some(x) ==> is_version(x),
    ensures
        name_and_version(n + version_text(version)) == Some((n, version)),
{
    let vt = version_text(version);
    let s = n + vt;
    match version {
        None => {
            assert(s == n);
        },
        Some(ImageVersionView::Tag(t)) => {
            assert(vt[0] == ':');
            lemma_span_of_whole(n, vt, CharClass::NotColonAt);
            assert(s[n.len() as int] == ':');
            assert(s.skip(n.len() as int + 1) == t);
            assert(s.take(n.len() as int) == n);
        },
        Some(ImageVersionView::Digest(d)) => {
            assert(vt[0] == '@');
            lemma_span_of_whole(n, vt, CharClass::NotColonAt);
            assert(s[n.len() as int] == '@');
            assert(s.skip(n.len() as int + 1) == d);
            assert(s.take(n.len() as int) == n);
        },
    }
}

/// A user name before a slash is found as the user name.
proof fn lemma_user_round_trip(u: Seq<char>, t: Seq<char>)
    requires
        is_user_name(u),
    ensures
        user_part(u + (seq!['/'] + t)) == Some(u.len() as int),
        registry_part(u + (seq!['/'] + t)) is None,
        (u + (seq!['/'] + t)).skip(u.len() as int + 1) == t,
        (u + (seq!['/'] + t)).take(u.len() as int) == u,
{
    let tail = seq!['/'] + t;
    let s = u + tail;
    assert(tail[0] == '/');
    lemma_span_of_whole(u, tail, CharClass::NotSlashColonAtDot);
    assert(s[u.len() as int] == '/');
}

/// The first character of the text of a version is no character of a name.
proof fn lemma_version_start(version: Option<ImageVersionView>)
    ensures
        version is Some ==> version_text(version).len() > 0 && (version_text(version)[0] == ':'
            || version_text(version)[0] == '@'),
        version is None ==> version_text(version).len() == 0,
{
}

/// A name without a slash is not taken for a user name, whatever its
/// version.
proof fn lemma_name_is_no_user(n: Seq<char>, version: Option<ImageVersionView>)
    requires
        is_image_name(n),
        !has_char(n, '/'),
        version matches Some(x) ==> is_version(x),
    ensures
        user_part(n + version_text(version)) is None,
{
    let vt = version_text(version);
    let s = n + vt;
    let k = span_len(s, CharClass::NotSlashColonAtDot) as int;
    lemma_version_start(version);
    lemma_span_len(s, CharClass::NotSlashColonAtDot);
    lemma_index_of(n, '/');
    if k < s.len() && s[k] == '/' {
        if k < n.len() {
            assert(s[k] == n[k]);
        } else if k == n.len() {
            assert(s[k] == vt[0]);
        } else {
            assert(s[n.len() as int] == vt[0]);
            assert(in_class(CharClass::NotSlashColonAtDot, s[n.len() as int]));
        }
    }
}

/// A name without a slash is not taken for a registry, whatever its
/// version.
proof fn lemma_name_is_no_registry(n: Seq<char>, version: Option<ImageVersionView>)
    requires
        is_image_name(n),
        !has_char(n, '/'),
        version matches Some(x) ==> is_version(x),
    ensures
        registry_part(n + version_text(version)) is None,
{
    let vt = version_text(version);
    let s = n + vt;
    let first = span_len(s, CharClass::NotSlashColonAtDot) as int;
    lemma_version_start(version);
    lemma_span_len(s, CharClass::NotSlashColonAtDot);
    lemma_index_of(n, '/');
    lemma_all_in_class(n, CharClass::NotColonAt);
    if first > 0 && first < s.len() && s[first] == '.' {
        // The dot stands in the name.
        if first >= n.len() {
            assert(s[n.len() as int] == vt[0]);
            if first > n.len() {
                assert(in_class(CharClass::NotSlashColonAtDot, s[n.len() as int]));
            }
        }
        assert(first < n.len());
        let rest_of_name = n.skip(first + 1);
        assert(s.skip(first + 1) == rest_of_name + vt);
        assert forall|i: int| 0 <= i < rest_of_name.len() implies in_class(
            CharClass::NotSlashColonAt,
            #[trigger] rest_of_name[i],
        ) by {
            assert(rest_of_name[i] == n[first + 1 + i]);
        }
        lemma_all_in_class(rest_of_name, CharClass::NotSlashColonAt);
        lemma_span_of_whole(rest_of_name, vt, CharClass::NotSlashColonAt);
        let end = first + 1 + rest_of_name.len();
        assert(end == n.len());
        if end < s.len() {
            assert(s[end] == vt[0]);
            if let Some(ImageVersionView::Tag(t)) = version {
                assert(s.skip(end + 1) == t);
                let digits = span_len(t, CharClass::Digit) as int;
                lemma_span_len(t, CharClass::Digit);
                lemma_all_in_class(t, CharClass::NotSlashColonAt);
                if end + 1 + digits < s.len() {
                    assert(s[end + 1 + digits] == t[digits]);
                }
            }
        }
    }
}

/// The text of a registry host, with its port if it has one.
pub open spec fn registry_text(r: RegistryHostView) -> Seq<char> {
    RegistryHost::formatted(r)
}

/// A registry before a slash is found as the registry.
proof fn lemma_registry_round_trip(r: RegistryHostView, t: Seq<char>)
    requires
        is_registry_host(r.host),
    ensures
        registry_part(registry_text(r) + (seq!['/'] + t)) == Some(
            RegistryPart {
                host: r.host,
                port: match r.port {
                    Some(p) => Some(decimal_text(p as nat)),
                    None => None,
                },
                used: registry_text(r).len() as int + 1,
            },
        ),
        (registry_text(r) + (seq!['/'] + t)).skip(registry_text(r).len() as int + 1) == t,
{
    let h = r.host;
    let slash_t = seq!['/'] + t;
    let s = registry_text(r) + slash_t;
    let tail: Seq<char> = match r.port {
        Some(p) => seq![':'] + decimal_text(p as nat) + slash_t,
        None => slash_t,
    };
    assert(s =~= h + tail);
    let first = span_len(h, CharClass::NotSlashColonAtDot) as int;
    lemma_span_ends_inside(h, tail, CharClass::NotSlashColonAtDot);
    assert(s[first] == h[first]);
    assert(s.skip(first + 1) == h.skip(first + 1) + tail);
    assert(tail[0] == '/' || tail[0] == ':');
    lemma_span_of_whole(h.skip(first + 1), tail, CharClass::NotSlashColonAt);
    let end = h.len() as int;
    assert(s[end] == tail[0]);
    assert(s.take(end) == h);
    match r.port {
        None => {},
        Some(p) => {
            let digits = decimal_text(p as nat);
            lemma_decimal_text(p as nat);
            assert(s.skip(end + 1) == digits + slash_t);
            assert forall|i: int| 0 <= i < digits.len() implies in_class(
                CharClass::Digit,
                #[trigger] digits[i],
            ) by {
                assert(is_digit(digits[i]));
            }
            lemma_all_in_class(digits, CharClass::Digit);
            assert(slash_t[0] == '/');
            lemma_span_of_whole(digits, slash_t, CharClass::Digit);
            assert(s[end + 1 + digits.len()] == '/');
            assert(s.subrange(end + 1, end + 1 + digits.len()) == digits);
        },
    }
}

/// The text of a valid image reads back as the image.
proof fn lemma_image_round_trip(v: ImageView)
    requires
        Image::valid(v),
    ensures
        image_model(Image::formatted(v)) == Ok::<_, InvalidValueErrorView>(v),
{
    match (v.registry_host, v.user_name) {
        (Some(_), Some(_)) => lemma_round_trip_registry_user(v),
        (Some(_), None) => lemma_round_trip_registry(v),
        (None, Some(_)) => lemma_round_trip_user(v),
        (None, None) => lemma_round_trip_name(v),
    }
}

/// The round trip of an image with a registry and a user name.
proof fn lemma_round_trip_registry_user(v: ImageView)
    requires
        Image::valid(v),
        v.registry_host is Some,
        v.user_name is Some,
    ensures
        image_model(Image::formatted(v)) == Ok::<_, InvalidValueErrorView>(v),
{
    let r = v.registry_host->0;
    let u = v.user_name->0;
    let tail = v.name + version_text(v.version);
    let after = u + (seq!['/'] + tail);
    let s = registry_text(r) + (seq!['/'] + after);
    assert(Image::formatted(v) =~= s);
    lemma_registry_round_trip(r, after);
    lemma_user_round_trip(u, tail);
    lemma_tail_round_trip(v.name, v.version);
    let part = registry_part(s)->0;
    assert(s.skip(part.used) == after);
    assert(user_part(after) == Some(u.len() as int));
    assert(name_and_version(after.skip(u.len() as int + 1)) is Some);
    assert(image_division(s) == Some((registry_part(s), Some(u.len() as int))));
    if let Some(p) = r.port {
        lemma_decimal_text(p as nat);
    }
    assert(v.registry_host == Some(RegistryHostView { host: r.host, port: r.port }));
}

/// The round trip of an image with a registry and no user name.
proof fn lemma_round_trip_registry(v: ImageView)
    requires
        Image::valid(v),
        v.registry_host is Some,
        v.user_name is None,
    ensures
        image_model(Image::formatted(v)) == Ok::<_, InvalidValueErrorView>(v),
{
    let r = v.registry_host->0;
    let tail = v.name + version_text(v.version);
    let s = registry_text(r) + (seq!['/'] + tail);
    assert(Image::formatted(v) =~= s);
    lemma_registry_round_trip(r, tail);
    lemma_name_is_no_user(v.name, v.version);
    lemma_tail_round_trip(v.name, v.version);
    let part = registry_part(s)->0;
    assert(s.skip(part.used) == tail);
    assert(user_part(tail) is None);
    assert(image_division(s) == Some((registry_part(s), None::<int>)));
    if let Some(p) = r.port {
        lemma_decimal_text(p as nat);
    }
    assert(v.registry_host == Some(RegistryHostView { host: r.host, port: r.port }));
}

/// The round trip of an image with a user name and no registry.
proof fn lemma_round_trip_user(v: ImageView)
    requires
        Image::valid(v),
        v.registry_host is None,
        v.user_name is Some,
    ensures
        image_model(Image::formatted(v)) == Ok::<_, InvalidValueErrorView>(v),
{
    let u = v.user_name->0;
    let tail = v.name + version_text(v.version);
    let s = u + (seq!['/'] + tail);
    assert(Image::formatted(v) =~= s);
    lemma_user_round_trip(u, tail);
    lemma_tail_round_trip(v.name, v.version);
    assert(registry_part(s) is None);
    assert(user_part(s) == Some(u.len() as int));
    assert(name_and_version(s.skip(u.len() as int + 1)) is Some);
    assert(image_division(s) == Some((None::<RegistryPart>, Some(u.len() as int))));
}

/// The round trip of an image that is a name and a version.
proof fn lemma_round_trip_name(v: ImageView)
    requires
        Image::valid(v),
        v.registry_host is None,
        v.user_name is None,
    ensures
        image_model(Image::formatted(v)) == Ok::<_, InvalidValueErrorView>(v),
{
    let s = v.name + version_text(v.version);
    assert(Image::formatted(v) =~= s);
    lemma_name_is_no_user(v.name, v.version);
    lemma_name_is_no_registry(v.name, v.version);
    lemma_tail_round_trip(v.name, v.version);
    assert(registry_part(s) is None);
    assert(user_part(s) is None);
    assert(image_division(s) == Some((None::<RegistryPart>, None::<int>)));
}

} // verus!
