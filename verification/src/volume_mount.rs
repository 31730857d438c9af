//! Volumes that are mounted into a container: `[host:]container[:mode]`.

use vstd::prelude::*;
use vstd::string::StringExecFns;
use crate::errors::{InvalidValueError, InvalidValueErrorView};
use crate::merge_override::Duplicate;
use crate::raw_or::{parse_result, InterpolatableValue};
use crate::text::{
    chars_of,
    find_char,
    has_char,
    has_prefix,
    index_of,
    lacks_char,
    lemma_index_of,
    lemma_index_of_concat,
    lemma_span_len,
    scan_class,
    span_len,
    starts_with,
    string_of_range,
    CharClass,
};
use crate::volume_modes::{lemma_mode_text_lacks_colon, VolumeModes};

verus! {

/// Where the volume that is mapped into a container is found.
#[derive(Debug, Clone, PartialEq, Eq)]
pub enum HostVolume {
    /// A path on the host.  It may be relative or absolute.
    Path(String),
    /// A path relative to the home directory of the current user on the
    /// host.  It must be a relative path.
    UserRelativePath(String),
    /// A volume named in the top-level `volumes` section.
    Name(String),
}

/// A [`HostVolume`], as plain values.
pub enum HostVolumeView {
    Path(Seq<char>),
    UserRelativePath(Seq<char>),
    Name(Seq<char>),
}

impl DeepView for HostVolume {
    type V = HostVolumeView;

    open spec fn deep_view(&self) -> HostVolumeView {
        match self {
            HostVolume::Path(p) => HostVolumeView::Path(p@),
            HostVolume::UserRelativePath(p) => HostVolumeView::UserRelativePath(p@),
            HostVolume::Name(n) => HostVolumeView::Name(n@),
        }
    }
}

/// A host path as Docker writes it.  Paths are kept as they are written.
pub fn path_str_to_docker(s: &str) -> (r: String)
    ensures
        r@ == s@,
{
    s.to_owned()
}

/// A host path as it was written for Docker.  Paths are kept as they are
/// written, so this cannot fail.
pub fn path_str_from_docker(s: &str) -> (r: Result<String, InvalidValueError>)
    ensures
        r is Ok,
        r->Ok_0@ == s@,
{
    Ok(s.to_owned())
}

/// Is `path` absolute?  It starts with a slash.
pub open spec fn is_absolute(path: Seq<char>) -> bool {
    path.len() > 0 && path[0] == '/'
}

/// Does `s` start like a path: with a slash, after two dots at most?
pub open spec fn starts_like_path(s: Seq<char>) -> bool {
    is_absolute(s) || has_prefix(s, seq!['.', '/']) || has_prefix(s, seq!['.', '.', '/'])
}

/// Where the line that holds the index `from` ends: at the first line
/// break at or after `from`, or at the end of `s`.
pub open spec fn line_end(s: Seq<char>, from: int) -> int {
    from + span_len(s.skip(from), CharClass::NotLineBreak)
}

/// May `c` start the name of a volume?
pub open spec fn starts_name(c: char) -> bool {
    c != '.' && c != '/' && c != '~'
}

/// The host volume that is found at the index `at` of `s`, if one is: a
/// path at the start of `s`, up to the end of its line; after `~/`, a path
/// in the home directory, up to the end of its line; or a name, which must
/// reach the end of `s` on one line.
pub open spec fn host_volume_at(s: Seq<char>, at: int) -> Option<HostVolumeView> {
    if at == 0 && starts_like_path(s) {
        Some(HostVolumeView::Path(s.take(line_end(s, index_of(s, '/') + 1))))
    } else if at + 2 < s.len() && s[at] == '~' && s[at + 1] == '/' && s[at + 2] != '\n' {
        Some(HostVolumeView::UserRelativePath(s.subrange(at + 2, line_end(s, at + 2))))
    } else if 0 <= at < s.len() && starts_name(s[at]) && line_end(s, at + 1) == s.len() {
        Some(HostVolumeView::Name(s.skip(at)))
    } else {
        None
    }
}

/// The first host volume that is found in `s` at the index `from` or after
/// it.  What stands before it is passed over.
pub open spec fn host_volume_from(s: Seq<char>, from: int) -> Option<HostVolumeView>
    decreases s.len() - from,
{
    if from < 0 || from >= s.len() {
        None
    } else if host_volume_at(s, from) is Some {
        host_volume_at(s, from)
    } else {
        host_volume_from(s, from + 1)
    }
}

/// Read the host volume that stands at the index `at` of `chars`.
fn read_host_volume_at(chars: &Vec<char>, at: usize) -> (r: Option<HostVolume>)
    requires
        at < chars.len(),
    ensures
        match host_volume_at(chars@, at as int) {
            Some(v) => r is Some && r->0.deep_view() == v,
            None => r is None,
        },
{
    let n = chars.len();
    proof {
        reveal_strlit("./");
        reveal_strlit("../");
        assert("./"@ =~= seq!['.', '/']);
        assert("../"@ =~= seq!['.', '.', '/']);
        assert(chars@.skip(0) == chars@);
        assert(chars@.subrange(0, n as int) == chars@);
    }
    if at == 0 && (chars[0] == '/' || starts_with(chars, 0, "./") || starts_with(chars, 0, "../")) {
        let slash = find_char(chars, 0, n, '/');
        proof {
            lemma_index_of(chars@, '/');
            if chars@[0] != '/' {
                if has_prefix(chars@, seq!['.', '/']) {
                    assert(chars@.take(2)[1] == '/');
                    assert(chars@[1] == '/');
                } else {
                    assert(chars@.take(3)[2] == '/');
                    assert(chars@[2] == '/');
                }
            }
        }
        let end = scan_class(chars, slash + 1, CharClass::NotLineBreak);
        proof {
            assert(chars@.take(end as int) == chars@.subrange(0, end as int));
        }
        return Some(HostVolume::Path(string_of_range(chars, 0, end)));
    }
    if n - at > 2 && chars[at] == '~' && chars[at + 1] == '/' && chars[at + 2] != '\n' {
        let end = scan_class(chars, at + 2, CharClass::NotLineBreak);
        return Some(HostVolume::UserRelativePath(string_of_range(chars, at + 2, end)));
    }
    let c = chars[at];
    if c != '.' && c != '/' && c != '~' {
        let end = scan_class(chars, at + 1, CharClass::NotLineBreak);
        if end == n {
            proof {
                assert(chars@.skip(at as int) == chars@.subrange(at as int, n as int));
            }
            return Some(HostVolume::Name(string_of_range(chars, at, n)));
        }
    }
    None
}

impl HostVolume {
    /// Parse a host volume.
    ///
    /// A text that starts with a slash, after two dots at most, is a path.
    /// What follows `~/` is a path in the home directory.  Anything else
    /// that does not start with a dot, a slash or a tilde is the name of a
    /// volume.  A text is searched for the first place at which one of
    /// these is found.
    pub fn from_str(s: &str) -> (r: Result<HostVolume, InvalidValueError>)
        ensures
            parse_result(r) == Self::parse_model(s@),
    {
        let chars = chars_of(s);
        let mut at: usize = 0;
        while at < chars.len()
            invariant
                0 <= at <= chars.len(),
                chars@ == s@,
                host_volume_from(s@, 0) == host_volume_from(s@, at as int),
            decreases chars.len() - at,
        {
            match read_host_volume_at(&chars, at) {
                Some(v) => {
                    return Ok(v);
                },
                None => {},
            }
            at += 1;
        }
        Err(InvalidValueError::new("host volume", s))
    }

    /// The text of this host volume.  A path that starts with neither a
    /// slash nor `./` nor `../` is written after `./`, and a path in the
    /// home directory after `~/`.
    pub fn to_string(&self) -> (r: String)
        requires
            self.deep_view() matches HostVolumeView::UserRelativePath(p) ==> !is_absolute(p),
        ensures
            r@ == Self::formatted(self.deep_view()),
    {
        proof {
            reveal_strlit("./");
            reveal_strlit("../");
            reveal_strlit("~/");
            assert("./"@ =~= seq!['.', '/']);
            assert("../"@ =~= seq!['.', '.', '/']);
            assert("~/"@ =~= seq!['~', '/']);
        }
        match self {
            HostVolume::Path(path) => {
                let p = path_str_to_docker(path.as_str());
                let chars = chars_of(p.as_str());
                proof {
                    assert(chars@.skip(0) == chars@);
                }
                if (chars.len() > 0 && chars[0] == '/') || starts_with(&chars, 0, "./")
                    || starts_with(&chars, 0, "../") {
                    p
                } else {
                    let mut out = String::from_str("./");
                    out.append(p.as_str());
                    out
                }
            },
            HostVolume::UserRelativePath(path) => {
                let mut out = String::from_str("~/");
                out.append(path.as_str());
                out
            },
            HostVolume::Name(name) => name.clone(),
        }
    }

    /// A copy of this host volume.
    pub fn duplicate(&self) -> (r: HostVolume)
        ensures
            r.deep_view() == self.deep_view(),
    {
        match self {
            HostVolume::Path(p) => HostVolume::Path(p.clone()),
            HostVolume::UserRelativePath(p) => HostVolume::UserRelativePath(p.clone()),
            HostVolume::Name(n) => HostVolume::Name(n.clone()),
        }
    }

    /// What [`HostVolume::from_str`] makes of `s`.
    pub open spec fn parse_model(s: Seq<char>) -> Result<HostVolumeView, InvalidValueErrorView> {
        match host_volume_from(s, 0) {
            Some(v) => Ok(v),
            None => Err(InvalidValueErrorView { wanted: "host volume"@, input: s }),
        }
    }

    /// The text of a host volume.
    pub open spec fn formatted(v: HostVolumeView) -> Seq<char> {
        match v {
            HostVolumeView::Path(p) => if starts_like_path(p) {
                p
            } else {
                seq!['.', '/'] + p
            },
            HostVolumeView::UserRelativePath(p) => seq!['~', '/'] + p,
            HostVolumeView::Name(n) => n,
        }
    }

    /// The host volumes that are read back from their text as they are: a
    /// path that starts like one, a path in the home directory that is
    /// not empty, and a name that does not start like a path.  None holds
    /// a line break.
    pub open spec fn valid(v: HostVolumeView) -> bool {
        match v {
            HostVolumeView::Path(p) => starts_like_path(p) && !has_char(p, '\n'),
            HostVolumeView::UserRelativePath(p) => p.len() > 0 && !is_absolute(p) && !has_char(
                p,
                '\n',
            ),
            HostVolumeView::Name(n) => n.len() > 0 && starts_name(n[0]) && !has_char(n, '\n'),
        }
    }

    /// The text of a valid host volume reads back as that host volume.
    pub proof fn lemma_parse_formatted(v: HostVolumeView)
        requires
            Self::valid(v),
        ensures
            Self::parse_model(Self::formatted(v)) == Ok::<_, InvalidValueErrorView>(v),
    {
        let s = Self::formatted(v);
        match v {
            HostVolumeView::Path(p) => {
                lemma_index_of(p, '/');
                lemma_one_line(p, index_of(p, '/') + 1);
                assert(p.take(p.len() as int) == p);
            },
            HostVolumeView::UserRelativePath(p) => {
                assert(s.skip(2) == p);
                assert(s[0] == '~' && s[1] == '/');
                lemma_one_line(s, 2);
                lemma_index_of(p, '\n');
                assert(s[2] == p[0]);
                assert(!starts_like_path(s)) by {
                    if has_prefix(s, seq!['.', '/']) {
                        assert(s.take(2)[0] == '.');
                    }
                    if has_prefix(s, seq!['.', '.', '/']) {
                        assert(s.take(3)[0] == '.');
                    }
                }
                assert(s.subrange(2, s.len() as int) == p);
                lemma_lacks_line_break(s, p);
            },
            HostVolumeView::Name(n) => {
                assert(!starts_like_path(n)) by {
                    if has_prefix(n, seq!['.', '/']) {
                        assert(n.take(2)[0] == '.');
                    }
                    if has_prefix(n, seq!['.', '.', '/']) {
                        assert(n.take(3)[0] == '.');
                    }
                }
                lemma_one_line(n, 1);
                assert(n.skip(0) == n);
            },
        }
    }
}

/// A text of one line reaches its end from every index.
proof fn lemma_one_line(s: Seq<char>, from: int)
    requires
        0 <= from <= s.len(),
        !has_char(s.skip(from), '\n') || !has_char(s, '\n'),
    ensures
        line_end(s, from) == s.len(),
{
    let t = s.skip(from);
    lemma_span_len(t, CharClass::NotLineBreak);
    lemma_index_of(t, '\n');
    lemma_index_of(s, '\n');
    let k = span_len(t, CharClass::NotLineBreak) as int;
    if k < t.len() {
        assert(t[k] == '\n');
        assert(s[from + k] == '\n');
    }
}

/// What follows `~/` holds no line break if the whole does not, and the
/// other way round.
proof fn lemma_lacks_line_break(s: Seq<char>, p: Seq<char>)
    requires
        s == seq!['~', '/'] + p,
        !has_char(p, '\n'),
    ensures
        !has_char(s, '\n'),
{
    lemma_index_of(s, '\n');
    lemma_index_of(p, '\n');
    if has_char(s, '\n') {
        let i = choose|i: int| 0 <= i < s.len() && #[trigger] s[i] == '\n';
        assert(p[i - 2] == '\n');
    }
}

/// A volume that is mounted into a container.
#[derive(Debug, Clone, PartialEq, Eq)]
pub struct VolumeMount {
    /// Where the volume is found, if it comes from outside the container.
    pub host: Option<HostVolume>,
    /// Where the volume is mounted in the container.  This must be an
    /// absolute path.
    pub container: String,
    /// The mode in which the volume is mounted.
    pub mode: VolumeModes,
}

/// A [`VolumeMount`], as plain values.
pub struct VolumeMountView {
    pub host: Option<HostVolumeView>,
    pub container: Seq<char>,
    pub mode: VolumeModes,
}

impl DeepView for VolumeMount {
    type V = VolumeMountView;

    open spec fn deep_view(&self) -> VolumeMountView {
        VolumeMountView {
            host: match self.host {
                Some(h) => Some(h.deep_view()),
                None => None,
            },
            container: self.container@,
            mode: self.mode,
        }
    }
}

impl VolumeMount {
    /// Map the host path `host` to the container path `container`.
    pub fn host(host: &str, container: &str) -> (r: VolumeMount)
        ensures
            r.deep_view() == (VolumeMountView {
                host: Some(HostVolumeView::Path(host@)),
                container: container@,
                mode: VolumeModes::ReadWrite,
            }),
    {
        VolumeMount {
            host: Some(HostVolume::Path(host.to_owned())),
            container: container.to_owned(),
            mode: VolumeModes::ReadWrite,
        }
    }

    /// Map the named volume `name` to the container path `container`.
    pub fn named(name: &str, container: &str) -> (r: VolumeMount)
        ensures
            r.deep_view() == (VolumeMountView {
                host: Some(HostVolumeView::Name(name@)),
                container: container@,
                mode: VolumeModes::ReadWrite,
            }),
    {
        VolumeMount {
            host: Some(HostVolume::Name(name.to_owned())),
            container: container.to_owned(),
            mode: VolumeModes::ReadWrite,
        }
    }

    /// An anonymous persistent volume at the container path `container`,
    /// which stays with its service when the service is made anew.
    pub fn anonymous(container: &str) -> (r: VolumeMount)
        ensures
            r.deep_view() == (VolumeMountView {
                host: None,
                container: container@,
                mode: VolumeModes::ReadWrite,
            }),
    {
        VolumeMount { host: None, container: container.to_owned(), mode: VolumeModes::ReadWrite }
    }

    /// Parse `container`, `host:container` or `host:container:mode`.
    pub fn from_str(s: &str) -> (r: Result<VolumeMount, InvalidValueError>)
        ensures
            parse_result(r) == Self::parse_model(s@),
    {
        let chars = chars_of(s);
        let n = chars.len();
        let first = find_char(&chars, 0, n, ':');
        proof {
            assert(chars@.subrange(0, n as int) == chars@);
        }
        if first == n {
            return Ok(
                VolumeMount { host: None, container: s.to_owned(), mode: VolumeModes::ReadWrite },
            );
        }
        let ghost rest = s@.skip(first + 1);
        let second = find_char(&chars, first + 1, n, ':');
        proof {
            assert(chars@.subrange(first + 1, n as int) == rest);
            assert(chars@.subrange(0, first as int) == s@.take(first as int));
            assert(chars@.subrange(first + 1, second as int) == rest.take(second - first - 1));
        }
        let host_text = string_of_range(&chars, 0, first);
        if second == n {
            return match HostVolume::from_str(host_text.as_str()) {
                Ok(host) => Ok(
                    VolumeMount {
                        host: Some(host),
                        container: string_of_range(&chars, first + 1, n),
                        mode: VolumeModes::ReadWrite,
                    },
                ),
                Err(e) => Err(e),
            };
        }
        let third = find_char(&chars, second + 1, n, ':');
        proof {
            assert(chars@.subrange(second + 1, n as int) == rest.skip(second - first));
        }
        if third < n {
            return Err(InvalidValueError::new("volume", s));
        }
        let host = match HostVolume::from_str(host_text.as_str()) {
            Ok(host) => host,
            Err(e) => {
                return Err(e);
            },
        };
        let mode_text = string_of_range(&chars, second + 1, n);
        match VolumeModes::from_str(mode_text.as_str()) {
            Ok(mode) => Ok(
                VolumeMount {
                    host: Some(host),
                    container: string_of_range(&chars, first + 1, second),
                    mode,
                },
            ),
            Err(e) => Err(e),
        }
    }

    /// The text of this mount.  A volume that does not come from outside
    /// the container cannot be written with a mode.
    pub fn to_string(&self) -> (r: String)
        requires
            self.host is None ==> self.mode == VolumeModes::ReadWrite,
            self.deep_view().host matches Some(HostVolumeView::UserRelativePath(p)) ==> !is_absolute(
                p,
            ),
        ensures
            r@ == Self::formatted(self.deep_view()),
    {
        let mut out = String::new();
        if let Some(host) = &self.host {
            let text = host.to_string();
            out.append(text.as_str());
            out.push(':');
        }
        out.append(self.container.as_str());
        if !self.mode.is_default() {
            out.push(':');
            let text = self.mode.to_string();
            out.append(text.as_str());
        }
        proof {
            assert(out@ =~= Self::formatted(self.deep_view()));
        }
        out
    }
}

impl Duplicate for VolumeMount {
    fn duplicate(&self) -> (r: VolumeMount) {
        VolumeMount {
            host: match &self.host {
                Some(h) => Some(h.duplicate()),
                None => None,
            },
            container: self.container.clone(),
            mode: self.mode,
        }
    }
}

impl HostVolume {
    /// Is this a valid host volume?  See [`HostVolume::valid`].
    pub fn is_valid(&self) -> (r: bool)
        ensures
            r == Self::valid(self.deep_view()),
    {
        match self {
            HostVolume::Path(path) => {
                let chars = chars_of(path.as_str());
                proof {
                    reveal_strlit("./");
                    reveal_strlit("../");
                    assert("./"@ =~= seq!['.', '/']);
                    assert("../"@ =~= seq!['.', '.', '/']);
                    assert(chars@.skip(0) == chars@);
                }
                ((chars.len() > 0 && chars[0] == '/') || starts_with(&chars, 0, "./")
                    || starts_with(&chars, 0, "../")) && lacks_char(path.as_str(), '\n')
            },
            HostVolume::UserRelativePath(path) => {
                let chars = chars_of(path.as_str());
                chars.len() > 0 && chars[0] != '/' && lacks_char(path.as_str(), '\n')
            },
            HostVolume::Name(name) => {
                let chars = chars_of(name.as_str());
                chars.len() > 0 && chars[0] != '.' && chars[0] != '/' && chars[0] != '~'
                    && lacks_char(name.as_str(), '\n')
            },
        }
    }
}

impl InterpolatableValue for VolumeMount {
    open spec fn valid(v: VolumeMountView) -> bool {
        &&& !has_char(v.container, ':')
        &&& v.host is None ==> v.mode == VolumeModes::ReadWrite
        &&& v.host matches Some(h) ==> HostVolume::valid(h) && !has_char(
            HostVolume::formatted(h),
            ':',
        )
    }

    open spec fn parse_model(s: Seq<char>) -> Result<VolumeMountView, InvalidValueErrorView> {
        let first = index_of(s, ':');
        let rest = s.skip(first + 1);
        let second = index_of(rest, ':');
        let host = HostVolume::parse_model(s.take(first));
        let mode = VolumeModes::parse_model(rest.skip(second + 1));
        if first == s.len() {
            Ok(VolumeMountView { host: None, container: s, mode: VolumeModes::ReadWrite })
        } else if second == rest.len() {
            match host {
                Ok(h) => Ok(
                    VolumeMountView { host: Some(h), container: rest, mode: VolumeModes::ReadWrite },
                ),
                Err(e) => Err(e),
            }
        } else if has_char(rest.skip(second + 1), ':') {
            Err(InvalidValueErrorView { wanted: "volume"@, input: s })
        } else {
            match (host, mode) {
                (Err(e), _) => Err(e),
                (Ok(_), Err(e)) => Err(e),
                (Ok(h), Ok(m)) => Ok(
                    VolumeMountView { host: Some(h), container: rest.take(second), mode: m },
                ),
            }
        }
    }

    open spec fn formatted(v: VolumeMountView) -> Seq<char> {
        (match v.host {
            Some(h) => HostVolume::formatted(h) + seq![':'],
            None => Seq::empty(),
        }) + v.container + if v.mode == VolumeModes::ReadWrite {
            Seq::empty()
        } else {
            seq![':'] + VolumeModes::formatted(v.mode)
        }
    }

    proof fn lemma_parse_formatted(v: VolumeMountView) {
        let s = Self::formatted(v);
        let colon = seq![':'];
        lemma_index_of(v.container, ':');
        match v.host {
            None => {
                assert(s == v.container);
            },
            Some(h) => {
                let host = HostVolume::formatted(h);
                HostVolume::lemma_parse_formatted(h);
                let rest: Seq<char> = v.container + if v.mode == VolumeModes::ReadWrite {
                    Seq::empty()
                } else {
                    colon + VolumeModes::formatted(v.mode)
                };
                assert(s =~= host + (colon + rest));
                lemma_first_colon(host, rest);
                if v.mode == VolumeModes::ReadWrite {
                    assert(rest == v.container);
                } else {
                    let mode = VolumeModes::formatted(v.mode);
                    lemma_mode_text_lacks_colon(v.mode);
                    assert(rest =~= v.container + (colon + mode));
                    lemma_first_colon(v.container, mode);
                    VolumeModes::lemma_parse_formatted(v.mode);
                }
            },
        }
    }

    fn iv_from_str(s: &str) -> (r: Result<VolumeMount, InvalidValueError>) {
        VolumeMount::from_str(s)
    }

    fn fmt_iv(&self) -> (r: String) {
        self.to_string()
    }

    fn is_valid(&self) -> (r: bool) {
        if !lacks_char(self.container.as_str(), ':') {
            return false;
        }
        match &self.host {
            None => self.mode.is_default(),
            Some(host) => {
                if !host.is_valid() {
                    return false;
                }
                let text = host.to_string();
                lacks_char(text.as_str(), ':')
            },
        }
    }
}

/// Where `a` holds no colon, the first colon of `a:b` stands between the
/// two.
pub proof fn lemma_first_colon(a: Seq<char>, b: Seq<char>)
    requires
        !has_char(a, ':'),
    ensures
        index_of(a + (seq![':'] + b), ':') == a.len(),
        (a + (seq![':'] + b)).take(a.len() as int) == a,
        (a + (seq![':'] + b)).skip(a.len() as int + 1) == b,
        a.len() < (a + (seq![':'] + b)).len(),
{
    let tail = seq![':'] + b;
    assert(tail[0] == ':');
    assert(index_of(tail, ':') == 0);
    lemma_index_of_concat(a, tail, ':');
}

} // verus!
