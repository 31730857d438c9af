//! Git-format "URLs", which Docker takes as the source of a build.

use vstd::prelude::*;
use vstd::string::{StrSliceExecFns, StringExecFns};
use crate::errors::{Error, ErrorView};
use crate::text::{
    chars_of,
    find_char,
    has_char,
    has_prefix,
    index_of,
    lemma_index_of,
    lemma_index_of_concat,
    scan_class,
    span_len,
    starts_with,
    string_of_range,
    CharClass,
};

verus! {

/// Would Docker take `s` for the URL of a Git repository?  It starts with
/// one of `http://`, `https://`, `git://`, `github.com/` and `git@`.
pub open spec fn is_git_url(s: Seq<char>) -> bool {
    has_prefix(s, "http://"@) || has_prefix(s, "https://"@) || has_prefix(s, "git://"@)
        || has_prefix(s, "github.com/"@) || has_prefix(s, "git@"@)
}

/// The parts of a Git URL.
pub struct GitParts {
    /// The repository: what stands before the first `#`.
    pub repository: Seq<char>,
    /// The branch: what stands between the `#` and the first colon after
    /// it, if that is anything.
    pub branch: Option<Seq<char>>,
    /// The subdirectory: what stands after that colon.
    pub subdirectory: Option<Seq<char>>,
}

/// The parts that `s` divides into, if it does: `repository`,
/// `repository#branch`, `repository#:subdirectory` or
/// `repository#branch:subdirectory`.  The repository is not empty, and a
/// subdirectory is one line that is not empty.
pub open spec fn git_parts(s: Seq<char>) -> Option<GitParts> {
    let hash = index_of(s, '#');
    let repository = s.take(hash);
    let rest = s.skip(hash + 1);
    let colon = index_of(rest, ':');
    let branch = if colon > 0 {
        Some(rest.take(colon))
    } else {
        None
    };
    let subdirectory = rest.skip(colon + 1);
    if repository.len() == 0 {
        None
    } else if hash == s.len() {
        Some(GitParts { repository, branch: None, subdirectory: None })
    } else if colon == rest.len() {
        Some(GitParts { repository, branch, subdirectory: None })
    } else if subdirectory.len() > 0 && !has_char(subdirectory, '\n') {
        Some(GitParts { repository, branch, subdirectory: Some(subdirectory) })
    } else {
        None
    }
}

/// The name for what the `url` crate's parser makes of `input`: the
/// serialization of the URL that it parses to, if it parses to one.
pub uninterp spec fn parsed_url(input: Seq<char>) -> Option<Seq<char>>;

/// `url::Url::parse`, followed by the conversion of the URL into the string
/// that it holds.  The parser is given no base URL and no options, so that
/// what it yields depends on `input` alone; the contract gives that result
/// its name and claims nothing else of it.
#[verifier::external_body]
fn parse_url(input: &str) -> (r: Option<String>)
    ensures
        r is Some <==> parsed_url(input@) is Some,
        r is Some ==> r->0@ == parsed_url(input@)->0,
{
    match url::Url::parse(input) {
        Ok(parsed) => Some(String::from(parsed)),
        Err(_) => None,
    }
}

/// The real URL that stands for a Git URL which is no URL by itself.
///
/// `git@HOST:PATH` at the start of `s` stands for `git://git@HOST/PATH`,
/// where the path ends with its line.  Failing that, the first
/// `github.com/` in `s`, with the rest of its line, stands for the same
/// after `https://`.
pub open spec fn real_url(s: Seq<char>) -> Option<Seq<char>> {
    let host_from = "git@"@.len() as int;
    let colon = host_from + index_of(s.skip(host_from), ':');
    let path_end = colon + 1 + span_len(s.skip(colon + 1), CharClass::NotLineBreak);
    if has_prefix(s, "git@"@) && host_from < colon < s.len() {
        Some("git://git@"@ + s.subrange(host_from, colon) + "/"@ + s.subrange(colon + 1, path_end))
    } else {
        github_url(s, 0)
    }
}

/// The URL for the first `github.com/` that is found in `s` at the index
/// `from` or after it.
pub open spec fn github_url(s: Seq<char>, from: int) -> Option<Seq<char>>
    decreases s.len() - from,
{
    if from < 0 || from >= s.len() {
        None
    } else if has_prefix(s.skip(from), "github.com/"@) {
        Some(
            "https://"@ + s.subrange(
                from,
                from + "github.com/"@.len() + span_len(
                    s.skip(from + "github.com/"@.len()),
                    CharClass::NotLineBreak,
                ),
            ),
        )
    } else {
        github_url(s, from + 1)
    }
}

/// What [`GitUrl::to_url`] yields for the Git URL `s`, given what the
/// parser of URLs makes of `s` and of the real URL that stands for it.
pub open spec fn url_outcome(
    s: Seq<char>,
    parsed: Option<Seq<char>>,
    parsed_real: Option<Seq<char>>,
) -> Result<Seq<char>, ErrorView> {
    match parsed {
        Some(url) => Ok(url),
        None => match (real_url(s), parsed_real) {
            (Some(_), Some(url)) => Ok(url),
            _ => Err(ErrorView::ParseGitUrl { url: s }),
        },
    }
}

/// URL of a Git repository.  Git repositories may be specified as either
/// ordinary `http` or `https` URLs, or as `scp`-style remote directory
/// specifiers.
#[derive(Debug, PartialEq, Eq)]
pub struct GitUrl {
    /// The URL, as it was written.
    url: String,
}

impl Clone for GitUrl {
    fn clone(&self) -> (r: Self)
        ensures
            r.deep_view() == self.deep_view(),
    {
        self.duplicate()
    }
}

impl DeepView for GitUrl {
    type V = Seq<char>;

    closed spec fn deep_view(&self) -> Seq<char> {
        self.url@
    }
}

/// The prefixes of Git URLs hold no `#`, so that a Git URL is still one
/// when it is cut off at its first `#` or later, whatever follows then.
proof fn lemma_prefix_survives(s: Seq<char>)
    requires
        is_git_url(s),
    ensures
        forall|k: int, t: Seq<char>|
            index_of(s, '#') <= k <= s.len() ==> is_git_url(#[trigger] (s.take(k) + t)),
        index_of(s, '#') > 0,
{
    reveal_strlit("http://");
    reveal_strlit("https://");
    reveal_strlit("git://");
    reveal_strlit("github.com/");
    reveal_strlit("git@");
    let hash = index_of(s, '#');
    lemma_index_of(s, '#');
    if has_prefix(s, "http://"@) {
        let p = "http://"@;
        assert(p.len() == 7);
        assert forall|i: int| 0 <= i < 7 implies s[i] != '#' by {
            assert(s.take(7)[i] == s[i]);
            if i == 0 {
                assert(p[0] == 'h');
            } else if i == 1 {
                assert(p[1] == 't');
            } else if i == 2 {
                assert(p[2] == 't');
            } else if i == 3 {
                assert(p[3] == 'p');
            } else if i == 4 {
                assert(p[4] == ':');
            } else if i == 5 {
                assert(p[5] == '/');
            } else if i == 6 {
                assert(p[6] == '/');
            }
        }
        if hash < 7 {
            assert(s[hash] == '#');
        }
        assert forall|k: int, t: Seq<char>| hash <= k <= s.len() implies has_prefix(
            #[trigger] (s.take(k) + t),
            p,
        ) by {
            assert((s.take(k) + t).take(7) =~= s.take(7));
        }
    }
    if has_prefix(s, "https://"@) {
        let p = "https://"@;
        assert(p.len() == 8);
        assert forall|i: int| 0 <= i < 8 implies s[i] != '#' by {
            assert(s.take(8)[i] == s[i]);
            if i == 0 {
                assert(p[0] == 'h');
            } else if i == 1 {
                assert(p[1] == 't');
            } else if i == 2 {
                assert(p[2] == 't');
            } else if i == 3 {
                assert(p[3] == 'p');
            } else if i == 4 {
                assert(p[4] == 's');
            } else if i == 5 {
                assert(p[5] == ':');
            } else if i == 6 {
                assert(p[6] == '/');
            } else if i == 7 {
                assert(p[7] == '/');
            }
        }
        if hash < 8 {
            assert(s[hash] == '#');
        }
        assert forall|k: int, t: Seq<char>| hash <= k <= s.len() implies has_prefix(
            #[trigger] (s.take(k) + t),
            p,
        ) by {
            assert((s.take(k) + t).take(8) =~= s.take(8));
        }
    }
    if has_prefix(s, "git://"@) {
        let p = "git://"@;
        assert(p.len() == 6);
        assert forall|i: int| 0 <= i < 6 implies s[i] != '#' by {
            assert(s.take(6)[i] == s[i]);
            if i == 0 {
                assert(p[0] == 'g');
            } else if i == 1 {
                assert(p[1] == 'i');
            } else if i == 2 {
                assert(p[2] == 't');
            } else if i == 3 {
                assert(p[3] == ':');
            } else if i == 4 {
                assert(p[4] == '/');
            } else if i == 5 {
                assert(p[5] == '/');
            }
        }
        if hash < 6 {
            assert(s[hash] == '#');
        }
        assert forall|k: int, t: Seq<char>| hash <= k <= s.len() implies has_prefix(
            #[trigger] (s.take(k) + t),
            p,
        ) by {
            assert((s.take(k) + t).take(6) =~= s.take(6));
        }
    }
    if has_prefix(s, "github.com/"@) {
        let p = "github.com/"@;
        assert(p.len() == 11);
        assert forall|i: int| 0 <= i < 11 implies s[i] != '#' by {
            assert(s.take(11)[i] == s[i]);
            if i == 0 {
                assert(p[0] == 'g');
            } else if i == 1 {
                assert(p[1] == 'i');
            } else if i == 2 {
                assert(p[2] == 't');
            } else if i == 3 {
                assert(p[3] == 'h');
            } else if i == 4 {
                assert(p[4] == 'u');
            } else if i == 5 {
                assert(p[5] == 'b');
            } else if i == 6 {
                assert(p[6] == '.');
            } else if i == 7 {
                assert(p[7] == 'c');
            } else if i == 8 {
                assert(p[8] == 'o');
            } else if i == 9 {
                assert(p[9] == 'm');
            } else if i == 10 {
                assert(p[10] == '/');
            }
        }
        if hash < 11 {
            assert(s[hash] == '#');
        }
        assert forall|k: int, t: Seq<char>| hash <= k <= s.len() implies has_prefix(
            #[trigger] (s.take(k) + t),
            p,
        ) by {
            assert((s.take(k) + t).take(11) =~= s.take(11));
        }
    }
    if has_prefix(s, "git@"@) {
        let p = "git@"@;
        assert(p.len() == 4);
        assert forall|i: int| 0 <= i < 4 implies s[i] != '#' by {
            assert(s.take(4)[i] == s[i]);
            if i == 0 {
                assert(p[0] == 'g');
            } else if i == 1 {
                assert(p[1] == 'i');
            } else if i == 2 {
                assert(p[2] == 't');
            } else if i == 3 {
                assert(p[3] == '@');
            }
        }
        if hash < 4 {
            assert(s[hash] == '#');
        }
        assert forall|k: int, t: Seq<char>| hash <= k <= s.len() implies has_prefix(
            #[trigger] (s.take(k) + t),
            p,
        ) by {
            assert((s.take(k) + t).take(4) =~= s.take(4));
        }
    }
}

/// The half-open range of indices in which a part of a URL lies.
struct Part {
    from: usize,
    to: usize,
}

/// Where the parts of a Git URL lie.
struct PartsAt {
    repository_end: usize,
    branch: Option<Part>,
    subdirectory: Option<Part>,
}

/// Divide `chars` into the parts of a Git URL.
fn read_parts(chars: &Vec<char>) -> (r: Option<PartsAt>)
    ensures
        match git_parts(chars@) {
            None => r is None,
            Some(parts) => r matches Some(at) && at.repository_end <= chars.len() && chars@.take(
                at.repository_end as int,
            ) == parts.repository && at.repository_end == index_of(chars@, '#') && match (
                parts.branch,
                at.branch,
            ) {
                (None, None) => true,
                (Some(b), Some(p)) => p.from <= p.to <= chars.len() && chars@.subrange(
                    p.from as int,
                    p.to as int,
                ) == b,
                _ => false,
            } && match (parts.subdirectory, at.subdirectory) {
                (None, None) => true,
                (Some(d), Some(p)) => p.from <= p.to <= chars.len() && chars@.subrange(
                    p.from as int,
                    p.to as int,
                ) == d,
                _ => false,
            },
        },
{
    let n = chars.len();
    let hash = find_char(chars, 0, n, '#');
    proof {
        assert(chars@.subrange(0, n as int) == chars@);
    }
    if hash == 0 {
        return None;
    }
    if hash == n {
        proof {
            assert(chars@.take(n as int) == chars@);
        }
        return Some(PartsAt { repository_end: n, branch: None, subdirectory: None });
    }
    let ghost rest = chars@.skip(hash + 1);
    let colon = find_char(chars, hash + 1, n, ':');
    proof {
        assert(chars@.subrange(hash + 1, n as int) == rest);
        assert(chars@.subrange(hash + 1, colon as int) == rest.take(colon - hash - 1));
    }
    let branch = if colon > hash + 1 {
        Some(Part { from: hash + 1, to: colon })
    } else {
        None
    };
    if colon == n {
        return Some(PartsAt { repository_end: hash, branch, subdirectory: None });
    }
    let end = find_char(chars, colon + 1, n, '\n');
    proof {
        assert(chars@.subrange(colon + 1, n as int) == rest.skip(colon - hash));
    }
    if colon + 1 == n || end < n {
        return None;
    }
    Some(
        PartsAt {
            repository_end: hash,
            branch,
            subdirectory: Some(Part { from: colon + 1, to: n }),
        },
    )
}

impl GitUrl {
    #[verifier::type_invariant]
    spec fn well_formed(&self) -> bool {
        is_git_url(self.url@) && git_parts(self.url@) is Some
    }

    /// Would Docker take `s` for the URL of a Git repository?  The list of
    /// prefixes that it goes by is that of [`is_git_url`].
    pub fn should_treat_as_url(s: &str) -> (r: bool)
        ensures
            r == is_git_url(s@),
    {
        let chars = chars_of(s);
        proof {
            assert(chars@.skip(0) == chars@);
        }
        starts_with(&chars, 0, "http://") || starts_with(&chars, 0, "https://") || starts_with(
            &chars,
            0,
            "git://",
        ) || starts_with(&chars, 0, "github.com/") || starts_with(&chars, 0, "git@")
    }

    /// Make a `GitUrl` from a string that Docker would take for one, and
    /// that divides into a repository, a branch and a subdirectory.
    pub fn new(url: &str) -> (r: Result<GitUrl, Error>)
        ensures
            r is Ok <==> is_git_url(url@) && git_parts(url@) is Some,
            r is Ok ==> r->Ok_0.deep_view() == url@,
            r is Err ==> r->Err_0.deep_view() == (ErrorView::ParseGitUrl { url: url@ }),
    {
        if !GitUrl::should_treat_as_url(url) {
            return Err(Error::ParseGitUrl { url: url.to_owned() });
        }
        let chars = chars_of(url);
        match read_parts(&chars) {
            Some(_) => Ok(GitUrl { url: url.to_owned() }),
            None => Err(Error::ParseGitUrl { url: url.to_owned() }),
        }
    }

    /// The URL as it was written.
    pub fn as_str(&self) -> (r: &str)
        ensures
            r@ == self.deep_view(),
    {
        self.url.as_str()
    }

    /// The URL as it was written.
    pub fn to_string(&self) -> (r: String)
        ensures
            r@ == self.deep_view(),
    {
        self.url.clone()
    }

    /// A copy of this URL.
    pub fn duplicate(&self) -> (r: GitUrl)
        ensures
            r.deep_view() == self.deep_view(),
    {
        proof {
            use_type_invariant(self);
        }
        GitUrl { url: self.url.clone() }
    }

    /// What holds of every `GitUrl`: Docker takes it for one, and it
    /// divides into its parts.
    pub fn check(&self)
        ensures
            is_git_url(self.deep_view()),
            git_parts(self.deep_view()) is Some,
    {
        proof {
            use_type_invariant(self);
        }
    }

    /// The real URL that stands for this one, where this one is no URL by
    /// itself: see [`real_url`].
    pub fn real_url(&self) -> (r: Option<String>)
        ensures
            r is Some <==> real_url(self.deep_view()) is Some,
            r is Some ==> r->0@ == real_url(self.deep_view())->0,
    {
        let chars = chars_of(self.url.as_str());
        let n = chars.len();
        proof {
            reveal_strlit("git@");
            reveal_strlit("github.com/");
            assert(chars@.skip(0) == chars@);
        }
        if starts_with(&chars, 0, "git@") {
            let colon = find_char(&chars, 4, n, ':');
            proof {
                assert(chars@.subrange(4, n as int) == chars@.skip(4));
            }
            if 4 < colon && colon < n {
                let path_end = scan_class(&chars, colon + 1, CharClass::NotLineBreak);
                let mut out = String::from_str("git://git@");
                let host = string_of_range(&chars, 4, colon);
                out.append(host.as_str());
                out.append("/");
                let path = string_of_range(&chars, colon + 1, path_end);
                out.append(path.as_str());
                return Some(out);
            }
        }
        let mut from: usize = 0;
        while from < n
            invariant
                0 <= from <= n,
                n == chars.len(),
                chars@ == self.url@,
                real_url(chars@) == github_url(chars@, 0),
                github_url(chars@, 0) == github_url(chars@, from as int),
            decreases n - from,
        {
            if starts_with(&chars, from, "github.com/") {
                proof {
                    reveal_strlit("github.com/");
                }
                let end = scan_class(&chars, from + 11, CharClass::NotLineBreak);
                let mut out = String::from_str("https://");
                let rest = string_of_range(&chars, from, end);
                out.append(rest.as_str());
                return Some(out);
            }
            from += 1;
        }
        None
    }

    /// Convert this into a regular URL, in the serialization that the
    /// parser of URLs gives it.  Where this is no URL by itself, the real
    /// URL that stands for it is parsed in its place.
    pub fn to_url(&self) -> (r: Result<String, Error>)
        ensures
            match r {
                Ok(url) => Ok::<_, ErrorView>(url@),
                Err(e) => Err(e.deep_view()),
            } == url_outcome(
                self.deep_view(),
                parsed_url(self.deep_view()),
                match real_url(self.deep_view()) {
                    Some(stand_in) => parsed_url(stand_in),
                    None => None,
                },
            ),
    {
        let parsed = parse_url(self.url.as_str());
        let parsed_real = match self.real_url() {
            Some(stand_in) => parse_url(stand_in.as_str()),
            None => None,
        };
        self.url_from(parsed, parsed_real)
    }

    /// What [`GitUrl::to_url`] yields, given what the parser of URLs made
    /// of this URL (`parsed`) and of the real URL that stands for it
    /// (`parsed_real`).
    pub fn url_from(&self, parsed: Option<String>, parsed_real: Option<String>) -> (r: Result<
        String,
        Error,
    >)
        ensures
            match r {
                Ok(url) => Ok::<_, ErrorView>(url@),
                Err(e) => Err(e.deep_view()),
            } == url_outcome(
                self.deep_view(),
                match parsed {
                    Some(u) => Some(u@),
                    None => None,
                },
                match parsed_real {
                    Some(u) => Some(u@),
                    None => None,
                },
            ),
    {
        match parsed {
            Some(url) => Ok(url),
            None => {
                let stand_in = self.real_url();
                match (stand_in, parsed_real) {
                    (Some(_), Some(url)) => Ok(url),
                    _ => Err(Error::ParseGitUrl { url: self.url.clone() }),
                }
            },
        }
    }

    /// The repository part of the URL.
    pub fn repository(&self) -> (r: &str)
        ensures
            r@ == git_parts(self.deep_view())->0.repository,
    {
        proof {
            use_type_invariant(self);
        }
        let chars = chars_of(self.url.as_str());
        match read_parts(&chars) {
            Some(at) => self.url.as_str().substring_char(0, at.repository_end),
            None => self.url.as_str(),
        }
    }

    /// The optional branch part of the URL.
    pub fn branch(&self) -> (r: Option<&str>)
        ensures
            match (r, git_parts(self.deep_view())->0.branch) {
                (Some(b), Some(branch)) => b@ == branch,
                (None, None) => true,
                _ => false,
            },
    {
        proof {
            use_type_invariant(self);
        }
        let chars = chars_of(self.url.as_str());
        match read_parts(&chars) {
            Some(PartsAt { branch: Some(p), .. }) => Some(
                self.url.as_str().substring_char(p.from, p.to),
            ),
            _ => None,
        }
    }

    /// The optional subdirectory part of the URL.
    pub fn subdirectory(&self) -> (r: Option<&str>)
        ensures
            match (r, git_parts(self.deep_view())->0.subdirectory) {
                (Some(d), Some(subdirectory)) => d@ == subdirectory,
                (None, None) => true,
                _ => false,
            },
    {
        proof {
            use_type_invariant(self);
        }
        let chars = chars_of(self.url.as_str());
        match read_parts(&chars) {
            Some(PartsAt { subdirectory: Some(p), .. }) => Some(
                self.url.as_str().substring_char(p.from, p.to),
            ),
            _ => None,
        }
    }

    /// This URL without its subdirectory part.
    pub fn without_subdirectory(&self) -> (r: GitUrl)
        ensures
            r.deep_view() == without_subdirectory(self.deep_view()),
    {
        proof {
            use_type_invariant(self);
        }
        let chars = chars_of(self.url.as_str());
        let n = chars.len();
        let at = match read_parts(&chars) {
            Some(at) => at,
            None => {
                return self.duplicate();
            },
        };
        let mut url = string_of_range(&chars, 0, at.repository_end);
        proof {
            assert(chars@.subrange(0, at.repository_end as int) == chars@.take(
                at.repository_end as int,
            ));
        }
        if let Some(p) = at.branch {
            url.push('#');
            let branch = string_of_range(&chars, p.from, p.to);
            url.append(branch.as_str());
        }
        proof {
            lemma_without_subdirectory(self.url@);
            assert(url@ =~= without_subdirectory(self.url@));
        }
        GitUrl { url }
    }
}

/// A Git URL without its subdirectory: the repository, and then `#` and
/// the branch if there is one.
pub open spec fn without_subdirectory(s: Seq<char>) -> Seq<char> {
    let parts = git_parts(s)->0;
    match parts.branch {
        Some(branch) => parts.repository + seq!['#'] + branch,
        None => parts.repository,
    }
}

/// A Git URL without its subdirectory is a Git URL.
proof fn lemma_without_subdirectory(s: Seq<char>)
    requires
        is_git_url(s),
        git_parts(s) is Some,
    ensures
        is_git_url(without_subdirectory(s)),
        git_parts(without_subdirectory(s)) is Some,
{
    let parts = git_parts(s)->0;
    let hash = index_of(s, '#');
    let t = without_subdirectory(s);
    lemma_prefix_survives(s);
    lemma_index_of(s, '#');
    let repository = s.take(hash);
    lemma_index_of(repository, '#');
    if has_char(repository, '#') {
        let i = choose|i: int| 0 <= i < repository.len() && #[trigger] repository[i] == '#';
        assert(s[i] == '#');
    }
    match parts.branch {
        Some(branch) => {
            let tail = seq!['#'] + branch;
            assert(t =~= repository + tail);
            assert(tail[0] == '#');
            assert(index_of(tail, '#') == 0);
            lemma_index_of_concat(repository, tail, '#');
            assert(t.take(hash) == repository);
            assert(t.skip(hash + 1) == branch);
            let rest = s.skip(hash + 1);
            lemma_index_of(rest, ':');
            lemma_index_of(branch, ':');
            if has_char(branch, ':') {
                let i = choose|i: int| 0 <= i < branch.len() && #[trigger] branch[i] == ':';
                assert(rest[i] == ':');
            }
        },
        None => {
            assert(t == repository + Seq::<char>::empty());
            assert(t.take(t.len() as int) == t);
        },
    }
}

} // verus!
