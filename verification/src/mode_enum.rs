//! Modes that are written as a word, or as a word and a name with a colon
//! between them: `bridge`, `host`, `service:NAME`, `container:NAME`.

use vstd::prelude::*;
use vstd::string::StringExecFns;
use crate::errors::{InvalidValueError, InvalidValueErrorView};
use crate::merge_override::Duplicate;
use crate::raw_or::{parse_result, InterpolatableValue};
use crate::text::{
    chars_of,
    decimal_text,
    find_char,
    has_char,
    has_prefix,
    index_of,
    is_digit,
    is_empty_text,
    lacks_char,
    lemma_decimal_text,
    lemma_index_of,
    parse_number,
    parsed_number,
    push_decimal,
    same_text,
    starts_with,
    string_of_range,
};

verus! {

/// May `s` follow the colon of a mode?  It is not empty and holds no line
/// break.
pub open spec fn is_mode_argument(s: Seq<char>) -> bool {
    s.len() > 0 && !has_char(s, '\n')
}

/// How the networking of a container is set up.
#[derive(Debug, Clone, PartialEq, Eq)]
pub enum NetworkMode {
    /// Use the standard Docker networking bridge.
    Bridge,
    /// Use the host's network interface directly.
    Host,
    /// Disable networking in the container.
    NoNetwork,
    /// Use the networking namespace of the named service.
    Service(String),
    /// Use the networking namespace of the named container.
    Container(String),
}

/// A [`NetworkMode`], as plain values.
pub enum NetworkModeView {
    Bridge,
    Host,
    NoNetwork,
    Service(Seq<char>),
    Container(Seq<char>),
}

impl DeepView for NetworkMode {
    type V = NetworkModeView;

    open spec fn deep_view(&self) -> NetworkModeView {
        match self {
            NetworkMode::Bridge => NetworkModeView::Bridge,
            NetworkMode::Host => NetworkModeView::Host,
            NetworkMode::NoNetwork => NetworkModeView::NoNetwork,
            NetworkMode::Service(name) => NetworkModeView::Service(name@),
            NetworkMode::Container(name) => NetworkModeView::Container(name@),
        }
    }
}

impl NetworkMode {
    /// Parse a mode: a word, or a word and a name with a colon between them.
    pub fn from_str(s: &str) -> (r: Result<NetworkMode, InvalidValueError>)
        ensures
            parse_result(r) == Self::parse_model(s@),
    {
        let chars = chars_of(s);
        let n = chars.len();
        proof {
            assert(chars@.skip(0) == chars@);
            reveal_strlit("service:");
            reveal_strlit("container:");
        }
        if same_text(s, "bridge") {
            Ok(NetworkMode::Bridge)
        } else if same_text(s, "host") {
            Ok(NetworkMode::Host)
        } else if same_text(s, "none") {
            Ok(NetworkMode::NoNetwork)
        } else if starts_with(&chars, 0, "service:") {
            let end = find_char(&chars, 8, n, '\n');
            proof {
                assert(chars@.subrange(8, n as int) == s@.skip(8));
            }
            if 8 < n && end == n {
                Ok(NetworkMode::Service(string_of_range(&chars, 8, n)))
            } else {
                proof {
                    assert(s@.take(8)[0] == s@[0]);
                    assert(s@.len() >= 10 ==> s@.take(10)[0] == s@[0]);
                    assert("service:"@[0] != "container:"@[0]);
                }
                Err(InvalidValueError::new("NetworkMode", s))
            }
        } else if starts_with(&chars, 0, "container:") {
            let end = find_char(&chars, 10, n, '\n');
            proof {
                assert(chars@.subrange(10, n as int) == s@.skip(10));
            }
            if 10 < n && end == n {
                Ok(NetworkMode::Container(string_of_range(&chars, 10, n)))
            } else {
                Err(InvalidValueError::new("NetworkMode", s))
            }
        } else {
            Err(InvalidValueError::new("NetworkMode", s))
        }
    }

    /// The text of this mode.
    pub fn to_string(&self) -> (r: String)
        ensures
            r@ == Self::formatted(self.deep_view()),
    {
        match self {
            NetworkMode::Bridge => String::from_str("bridge"),
            NetworkMode::Host => String::from_str("host"),
            NetworkMode::NoNetwork => String::from_str("none"),
            NetworkMode::Service(name) => {
                let mut out = String::from_str("service:");
                out.append(name.as_str());
                out
            },
            NetworkMode::Container(name) => {
                let mut out = String::from_str("container:");
                out.append(name.as_str());
                out
            },
        }
    }
}

impl Duplicate for NetworkMode {
    fn duplicate(&self) -> (r: NetworkMode) {
        match self {
            NetworkMode::Bridge => NetworkMode::Bridge,
            NetworkMode::Host => NetworkMode::Host,
            NetworkMode::NoNetwork => NetworkMode::NoNetwork,
            NetworkMode::Service(name) => NetworkMode::Service(name.clone()),
            NetworkMode::Container(name) => NetworkMode::Container(name.clone()),
        }
    }
}

/// May `s` follow the colon of a mode?
fn is_argument(s: &str) -> (r: bool)
    ensures
        r == is_mode_argument(s@),
{
    !is_empty_text(s) && lacks_char(s, '\n')
}

impl InterpolatableValue for NetworkMode {
    open spec fn valid(v: NetworkModeView) -> bool {
        match v {
            NetworkModeView::Service(name) => is_mode_argument(name),
            NetworkModeView::Container(name) => is_mode_argument(name),
            _ => true,
        }
    }

    open spec fn parse_model(s: Seq<char>) -> Result<NetworkModeView, InvalidValueErrorView> {
        if s == "bridge"@ {
            Ok(NetworkModeView::Bridge)
        } else if s == "host"@ {
            Ok(NetworkModeView::Host)
        } else if s == "none"@ {
            Ok(NetworkModeView::NoNetwork)
        } else if has_prefix(s, "service:"@) && is_mode_argument(s.skip("service:"@.len() as int)) {
            Ok(NetworkModeView::Service(s.skip("service:"@.len() as int)))
        } else if has_prefix(s, "container:"@) && is_mode_argument(s.skip("container:"@.len() as int)) {
            Ok(NetworkModeView::Container(s.skip("container:"@.len() as int)))
        } else {
            Err(InvalidValueErrorView { wanted: "NetworkMode"@, input: s })
        }
    }

    open spec fn formatted(v: NetworkModeView) -> Seq<char> {
        match v {
            NetworkModeView::Bridge => "bridge"@,
            NetworkModeView::Host => "host"@,
            NetworkModeView::NoNetwork => "none"@,
            NetworkModeView::Service(name) => "service:"@ + name,
            NetworkModeView::Container(name) => "container:"@ + name,
        }
    }

    proof fn lemma_parse_formatted(v: NetworkModeView) {
        reveal_strlit("bridge");
        reveal_strlit("host");
        reveal_strlit("none");
        reveal_strlit("service:");
        reveal_strlit("container:");
        assert("bridge"@.len() == 6);
        assert("host"@.len() == 4);
        assert("none"@.len() == 4);
        assert("service:"@.len() == 8);
        assert("container:"@.len() == 10);
        assert("host"@[0] != "none"@[0]);
        let s = Self::formatted(v);
        match v {
            NetworkModeView::Service(name) => {
                let p = "service:"@;
                assert(s.take(p.len() as int) == p);
                assert(s.skip(p.len() as int) == name);
                assert(s[0] == p[0] && p[0] != "bridge"@[0]);
                assert(s[0] == p[0] && p[0] != "host"@[0]);
                assert(s[0] == p[0] && p[0] != "none"@[0]);
            },
            NetworkModeView::Container(name) => {
                let p = "container:"@;
                assert(s.take(p.len() as int) == p);
                assert(s.skip(p.len() as int) == name);
                assert(s[0] == p[0] && p[0] != "bridge"@[0]);
                assert(s[0] == p[0] && p[0] != "host"@[0]);
                assert(s[0] == p[0] && p[0] != "none"@[0]);
                assert(s[0] == p[0] && p[0] != "service:"@[0]);
                assert(s.take("service:"@.len() as int)[0] == s[0]);
            },
            _ => {},
        }
    }

    fn iv_from_str(s: &str) -> (r: Result<NetworkMode, InvalidValueError>) {
        NetworkMode::from_str(s)
    }

    fn fmt_iv(&self) -> (r: String) {
        self.to_string()
    }

    fn is_valid(&self) -> (r: bool) {
        match self {
            NetworkMode::Service(name) => is_argument(name.as_str()),
            NetworkMode::Container(name) => is_argument(name.as_str()),
            _ => true,
        }
    }
}

/// Which process ID namespace a container uses.
#[derive(Debug, Clone, PartialEq, Eq)]
pub enum PidMode {
    /// Use the host's PID namespace.
    Host,
    /// Use the named container's PID namespace.
    Container(String),
}

/// A [`PidMode`], as plain values.
pub enum PidModeView {
    Host,
    Container(Seq<char>),
}

impl DeepView for PidMode {
    type V = PidModeView;

    open spec fn deep_view(&self) -> PidModeView {
        match self {
            PidMode::Host => PidModeView::Host,
            PidMode::Container(name) => PidModeView::Container(name@),
        }
    }
}

impl PidMode {
    /// Parse a mode: a word, or a word and a name with a colon between them.
    pub fn from_str(s: &str) -> (r: Result<PidMode, InvalidValueError>)
        ensures
            parse_result(r) == Self::parse_model(s@),
    {
        let chars = chars_of(s);
        let n = chars.len();
        proof {
            assert(chars@.skip(0) == chars@);
            reveal_strlit("container:");
        }
        if same_text(s, "host") {
            Ok(PidMode::Host)
        } else if starts_with(&chars, 0, "container:") {
            let end = find_char(&chars, 10, n, '\n');
            proof {
                assert(chars@.subrange(10, n as int) == s@.skip(10));
            }
            if 10 < n && end == n {
                Ok(PidMode::Container(string_of_range(&chars, 10, n)))
            } else {
                Err(InvalidValueError::new("PidMode", s))
            }
        } else {
            Err(InvalidValueError::new("PidMode", s))
        }
    }

    /// The text of this mode.
    pub fn to_string(&self) -> (r: String)
        ensures
            r@ == Self::formatted(self.deep_view()),
    {
        match self {
            PidMode::Host => String::from_str("host"),
            PidMode::Container(name) => {
                let mut out = String::from_str("container:");
                out.append(name.as_str());
                out
            },
        }
    }
}

impl Duplicate for PidMode {
    fn duplicate(&self) -> (r: PidMode) {
        match self {
            PidMode::Host => PidMode::Host,
            PidMode::Container(name) => PidMode::Container(name.clone()),
        }
    }
}

impl InterpolatableValue for PidMode {
    open spec fn valid(v: PidModeView) -> bool {
        match v {
            PidModeView::Container(name) => is_mode_argument(name),
            _ => true,
        }
    }

    open spec fn parse_model(s: Seq<char>) -> Result<PidModeView, InvalidValueErrorView> {
        if s == "host"@ {
            Ok(PidModeView::Host)
        } else if has_prefix(s, "container:"@) && is_mode_argument(s.skip("container:"@.len() as int)) {
            Ok(PidModeView::Container(s.skip("container:"@.len() as int)))
        } else {
            Err(InvalidValueErrorView { wanted: "PidMode"@, input: s })
        }
    }

    open spec fn formatted(v: PidModeView) -> Seq<char> {
        match v {
            PidModeView::Host => "host"@,
            PidModeView::Container(name) => "container:"@ + name,
        }
    }

    proof fn lemma_parse_formatted(v: PidModeView) {
        reveal_strlit("host");
        reveal_strlit("container:");
        assert("host"@.len() == 4);
        assert("container:"@.len() == 10);
        let s = Self::formatted(v);
        match v {
            PidModeView::Container(name) => {
                let p = "container:"@;
                assert(s.take(p.len() as int) == p);
                assert(s.skip(p.len() as int) == name);
                assert(s[0] == p[0] && p[0] != "host"@[0]);
            },
            _ => {},
        }
    }

    fn iv_from_str(s: &str) -> (r: Result<PidMode, InvalidValueError>) {
        PidMode::from_str(s)
    }

    fn fmt_iv(&self) -> (r: String) {
        self.to_string()
    }

    fn is_valid(&self) -> (r: bool) {
        match self {
            PidMode::Container(name) => is_argument(name.as_str()),
            _ => true,
        }
    }
}

/// Which IPC namespace a container uses.
#[derive(Debug, Clone, PartialEq, Eq)]
pub enum IpcMode {
    /// Use the host's IPC namespace.
    Host,
    /// Use the named container's IPC namespace.
    Container(String),
}

/// A [`IpcMode`], as plain values.
pub enum IpcModeView {
    Host,
    Container(Seq<char>),
}

impl DeepView for IpcMode {
    type V = IpcModeView;

    open spec fn deep_view(&self) -> IpcModeView {
        match self {
            IpcMode::Host => IpcModeView::Host,
            IpcMode::Container(name) => IpcModeView::Container(name@),
        }
    }
}

impl IpcMode {
    /// Parse a mode: a word, or a word and a name with a colon between them.
    pub fn from_str(s: &str) -> (r: Result<IpcMode, InvalidValueError>)
        ensures
            parse_result(r) == Self::parse_model(s@),
    {
        let chars = chars_of(s);
        let n = chars.len();
        proof {
            assert(chars@.skip(0) == chars@);
            reveal_strlit("container:");
        }
        if same_text(s, "host") {
            Ok(IpcMode::Host)
        } else if starts_with(&chars, 0, "container:") {
            let end = find_char(&chars, 10, n, '\n');
            proof {
                assert(chars@.subrange(10, n as int) == s@.skip(10));
            }
            if 10 < n && end == n {
                Ok(IpcMode::Container(string_of_range(&chars, 10, n)))
            } else {
                Err(InvalidValueError::new("IpcMode", s))
            }
        } else {
            Err(InvalidValueError::new("IpcMode", s))
        }
    }

    /// The text of this mode.
    pub fn to_string(&self) -> (r: String)
        ensures
            r@ == Self::formatted(self.deep_view()),
    {
        match self {
            IpcMode::Host => String::from_str("host"),
            IpcMode::Container(name) => {
                let mut out = String::from_str("container:");
                out.append(name.as_str());
                out
            },
        }
    }
}

impl Duplicate for IpcMode {
    fn duplicate(&self) -> (r: IpcMode) {
        match self {
            IpcMode::Host => IpcMode::Host,
            IpcMode::Container(name) => IpcMode::Container(name.clone()),
        }
    }
}

impl InterpolatableValue for IpcMode {
    open spec fn valid(v: IpcModeView) -> bool {
        match v {
            IpcModeView::Container(name) => is_mode_argument(name),
            _ => true,
        }
    }

    open spec fn parse_model(s: Seq<char>) -> Result<IpcModeView, InvalidValueErrorView> {
        if s == "host"@ {
            Ok(IpcModeView::Host)
        } else if has_prefix(s, "container:"@) && is_mode_argument(s.skip("container:"@.len() as int)) {
            Ok(IpcModeView::Container(s.skip("container:"@.len() as int)))
        } else {
            Err(InvalidValueErrorView { wanted: "IpcMode"@, input: s })
        }
    }

    open spec fn formatted(v: IpcModeView) -> Seq<char> {
        match v {
            IpcModeView::Host => "host"@,
            IpcModeView::Container(name) => "container:"@ + name,
        }
    }

    proof fn lemma_parse_formatted(v: IpcModeView) {
        reveal_strlit("host");
        reveal_strlit("container:");
        assert("host"@.len() == 4);
        assert("container:"@.len() == 10);
        let s = Self::formatted(v);
        match v {
            IpcModeView::Container(name) => {
                let p = "container:"@;
                assert(s.take(p.len() as int) == p);
                assert(s.skip(p.len() as int) == name);
                assert(s[0] == p[0] && p[0] != "host"@[0]);
            },
            _ => {},
        }
    }

    fn iv_from_str(s: &str) -> (r: Result<IpcMode, InvalidValueError>) {
        IpcMode::from_str(s)
    }

    fn fmt_iv(&self) -> (r: String) {
        self.to_string()
    }

    fn is_valid(&self) -> (r: bool) {
        match self {
            IpcMode::Container(name) => is_argument(name.as_str()),
            _ => true,
        }
    }
}

/// May `c` stand in the word before the colon of a mode?
pub open spec fn is_tag_char(c: char) -> bool {
    c == '-' || ('a' <= c && c <= 'z')
}

/// The word and the argument of a mode that is written with a colon: the
/// word is what stands before the first colon, and is made of lower-case
/// letters and hyphens; the argument is the rest.
pub open spec fn compound_parts(s: Seq<char>) -> Option<(Seq<char>, Seq<char>)> {
    let colon = index_of(s, ':');
    let tag = s.take(colon);
    let arg = s.skip(colon + 1);
    if colon < s.len() && tag.len() > 0 && (forall|i: int|
        0 <= i < tag.len() ==> is_tag_char(#[trigger] tag[i])) && is_mode_argument(arg) {
        Some((tag, arg))
    } else {
        None
    }
}

/// What Docker does when a container stops running.
#[derive(Debug, Clone, Copy, PartialEq, Eq)]
pub enum RestartMode {
    /// Don't restart the container.
    No,
    /// Restart the container if it exits with a non-zero status, with an
    /// optional limit on the number of restarts.
    OnFailure(Option<u32>),
    /// Restart the container after any exit, and when the Docker daemon
    /// restarts.
    Always,
    /// Like `Always`, but don't restart a container that was stopped.
    UnlessStopped,
}

impl DeepView for RestartMode {
    type V = RestartMode;

    open spec fn deep_view(&self) -> RestartMode {
        *self
    }
}

/// Find the colon that ends the word of a mode, and check the word and the
/// argument.
fn split_compound(chars: &Vec<char>) -> (r: Option<usize>)
    ensures
        r is Some <==> compound_parts(chars@) is Some,
        r is Some ==> r->0 == index_of(chars@, ':') && r->0 < chars.len(),
{
    let n = chars.len();
    let colon = find_char(chars, 0, n, ':');
    proof {
        assert(chars@.subrange(0, n as int) == chars@);
    }
    if colon == 0 || colon >= n {
        return None;
    }
    let ghost tag = chars@.take(colon as int);
    let mut i: usize = 0;
    while i < colon
        invariant
            0 <= i <= colon < n,
            n == chars.len(),
            tag == chars@.take(colon as int),
            colon == index_of(chars@, ':'),
            forall|j: int| 0 <= j < i ==> is_tag_char(#[trigger] tag[j]),
        decreases colon - i,
    {
        let c = chars[i];
        assert(tag[i as int] == c);
        if !(c == '-' || ('a' <= c && c <= 'z')) {
            return None;
        }
        i += 1;
    }
    let end = find_char(chars, colon + 1, n, '\n');
    proof {
        assert(chars@.subrange(colon + 1, n as int) == chars@.skip(colon + 1));
    }
    if colon + 1 == n || end < n {
        return None;
    }
    Some(colon)
}

impl RestartMode {
    /// Parse a restart mode: `no`, `always`, `unless-stopped`, `on-failure`,
    /// or `on-failure:` and the number of restarts that are allowed.
    pub fn from_str(s: &str) -> (r: Result<RestartMode, InvalidValueError>)
        ensures
            parse_result(r) == Self::parse_model(s@),
    {
        if same_text(s, "no") {
            return Ok(RestartMode::No);
        } else if same_text(s, "on-failure") {
            return Ok(RestartMode::OnFailure(None));
        } else if same_text(s, "always") {
            return Ok(RestartMode::Always);
        } else if same_text(s, "unless-stopped") {
            return Ok(RestartMode::UnlessStopped);
        }
        let chars = chars_of(s);
        let n = chars.len();
        let colon = match split_compound(&chars) {
            None => {
                return Err(InvalidValueError::new("restart-mode", s));
            },
            Some(colon) => colon,
        };
        let tag = string_of_range(&chars, 0, colon);
        proof {
            assert(chars@.subrange(0, colon as int) == s@.take(colon as int));
            assert(chars@.subrange(colon + 1, n as int) == s@.skip(colon + 1));
        }
        if !same_text(tag.as_str(), "on-failure") {
            return Err(InvalidValueError::new("restart mode", s));
        }
        match parse_number(&chars, colon + 1, n, 0xffff_ffff) {
            Some(retries) => Ok(RestartMode::OnFailure(Some(retries as u32))),
            None => {
                let valstr = string_of_range(&chars, colon + 1, n);
                Err(InvalidValueError::new("restart mode", valstr.as_str()))
            },
        }
    }

    /// The text of this restart mode.
    pub fn to_string(&self) -> (r: String)
        ensures
            r@ == Self::formatted(*self),
    {
        match self {
            RestartMode::No => String::from_str("no"),
            RestartMode::OnFailure(None) => String::from_str("on-failure"),
            RestartMode::OnFailure(Some(retries)) => {
                let mut out = String::from_str("on-failure:");
                push_decimal(&mut out, *retries as u64);
                out
            },
            RestartMode::Always => String::from_str("always"),
            RestartMode::UnlessStopped => String::from_str("unless-stopped"),
        }
    }
}

impl Duplicate for RestartMode {
    fn duplicate(&self) -> (r: RestartMode) {
        *self
    }
}

impl InterpolatableValue for RestartMode {
    open spec fn valid(v: RestartMode) -> bool {
        true
    }

    open spec fn parse_model(s: Seq<char>) -> Result<RestartMode, InvalidValueErrorView> {
        if s == "no"@ {
            Ok(RestartMode::No)
        } else if s == "on-failure"@ {
            Ok(RestartMode::OnFailure(None))
        } else if s == "always"@ {
            Ok(RestartMode::Always)
        } else if s == "unless-stopped"@ {
            Ok(RestartMode::UnlessStopped)
        } else {
            match compound_parts(s) {
                None => Err(InvalidValueErrorView { wanted: "restart-mode"@, input: s }),
                Some((tag, arg)) => if tag == "on-failure"@ {
                    match parsed_number(arg, 0xffff_ffff) {
                        Some(retries) => Ok(RestartMode::OnFailure(Some(retries as u32))),
                        None => Err(InvalidValueErrorView { wanted: "restart mode"@, input: arg }),
                    }
                } else {
                    Err(InvalidValueErrorView { wanted: "restart mode"@, input: s })
                },
            }
        }
    }

    open spec fn formatted(v: RestartMode) -> Seq<char> {
        match v {
            RestartMode::No => "no"@,
            RestartMode::OnFailure(None) => "on-failure"@,
            RestartMode::OnFailure(Some(retries)) => "on-failure:"@ + decimal_text(retries as nat),
            RestartMode::Always => "always"@,
            RestartMode::UnlessStopped => "unless-stopped"@,
        }
    }

    proof fn lemma_parse_formatted(v: RestartMode) {
        reveal_strlit("no");
        reveal_strlit("on-failure");
        reveal_strlit("on-failure:");
        reveal_strlit("always");
        reveal_strlit("unless-stopped");
        assert("no"@.len() == 2);
        assert("on-failure"@.len() == 10);
        assert("on-failure:"@.len() == 11);
        assert("always"@.len() == 6);
        assert("unless-stopped"@.len() == 14);
        if let RestartMode::OnFailure(Some(retries)) = v {
            let p = "on-failure:"@;
            let digits = decimal_text(retries as nat);
            let s = p + digits;
            lemma_decimal_text(retries as nat);
            assert(s[0] == p[0] && p[0] != "unless-stopped"@[0]);
            let colon = index_of(s, ':');
            lemma_index_of(s, ':');
            assert(s[10] == p[10] && p[10] == ':');
            assert forall|i: int| 0 <= i < 10 implies s[i] != ':' by {
                assert(s[i] == p[i]);
                assert(p[0] != ':');
                assert(p[1] != ':');
                assert(p[2] != ':');
                assert(p[3] != ':');
                assert(p[4] != ':');
                assert(p[5] != ':');
                assert(p[6] != ':');
                assert(p[7] != ':');
                assert(p[8] != ':');
                assert(p[9] != ':');
            }
            assert(colon == 10);
            let tag = s.take(10);
            assert(tag =~= "on-failure"@) by {
                assert forall|i: int| 0 <= i < 10 implies tag[i] == "on-failure"@[i] by {
                    assert(tag[i] == p[i]);
                    assert(p[0] == "on-failure"@[0]);
                    assert(p[1] == "on-failure"@[1]);
                    assert(p[2] == "on-failure"@[2]);
                    assert(p[3] == "on-failure"@[3]);
                    assert(p[4] == "on-failure"@[4]);
                    assert(p[5] == "on-failure"@[5]);
                    assert(p[6] == "on-failure"@[6]);
                    assert(p[7] == "on-failure"@[7]);
                    assert(p[8] == "on-failure"@[8]);
                    assert(p[9] == "on-failure"@[9]);
                }
            }
            assert forall|i: int| 0 <= i < tag.len() implies is_tag_char(#[trigger] tag[i]) by {
                assert(tag[i] == p[i]);
                assert(is_tag_char(p[0]));
                assert(is_tag_char(p[1]));
                assert(is_tag_char(p[2]));
                assert(is_tag_char(p[3]));
                assert(is_tag_char(p[4]));
                assert(is_tag_char(p[5]));
                assert(is_tag_char(p[6]));
                assert(is_tag_char(p[7]));
                assert(is_tag_char(p[8]));
                assert(is_tag_char(p[9]));
            }
            assert(s.skip(11) == digits);
            lemma_index_of(digits, '\n');
            assert(!has_char(digits, '\n')) by {
                if has_char(digits, '\n') {
                    let i = choose|i: int| 0 <= i < digits.len() && #[trigger] digits[i] == '\n';
                    assert(is_digit(digits[i]));
                }
            }
            assert(is_digit(digits[0]));
            assert(compound_parts(s) == Some((tag, digits)));
        }
    }

    fn iv_from_str(s: &str) -> (r: Result<RestartMode, InvalidValueError>) {
        RestartMode::from_str(s)
    }

    fn fmt_iv(&self) -> (r: String) {
        self.to_string()
    }

    fn is_valid(&self) -> (r: bool) {
        true
    }
}

} // verus!
