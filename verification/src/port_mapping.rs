//! Mappings of the ports of a container to ports of the host.

use vstd::prelude::*;
use vstd::string::StringExecFns;
use crate::errors::{InvalidValueError, InvalidValueErrorView};
use crate::host_address::{
    address_text,
    address_value,
    lemma_address_round_trip,
    parse_address,
    push_address,
    HostAddress,
};
use crate::merge_override::Duplicate;
use crate::raw_or::{parse_result, InterpolatableValue};
use crate::text::{
    all_digits,
    chars_of,
    decimal_text,
    decimal_value,
    find_char,
    find_last_char,
    has_char,
    index_of,
    is_digit,
    is_digit_char,
    last_index_of,
    lemma_decimal_text,
    lemma_digits_lack,
    lemma_index_of,
    lemma_index_of_concat,
    lemma_last_index_of,
    lemma_last_index_of_concat,
    parse_decimal,
    push_decimal,
    same_text,
    string_of_range,
};

verus! {

/// An IP protocol.
#[derive(Debug, Eq, PartialEq, Clone, Copy)]
pub enum Protocol {
    /// Transmission Control Protocol, the default.
    Tcp,
    /// User Datagram Protocol.
    Udp,
}

impl DeepView for Protocol {
    type V = Protocol;

    open spec fn deep_view(&self) -> Protocol {
        *self
    }
}

impl Default for Protocol {
    fn default() -> (r: Protocol)
        ensures
            r == Protocol::Tcp,
    {
        Protocol::Tcp
    }
}

impl Protocol {
    /// Parse a protocol from its name.
    pub fn from_str(s: &str) -> (r: Result<Protocol, InvalidValueError>)
        ensures
            parse_result(r) == Self::parse_model(s@),
    {
        if same_text(s, "tcp") {
            Ok(Protocol::Tcp)
        } else if same_text(s, "udp") {
            Ok(Protocol::Udp)
        } else {
            Err(InvalidValueError::new("protocol", s))
        }
    }

    /// The name of this protocol.
    pub fn to_string(&self) -> (r: String)
        ensures
            r@ == Self::formatted(*self),
    {
        match self {
            Protocol::Tcp => String::from_str("tcp"),
            Protocol::Udp => String::from_str("udp"),
        }
    }

    /// Is this the default, which is left out when writing?
    pub fn is_default(&self) -> (r: bool)
        ensures
            r == (*self == Protocol::Tcp),
    {
        match self {
            Protocol::Tcp => true,
            _ => false,
        }
    }
}

impl Duplicate for Protocol {
    fn duplicate(&self) -> (r: Protocol) {
        *self
    }
}

impl InterpolatableValue for Protocol {
    open spec fn valid(v: Protocol) -> bool {
        true
    }

    open spec fn parse_model(s: Seq<char>) -> Result<Protocol, InvalidValueErrorView> {
        if s == "tcp"@ {
            Ok(Protocol::Tcp)
        } else if s == "udp"@ {
            Ok(Protocol::Udp)
        } else {
            Err(InvalidValueErrorView { wanted: "protocol"@, input: s })
        }
    }

    open spec fn formatted(v: Protocol) -> Seq<char> {
        match v {
            Protocol::Tcp => "tcp"@,
            Protocol::Udp => "udp"@,
        }
    }

    proof fn lemma_parse_formatted(v: Protocol) {
        reveal_strlit("tcp");
        reveal_strlit("udp");
        assert("tcp"@.len() == 3);
        assert("udp"@.len() == 3);
        assert("tcp"@[0] != "udp"@[0]);
    }

    fn iv_from_str(s: &str) -> (r: Result<Protocol, InvalidValueError>) {
        Protocol::from_str(s)
    }

    fn fmt_iv(&self) -> (r: String) {
        self.to_string()
    }

    fn is_valid(&self) -> (r: bool) {
        true
    }
}

/// Either a port, or a range of ports.
#[derive(Debug, PartialEq, Eq, Clone, Copy)]
pub enum Ports {
    /// A single port.
    Port(u16),
    /// A range of ports, from the first to the second.
    Range(u16, u16),
}

impl DeepView for Ports {
    type V = Ports;

    open spec fn deep_view(&self) -> Ports {
        *self
    }
}

/// What can be given where ports are wanted: ports, or the number of one
/// port.
pub trait IntoPorts: Sized {
    /// The ports that this stands for.
    spec fn ports(self) -> Ports;

    /// The ports that this stands for.
    fn into_ports(self) -> (r: Ports)
        ensures
            r == self.ports(),
    ;
}

impl IntoPorts for Ports {
    open spec fn ports(self) -> Ports {
        self
    }

    fn into_ports(self) -> (r: Ports) {
        self
    }
}

impl IntoPorts for u16 {
    open spec fn ports(self) -> Ports {
        Ports::Port(self)
    }

    fn into_ports(self) -> (r: Ports) {
        Ports::Port(self)
    }
}

impl From<u16> for Ports {
    /// A single port.
    fn from(port: u16) -> (r: Ports) {
        Ports::Port(port)
    }
}

impl vstd::std_specs::convert::FromSpecImpl<u16> for Ports {
    open spec fn obeys_from_spec() -> bool {
        true
    }

    open spec fn from_spec(port: u16) -> Ports {
        Ports::Port(port)
    }
}

/// The failure to read `s` as the `wanted` kind of value.
pub open spec fn unreadable<V>(wanted: Seq<char>, s: Seq<char>) -> Result<
    V,
    InvalidValueErrorView,
> {
    Err(InvalidValueErrorView { wanted, input: s })
}

/// What `s` reads as: a port, or two ports with a hyphen between them.
pub open spec fn ports_model(s: Seq<char>) -> Result<Ports, InvalidValueErrorView> {
    let dash = index_of(s, '-');
    let first = s.take(dash);
    let second = s.skip(dash + 1);
    if first.len() == 0 || !all_digits(first) {
        unreadable("ports"@, s)
    } else if dash < s.len() && (second.len() == 0 || !all_digits(second)) {
        unreadable("ports"@, s)
    } else if decimal_value(first) > 0xffff {
        unreadable("port"@, s)
    } else if dash == s.len() {
        Ok(Ports::Port(decimal_value(first) as u16))
    } else if decimal_value(second) > 0xffff {
        unreadable("port"@, s)
    } else {
        Ok(Ports::Range(decimal_value(first) as u16, decimal_value(second) as u16))
    }
}

/// The text of a port or of a range of ports.
pub open spec fn ports_text(p: Ports) -> Seq<char> {
    match p {
        Ports::Port(port) => decimal_text(port as nat),
        Ports::Range(first, last) => decimal_text(first as nat) + seq!['-'] + decimal_text(
            last as nat,
        ),
    }
}

/// Is `chars[from..to]` made of digits only?
fn digits_only(chars: &Vec<char>, from: usize, to: usize) -> (r: bool)
    requires
        from <= to <= chars.len(),
    ensures
        r == all_digits(chars@.subrange(from as int, to as int)),
{
    let ghost s = chars@.subrange(from as int, to as int);
    let mut i: usize = from;
    while i < to
        invariant
            from <= i <= to <= chars.len(),
            s == chars@.subrange(from as int, to as int),
            forall|j: int| 0 <= j < i - from ==> is_digit(#[trigger] s[j]),
        decreases to - i,
    {
        assert(s[i - from] == chars@[i as int]);
        if !is_digit_char(chars[i]) {
            return false;
        }
        i += 1;
    }
    true
}

/// Read `chars[from..to]` as a port or a range of ports.
fn parse_ports(chars: &Vec<char>, from: usize, to: usize) -> (r: Result<Ports, InvalidValueError>)
    requires
        from <= to <= chars.len(),
    ensures
        parse_result(r) == ports_model(chars@.subrange(from as int, to as int)),
{
    let ghost s = chars@.subrange(from as int, to as int);
    let dash = find_char(chars, from, to, '-');
    proof {
        assert(s.take(dash - from) == chars@.subrange(from as int, dash as int));
        if dash < to {
            assert(s.skip(dash - from + 1) == chars@.subrange(dash + 1, to as int));
        }
    }
    if dash == from || !digits_only(chars, from, dash) {
        let text = string_of_range(chars, from, to);
        return Err(InvalidValueError::new("ports", text.as_str()));
    }
    if dash < to && (dash + 1 == to || !digits_only(chars, dash + 1, to)) {
        let text = string_of_range(chars, from, to);
        return Err(InvalidValueError::new("ports", text.as_str()));
    }
    let first = match parse_decimal(chars, from, dash, 0xffff) {
        Some(n) => n as u16,
        None => {
            let text = string_of_range(chars, from, to);
            return Err(InvalidValueError::new("port", text.as_str()));
        },
    };
    if dash == to {
        return Ok(Ports::Port(first));
    }
    match parse_decimal(chars, dash + 1, to, 0xffff) {
        Some(n) => Ok(Ports::Range(first, n as u16)),
        None => {
            let text = string_of_range(chars, from, to);
            Err(InvalidValueError::new("port", text.as_str()))
        },
    }
}

/// Append the text of `ports` to `out`.
fn push_ports(out: &mut String, ports: &Ports)
    ensures
        final(out)@ == old(out)@ + ports_text(*ports),
{
    match ports {
        Ports::Port(port) => {
            push_decimal(out, *port as u64);
        },
        Ports::Range(first, last) => {
            push_decimal(out, *first as u64);
            out.push('-');
            push_decimal(out, *last as u64);
            proof {
                assert(out@ =~= old(out)@ + ports_text(*ports));
            }
        },
    }
}

/// The text of ports is made of digits and at most one hyphen, and reads
/// back as the same ports.
pub proof fn lemma_ports_round_trip(p: Ports)
    ensures
        ports_model(ports_text(p)) == Ok::<_, InvalidValueErrorView>(p),
        ports_text(p).len() > 0,
        forall|i: int|
            0 <= i < ports_text(p).len() ==> is_digit(#[trigger] ports_text(p)[i]) || ports_text(
                p,
            )[i] == '-',
        !has_char(ports_text(p), ':'),
        !has_char(ports_text(p), '/'),
{
    let s = ports_text(p);
    match p {
        Ports::Port(port) => {
            lemma_decimal_text(port as nat);
            lemma_digits_lack(s, '-');
            assert(s.take(s.len() as int) == s);
        },
        Ports::Range(first, last) => {
            let a = decimal_text(first as nat);
            let b = decimal_text(last as nat);
            lemma_decimal_text(first as nat);
            lemma_decimal_text(last as nat);
            let tail = seq!['-'] + b;
            assert(s == a + tail);
            lemma_digits_lack(a, '-');
            assert(tail[0] == '-');
            assert(index_of(tail, '-') == 0);
            lemma_index_of_concat(a, tail, '-');
            assert(s.take(a.len() as int) == a);
            assert(s.skip(a.len() as int + 1) == b);
            assert forall|i: int| 0 <= i < s.len() implies is_digit(#[trigger] s[i]) || s[i]
                == '-' by {
                if i < a.len() {
                    assert(s[i] == a[i]);
                } else if i > a.len() {
                    assert(s[i] == b[i - a.len() - 1]);
                }
            }
        },
    }
    lemma_index_of(s, ':');
    lemma_index_of(s, '/');
}

impl Ports {
    /// Parse a port, or two ports with a hyphen between them.
    pub fn from_str(s: &str) -> (r: Result<Ports, InvalidValueError>)
        ensures
            parse_result(r) == ports_model(s@),
    {
        let chars = chars_of(s);
        proof {
            assert(chars@.subrange(0, chars.len() as int) == chars@);
        }
        parse_ports(&chars, 0, chars.len())
    }

    /// The text of these ports.
    pub fn to_string(&self) -> (r: String)
        ensures
            r@ == ports_text(*self),
    {
        let mut out = String::new();
        push_ports(&mut out, self);
        assert(Seq::<char>::empty() + ports_text(*self) == ports_text(*self));
        out
    }
}

/// How the ports of a container are mapped to the host.  It is written
/// `[[host_address:]host_ports:]container_ports[/protocol]`.
#[derive(Debug, Clone, Copy, PartialEq, Eq)]
pub struct PortMapping {
    /// An optional host address on which to listen.  Defaults to all host
    /// addresses.  If it is given, `host_ports` must be given too.
    pub host_address: Option<HostAddress>,
    /// The host ports on which to listen.  Defaults to ports that Docker
    /// picks.
    pub host_ports: Option<Ports>,
    /// The container ports to export.
    pub container_ports: Ports,
    /// The protocol to be used on the ports.
    pub protocol: Protocol,
}

impl DeepView for PortMapping {
    type V = PortMapping;

    open spec fn deep_view(&self) -> PortMapping {
        *self
    }
}

/// The part of a port mapping that stands before the protocol: all of `s`
/// if it holds no slash, else what stands before the first.
pub open spec fn mapping_body(s: Seq<char>) -> Seq<char> {
    s.take(index_of(s, '/'))
}

/// The protocol that a port mapping names after its slash: TCP if there is
/// no slash.  More than one slash is an error.
pub open spec fn mapping_protocol(s: Seq<char>) -> Result<Protocol, InvalidValueErrorView> {
    let slash = index_of(s, '/');
    let after = s.skip(slash + 1);
    if slash == s.len() {
        Ok(Protocol::Tcp)
    } else if has_char(after, '/') {
        unreadable("port mapping"@, s)
    } else {
        Protocol::parse_model(after)
    }
}

/// What the part before the protocol reads as, split at its last two
/// colons: what stands before them is the host address, whatever colons it
/// holds.
pub open spec fn mapping_model(
    body: Seq<char>,
    protocol: Protocol,
    whole: Seq<char>,
) -> Result<PortMapping, InvalidValueErrorView> {
    let last = last_index_of(body, ':');
    let front = body.take(last);
    let container = ports_model(body.skip(last + 1));
    let prev = last_index_of(front, ':');
    let host = ports_model(front.skip(prev + 1));
    let address = address_value(front.take(prev));
    if last < 0 {
        match container {
            Ok(c) => Ok(
                PortMapping { host_address: None, host_ports: None, container_ports: c, protocol },
            ),
            Err(e) => Err(e),
        }
    } else if prev >= 0 && address is None {
        unreadable("IP address"@, whole)
    } else {
        match (host, container) {
            (Err(e), _) => Err(e),
            (Ok(_), Err(e)) => Err(e),
            (Ok(h), Ok(c)) => Ok(
                PortMapping {
                    host_address: if prev >= 0 {
                        address
                    } else {
                        None
                    },
                    host_ports: Some(h),
                    container_ports: c,
                    protocol,
                },
            ),
        }
    }
}

/// Split off the protocol of a port mapping: the index at which the part
/// before it ends, and the protocol.
pub fn consume_protocol(chars: &Vec<char>) -> (r: Result<(usize, Protocol), InvalidValueError>)
    ensures
        match mapping_protocol(chars@) {
            Ok(protocol) => r is Ok && r->Ok_0.1 == protocol && r->Ok_0.0 == index_of(chars@, '/')
                && r->Ok_0.0 <= chars.len(),
            Err(e) => r is Err && r->Err_0.deep_view() == e,
        },
{
    let n = chars.len();
    let slash = find_char(chars, 0, n, '/');
    proof {
        assert(chars@.subrange(0, n as int) == chars@);
    }
    if slash == n {
        return Ok((n, Protocol::Tcp));
    }
    let second = find_char(chars, slash + 1, n, '/');
    proof {
        assert(chars@.subrange(slash + 1, n as int) == chars@.skip(slash + 1));
    }
    if second < n {
        let text = string_of_range(chars, 0, n);
        return Err(InvalidValueError::new("port mapping", text.as_str()));
    }
    let name = string_of_range(chars, slash + 1, n);
    match Protocol::from_str(name.as_str()) {
        Ok(protocol) => Ok((slash, protocol)),
        Err(e) => Err(e),
    }
}

impl PortMapping {
    /// Map the host ports `host_ports` to the container ports
    /// `container_ports`.  A port may be given as its number.
    pub fn new<H: IntoPorts, C: IntoPorts>(host_ports: H, container_ports: C) -> (r: PortMapping)
        ensures
            r == (PortMapping {
                host_address: None,
                host_ports: Some(host_ports.ports()),
                container_ports: container_ports.ports(),
                protocol: Protocol::Tcp,
            }),
    {
        PortMapping {
            host_address: None,
            host_ports: Some(host_ports.into_ports()),
            container_ports: container_ports.into_ports(),
            protocol: Protocol::Tcp,
        }
    }

    /// Map ports of the host that Docker picks to the container ports
    /// `container_ports`.  A port may be given as its number.
    pub fn any_to<C: IntoPorts>(container_ports: C) -> (r: PortMapping)
        ensures
            r == (PortMapping {
                host_address: None,
                host_ports: None,
                container_ports: container_ports.ports(),
                protocol: Protocol::Tcp,
            }),
    {
        PortMapping {
            host_address: None,
            host_ports: None,
            container_ports: container_ports.into_ports(),
            protocol: Protocol::Tcp,
        }
    }

    /// Parse a port mapping.
    pub fn from_str(s: &str) -> (r: Result<PortMapping, InvalidValueError>)
        ensures
            parse_result(r) == Self::parse_model(s@),
    {
        let chars = chars_of(s);
        let (end, protocol) = match consume_protocol(&chars) {
            Ok(found) => found,
            Err(e) => {
                return Err(e);
            },
        };
        let ghost body = mapping_body(s@);
        proof {
            assert(chars@.subrange(0, end as int) == body);
        }
        let last = match find_last_char(&chars, 0, end, ':') {
            None => {
                proof {
                    assert(body.skip(0) == body);
                }
                return match parse_ports(&chars, 0, end) {
                    Ok(c) => Ok(
                        PortMapping {
                            host_address: None,
                            host_ports: None,
                            container_ports: c,
                            protocol,
                        },
                    ),
                    Err(e) => Err(e),
                };
            },
            Some(last) => last,
        };
        let ghost front = body.take(last as int);
        proof {
            assert(chars@.subrange(0, last as int) == front);
            assert(chars@.subrange(last + 1, end as int) == body.skip(last + 1));
        }
        let host_from = match find_last_char(&chars, 0, last, ':') {
            None => {
                proof {
                    assert(front.skip(0) == front);
                }
                0
            },
            Some(prev) => {
                proof {
                    assert(chars@.subrange(0, prev as int) == front.take(prev as int));
                    assert(chars@.subrange(prev + 1, last as int) == front.skip(prev + 1));
                }
                prev + 1
            },
        };
        let host_address = if host_from > 0 {
            match parse_address(&chars, 0, host_from - 1) {
                Some(address) => Some(address),
                None => {
                    return Err(InvalidValueError::new("IP address", s));
                },
            }
        } else {
            None
        };
        let host_ports = match parse_ports(&chars, host_from, last) {
            Ok(h) => h,
            Err(e) => {
                return Err(e);
            },
        };
        let container_ports = match parse_ports(&chars, last + 1, end) {
            Ok(c) => c,
            Err(e) => {
                return Err(e);
            },
        };
        Ok(PortMapping { host_address, host_ports: Some(host_ports), container_ports, protocol })
    }

    /// The text of this port mapping.  A host address cannot be written
    /// without host ports.
    pub fn to_string(&self) -> (r: String)
        requires
            Self::valid(*self),
        ensures
            r@ == Self::formatted(*self),
    {
        let mut out = String::new();
        if let Some(address) = &self.host_address {
            push_address(&mut out, address);
            out.push(':');
        }
        if let Some(ports) = &self.host_ports {
            push_ports(&mut out, ports);
            out.push(':');
        }
        push_ports(&mut out, &self.container_ports);
        if !self.protocol.is_default() {
            out.push('/');
            let name = self.protocol.to_string();
            out.append(name.as_str());
        }
        proof {
            assert(out@ =~= Self::formatted(*self));
        }
        out
    }
}

/// The text of a port mapping without its protocol: the host address and
/// the host ports, if there are any, each with a colon after it, and then
/// the container ports.
pub open spec fn body_text(v: PortMapping) -> Seq<char> {
    match (v.host_address, v.host_ports) {
        (Some(a), Some(h)) => address_text(a) + seq![':'] + ports_text(h) + seq![':'] + ports_text(
            v.container_ports,
        ),
        (Some(a), None) => address_text(a) + seq![':'] + ports_text(v.container_ports),
        (None, Some(h)) => ports_text(h) + seq![':'] + ports_text(v.container_ports),
        (None, None) => ports_text(v.container_ports),
    }
}

/// What is written after the body of a port mapping: nothing for TCP, else
/// a slash and the name of the protocol.
pub open spec fn protocol_suffix(protocol: Protocol) -> Seq<char> {
    if protocol == Protocol::Tcp {
        Seq::empty()
    } else {
        seq!['/'] + Protocol::formatted(protocol)
    }
}

impl Duplicate for PortMapping {
    fn duplicate(&self) -> (r: PortMapping) {
        *self
    }
}

impl InterpolatableValue for PortMapping {
    open spec fn valid(v: PortMapping) -> bool {
        v.host_address is Some ==> v.host_ports is Some
    }

    open spec fn parse_model(s: Seq<char>) -> Result<PortMapping, InvalidValueErrorView> {
        match mapping_protocol(s) {
            Err(e) => Err(e),
            Ok(protocol) => mapping_model(mapping_body(s), protocol, s),
        }
    }

    open spec fn formatted(v: PortMapping) -> Seq<char> {
        body_text(v) + protocol_suffix(v.protocol)
    }

    proof fn lemma_parse_formatted(v: PortMapping) {
        lemma_mapping_round_trip(v);
    }

    fn iv_from_str(s: &str) -> (r: Result<PortMapping, InvalidValueError>) {
        PortMapping::from_str(s)
    }

    fn fmt_iv(&self) -> (r: String) {
        self.to_string()
    }

    fn is_valid(&self) -> (r: bool) {
        self.host_address.is_none() || self.host_ports.is_some()
    }
}

/// The text of a port mapping that can be written reads back as the same
/// mapping.
proof fn lemma_mapping_round_trip(v: PortMapping)
    requires
        PortMapping::valid(v),
    ensures
        PortMapping::parse_model(PortMapping::formatted(v)) == Ok::<_, InvalidValueErrorView>(v),
{
    let s = PortMapping::formatted(v);
    lemma_body_lacks_slash(v);
    lemma_protocol_round_trip(body_text(v), v.protocol);
    lemma_body_round_trip(v, s);
}

/// A slash and the name of a protocol, after a body without slashes, read
/// back as that body and that protocol.
proof fn lemma_protocol_round_trip(body: Seq<char>, protocol: Protocol)
    requires
        !has_char(body, '/'),
    ensures
        mapping_body(body + protocol_suffix(protocol)) == body,
        mapping_protocol(body + protocol_suffix(protocol)) == Ok::<_, InvalidValueErrorView>(
            protocol,
        ),
{
    let suffix = protocol_suffix(protocol);
    let s = body + suffix;
    lemma_index_of(body, '/');
    if protocol == Protocol::Tcp {
        assert(s == body);
        assert(body.take(body.len() as int) == body);
    } else {
        reveal_strlit("udp");
        let name = "udp"@;
        assert(suffix[0] == '/');
        assert(index_of(suffix, '/') == 0);
        lemma_index_of_concat(body, suffix, '/');
        assert(s.take(body.len() as int) == body);
        assert(s.skip(body.len() as int + 1) == name);
        lemma_index_of(name, '/');
        if has_char(name, '/') {
            let i = choose|i: int| 0 <= i < name.len() && #[trigger] name[i] == '/';
            if i == 0 {
            } else if i == 1 {
            } else {
            }
        }
        Protocol::lemma_parse_formatted(protocol);
    }
}

/// The body of a port mapping holds no slash.
proof fn lemma_body_lacks_slash(v: PortMapping)
    ensures
        !has_char(body_text(v), '/'),
{
    let colon = seq![':'];
    let c = ports_text(v.container_ports);
    lemma_ports_round_trip(v.container_ports);
    lemma_index_of(colon, '/');
    if has_char(colon, '/') {
        let i = choose|i: int| 0 <= i < colon.len() && #[trigger] colon[i] == '/';
    }
    let a: Seq<char> = match v.host_address {
        Some(a) => address_text(a),
        None => Seq::empty(),
    };
    let h: Seq<char> = match v.host_ports {
        Some(h) => ports_text(h),
        None => Seq::empty(),
    };
    if let Some(x) = v.host_address {
        lemma_address_round_trip(x);
        lemma_lacks_concat(a, colon, '/');
    }
    if let Some(x) = v.host_ports {
        lemma_ports_round_trip(x);
        lemma_lacks_concat(h, colon, '/');
    }
    match (v.host_address, v.host_ports) {
        (Some(_), Some(_)) => {
            lemma_lacks_concat(a + colon, h, '/');
            lemma_lacks_concat(a + colon + h, colon, '/');
            lemma_lacks_concat(a + colon + h + colon, c, '/');
        },
        (Some(_), None) => {
            lemma_lacks_concat(a + colon, c, '/');
        },
        (None, Some(_)) => {
            lemma_lacks_concat(h + colon, c, '/');
        },
        (None, None) => {},
    }
}

/// Two texts without `c`, one after the other, are a text without `c`.
proof fn lemma_lacks_concat(a: Seq<char>, b: Seq<char>, c: char)
    requires
        !has_char(a, c),
        !has_char(b, c),
    ensures
        !has_char(a + b, c),
{
    lemma_index_of_concat(a, b, c);
    lemma_index_of(b, c);
}

/// The body of a port mapping that can be written reads back as the
/// mapping.
proof fn lemma_body_round_trip(v: PortMapping, whole: Seq<char>)
    requires
        PortMapping::valid(v),
    ensures
        mapping_model(body_text(v), v.protocol, whole) == Ok::<_, InvalidValueErrorView>(v),
{
    let body = body_text(v);
    let c = ports_text(v.container_ports);
    let colon = seq![':'];
    lemma_ports_round_trip(v.container_ports);
    lemma_last_index_of(c, ':');
    match (v.host_address, v.host_ports) {
        (Some(a), Some(h)) => {
            let at = address_text(a);
            let ht = ports_text(h);
            lemma_address_round_trip(a);
            lemma_ports_round_trip(h);
            let front = at + colon + ht;
            assert(body =~= front + (colon + c));
            lemma_last_colon(front, c);
            assert(front =~= at + (colon + ht));
            lemma_last_colon(at, ht);
        },
        (None, Some(h)) => {
            let ht = ports_text(h);
            lemma_ports_round_trip(h);
            assert(body =~= ht + (colon + c));
            lemma_last_colon(ht, c);
            lemma_last_index_of(ht, ':');
            assert(ht.skip(0) == ht);
        },
        _ => {
            assert(body.skip(0) == body);
        },
    }
}

/// Where `b` holds no colon, the last colon of `a:b` stands between the
/// two.
proof fn lemma_last_colon(a: Seq<char>, b: Seq<char>)
    requires
        !has_char(b, ':'),
    ensures
        last_index_of(a + (seq![':'] + b), ':') == a.len(),
        (a + (seq![':'] + b)).take(a.len() as int) == a,
        (a + (seq![':'] + b)).skip(a.len() as int + 1) == b,
{
    let tail = seq![':'] + b;
    lemma_last_index_of_concat(seq![':'], b, ':');
    lemma_last_index_of(b, ':');
    assert(seq![':'].drop_last() == Seq::<char>::empty());
    assert(last_index_of(seq![':'], ':') == 0);
    lemma_last_index_of(tail, ':');
    lemma_last_index_of_concat(a, tail, ':');
}

} // verus!
