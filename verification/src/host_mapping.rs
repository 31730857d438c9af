//! The entries of `/etc/hosts` that name hosts.

use vstd::prelude::*;
use crate::errors::{InvalidValueError, InvalidValueErrorView};
use crate::merge_override::Duplicate;
use crate::raw_or::{parse_result, InterpolatableValue};
use crate::host_address::{
    address_text,
    address_value,
    lemma_address_round_trip,
    parse_address,
    push_address,
    HostAddress,
};
use crate::text::{
    chars_of,
    find_char,
    has_char,
    index_of,
    is_empty_text,
    lacks_char,
    lemma_index_of,
    lemma_index_of_concat,
    string_of_range,
};

verus! {

/// A host mapping to add to `/etc/hosts`, written `hostname:address`.
#[derive(Debug, Clone, PartialEq, Eq)]
pub struct HostMapping {
    /// The hostname to add to `/etc/hosts`.
    pub hostname: String,
    /// The address to map it to.
    pub address: HostAddress,
}

/// A [`HostMapping`], as plain values.
pub struct HostMappingView {
    pub hostname: Seq<char>,
    pub address: HostAddress,
}

impl DeepView for HostMapping {
    type V = HostMappingView;

    open spec fn deep_view(&self) -> HostMappingView {
        HostMappingView { hostname: self.hostname@, address: self.address }
    }
}

impl HostMapping {
    /// A mapping from `hostname` to `address`.
    pub fn new(hostname: &str, address: &HostAddress) -> (r: HostMapping)
        ensures
            r.deep_view() == (HostMappingView { hostname: hostname@, address: *address }),
    {
        HostMapping { hostname: hostname.to_owned(), address: *address }
    }

    /// Parse `hostname:address`.  The hostname is what stands before the
    /// first colon.
    pub fn from_str(s: &str) -> (r: Result<HostMapping, InvalidValueError>)
        ensures
            parse_result(r) == Self::parse_model(s@),
    {
        let chars = chars_of(s);
        let n = chars.len();
        let colon = find_char(&chars, 0, n, ':');
        proof {
            assert(chars@.subrange(0, n as int) == chars@);
        }
        if colon == 0 || colon >= n {
            return Err(InvalidValueError::new("host mapping", s));
        }
        let end = find_char(&chars, colon + 1, n, '\n');
        proof {
            assert(chars@.subrange(colon + 1, n as int) == s@.skip(colon + 1));
            assert(chars@.subrange(0, colon as int) == s@.take(colon as int));
        }
        if colon + 1 == n || end < n {
            return Err(InvalidValueError::new("host mapping", s));
        }
        match parse_address(&chars, colon + 1, n) {
            Some(address) => Ok(
                HostMapping { hostname: string_of_range(&chars, 0, colon), address },
            ),
            None => Err(InvalidValueError::new("IP address", s)),
        }
    }

    /// Write `hostname:address`.
    pub fn to_string(&self) -> (r: String)
        ensures
            r@ == Self::formatted(self.deep_view()),
    {
        let mut out = self.hostname.clone();
        out.push(':');
        push_address(&mut out, &self.address);
        out
    }
}

impl Duplicate for HostMapping {
    fn duplicate(&self) -> (r: HostMapping) {
        HostMapping { hostname: self.hostname.clone(), address: self.address }
    }
}

impl InterpolatableValue for HostMapping {
    open spec fn valid(v: HostMappingView) -> bool {
        v.hostname.len() > 0 && !has_char(v.hostname, ':')
    }

    open spec fn parse_model(s: Seq<char>) -> Result<HostMappingView, InvalidValueErrorView> {
        let colon = index_of(s, ':');
        let hostname = s.take(colon);
        let rest = s.skip(colon + 1);
        if colon == s.len() || hostname.len() == 0 || rest.len() == 0 || has_char(rest, '\n') {
            Err(InvalidValueErrorView { wanted: "host mapping"@, input: s })
        } else {
            match address_value(rest) {
                Some(address) => Ok(HostMappingView { hostname, address }),
                None => Err(InvalidValueErrorView { wanted: "IP address"@, input: s }),
            }
        }
    }

    open spec fn formatted(v: HostMappingView) -> Seq<char> {
        v.hostname + seq![':'] + address_text(v.address)
    }

    proof fn lemma_parse_formatted(v: HostMappingView) {
        let s = Self::formatted(v);
        let address = address_text(v.address);
        let tail = seq![':'] + address;
        lemma_address_round_trip(v.address);
        assert(s == v.hostname + tail);
        assert(tail[0] == ':');
        assert(index_of(tail, ':') == 0);
        lemma_index_of_concat(v.hostname, tail, ':');
        assert(s.take(v.hostname.len() as int) == v.hostname);
        assert(s.skip(v.hostname.len() as int + 1) == address);
    }

    fn iv_from_str(s: &str) -> (r: Result<HostMapping, InvalidValueError>) {
        HostMapping::from_str(s)
    }

    fn fmt_iv(&self) -> (r: String) {
        self.to_string()
    }

    fn is_valid(&self) -> (r: bool) {
        !is_empty_text(self.hostname.as_str()) && lacks_char(self.hostname.as_str(), ':')
    }
}

} // verus!
