//! Addresses of hosts: four numbers with dots between them, or eight
//! groups of hexadecimal digits with colons between them.

use vstd::prelude::*;
use crate::errors::{InvalidValueError, InvalidValueErrorView};
use crate::text::{
    all_digits,
    all_hex_digits,
    chars_of,
    decimal_text,
    decimal_value,
    find_char,
    has_char,
    hex_digit_value,
    hex_group_value,
    hex_text,
    index_of,
    is_digit,
    lemma_decimal_text,
    lemma_decimal_text_short,
    lemma_digits_lack,
    lemma_hex_text,
    lemma_index_of,
    lemma_index_of_concat,
    parse_decimal,
    parse_hex_group,
    push_decimal,
    push_hex,
};

verus! {

/// The address of a host.
#[derive(Debug, Clone, Copy, PartialEq, Eq)]
pub enum HostAddress {
    /// Four numbers from 0 to 255, written in decimal with dots between
    /// them.
    V4(u8, u8, u8, u8),
    /// Eight groups of sixteen bits, written in hexadecimal with colons
    /// between them.  Where it is read, a run of groups that are zero may
    /// be left out between two colons, and the last two groups may be
    /// written as four numbers with dots; it is written in full, without
    /// leading zeros.
    V6 { g0: u16, g1: u16, g2: u16, g3: u16, g4: u16, g5: u16, g6: u16, g7: u16 },
}

impl DeepView for HostAddress {
    type V = HostAddress;

    open spec fn deep_view(&self) -> HostAddress {
        *self
    }
}

/// Four numbers from 0 to 255.
#[derive(Debug, Clone, Copy, PartialEq, Eq)]
pub struct Quad {
    pub a: u8,
    pub b: u8,
    pub c: u8,
    pub d: u8,
}

/// The number that `s` writes as one of the four numbers of an address:
/// one to three digits, without a leading zero, that write 255 at most.
pub open spec fn octet_value(s: Seq<char>) -> Option<u8> {
    if 1 <= s.len() <= 3 && all_digits(s) && (s.len() > 1 ==> s[0] != '0') && decimal_value(s)
        <= 255 {
        Some(decimal_value(s) as u8)
    } else {
        None
    }
}

/// The four numbers that `s` writes: four parts with a dot after each but
/// the last.
pub open spec fn quad_value(s: Seq<char>) -> Option<Quad> {
    let dot1 = index_of(s, '.');
    let rest1 = s.skip(dot1 + 1);
    let dot2 = index_of(rest1, '.');
    let rest2 = rest1.skip(dot2 + 1);
    let dot3 = index_of(rest2, '.');
    let rest3 = rest2.skip(dot3 + 1);
    let a = octet_value(s.take(dot1));
    let b = octet_value(rest1.take(dot2));
    let c = octet_value(rest2.take(dot3));
    let d = octet_value(rest3);
    if dot1 < s.len() && dot2 < rest1.len() && dot3 < rest2.len() && a is Some && b is Some
        && c is Some && d is Some {
        Some(Quad { a: a->0, b: b->0, c: c->0, d: d->0 })
    } else {
        None
    }
}

/// The text of four numbers.
pub open spec fn quad_text(q: Quad) -> Seq<char> {
    decimal_text(q.a as nat) + seq!['.'] + decimal_text(q.b as nat) + seq!['.'] + decimal_text(
        q.c as nat,
    ) + seq!['.'] + decimal_text(q.d as nat)
}

/// The two groups of sixteen bits that four numbers make.
pub open spec fn quad_groups(q: Quad) -> Seq<u16> {
    seq![(q.a * 256 + q.b) as u16, (q.c * 256 + q.d) as u16]
}

/// The index at which the first two colons in a row stand in `s`, or -1 if
/// there are none.
pub open spec fn double_colon(s: Seq<char>) -> int
    decreases s.len(),
{
    if s.len() < 2 {
        -1
    } else if s[0] == ':' && s[1] == ':' {
        0
    } else {
        let later = double_colon(s.drop_first());
        if later < 0 {
            -1
        } else {
            later + 1
        }
    }
}

/// The groups that `s` writes, with single colons between them.  If
/// `dotted` is set, the last two groups may be written as four numbers with
/// dots.
pub open spec fn groups_value(s: Seq<char>, dotted: bool) -> Option<Seq<u16>>
    decreases s.len(),
{
    let colon = index_of(s, ':');
    if 0 <= colon < s.len() {
        match (hex_group_value(s.take(colon)), groups_value(s.skip(colon + 1), dotted)) {
            (Some(g), Some(rest)) => Some(seq![g] + rest),
            _ => None,
        }
    } else if dotted && has_char(s, '.') {
        match quad_value(s) {
            Some(q) => Some(quad_groups(q)),
            None => None,
        }
    } else {
        match hex_group_value(s) {
            Some(g) => Some(seq![g]),
            None => None,
        }
    }
}

/// `n` groups that are zero.
pub open spec fn zero_groups(n: int) -> Seq<u16> {
    Seq::new(
        if n > 0 {
            n as nat
        } else {
            0
        },
        |i: int| 0u16,
    )
}

/// The eight groups that `s` writes.
///
/// Without two colons in a row, `s` writes all eight.  With them, what
/// stands before and after writes seven groups at most, and the groups
/// that are left out between the two colons are zero.
pub open spec fn eight_groups(s: Seq<char>) -> Option<Seq<u16>> {
    let gap = double_colon(s);
    let head = if gap <= 0 {
        Some(Seq::<u16>::empty())
    } else {
        groups_value(s.take(gap), false)
    };
    let tail = if gap + 2 >= s.len() {
        Some(Seq::<u16>::empty())
    } else {
        groups_value(s.skip(gap + 2), true)
    };
    if gap < 0 {
        match groups_value(s, true) {
            Some(groups) if groups.len() == 8 => Some(groups),
            _ => None,
        }
    } else {
        match (head, tail) {
            (Some(h), Some(t)) if h.len() + t.len() <= 7 => Some(
                h + zero_groups(8 - h.len() - t.len()) + t,
            ),
            _ => None,
        }
    }
}

/// The address that eight groups make.
pub open spec fn address_of_groups(g: Seq<u16>) -> HostAddress {
    HostAddress::V6 {
        g0: g[0],
        g1: g[1],
        g2: g[2],
        g3: g[3],
        g4: g[4],
        g5: g[5],
        g6: g[6],
        g7: g[7],
    }
}

/// The address that `s` writes: one of groups if `s` holds a colon, else
/// one of four numbers.
pub open spec fn address_value(s: Seq<char>) -> Option<HostAddress> {
    if has_char(s, ':') {
        match eight_groups(s) {
            Some(g) => Some(address_of_groups(g)),
            None => None,
        }
    } else {
        match quad_value(s) {
            Some(q) => Some(HostAddress::V4(q.a, q.b, q.c, q.d)),
            None => None,
        }
    }
}

/// The text of groups with colons between them.
pub open spec fn joined(groups: Seq<u16>) -> Seq<char>
    decreases groups.len(),
{
    if groups.len() == 0 {
        Seq::empty()
    } else if groups.len() == 1 {
        hex_text(groups[0] as nat)
    } else {
        hex_text(groups[0] as nat) + (seq![':'] + joined(groups.drop_first()))
    }
}

/// The text of an address.
pub open spec fn address_text(v: HostAddress) -> Seq<char> {
    match v {
        HostAddress::V4(a, b, c, d) => quad_text(Quad { a, b, c, d }),
        HostAddress::V6 { g0, g1, g2, g3, g4, g5, g6, g7 } => hex_text(g0 as nat) + seq![':']
            + hex_text(g1 as nat) + seq![':'] + hex_text(g2 as nat) + seq![':'] + hex_text(
            g3 as nat,
        ) + seq![':'] + hex_text(g4 as nat) + seq![':'] + hex_text(g5 as nat) + seq![':']
            + hex_text(g6 as nat) + seq![':'] + hex_text(g7 as nat),
    }
}

/// Read `chars[from..to]` as one of the four numbers of an address.
fn parse_octet(chars: &Vec<char>, from: usize, to: usize) -> (r: Option<u8>)
    requires
        from <= to <= chars.len(),
    ensures
        r == octet_value(chars@.subrange(from as int, to as int)),
{
    let ghost s = chars@.subrange(from as int, to as int);
    if to - from > 3 {
        return None;
    }
    if to - from > 1 && chars[from] == '0' {
        assert(s[0] == '0');
        return None;
    }
    proof {
        if to - from > 1 {
            assert(s[0] == chars@[from as int]);
        }
    }
    match parse_decimal(chars, from, to, 255) {
        Some(n) => Some(n as u8),
        None => None,
    }
}

/// Read `chars[from..to]` as four numbers with dots between them.
pub fn parse_quad(chars: &Vec<char>, from: usize, to: usize) -> (r: Option<Quad>)
    requires
        from <= to <= chars.len(),
    ensures
        r == quad_value(chars@.subrange(from as int, to as int)),
{
    let ghost s = chars@.subrange(from as int, to as int);
    let dot1 = find_char(chars, from, to, '.');
    if dot1 >= to {
        return None;
    }
    let ghost rest1 = s.skip(dot1 - from + 1);
    proof {
        assert(rest1 == chars@.subrange(dot1 + 1, to as int));
        assert(s.take(dot1 - from) == chars@.subrange(from as int, dot1 as int));
    }
    let dot2 = find_char(chars, dot1 + 1, to, '.');
    if dot2 >= to {
        return None;
    }
    let ghost rest2 = rest1.skip(dot2 - dot1);
    proof {
        assert(rest2 == chars@.subrange(dot2 + 1, to as int));
        assert(rest1.take(dot2 - dot1 - 1) == chars@.subrange(dot1 + 1, dot2 as int));
    }
    let dot3 = find_char(chars, dot2 + 1, to, '.');
    if dot3 >= to {
        return None;
    }
    proof {
        assert(rest2.skip(dot3 - dot2) == chars@.subrange(dot3 + 1, to as int));
        assert(rest2.take(dot3 - dot2 - 1) == chars@.subrange(dot2 + 1, dot3 as int));
    }
    let a = parse_octet(chars, from, dot1);
    let b = parse_octet(chars, dot1 + 1, dot2);
    let c = parse_octet(chars, dot2 + 1, dot3);
    let d = parse_octet(chars, dot3 + 1, to);
    match (a, b, c, d) {
        (Some(a), Some(b), Some(c), Some(d)) => Some(Quad { a, b, c, d }),
        _ => None,
    }
}

/// Find the first two colons in a row in `chars[from..to]`.
fn find_double_colon(chars: &Vec<char>, from: usize, to: usize) -> (r: Option<usize>)
    requires
        from <= to <= chars.len(),
    ensures
        match r {
            Some(i) => from <= i && i + 2 <= to && i - from == double_colon(
                chars@.subrange(from as int, to as int),
            ),
            None => double_colon(chars@.subrange(from as int, to as int)) < 0,
        },
{
    let ghost s = chars@.subrange(from as int, to as int);
    let mut i: usize = from;
    proof {
        assert(s.skip(0) == s);
    }
    while to - i >= 2
        invariant
            from <= i <= to <= chars.len(),
            s == chars@.subrange(from as int, to as int),
            double_colon(s) == if double_colon(s.skip(i - from)) < 0 {
                -1
            } else {
                double_colon(s.skip(i - from)) + (i - from)
            },
        decreases to - i,
    {
        proof {
            let t = s.skip(i - from);
            assert(t[0] == chars@[i as int]);
            assert(t[1] == chars@[i + 1]);
            assert(t.drop_first() == s.skip(i - from + 1));
        }
        if chars[i] == ':' && chars[i + 1] == ':' {
            return Some(i);
        }
        i += 1;
    }
    None
}

/// Read `chars[from..to]` as groups with single colons between them.
fn parse_groups(chars: &Vec<char>, from: usize, to: usize, dotted: bool) -> (r: Option<Vec<u16>>)
    requires
        from <= to <= chars.len(),
    ensures
        match groups_value(chars@.subrange(from as int, to as int), dotted) {
            Some(groups) => r is Some && r->0@ == groups,
            None => r is None,
        },
{
    let ghost whole = groups_value(chars@.subrange(from as int, to as int), dotted);
    let mut out: Vec<u16> = Vec::new();
    let mut at: usize = from;
    loop
        invariant
            from <= at <= to <= chars.len(),
            whole == groups_value(chars@.subrange(from as int, to as int), dotted),
            whole == match groups_value(chars@.subrange(at as int, to as int), dotted) {
                Some(rest) => Some(out@ + rest),
                None => None,
            },
        decreases to - at,
    {
        let ghost s = chars@.subrange(at as int, to as int);
        let colon = find_char(chars, at, to, ':');
        proof {
            lemma_index_of(s, ':');
            assert(s.take(colon - at) == chars@.subrange(at as int, colon as int));
        }
        if colon < to {
            proof {
                assert(s.skip(colon - at + 1) == chars@.subrange(colon + 1, to as int));
            }
            match parse_hex_group(chars, at, colon) {
                None => {
                    return None;
                },
                Some(g) => {
                    let ghost before = out@;
                    out.push(g);
                    proof {
                        let rest = groups_value(chars@.subrange(colon + 1, to as int), dotted);
                        if rest is Some {
                            assert(before + (seq![g] + rest->0) == before.push(g) + rest->0);
                        }
                    }
                },
            }
            at = colon + 1;
        } else {
            let dot = find_char(chars, at, to, '.');
            if dotted && dot < to {
                return match parse_quad(chars, at, to) {
                    None => None,
                    Some(q) => {
                        let ghost before = out@;
                        out.push(((q.a as u16) * 256 + q.b as u16));
                        out.push(((q.c as u16) * 256 + q.d as u16));
                        proof {
                            assert(out@ == before + quad_groups(q));
                        }
                        Some(out)
                    },
                };
            }
            return match parse_hex_group(chars, at, to) {
                None => None,
                Some(g) => {
                    let ghost before = out@;
                    out.push(g);
                    proof {
                        assert(out@ == before + seq![g]);
                    }
                    Some(out)
                },
            };
        }
    }
}

/// Read `chars[from..to]` as eight groups.
fn parse_eight_groups(chars: &Vec<char>, from: usize, to: usize) -> (r: Option<Vec<u16>>)
    requires
        from <= to <= chars.len(),
    ensures
        match eight_groups(chars@.subrange(from as int, to as int)) {
            Some(groups) => r is Some && r->0@ == groups && groups.len() == 8,
            None => r is None,
        },
{
    let ghost s = chars@.subrange(from as int, to as int);
    let gap = match find_double_colon(chars, from, to) {
        None => {
            return match parse_groups(chars, from, to, true) {
                Some(groups) => if groups.len() == 8 {
                    Some(groups)
                } else {
                    None
                },
                None => None,
            };
        },
        Some(gap) => gap,
    };
    proof {
        assert(s.take(gap - from) == chars@.subrange(from as int, gap as int));
        assert(s.skip(gap - from + 2) == chars@.subrange(gap + 2, to as int));
    }
    let mut head: Vec<u16> = if gap == from {
        Vec::new()
    } else {
        match parse_groups(chars, from, gap, false) {
            Some(head) => head,
            None => {
                return None;
            },
        }
    };
    let tail: Vec<u16> = if gap + 2 == to {
        Vec::new()
    } else {
        match parse_groups(chars, gap + 2, to, true) {
            Some(tail) => tail,
            None => {
                return None;
            },
        }
    };
    if head.len() > 7 || tail.len() > 7 - head.len() {
        return None;
    }
    let ghost h = head@;
    let missing: usize = 8 - head.len() - tail.len();
    let mut i: usize = 0;
    while i < missing
        invariant
            0 <= i <= missing,
            head@ == h + zero_groups(i as int),
        decreases missing - i,
    {
        head.push(0);
        proof {
            assert(head@ =~= h + zero_groups(i + 1));
        }
        i += 1;
    }
    let mut j: usize = 0;
    while j < tail.len()
        invariant
            0 <= j <= tail.len(),
            head@ == h + zero_groups(missing as int) + tail@.take(j as int),
        decreases tail.len() - j,
    {
        head.push(tail[j]);
        proof {
            assert(tail@.take(j + 1) == tail@.take(j as int).push(tail@[j as int]));
        }
        j += 1;
    }
    proof {
        assert(tail@.take(tail.len() as int) == tail@);
    }
    Some(head)
}

/// Read `chars[from..to]` as an address.
pub fn parse_address(chars: &Vec<char>, from: usize, to: usize) -> (r: Option<HostAddress>)
    requires
        from <= to <= chars.len(),
    ensures
        r == address_value(chars@.subrange(from as int, to as int)),
{
    let colon = find_char(chars, from, to, ':');
    if colon < to {
        match parse_eight_groups(chars, from, to) {
            Some(g) => Some(
                HostAddress::V6 {
                    g0: g[0],
                    g1: g[1],
                    g2: g[2],
                    g3: g[3],
                    g4: g[4],
                    g5: g[5],
                    g6: g[6],
                    g7: g[7],
                },
            ),
            None => None,
        }
    } else {
        match parse_quad(chars, from, to) {
            Some(q) => Some(HostAddress::V4(q.a, q.b, q.c, q.d)),
            None => None,
        }
    }
}

/// Append the text of `address` to `out`.
pub fn push_address(out: &mut String, address: &HostAddress)
    ensures
        final(out)@ == old(out)@ + address_text(*address),
{
    match address {
        HostAddress::V4(a, b, c, d) => {
            push_decimal(out, *a as u64);
            out.push('.');
            push_decimal(out, *b as u64);
            out.push('.');
            push_decimal(out, *c as u64);
            out.push('.');
            push_decimal(out, *d as u64);
        },
        HostAddress::V6 { g0, g1, g2, g3, g4, g5, g6, g7 } => {
            push_hex(out, *g0 as u32);
            out.push(':');
            push_hex(out, *g1 as u32);
            out.push(':');
            push_hex(out, *g2 as u32);
            out.push(':');
            push_hex(out, *g3 as u32);
            out.push(':');
            push_hex(out, *g4 as u32);
            out.push(':');
            push_hex(out, *g5 as u32);
            out.push(':');
            push_hex(out, *g6 as u32);
            out.push(':');
            push_hex(out, *g7 as u32);
        },
    }
    proof {
        assert(out@ =~= old(out)@ + address_text(*address));
    }
}

impl HostAddress {
    /// The address made of the four numbers `a`, `b`, `c` and `d`.
    pub fn new(a: u8, b: u8, c: u8, d: u8) -> (r: HostAddress)
        ensures
            r == HostAddress::V4(a, b, c, d),
    {
        HostAddress::V4(a, b, c, d)
    }

    /// Parse an address.
    pub fn from_str(s: &str) -> (r: Result<HostAddress, InvalidValueError>)
        ensures
            match address_value(s@) {
                Some(v) => r == Ok::<_, InvalidValueError>(v),
                None => r is Err && r->Err_0.deep_view() == (InvalidValueErrorView {
                    wanted: "IP address"@,
                    input: s@,
                }),
            },
    {
        let chars = chars_of(s);
        proof {
            assert(chars@.subrange(0, chars.len() as int) == chars@);
        }
        match parse_address(&chars, 0, chars.len()) {
            Some(v) => Ok(v),
            None => Err(InvalidValueError::new("IP address", s)),
        }
    }

    /// The text of this address.
    pub fn to_string(&self) -> (r: String)
        ensures
            r@ == address_text(*self),
    {
        let mut out = String::new();
        push_address(&mut out, self);
        assert(Seq::<char>::empty() + address_text(*self) == address_text(*self));
        out
    }
}

/// Hexadecimal digits hold no character that is not such a digit.
proof fn lemma_hex_digits_lack(s: Seq<char>, c: char)
    requires
        all_hex_digits(s),
        hex_digit_value(c) is None,
    ensures
        !has_char(s, c),
        index_of(s, c) == s.len(),
{
    lemma_index_of(s, c);
    if has_char(s, c) {
        let i = choose|i: int| 0 <= i < s.len() && #[trigger] s[i] == c;
        assert(hex_digit_value(s[i]) is Some);
    }
}

/// The digits of a group are one group.
proof fn lemma_group_round_trip(g: u16)
    ensures
        hex_group_value(hex_text(g as nat)) == Some(g),
        all_hex_digits(hex_text(g as nat)),
        hex_text(g as nat).len() > 0,
{
    lemma_hex_text(g as nat);
}

/// Is there no place in `s` at which two colons stand in a row?
pub open spec fn colons_stand_alone(s: Seq<char>) -> bool {
    forall|i: int| 0 <= i < s.len() - 1 ==> !(#[trigger] s[i] == ':' && s[i + 1] == ':')
}

/// Where no two colons stand in a row, none are found.
proof fn lemma_no_double_colon(s: Seq<char>)
    requires
        colons_stand_alone(s),
    ensures
        double_colon(s) < 0,
    decreases s.len(),
{
    if s.len() >= 2 {
        let t = s.drop_first();
        assert forall|i: int| 0 <= i < t.len() - 1 implies !(#[trigger] t[i] == ':' && t[i + 1]
            == ':') by {
            assert(t[i] == s[i + 1]);
            assert(t[i + 1] == s[i + 2]);
            assert(!(s[i + 1] == ':' && s[i + 2] == ':'));
        }
        lemma_no_double_colon(t);
        assert(!(s[0] == ':' && s[1] == ':'));
    }
}

/// The text of groups with colons between them is made of hexadecimal
/// digits and single colons, starts with a digit, and reads back as the
/// groups.
proof fn lemma_joined(groups: Seq<u16>, dotted: bool)
    requires
        groups.len() >= 1,
    ensures
        joined(groups).len() > 0,
        hex_digit_value(joined(groups)[0]) is Some,
        forall|i: int|
            0 <= i < joined(groups).len() ==> hex_digit_value(#[trigger] joined(groups)[i])
                is Some || joined(groups)[i] == ':',
        colons_stand_alone(joined(groups)),
        groups_value(joined(groups), dotted) == Some(groups),
        groups.len() >= 2 ==> has_char(joined(groups), ':'),
    decreases groups.len(),
{
    let g = groups[0];
    let h = hex_text(g as nat);
    let t = joined(groups);
    lemma_group_round_trip(g);
    lemma_hex_digits_lack(h, ':');
    lemma_hex_digits_lack(h, '.');
    if groups.len() == 1 {
        assert(t == h);
        assert(groups =~= seq![g]);
    } else {
        let rest = groups.drop_first();
        let r = joined(rest);
        lemma_joined(rest, dotted);
        let tail = seq![':'] + r;
        assert(t == h + tail);
        assert(tail[0] == ':');
        assert(index_of(tail, ':') == 0);
        lemma_index_of_concat(h, tail, ':');
        assert(t.take(h.len() as int) == h);
        assert(t.skip(h.len() as int + 1) == r);
        assert(seq![g] + rest =~= groups);
        assert(t[0] == h[0]);
        assert forall|i: int| 0 <= i < t.len() implies hex_digit_value(#[trigger] t[i]) is Some
            || t[i] == ':' by {
            if i < h.len() {
                assert(t[i] == h[i]);
            } else if i > h.len() {
                assert(t[i] == r[i - h.len() - 1]);
            }
        }
        assert forall|i: int| 0 <= i < t.len() - 1 implies !(#[trigger] t[i] == ':' && t[i + 1]
            == ':') by {
            if i < h.len() {
                assert(t[i] == h[i]);
            } else if i == h.len() {
                assert(t[i + 1] == r[0]);
            } else {
                assert(t[i] == r[i - h.len() - 1]);
                assert(t[i + 1] == r[i - h.len()]);
                assert(!(r[i - h.len() - 1] == ':' && r[i - h.len() - 1 + 1] == ':'));
            }
        }
        lemma_index_of(t, ':');
        assert(t[h.len() as int] == ':');
    }
}

/// The text of eight groups, put together from the last group to the
/// first.
spec fn groups_text_from(
    k: int,
    g: Seq<u16>,
) -> Seq<char>
    decreases 8 - k,
{
    if k >= 7 {
        hex_text(g[7] as nat)
    } else {
        hex_text(g[k] as nat) + (seq![':'] + groups_text_from(k + 1, g))
    }
}

/// Putting texts together does not depend on where one starts.
proof fn lemma_regroup(a: Seq<char>, b: Seq<char>, c: Seq<char>, d: Seq<char>)
    ensures
        ((a + b) + c) + d == a + (b + (c + d)),
{
    assert(((a + b) + c) + d =~= a + (b + (c + d)));
}

/// The text of groups with colons between them, for the groups from the
/// index `k` on.
proof fn lemma_joined_from(k: int, g: Seq<u16>)
    requires
        g.len() == 8,
        0 <= k <= 7,
    ensures
        joined(g.skip(k)) == groups_text_from(k, g),
    decreases 8 - k,
{
    let s = g.skip(k);
    assert(s[0] == g[k]);
    if k < 7 {
        lemma_joined_from(k + 1, g);
        assert(s.drop_first() =~= g.skip(k + 1));
    }
}

/// The text of an address of eight groups is the text of its groups with
/// colons between them.
proof fn lemma_groups_text(
    g0: u16,
    g1: u16,
    g2: u16,
    g3: u16,
    g4: u16,
    g5: u16,
    g6: u16,
    g7: u16,
)
    ensures
        address_text(HostAddress::V6 { g0, g1, g2, g3, g4, g5, g6, g7 }) == joined(
            seq![g0, g1, g2, g3, g4, g5, g6, g7],
        ),
{
    let g = seq![g0, g1, g2, g3, g4, g5, g6, g7];
    let c = seq![':'];
    let t7 = groups_text_from(7, g);
    let t6 = groups_text_from(6, g);
    let t5 = groups_text_from(5, g);
    let t4 = groups_text_from(4, g);
    let t3 = groups_text_from(3, g);
    let t2 = groups_text_from(2, g);
    let t1 = groups_text_from(1, g);
    let t0 = groups_text_from(0, g);
    assert(t6 == hex_text(g6 as nat) + (c + t7));
    assert(t5 == hex_text(g5 as nat) + (c + t6));
    assert(t4 == hex_text(g4 as nat) + (c + t5));
    assert(t3 == hex_text(g3 as nat) + (c + t4));
    assert(t2 == hex_text(g2 as nat) + (c + t3));
    assert(t1 == hex_text(g1 as nat) + (c + t2));
    assert(t0 == hex_text(g0 as nat) + (c + t1));
    let a0 = hex_text(g0 as nat);
    let a1 = a0 + c + hex_text(g1 as nat);
    let a2 = a1 + c + hex_text(g2 as nat);
    let a3 = a2 + c + hex_text(g3 as nat);
    let a4 = a3 + c + hex_text(g4 as nat);
    let a5 = a4 + c + hex_text(g5 as nat);
    let a6 = a5 + c + hex_text(g6 as nat);
    let a7 = a6 + c + hex_text(g7 as nat);
    lemma_regroup(a0, c, hex_text(g1 as nat), c + t2);
    assert(a1 + (c + t2) == t0);
    lemma_regroup(a1, c, hex_text(g2 as nat), c + t3);
    assert(a2 + (c + t3) == t0);
    lemma_regroup(a2, c, hex_text(g3 as nat), c + t4);
    assert(a3 + (c + t4) == t0);
    lemma_regroup(a3, c, hex_text(g4 as nat), c + t5);
    assert(a4 + (c + t5) == t0);
    lemma_regroup(a4, c, hex_text(g5 as nat), c + t6);
    assert(a5 + (c + t6) == t0);
    lemma_regroup(a5, c, hex_text(g6 as nat), c + t7);
    assert(a6 + (c + t7) == t0);
    assert(a6 + (c + t7) =~= (a6 + c) + t7);
    assert(a7 == t0);
    assert(address_text(HostAddress::V6 { g0, g1, g2, g3, g4, g5, g6, g7 }) == a7);
    lemma_joined_from(0, g);
    assert(g.skip(0) =~= g);
}

/// The digits of a number up to 255 are one of the four numbers of an
/// address.
proof fn lemma_octet_round_trip(n: u8)
    ensures
        octet_value(decimal_text(n as nat)) == Some(n),
        all_digits(decimal_text(n as nat)),
{
    lemma_decimal_text(n as nat);
    lemma_decimal_text_short(n as nat);
    let t = decimal_text(n as nat);
    if t.len() > 1 {
        assert(n >= 10);
    }
}

/// Where `a` is made of digits, the first dot of `a.b` stands between the
/// two.
proof fn lemma_split_at_dot(a: Seq<char>, b: Seq<char>)
    requires
        all_digits(a),
    ensures
        index_of(a + (seq!['.'] + b), '.') == a.len(),
        (a + (seq!['.'] + b)).take(a.len() as int) == a,
        (a + (seq!['.'] + b)).skip(a.len() as int + 1) == b,
        a.len() < (a + (seq!['.'] + b)).len(),
{
    let tail = seq!['.'] + b;
    lemma_digits_lack(a, '.');
    assert(tail[0] == '.');
    assert(index_of(tail, '.') == 0);
    lemma_index_of_concat(a, tail, '.');
}

/// The text of four numbers, put together from the last number to the
/// first.
spec fn quad_text_nested(q: Quad) -> Seq<char> {
    decimal_text(q.a as nat) + (seq!['.'] + (decimal_text(q.b as nat) + (seq!['.'] + (
    decimal_text(q.c as nat) + (seq!['.'] + decimal_text(q.d as nat))))))
}

/// The text of four numbers does not depend on where one starts to put it
/// together.
proof fn lemma_quad_text_nested(q: Quad)
    ensures
        quad_text(q) == quad_text_nested(q),
{
    let a = decimal_text(q.a as nat);
    let b = decimal_text(q.b as nat);
    let c = decimal_text(q.c as nat);
    let d = decimal_text(q.d as nat);
    let dot = seq!['.'];
    let rest2 = c + (dot + d);
    lemma_regroup(a, dot, b, dot + rest2);
    lemma_regroup(a + dot + b, dot, c, dot + d);
    assert((a + dot + b + dot + c) + (dot + d) =~= a + dot + b + dot + c + dot + d);
}

/// The text of four numbers reads back as the four numbers.
proof fn lemma_quad_round_trip(q: Quad)
    ensures
        quad_value(quad_text(q)) == Some(q),
        quad_text(q).len() > 0,
{
    let a = decimal_text(q.a as nat);
    let b = decimal_text(q.b as nat);
    let c = decimal_text(q.c as nat);
    let d = decimal_text(q.d as nat);
    let dot = seq!['.'];
    let s = quad_text(q);
    lemma_quad_text_nested(q);
    lemma_octet_round_trip(q.a);
    lemma_octet_round_trip(q.b);
    lemma_octet_round_trip(q.c);
    lemma_octet_round_trip(q.d);
    let rest3 = d;
    let rest2 = c + (dot + rest3);
    let rest1 = b + (dot + rest2);
    assert(s == a + (dot + rest1));
    lemma_split_at_dot(a, rest1);
    lemma_split_at_dot(b, rest2);
    lemma_split_at_dot(c, rest3);
    lemma_digits_lack(d, '.');
}

/// A text made of digits and dots put before another such text.
proof fn lemma_digits_and_dots(a: Seq<char>, b: Seq<char>)
    requires
        forall|i: int| 0 <= i < a.len() ==> is_digit(#[trigger] a[i]) || a[i] == '.',
        forall|i: int| 0 <= i < b.len() ==> is_digit(#[trigger] b[i]) || b[i] == '.',
    ensures
        forall|i: int| 0 <= i < (a + b).len() ==> is_digit(#[trigger] (a + b)[i]) || (a + b)[i]
            == '.',
{
    assert forall|i: int| 0 <= i < (a + b).len() implies is_digit(#[trigger] (a + b)[i]) || (a
        + b)[i] == '.' by {
        if i < a.len() {
            assert((a + b)[i] == a[i]);
        } else {
            assert((a + b)[i] == b[i - a.len()]);
        }
    }
}

/// The text of four numbers is made of digits and dots.
proof fn lemma_quad_chars(q: Quad)
    ensures
        forall|i: int|
            0 <= i < quad_text(q).len() ==> is_digit(#[trigger] quad_text(q)[i]) || quad_text(
                q,
            )[i] == '.',
{
    let a = decimal_text(q.a as nat);
    let b = decimal_text(q.b as nat);
    let c = decimal_text(q.c as nat);
    let d = decimal_text(q.d as nat);
    let dot = seq!['.'];
    lemma_quad_text_nested(q);
    lemma_decimal_text(q.a as nat);
    lemma_decimal_text(q.b as nat);
    lemma_decimal_text(q.c as nat);
    lemma_decimal_text(q.d as nat);
    assert(dot[0] == '.');
    lemma_digits_and_dots(dot, d);
    lemma_digits_and_dots(c, dot + d);
    lemma_digits_and_dots(dot, c + (dot + d));
    lemma_digits_and_dots(b, dot + (c + (dot + d)));
    lemma_digits_and_dots(dot, b + (dot + (c + (dot + d))));
    lemma_digits_and_dots(a, dot + (b + (dot + (c + (dot + d)))));
}

/// The text of an address reads back as the address.  It is one line, and
/// holds no slash.
pub proof fn lemma_address_round_trip(v: HostAddress)
    ensures
        address_value(address_text(v)) == Some(v),
        !has_char(address_text(v), '\n'),
        !has_char(address_text(v), '/'),
        address_text(v).len() > 0,
{
    let s = address_text(v);
    lemma_index_of(s, ':');
    lemma_index_of(s, '\n');
    lemma_index_of(s, '/');
    match v {
        HostAddress::V4(a, b, c, d) => {
            lemma_quad_round_trip(Quad { a, b, c, d });
            lemma_quad_chars(Quad { a, b, c, d });
        },
        HostAddress::V6 { g0, g1, g2, g3, g4, g5, g6, g7 } => {
            let groups = seq![g0, g1, g2, g3, g4, g5, g6, g7];
            lemma_groups_text(g0, g1, g2, g3, g4, g5, g6, g7);
            lemma_joined(groups, true);
            lemma_no_double_colon(s);
            assert(eight_groups(s) == Some(groups));
        },
    }
}

} // verus!
