//! Sizes of memory, written with the suffixes `b`, `k`, `m` and `g`.

use vstd::prelude::*;
use crate::errors::{InvalidValueError, InvalidValueErrorView};
use crate::merge_override::Duplicate;
use crate::raw_or::{parse_result, InterpolatableValue};
use crate::text::{
    all_digits,
    chars_of,
    decimal_text,
    decimal_value,
    is_digit,
    lemma_decimal_text,
    parse_decimal,
    push_decimal,
};

verus! {

/// The number of bytes in a kilobyte.
pub const KILO: usize = 1024;

/// The number of bytes in a megabyte.
pub const MEGA: usize = 1048576;

/// The number of bytes in a gigabyte.
pub const GIGA: usize = 1073741824;

/// The size of a block of memory, in bytes.
#[derive(Debug, PartialEq, Eq, Clone, Copy)]
pub struct MemorySize(usize);

impl DeepView for MemorySize {
    type V = nat;

    closed spec fn deep_view(&self) -> nat {
        self.0 as nat
    }
}

/// How many bytes the unit letter `c` stands for, if it is one.
pub open spec fn unit_bytes(c: char) -> Option<nat> {
    if c == 'b' {
        Some(1)
    } else if c == 'k' {
        Some(KILO as nat)
    } else if c == 'm' {
        Some(MEGA as nat)
    } else if c == 'g' {
        Some(GIGA as nat)
    } else {
        None
    }
}

/// The digits of a size: all of `s` but its unit letter, if it ends in one.
pub open spec fn size_digits(s: Seq<char>) -> Seq<char> {
    if s.len() > 0 && unit_bytes(s.last()) is Some {
        s.drop_last()
    } else {
        s
    }
}

/// How many bytes the unit of the size `s` stands for: one, if `s` does not
/// end in a unit letter.
pub open spec fn size_unit(s: Seq<char>) -> nat {
    if s.len() > 0 && unit_bytes(s.last()) is Some {
        unit_bytes(s.last())->0
    } else {
        1
    }
}

impl MemorySize {
    /// A size of `bytes` bytes.
    pub fn bytes(bytes: usize) -> (r: MemorySize)
        ensures
            r.deep_view() == bytes,
    {
        MemorySize(bytes)
    }

    /// A size of `kb` kilobytes.
    pub fn kb(kb: usize) -> (r: MemorySize)
        requires
            kb * KILO <= usize::MAX,
        ensures
            r.deep_view() == kb * KILO,
    {
        MemorySize(kb * KILO)
    }

    /// A size of `mb` megabytes.
    pub fn mb(mb: usize) -> (r: MemorySize)
        requires
            mb * MEGA <= usize::MAX,
        ensures
            r.deep_view() == mb * MEGA,
    {
        MemorySize(mb * MEGA)
    }

    /// A size of `gb` gigabytes.
    pub fn gb(gb: usize) -> (r: MemorySize)
        requires
            gb * GIGA <= usize::MAX,
        ensures
            r.deep_view() == gb * GIGA,
    {
        MemorySize(gb * GIGA)
    }

    /// This size in bytes.
    pub fn to_bytes(self) -> (r: usize)
        ensures
            r == self.deep_view(),
    {
        self.0
    }

    /// Parse a size: decimal digits, then at most one of the unit letters
    /// `b`, `k`, `m` and `g`.  A size that does not fit the machine's word
    /// is an error.
    pub fn from_str(s: &str) -> (r: Result<MemorySize, InvalidValueError>)
        ensures
            parse_result(r) == Self::parse_model(s@),
    {
        let chars = chars_of(s);
        let n = chars.len();
        if n == 0 {
            return Err(InvalidValueError::new("memory size", s));
        }
        let last = chars[n - 1];
        assert(chars@.last() == last);
        let (digits_end, unit): (usize, usize) = if last == 'b' {
            (n - 1, 1)
        } else if last == 'k' {
            (n - 1, KILO)
        } else if last == 'm' {
            (n - 1, MEGA)
        } else if last == 'g' {
            (n - 1, GIGA)
        } else {
            (n, 1)
        };
        proof {
            assert(chars@.subrange(0, digits_end as int) == size_digits(s@));
            assert(unit == size_unit(s@));
        }
        match parse_decimal(&chars, 0, digits_end, usize::MAX as u64) {
            None => Err(InvalidValueError::new("memory size", s)),
            Some(count) => {
                if count > (usize::MAX / unit) as u64 {
                    proof {
                        assert(count * unit > usize::MAX) by (nonlinear_arith)
                            requires
                                count > usize::MAX / unit,
                                unit > 0,
                        {
                        }
                    }
                    Err(InvalidValueError::new("memory size", s))
                } else {
                    proof {
                        assert(count * unit <= usize::MAX) by (nonlinear_arith)
                            requires
                                count <= usize::MAX / unit,
                                unit > 0,
                        {
                        }
                    }
                    Ok(MemorySize(count as usize * unit))
                }
            },
        }
    }

    /// This size as text: in the largest unit that divides it.  Bytes are
    /// written without a unit letter, and so is zero.
    pub fn to_string(&self) -> (r: String)
        ensures
            r@ == Self::formatted(self.deep_view()),
    {
        let bytes = self.0;
        let mut out = String::new();
        if bytes == 0 {
            out.push('0');
            proof {
                assert(out@ == seq!['0']);
            }
        } else if bytes % GIGA == 0 {
            push_decimal(&mut out, (bytes / GIGA) as u64);
            out.push('g');
        } else if bytes % MEGA == 0 {
            push_decimal(&mut out, (bytes / MEGA) as u64);
            out.push('m');
        } else if bytes % KILO == 0 {
            push_decimal(&mut out, (bytes / KILO) as u64);
            out.push('k');
        } else {
            push_decimal(&mut out, bytes as u64);
        }
        proof {
            assert(Seq::<char>::empty() + decimal_text((bytes / GIGA) as nat) == decimal_text(
                (bytes / GIGA) as nat,
            ));
            assert(Seq::<char>::empty() + decimal_text((bytes / MEGA) as nat) == decimal_text(
                (bytes / MEGA) as nat,
            ));
            assert(Seq::<char>::empty() + decimal_text((bytes / KILO) as nat) == decimal_text(
                (bytes / KILO) as nat,
            ));
            assert(Seq::<char>::empty() + decimal_text(bytes as nat) == decimal_text(bytes as nat));
        }
        out
    }
}

impl Duplicate for MemorySize {
    fn duplicate(&self) -> (r: MemorySize) {
        *self
    }
}

impl InterpolatableValue for MemorySize {
    open spec fn valid(v: nat) -> bool {
        v <= usize::MAX
    }

    open spec fn parse_model(s: Seq<char>) -> Result<nat, InvalidValueErrorView> {
        let digits = size_digits(s);
        let bytes = decimal_value(digits) * size_unit(s);
        if digits.len() > 0 && all_digits(digits) && bytes <= usize::MAX {
            Ok(bytes)
        } else {
            Err(InvalidValueErrorView { wanted: "memory size"@, input: s })
        }
    }

    open spec fn formatted(v: nat) -> Seq<char> {
        if v == 0 {
            seq!['0']
        } else if v % (GIGA as nat) == 0 {
            decimal_text(v / (GIGA as nat)).push('g')
        } else if v % (MEGA as nat) == 0 {
            decimal_text(v / (MEGA as nat)).push('m')
        } else if v % (KILO as nat) == 0 {
            decimal_text(v / (KILO as nat)).push('k')
        } else {
            decimal_text(v)
        }
    }

    proof fn lemma_parse_formatted(v: nat) {
        let s = Self::formatted(v);
        if v == 0 {
            assert(s.last() == '0');
            assert(size_digits(s) == s);
            assert(s.drop_last() == Seq::<char>::empty());
            assert(decimal_value(s) == decimal_value(s.drop_last()) * 10 + 0);
            assert(all_digits(s));
        } else if v % (GIGA as nat) == 0 {
            lemma_parse_with_unit(v, GIGA as nat, 'g');
        } else if v % (MEGA as nat) == 0 {
            lemma_parse_with_unit(v, MEGA as nat, 'm');
        } else if v % (KILO as nat) == 0 {
            lemma_parse_with_unit(v, KILO as nat, 'k');
        } else {
            lemma_decimal_text(v);
            assert(is_digit(s[s.len() - 1]));
            assert(size_digits(s) == s);
            assert(size_unit(s) == 1);
        }
    }

    fn iv_from_str(s: &str) -> (r: Result<MemorySize, InvalidValueError>) {
        MemorySize::from_str(s)
    }

    fn fmt_iv(&self) -> (r: String) {
        self.to_string()
    }

    fn is_valid(&self) -> (r: bool) {
        true
    }
}

/// A whole number of units, written with the unit's letter, reads back as
/// the same number of bytes.
proof fn lemma_parse_with_unit(v: nat, unit: nat, letter: char)
    requires
        v <= usize::MAX,
        unit > 0,
        v % unit == 0,
        unit_bytes(letter) == Some(unit),
    ensures
        MemorySize::parse_model(decimal_text(v / unit).push(letter)) == Ok::<
            nat,
            InvalidValueErrorView,
        >(v),
{
    let q = v / unit;
    let s = decimal_text(q).push(letter);
    lemma_decimal_text(q);
    assert(s.last() == letter);
    assert(s.drop_last() == decimal_text(q));
    assert(size_digits(s) == decimal_text(q));
    assert(size_unit(s) == unit);
    assert(q * unit == v) by (nonlinear_arith)
        requires
            q == v / unit,
            v % unit == 0,
            unit > 0,
    {
    }
}

} // verus!
