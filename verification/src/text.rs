//! Character-level helpers shared by the parsers and formatters of this crate.
//!
//! Strings are read into a `Vec<char>` once, worked on as sequences of
//! characters, and written back one character at a time.

use vstd::prelude::*;
use vstd::std_specs::iter::IteratorSpec;

verus! {

/// `String::push` appends exactly one character to the end of the string.
pub assume_specification[ String::push ](s: &mut String, c: char)
    ensures
        final(s)@ == old(s)@.push(c),
;

/// The characters of `s`, in order.
pub fn chars_of(s: &str) -> (v: Vec<char>)
    ensures
        v@ == s@,
{
    broadcast use vstd::string::group_string_axioms;

    let mut v: Vec<char> = Vec::new();
    let mut it = s.chars();
    loop
        invariant
            v@ + it.remaining() == s@,
            it.decrease() is Some,
        decreases it.decrease()->0,
    {
        let ghost rest = it.remaining();
        match it.next() {
            Some(c) => {
                v.push(c);
                assert(v@ + it.remaining() == s@) by {
                    assert(rest == seq![c] + rest.drop_first());
                    assert(v@ + rest.drop_first() =~= (v@.drop_last() + rest));
                }
            },
            None => {
                assert(rest.len() == 0);
                assert(v@ =~= v@ + rest);
                return v;
            },
        }
    }
}

/// The string made of the characters `v[from..to]`.
pub fn string_of_range(v: &Vec<char>, from: usize, to: usize) -> (s: String)
    requires
        from <= to <= v.len(),
    ensures
        s@ == v@.subrange(from as int, to as int),
{
    let mut s = String::new();
    let mut i: usize = from;
    while i < to
        invariant
            from <= i <= to <= v.len(),
            s@ == v@.subrange(from as int, i as int),
        decreases to - i,
    {
        s.push(v[i]);
        i += 1;
        assert(v@.subrange(from as int, i as int) == v@.subrange(from as int, i - 1).push(v@[i - 1]));
    }
    s
}

/// Do `a` and `b` hold the same characters?
pub fn same_text(a: &str, b: &str) -> (r: bool)
    ensures
        r == (a@ == b@),
{
    let x = a.to_owned();
    let y = b.to_owned();
    x == y
}

/// Does `a` come before `b` in the order of dictionaries, with characters
/// ordered by their code points?
pub open spec fn text_less(a: Seq<char>, b: Seq<char>) -> bool
    decreases a.len(),
{
    if b.len() == 0 {
        false
    } else if a.len() == 0 {
        true
    } else if a[0] != b[0] {
        a[0] < b[0]
    } else {
        text_less(a.drop_first(), b.drop_first())
    }
}

/// No text comes before itself.
pub proof fn lemma_text_less_irreflexive(a: Seq<char>)
    ensures
        !text_less(a, a),
    decreases a.len(),
{
    if a.len() > 0 {
        lemma_text_less_irreflexive(a.drop_first());
    }
}

/// The order of texts is transitive.
pub proof fn lemma_text_less_transitive(a: Seq<char>, b: Seq<char>, c: Seq<char>)
    requires
        text_less(a, b),
        text_less(b, c),
    ensures
        text_less(a, c),
    decreases a.len(),
{
    if a.len() > 0 && b.len() > 0 && c.len() > 0 {
        if a[0] == b[0] && b[0] == c[0] {
            lemma_text_less_transitive(a.drop_first(), b.drop_first(), c.drop_first());
        }
    }
}

/// Of two different texts one comes before the other.
pub proof fn lemma_text_less_total(a: Seq<char>, b: Seq<char>)
    ensures
        text_less(a, b) || text_less(b, a) || a == b,
    decreases a.len(),
{
    if a.len() > 0 && b.len() > 0 {
        if a[0] == b[0] {
            lemma_text_less_total(a.drop_first(), b.drop_first());
            if a.drop_first() == b.drop_first() {
                assert(a == seq![a[0]] + a.drop_first());
                assert(b == seq![b[0]] + b.drop_first());
            }
        }
    } else if a.len() == 0 && b.len() == 0 {
        assert(a == b);
    }
}

/// Does `a` come before `b`?  See [`text_less`].
pub fn text_precedes(a: &str, b: &str) -> (r: bool)
    ensures
        r == text_less(a@, b@),
{
    let x = chars_of(a);
    let y = chars_of(b);
    let mut i: usize = 0;
    proof {
        assert(x@.skip(0) == x@);
        assert(y@.skip(0) == y@);
    }
    while i < x.len() && i < y.len()
        invariant
            0 <= i <= x.len(),
            i <= y.len(),
            x@ == a@,
            y@ == b@,
            text_less(x@, y@) == text_less(x@.skip(i as int), y@.skip(i as int)),
        decreases x.len() - i,
    {
        proof {
            let p = x@.skip(i as int);
            let q = y@.skip(i as int);
            assert(p[0] == x@[i as int]);
            assert(q[0] == y@[i as int]);
            assert(p.drop_first() == x@.skip(i + 1));
            assert(q.drop_first() == y@.skip(i + 1));
        }
        if x[i] != y[i] {
            return x[i] < y[i];
        }
        i += 1;
    }
    i < y.len()
}

/// Is `c` one of the ASCII decimal digits?
pub open spec fn is_digit(c: char) -> bool {
    '0' <= c && c <= '9'
}

/// The number that the digit `c` stands for.
pub open spec fn digit_value(c: char) -> nat {
    if c == '1' {
        1
    } else if c == '2' {
        2
    } else if c == '3' {
        3
    } else if c == '4' {
        4
    } else if c == '5' {
        5
    } else if c == '6' {
        6
    } else if c == '7' {
        7
    } else if c == '8' {
        8
    } else if c == '9' {
        9
    } else {
        0
    }
}

/// The digit that stands for `d`, where `d` is below ten.
pub open spec fn digit_char(d: nat) -> char {
    if d == 1 {
        '1'
    } else if d == 2 {
        '2'
    } else if d == 3 {
        '3'
    } else if d == 4 {
        '4'
    } else if d == 5 {
        '5'
    } else if d == 6 {
        '6'
    } else if d == 7 {
        '7'
    } else if d == 8 {
        '8'
    } else if d == 9 {
        '9'
    } else {
        '0'
    }
}

/// Is `s` made of decimal digits only?
pub open spec fn all_digits(s: Seq<char>) -> bool {
    forall|i: int| 0 <= i < s.len() ==> is_digit(#[trigger] s[i])
}

/// The number that the decimal digits `s` write.
pub open spec fn decimal_value(s: Seq<char>) -> nat
    decreases s.len(),
{
    if s.len() == 0 {
        0
    } else {
        decimal_value(s.drop_last()) * 10 + digit_value(s.last())
    }
}

/// The decimal digits that write `n`, without leading zeros.
pub open spec fn decimal_text(n: nat) -> Seq<char>
    decreases n,
{
    if n < 10 {
        seq![digit_char(n)]
    } else {
        decimal_text(n / 10).push(digit_char(n % 10))
    }
}

/// The digits of a number are digits, and write that number.
pub proof fn lemma_decimal_text(n: nat)
    ensures
        decimal_text(n).len() >= 1,
        all_digits(decimal_text(n)),
        decimal_value(decimal_text(n)) == n,
        n > 0 ==> decimal_text(n)[0] != '0',
    decreases n,
{
    let t = decimal_text(n);
    if n < 10 {
        assert(t.drop_last() == Seq::<char>::empty());
        assert(decimal_value(t) == decimal_value(t.drop_last()) * 10 + digit_value(t.last()));
    } else {
        lemma_decimal_text(n / 10);
        let front = decimal_text(n / 10);
        assert(t.drop_last() == front);
        assert(t.last() == digit_char(n % 10));
        assert(t[0] == front[0]);
        assert forall|i: int| 0 <= i < t.len() implies is_digit(#[trigger] t[i]) by {
            if i < front.len() {
                assert(t[i] == front[i]);
            }
        }
    }
}

/// A number is at least the number that a prefix of its digits writes.
pub proof fn lemma_decimal_value_grows(s: Seq<char>, k: int)
    requires
        0 <= k <= s.len(),
    ensures
        decimal_value(s.take(k)) <= decimal_value(s),
    decreases s.len() - k,
{
    if k < s.len() {
        lemma_decimal_value_grows(s, k + 1);
        assert(s.take(k + 1).drop_last() == s.take(k));
    } else {
        assert(s.take(k) == s);
    }
}

/// Executable test for [`is_digit`].
pub fn is_digit_char(c: char) -> (r: bool)
    ensures
        r == is_digit(c),
{
    '0' <= c && c <= '9'
}

/// The number that the digit `c` stands for.
fn value_of_digit(c: char) -> (d: u64)
    requires
        is_digit(c),
    ensures
        d == digit_value(c),
        d < 10,
{
    if c == '1' {
        1
    } else if c == '2' {
        2
    } else if c == '3' {
        3
    } else if c == '4' {
        4
    } else if c == '5' {
        5
    } else if c == '6' {
        6
    } else if c == '7' {
        7
    } else if c == '8' {
        8
    } else if c == '9' {
        9
    } else {
        0
    }
}

/// The digit that stands for `d`.
fn digit_of_value(d: u64) -> (c: char)
    requires
        d < 10,
    ensures
        c == digit_char(d as nat),
{
    if d == 1 {
        '1'
    } else if d == 2 {
        '2'
    } else if d == 3 {
        '3'
    } else if d == 4 {
        '4'
    } else if d == 5 {
        '5'
    } else if d == 6 {
        '6'
    } else if d == 7 {
        '7'
    } else if d == 8 {
        '8'
    } else if d == 9 {
        '9'
    } else {
        '0'
    }
}

/// What [`parse_decimal`] yields for the text `s`: the number that `s`
/// writes, if `s` is one digit or more and the number is at most `max`.
pub open spec fn parsed_decimal(s: Seq<char>, max: nat) -> Option<nat> {
    if s.len() > 0 && all_digits(s) && decimal_value(s) <= max {
        Some(decimal_value(s))
    } else {
        None
    }
}

/// Read `chars[from..to]` as a decimal number that is at most `max`.
pub fn parse_decimal(chars: &Vec<char>, from: usize, to: usize, max: u64) -> (r: Option<u64>)
    requires
        from <= to <= chars.len(),
    ensures
        r is Some <==> parsed_decimal(chars@.subrange(from as int, to as int), max as nat) is Some,
        r is Some ==> r->0 == parsed_decimal(
            chars@.subrange(from as int, to as int),
            max as nat,
        )->0,
{
    let ghost s = chars@.subrange(from as int, to as int);
    if from == to {
        return None;
    }
    let mut acc: u64 = 0;
    let mut i: usize = from;
    proof {
        assert(s.take(0) == Seq::<char>::empty());
    }
    while i < to
        invariant
            from <= i <= to <= chars.len(),
            s == chars@.subrange(from as int, to as int),
            all_digits(s.take(i - from)),
            acc == decimal_value(s.take(i - from)),
            acc <= max,
        decreases to - i,
    {
        let c = chars[i];
        let ghost next = s.take(i - from + 1);
        proof {
            assert(s[i - from] == c);
            assert(next.drop_last() == s.take(i - from));
            assert(next.last() == c);
        }
        if !is_digit_char(c) {
            return None;
        }
        let d = value_of_digit(c);
        proof {
            lemma_decimal_value_grows(s, i - from + 1);
            assert forall|j: int| 0 <= j < next.len() implies is_digit(#[trigger] next[j]) by {
                if j < next.len() - 1 {
                    assert(next[j] == s.take(i - from)[j]);
                }
            }
        }
        if d > max || acc > (max - d) / 10 {
            proof {
                if d <= max {
                    assert(acc * 10 + d > max) by (nonlinear_arith)
                        requires
                            acc > (max - d) / 10,
                            d <= max,
                    {
                    }
                }
            }
            return None;
        }
        assert(acc * 10 + d <= max) by (nonlinear_arith)
            requires
                acc <= (max - d) / 10,
                d <= max,
        {
        }
        acc = acc * 10 + d;
        i += 1;
    }
    proof {
        assert(s.take(to - from) == s);
    }
    Some(acc)
}

/// Append the decimal digits of `n` to `out`.
pub fn push_decimal(out: &mut String, n: u64)
    ensures
        final(out)@ == old(out)@ + decimal_text(n as nat),
    decreases n,
{
    if n >= 10 {
        push_decimal(out, n / 10);
    }
    out.push(digit_of_value(n % 10));
    proof {
        if n >= 10 {
            assert(old(out)@ + decimal_text(n as nat) == (old(out)@ + decimal_text(
                (n / 10) as nat,
            )).push(digit_char((n % 10) as nat)));
        } else {
            assert(old(out)@ + seq![digit_char(n as nat)] == old(out)@.push(digit_char(n as nat)));
        }
    }
}

/// The index of the first `c` in `s`, or the length of `s` if there is none.
pub open spec fn index_of(s: Seq<char>, c: char) -> int
    decreases s.len(),
{
    if s.len() == 0 {
        0
    } else if s[0] == c {
        0
    } else {
        1 + index_of(s.drop_first(), c)
    }
}

/// Does `c` occur in `s`?
pub open spec fn has_char(s: Seq<char>, c: char) -> bool {
    index_of(s, c) < s.len()
}

/// [`index_of`] is the least index at which `c` stands.
pub proof fn lemma_index_of(s: Seq<char>, c: char)
    ensures
        0 <= index_of(s, c) <= s.len(),
        forall|i: int| 0 <= i < index_of(s, c) ==> #[trigger] s[i] != c,
        index_of(s, c) < s.len() ==> s[index_of(s, c)] == c,
        has_char(s, c) <==> exists|i: int| 0 <= i < s.len() && #[trigger] s[i] == c,
    decreases s.len(),
{
    if s.len() > 0 && s[0] != c {
        let t = s.drop_first();
        lemma_index_of(t, c);
        assert forall|i: int| 0 <= i < index_of(s, c) implies #[trigger] s[i] != c by {
            if i > 0 {
                assert(s[i] == t[i - 1]);
            }
        }
        if index_of(s, c) < s.len() {
            assert(s[index_of(s, c)] == t[index_of(t, c)]);
        }
        if exists|i: int| 0 <= i < s.len() && #[trigger] s[i] == c {
            let i = choose|i: int| 0 <= i < s.len() && #[trigger] s[i] == c;
            assert(t[i - 1] == c);
        }
        if has_char(t, c) {
            assert(s[index_of(t, c) + 1] == c);
        }
    } else if s.len() > 0 {
        assert(s[0] == c);
    }
}

/// Where the first `c` stands in `a + b`: in `a` if `a` holds one, else
/// where it stands in `b`.
pub proof fn lemma_index_of_concat(a: Seq<char>, b: Seq<char>, c: char)
    ensures
        index_of(a + b, c) == if has_char(a, c) {
            index_of(a, c)
        } else {
            a.len() + index_of(b, c)
        },
    decreases a.len(),
{
    lemma_index_of(a, c);
    if a.len() == 0 {
        assert(a + b == b);
    } else {
        assert((a + b)[0] == a[0]);
        assert((a + b).drop_first() == a.drop_first() + b);
        if a[0] != c {
            lemma_index_of_concat(a.drop_first(), b, c);
            lemma_index_of(a.drop_first(), c);
        }
    }
}

/// The index of the first `c` in `chars[from..to]`, or `to` if there is
/// none.
pub fn find_char(chars: &Vec<char>, from: usize, to: usize, c: char) -> (r: usize)
    requires
        from <= to <= chars.len(),
    ensures
        from <= r <= to,
        r - from == index_of(chars@.subrange(from as int, to as int), c),
{
    let ghost s = chars@.subrange(from as int, to as int);
    let mut i: usize = from;
    proof {
        assert(s.skip(0) == s);
    }
    while i < to && chars[i] != c
        invariant
            from <= i <= to <= chars.len(),
            s == chars@.subrange(from as int, to as int),
            index_of(s, c) == (i - from) + index_of(s.skip(i - from), c),
        decreases to - i,
    {
        proof {
            let t = s.skip(i - from);
            assert(t[0] == chars@[i as int]);
            assert(t.drop_first() == s.skip(i - from + 1));
        }
        i += 1;
    }
    proof {
        let t = s.skip(i - from);
        if i < to {
            assert(t[0] == chars@[i as int]);
        }
    }
    i
}

/// Does `s` start with `prefix`?
pub open spec fn has_prefix(s: Seq<char>, prefix: Seq<char>) -> bool {
    s.len() >= prefix.len() && s.take(prefix.len() as int) == prefix
}

/// Does `chars[from..]` start with `prefix`?
pub fn starts_with(chars: &Vec<char>, from: usize, prefix: &str) -> (r: bool)
    requires
        from <= chars.len(),
    ensures
        r == has_prefix(chars@.skip(from as int), prefix@),
{
    let p = chars_of(prefix);
    let ghost s = chars@.skip(from as int);
    if chars.len() - from < p.len() {
        return false;
    }
    let mut i: usize = 0;
    while i < p.len()
        invariant
            0 <= i <= p.len(),
            from + p.len() <= chars.len(),
            p@ == prefix@,
            s == chars@.skip(from as int),
            forall|j: int| 0 <= j < i ==> s[j] == p@[j],
        decreases p.len() - i,
    {
        assert(s[i as int] == chars@[from + i]);
        if chars[from + i] != p[i] {
            proof {
                assert(s.take(p.len() as int)[i as int] != p@[i as int]);
            }
            return false;
        }
        i += 1;
    }
    proof {
        assert(s.take(p.len() as int) =~= p@);
    }
    true
}

/// What the standard parser of unsigned numbers makes of `s`: decimal
/// digits, after at most one plus sign, that write a number up to `max`.
pub open spec fn parsed_number(s: Seq<char>, max: nat) -> Option<nat> {
    if s.len() > 0 && s[0] == '+' {
        parsed_decimal(s.drop_first(), max)
    } else {
        parsed_decimal(s, max)
    }
}

/// Read `chars[from..to]` as an unsigned number that is at most `max`, the
/// way the standard parser does: a plus sign may stand before the digits.
pub fn parse_number(chars: &Vec<char>, from: usize, to: usize, max: u64) -> (r: Option<u64>)
    requires
        from <= to <= chars.len(),
    ensures
        r is Some <==> parsed_number(chars@.subrange(from as int, to as int), max as nat) is Some,
        r is Some ==> r->0 == parsed_number(
            chars@.subrange(from as int, to as int),
            max as nat,
        )->0,
{
    let ghost s = chars@.subrange(from as int, to as int);
    if from < to && chars[from] == '+' {
        proof {
            assert(s[0] == '+');
            assert(s.drop_first() == chars@.subrange(from + 1, to as int));
        }
        parse_decimal(chars, from + 1, to, max)
    } else {
        proof {
            if from < to {
                assert(s[0] == chars@[from as int]);
            }
        }
        parse_decimal(chars, from, to, max)
    }
}

/// Digits hold no character that is not a digit.
pub proof fn lemma_digits_lack(s: Seq<char>, c: char)
    requires
        all_digits(s),
        !is_digit(c),
    ensures
        !has_char(s, c),
        index_of(s, c) == s.len(),
{
    lemma_index_of(s, c);
    if has_char(s, c) {
        let i = choose|i: int| 0 <= i < s.len() && #[trigger] s[i] == c;
        assert(is_digit(s[i]));
    }
}

/// A number below a thousand is written with three digits at most.
pub proof fn lemma_decimal_text_short(n: nat)
    requires
        n < 1000,
    ensures
        decimal_text(n).len() <= 3,
{
    if n >= 10 {
        let m = n / 10;
        assert(decimal_text(n).len() == decimal_text(m).len() + 1);
        if m >= 10 {
            assert(decimal_text(m).len() == decimal_text(m / 10).len() + 1);
            assert(m / 10 < 10);
        }
    }
}

/// The index of the last `c` in `s`, or -1 if there is none.
pub open spec fn last_index_of(s: Seq<char>, c: char) -> int
    decreases s.len(),
{
    if s.len() == 0 {
        -1
    } else if s.last() == c {
        s.len() - 1
    } else {
        last_index_of(s.drop_last(), c)
    }
}

/// [`last_index_of`] is the greatest index at which `c` stands.
pub proof fn lemma_last_index_of(s: Seq<char>, c: char)
    ensures
        -1 <= last_index_of(s, c) < s.len(),
        forall|i: int| last_index_of(s, c) < i < s.len() ==> #[trigger] s[i] != c,
        last_index_of(s, c) >= 0 ==> s[last_index_of(s, c)] == c,
        last_index_of(s, c) >= 0 <==> has_char(s, c),
    decreases s.len(),
{
    lemma_index_of(s, c);
    if s.len() > 0 {
        if s.last() == c {
            assert(s[s.len() - 1] == c);
        } else {
            let t = s.drop_last();
            lemma_last_index_of(t, c);
            lemma_index_of(t, c);
            assert forall|i: int| last_index_of(s, c) < i < s.len() implies #[trigger] s[i]
                != c by {
                if i < s.len() - 1 {
                    assert(s[i] == t[i]);
                }
            }
            if last_index_of(s, c) >= 0 {
                assert(s[last_index_of(s, c)] == t[last_index_of(t, c)]);
            }
            if has_char(s, c) {
                let i = choose|i: int| 0 <= i < s.len() && #[trigger] s[i] == c;
                assert(t[i] == c);
            }
        }
    }
}

/// Where the last `c` stands in `a + b`: in `b` if `b` holds one, else
/// where it stands in `a`.
pub proof fn lemma_last_index_of_concat(a: Seq<char>, b: Seq<char>, c: char)
    ensures
        last_index_of(a + b, c) == if has_char(b, c) {
            a.len() + last_index_of(b, c)
        } else {
            last_index_of(a, c)
        },
    decreases b.len(),
{
    lemma_last_index_of(b, c);
    if b.len() == 0 {
        assert(a + b == a);
    } else {
        assert((a + b).last() == b.last());
        assert((a + b).drop_last() == a + b.drop_last());
        if b.last() != c {
            lemma_last_index_of_concat(a, b.drop_last(), c);
            lemma_last_index_of(b.drop_last(), c);
        }
    }
}

/// The index of the last `c` in `chars[from..to]`, if there is one.
pub fn find_last_char(chars: &Vec<char>, from: usize, to: usize, c: char) -> (r: Option<usize>)
    requires
        from <= to <= chars.len(),
    ensures
        match r {
            Some(i) => from <= i < to && i - from == last_index_of(
                chars@.subrange(from as int, to as int),
                c,
            ),
            None => last_index_of(chars@.subrange(from as int, to as int), c) == -1,
        },
{
    let ghost s = chars@.subrange(from as int, to as int);
    let mut i: usize = to;
    proof {
        assert(s.take(s.len() as int) == s);
    }
    while i > from
        invariant
            from <= i <= to <= chars.len(),
            s == chars@.subrange(from as int, to as int),
            last_index_of(s, c) == last_index_of(s.take(i - from), c),
        decreases i,
    {
        proof {
            let t = s.take(i - from);
            assert(t.last() == chars@[i - 1]);
            assert(t.drop_last() == s.take(i - from - 1));
        }
        if chars[i - 1] == c {
            return Some(i - 1);
        }
        i -= 1;
    }
    None
}

/// Sets of characters that the parsers of this crate scan for.
#[derive(Debug, Clone, Copy, PartialEq, Eq)]
pub enum CharClass {
    /// The decimal digits.
    Digit,
    /// Every character but the line break.
    NotLineBreak,
    /// Every character but `:` and `@`.
    NotColonAt,
    /// Every character but `/`, `:` and `@`.
    NotSlashColonAt,
    /// Every character but `/`, `:`, `@` and `.`.
    NotSlashColonAtDot,
    /// Every character but `#`.
    NotHash,
}

/// Is `c` in the set `class`?
pub open spec fn in_class(class: CharClass, c: char) -> bool {
    match class {
        CharClass::Digit => is_digit(c),
        CharClass::NotLineBreak => c != '\n',
        CharClass::NotColonAt => c != ':' && c != '@',
        CharClass::NotSlashColonAt => c != '/' && c != ':' && c != '@',
        CharClass::NotSlashColonAtDot => c != '/' && c != ':' && c != '@' && c != '.',
        CharClass::NotHash => c != '#',
    }
}

/// The length of the longest prefix of `s` made of characters of `class`.
pub open spec fn span_len(s: Seq<char>, class: CharClass) -> nat
    decreases s.len(),
{
    if s.len() > 0 && in_class(class, s[0]) {
        1 + span_len(s.drop_first(), class)
    } else {
        0
    }
}

/// A span is made of characters of the class, and ends at the end of the
/// text or before a character that is not of the class.
pub proof fn lemma_span_len(s: Seq<char>, class: CharClass)
    ensures
        span_len(s, class) <= s.len(),
        forall|i: int| 0 <= i < span_len(s, class) ==> in_class(class, #[trigger] s[i]),
        span_len(s, class) < s.len() ==> !in_class(class, s[span_len(s, class) as int]),
    decreases s.len(),
{
    if s.len() > 0 && in_class(class, s[0]) {
        let t = s.drop_first();
        lemma_span_len(t, class);
        assert forall|i: int| 0 <= i < span_len(s, class) implies in_class(
            class,
            #[trigger] s[i],
        ) by {
            if i > 0 {
                assert(s[i] == t[i - 1]);
            }
        }
        if span_len(s, class) < s.len() {
            assert(s[span_len(s, class) as int] == t[span_len(t, class) as int]);
        }
    }
}

/// Executable test for [`in_class`].
pub fn char_in_class(class: CharClass, c: char) -> (r: bool)
    ensures
        r == in_class(class, c),
{
    match class {
        CharClass::Digit => '0' <= c && c <= '9',
        CharClass::NotLineBreak => c != '\n',
        CharClass::NotColonAt => c != ':' && c != '@',
        CharClass::NotSlashColonAt => c != '/' && c != ':' && c != '@',
        CharClass::NotSlashColonAtDot => c != '/' && c != ':' && c != '@' && c != '.',
        CharClass::NotHash => c != '#',
    }
}

/// The index just past the span of `class` that starts at `from`.
pub fn scan_class(chars: &Vec<char>, from: usize, class: CharClass) -> (end: usize)
    requires
        from <= chars.len(),
    ensures
        from <= end <= chars.len(),
        end - from == span_len(chars@.skip(from as int), class),
{
    let mut end: usize = from;
    while end < chars.len() && char_in_class(class, chars[end])
        invariant
            from <= end <= chars.len(),
            span_len(chars@.skip(from as int), class) == (end - from) + span_len(
                chars@.skip(end as int),
                class,
            ),
        decreases chars.len() - end,
    {
        proof {
            let s = chars@.skip(end as int);
            assert(s[0] == chars@[end as int]);
            assert(s.drop_first() == chars@.skip(end + 1));
        }
        end += 1;
    }
    proof {
        let s = chars@.skip(end as int);
        if end < chars.len() {
            assert(s[0] == chars@[end as int]);
        }
    }
    end
}

/// Does `s` hold no `c`?
pub fn lacks_char(s: &str, c: char) -> (r: bool)
    ensures
        r == !has_char(s@, c),
{
    let chars = chars_of(s);
    let i = find_char(&chars, 0, chars.len(), c);
    proof {
        assert(chars@.subrange(0, chars.len() as int) == chars@);
    }
    i == chars.len()
}

/// Is `s` the empty text?
pub fn is_empty_text(s: &str) -> (r: bool)
    ensures
        r == (s@.len() == 0),
{
    let chars = chars_of(s);
    chars.len() == 0
}

/// Is `s` made of characters of `class` only?
pub open spec fn all_in_class(s: Seq<char>, class: CharClass) -> bool {
    span_len(s, class) == s.len()
}

/// A text of the class, followed by a text that does not start with a
/// character of the class, is the span of the whole.
pub proof fn lemma_span_of_whole(a: Seq<char>, b: Seq<char>, class: CharClass)
    requires
        all_in_class(a, class),
        b.len() == 0 || !in_class(class, b[0]),
    ensures
        span_len(a + b, class) == a.len(),
    decreases a.len(),
{
    if a.len() == 0 {
        assert(a + b == b);
    } else {
        lemma_span_len(a, class);
        assert((a + b)[0] == a[0]);
        assert((a + b).drop_first() == a.drop_first() + b);
        lemma_span_of_whole(a.drop_first(), b, class);
    }
}

/// A span that ends inside a text is not made longer by what follows the
/// text.
pub proof fn lemma_span_ends_inside(a: Seq<char>, b: Seq<char>, class: CharClass)
    requires
        span_len(a, class) < a.len(),
    ensures
        span_len(a + b, class) == span_len(a, class),
    decreases a.len(),
{
    assert((a + b)[0] == a[0]);
    assert((a + b).drop_first() == a.drop_first() + b);
    if in_class(class, a[0]) {
        lemma_span_ends_inside(a.drop_first(), b, class);
    }
}

/// A text is made of characters of a class only if each of its characters
/// is of the class.
pub proof fn lemma_all_in_class(s: Seq<char>, class: CharClass)
    ensures
        all_in_class(s, class) <==> forall|i: int| 0 <= i < s.len() ==> in_class(
            class,
            #[trigger] s[i],
        ),
{
    lemma_span_len(s, class);
    if forall|i: int| 0 <= i < s.len() ==> in_class(class, #[trigger] s[i]) {
        if span_len(s, class) < s.len() {
            assert(in_class(class, s[span_len(s, class) as int]));
        }
    }
}

/// Is every character of `s` of the class `class`?
pub fn is_all_in_class(s: &str, class: CharClass) -> (r: bool)
    ensures
        r == all_in_class(s@, class),
{
    let chars = chars_of(s);
    proof {
        assert(chars@.skip(0) == chars@);
    }
    scan_class(&chars, 0, class) == chars.len()
}

/// The number that the hexadecimal digit `c` stands for, if it is one.
pub open spec fn hex_digit_value(c: char) -> Option<nat> {
    if '0' <= c && c <= '9' {
        Some(digit_value(c))
    } else if c == 'a' || c == 'A' {
        Some(10)
    } else if c == 'b' || c == 'B' {
        Some(11)
    } else if c == 'c' || c == 'C' {
        Some(12)
    } else if c == 'd' || c == 'D' {
        Some(13)
    } else if c == 'e' || c == 'E' {
        Some(14)
    } else if c == 'f' || c == 'F' {
        Some(15)
    } else {
        None
    }
}

/// The hexadecimal digit, in lower case, that stands for `d`, where `d` is
/// below sixteen.
pub open spec fn hex_digit_char(d: nat) -> char {
    if d < 10 {
        digit_char(d)
    } else if d == 10 {
        'a'
    } else if d == 11 {
        'b'
    } else if d == 12 {
        'c'
    } else if d == 13 {
        'd'
    } else if d == 14 {
        'e'
    } else {
        'f'
    }
}

/// Is `s` made of hexadecimal digits only?
pub open spec fn all_hex_digits(s: Seq<char>) -> bool {
    forall|i: int| 0 <= i < s.len() ==> hex_digit_value(#[trigger] s[i]) is Some
}

/// The number that the hexadecimal digits `s` write.
pub open spec fn hex_value(s: Seq<char>) -> nat
    decreases s.len(),
{
    if s.len() == 0 {
        0
    } else {
        hex_value(s.drop_last()) * 16 + match hex_digit_value(s.last()) {
            Some(d) => d,
            None => 0,
        }
    }
}

/// The hexadecimal digits, in lower case, that write `n`, without leading
/// zeros.
pub open spec fn hex_text(n: nat) -> Seq<char>
    decreases n,
{
    if n < 16 {
        seq![hex_digit_char(n)]
    } else {
        hex_text(n / 16).push(hex_digit_char(n % 16))
    }
}

/// The hexadecimal digits of a number are such digits, and write that
/// number.
pub proof fn lemma_hex_text(n: nat)
    ensures
        hex_text(n).len() >= 1,
        all_hex_digits(hex_text(n)),
        hex_value(hex_text(n)) == n,
        n < 0x10000 ==> hex_text(n).len() <= 4,
    decreases n,
{
    let t = hex_text(n);
    if n < 16 {
        assert(t.drop_last() == Seq::<char>::empty());
        assert(hex_value(t) == hex_value(t.drop_last()) * 16 + hex_digit_value(t.last())->0);
    } else {
        lemma_hex_text(n / 16);
        let front = hex_text(n / 16);
        assert(t.drop_last() == front);
        assert(t.last() == hex_digit_char(n % 16));
        assert forall|i: int| 0 <= i < t.len() implies hex_digit_value(#[trigger] t[i])
            is Some by {
            if i < front.len() {
                assert(t[i] == front[i]);
            }
        }
    }
    lemma_hex_text_len(n);
}

/// A number is written with as many hexadecimal digits as its size asks
/// for.
proof fn lemma_hex_text_len(n: nat)
    ensures
        n < 0x10 ==> hex_text(n).len() <= 1,
        n < 0x100 ==> hex_text(n).len() <= 2,
        n < 0x1000 ==> hex_text(n).len() <= 3,
        n < 0x10000 ==> hex_text(n).len() <= 4,
    decreases n,
{
    if n >= 16 {
        lemma_hex_text_len(n / 16);
        assert(hex_text(n).len() == hex_text(n / 16).len() + 1);
    }
}

/// The number that the hexadecimal digit `c` stands for, if it is one.
fn value_of_hex_digit(c: char) -> (r: Option<u32>)
    ensures
        match hex_digit_value(c) {
            Some(d) => r == Some(d as u32) && d < 16,
            None => r is None,
        },
{
    if '0' <= c && c <= '9' {
        Some(value_of_digit(c) as u32)
    } else if c == 'a' || c == 'A' {
        Some(10)
    } else if c == 'b' || c == 'B' {
        Some(11)
    } else if c == 'c' || c == 'C' {
        Some(12)
    } else if c == 'd' || c == 'D' {
        Some(13)
    } else if c == 'e' || c == 'E' {
        Some(14)
    } else if c == 'f' || c == 'F' {
        Some(15)
    } else {
        None
    }
}

/// The lower-case hexadecimal digit that stands for `d`.
fn hex_digit_of_value(d: u32) -> (c: char)
    requires
        d < 16,
    ensures
        c == hex_digit_char(d as nat),
{
    if d < 10 {
        digit_of_value(d as u64)
    } else if d == 10 {
        'a'
    } else if d == 11 {
        'b'
    } else if d == 12 {
        'c'
    } else if d == 13 {
        'd'
    } else if d == 14 {
        'e'
    } else {
        'f'
    }
}

/// The number that one to four hexadecimal digits write.
pub open spec fn hex_group_value(s: Seq<char>) -> Option<u16> {
    if 1 <= s.len() <= 4 && all_hex_digits(s) {
        Some(hex_value(s) as u16)
    } else {
        None
    }
}

/// Four hexadecimal digits at most write a number below 65536.
pub proof fn lemma_hex_value_bound(s: Seq<char>)
    requires
        all_hex_digits(s),
    ensures
        s.len() <= 1 ==> hex_value(s) < 0x10,
        s.len() <= 2 ==> hex_value(s) < 0x100,
        s.len() <= 3 ==> hex_value(s) < 0x1000,
        s.len() <= 4 ==> hex_value(s) < 0x10000,
    decreases s.len(),
{
    if s.len() > 0 {
        let front = s.drop_last();
        assert forall|i: int| 0 <= i < front.len() implies hex_digit_value(#[trigger] front[i])
            is Some by {
            assert(front[i] == s[i]);
        }
        lemma_hex_value_bound(front);
        assert(hex_digit_value(s[s.len() - 1]) is Some);
    }
}

/// Read `chars[from..to]` as one to four hexadecimal digits.
pub fn parse_hex_group(chars: &Vec<char>, from: usize, to: usize) -> (r: Option<u16>)
    requires
        from <= to <= chars.len(),
    ensures
        r == hex_group_value(chars@.subrange(from as int, to as int)),
{
    let ghost s = chars@.subrange(from as int, to as int);
    if from == to || to - from > 4 {
        return None;
    }
    let mut acc: u32 = 0;
    let mut i: usize = from;
    proof {
        assert(s.take(0) == Seq::<char>::empty());
    }
    while i < to
        invariant
            from <= i <= to <= chars.len(),
            to - from <= 4,
            s == chars@.subrange(from as int, to as int),
            all_hex_digits(s.take(i - from)),
            acc == hex_value(s.take(i - from)),
            acc < 0x10000,
        decreases to - i,
    {
        let c = chars[i];
        let ghost next = s.take(i - from + 1);
        proof {
            assert(s[i - from] == c);
            assert(next.drop_last() == s.take(i - from));
            assert(next.last() == c);
        }
        match value_of_hex_digit(c) {
            None => {
                return None;
            },
            Some(d) => {
                proof {
                    assert forall|j: int| 0 <= j < next.len() implies hex_digit_value(
                        #[trigger] next[j],
                    ) is Some by {
                        if j < next.len() - 1 {
                            assert(next[j] == s.take(i - from)[j]);
                        }
                    }
                    lemma_hex_value_bound(next);
                    lemma_hex_value_bound(s.take(i - from));
                }
                acc = acc * 16 + d;
            },
        }
        i += 1;
    }
    proof {
        assert(s.take(to - from) == s);
    }
    Some(acc as u16)
}

/// Append the lower-case hexadecimal digits of `n` to `out`.
pub fn push_hex(out: &mut String, n: u32)
    ensures
        final(out)@ == old(out)@ + hex_text(n as nat),
    decreases n,
{
    if n >= 16 {
        push_hex(out, n / 16);
    }
    out.push(hex_digit_of_value(n % 16));
    proof {
        if n >= 16 {
            assert(old(out)@ + hex_text(n as nat) == (old(out)@ + hex_text((n / 16) as nat)).push(
                hex_digit_char((n % 16) as nat),
            ));
        } else {
            assert(old(out)@ + seq![hex_digit_char(n as nat)] == old(out)@.push(
                hex_digit_char(n as nat),
            ));
        }
    }
}

} // verus!
