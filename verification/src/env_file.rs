//! The files that `env_file:` points to: one variable to a line.

use vstd::prelude::*;
use crate::errors::{Error, ErrorView};
use crate::helpers::decode_result;
use crate::interpolation::{ident_len, is_ident_start, is_ident_start_char, scan_name};
use crate::raw_or::{value, RawOr, RawOrView};
use crate::sorted_map::{entries_map, keys_ascend, lemma_entries_map_keys, SortedMap};
use crate::text::{chars_of, find_char, index_of, lemma_index_of, string_of_range};

verus! {

/// May `c` stand before the `#` of a comment, or make up a blank line?
pub open spec fn is_blank(c: char) -> bool {
    c == ' ' || c == '\t' || c == '\r' || c == '\x0b' || c == '\x0c'
}

/// The number of blank characters that `s` starts with.
pub open spec fn blank_len(s: Seq<char>) -> nat
    decreases s.len(),
{
    if s.len() > 0 && is_blank(s[0]) {
        1 + blank_len(s.drop_first())
    } else {
        0
    }
}

/// What a line of an env file says.
pub enum EnvLine {
    /// Nothing: the line is blank, or a comment.
    Nothing,
    /// A variable, with its value if the line gives one.
    Variable(Seq<char>, Option<Seq<char>>),
    /// The line cannot be read.
    Unreadable,
}

/// What the line `line` says.
///
/// A line of blanks says nothing, and neither does one in which a `#`
/// follows the blanks, with at most one colon before it.  Any other line
/// starts with the name of a variable, which is followed by `=` and the
/// value, or by anything else, which is not looked at.
pub open spec fn env_line(line: Seq<char>) -> EnvLine {
    let rest = line.skip(blank_len(line) as int);
    let name = ident_len(line) as int;
    if rest.len() == 0 || rest[0] == '#' || (rest.len() > 1 && rest[0] == ':' && rest[1] == '#') {
        EnvLine::Nothing
    } else if !(line.len() > 0 && is_ident_start(line[0])) {
        EnvLine::Unreadable
    } else if name < line.len() && line[name] == '=' {
        EnvLine::Variable(line.take(name), Some(line.skip(name + 1)))
    } else {
        EnvLine::Variable(line.take(name), None)
    }
}

/// `line` without the carriage return at its end, if it has one.
pub open spec fn without_carriage_return(line: Seq<char>) -> Seq<char> {
    if line.len() > 0 && line.last() == '\r' {
        line.drop_last()
    } else {
        line
    }
}

/// The variables that the text of an env file defines, given those that
/// the lines before it defined: a later line replaces an earlier one.  A
/// line that cannot be read is an error.
pub open spec fn env_vars(
    text: Seq<char>,
    so_far: Map<Seq<char>, Option<Seq<char>>>,
) -> Result<Map<Seq<char>, Option<Seq<char>>>, ErrorView>
    decreases text.len(),
{
    let end = index_of(text, '\n');
    let line = without_carriage_return(text.take(end));
    let rest = if 0 <= end < text.len() {
        text.skip(end + 1)
    } else {
        Seq::empty()
    };
    if text.len() == 0 {
        Ok(so_far)
    } else {
        match env_line(line) {
            EnvLine::Unreadable => Err(ErrorView::ParseEnv { line }),
            EnvLine::Nothing => env_vars(rest, so_far),
            EnvLine::Variable(name, value) => env_vars(rest, so_far.insert(name, value)),
        }
    }
}

/// A file pointed to by an `env_file:` field.
#[derive(Debug, PartialEq, Eq)]
pub struct EnvFile {
    /// The variables found in the file.
    vars: SortedMap<Option<String>>,
}

impl DeepView for EnvFile {
    type V = Map<Seq<char>, Option<Seq<char>>>;

    closed spec fn deep_view(&self) -> Map<Seq<char>, Option<Seq<char>>> {
        self.vars.deep_view()
    }
}

/// The index just past the blanks that start at `from`.
fn skip_blanks(chars: &Vec<char>, from: usize, to: usize) -> (end: usize)
    requires
        from <= to <= chars.len(),
    ensures
        from <= end <= to,
        end - from == blank_len(chars@.subrange(from as int, to as int)),
{
    let ghost line = chars@.subrange(from as int, to as int);
    let mut end: usize = from;
    proof {
        assert(line.skip(0) == line);
    }
    while end < to && (chars[end] == ' ' || chars[end] == '\t' || chars[end] == '\r' || chars[end]
        == '\x0b' || chars[end] == '\x0c')
        invariant
            from <= end <= to <= chars.len(),
            line == chars@.subrange(from as int, to as int),
            blank_len(line) == (end - from) + blank_len(line.skip(end - from)),
        decreases to - end,
    {
        proof {
            let s = line.skip(end - from);
            assert(s[0] == chars@[end as int]);
            assert(s.drop_first() == line.skip(end - from + 1));
        }
        end += 1;
    }
    proof {
        let s = line.skip(end - from);
        if end < to {
            assert(s[0] == chars@[end as int]);
        }
    }
    end
}

/// The variable that a line defines, if it defines one.
enum LineAt {
    Nothing,
    Unreadable,
    Variable { name_to: usize, has_value: bool },
}

/// Read the line `chars[from..to]`.
fn read_line(chars: &Vec<char>, from: usize, to: usize) -> (r: LineAt)
    requires
        from <= to <= chars.len(),
    ensures
        match env_line(chars@.subrange(from as int, to as int)) {
            EnvLine::Nothing => r is Nothing,
            EnvLine::Unreadable => r is Unreadable,
            EnvLine::Variable(name, value) => r matches LineAt::Variable { name_to, has_value }
                && from < name_to <= to && chars@.subrange(from as int, name_to as int) == name
                && match value {
                None => !has_value,
                Some(v) => has_value && name_to < to && chars@.subrange(name_to + 1, to as int)
                    == v,
            },
        },
{
    let ghost line = chars@.subrange(from as int, to as int);
    let text_from = skip_blanks(chars, from, to);
    proof {
        let rest = line.skip(text_from - from);
        assert(rest == chars@.subrange(text_from as int, to as int));
        if text_from < to {
            assert(rest[0] == chars@[text_from as int]);
        }
        if text_from + 1 < to {
            assert(rest[1] == chars@[text_from + 1]);
        }
    }
    if text_from == to || chars[text_from] == '#' || (to - text_from > 1 && chars[text_from] == ':'
        && chars[text_from + 1] == '#') {
        return LineAt::Nothing;
    }
    proof {
        assert(line[0] == chars@[from as int]);
    }
    if !is_ident_start_char(chars[from]) {
        return LineAt::Unreadable;
    }
    let name_to = scan_name(chars, from, to);
    proof {
        assert(line.take(name_to - from) == chars@.subrange(from as int, name_to as int));
        if name_to < to {
            assert(line[name_to - from] == chars@[name_to as int]);
            assert(line.skip(name_to - from + 1) == chars@.subrange(name_to + 1, to as int));
        }
    }
    if name_to < to && chars[name_to] == '=' {
        LineAt::Variable { name_to, has_value: true }
    } else {
        LineAt::Variable { name_to, has_value: false }
    }
}

impl EnvFile {
    /// Read the text of an env file.
    pub fn read(input: &str) -> (r: Result<EnvFile, Error>)
        ensures
            decode_result(r) == env_vars(input@, Map::empty()),
    {
        let chars = chars_of(input);
        let n = chars.len();
        let mut vars: SortedMap<Option<String>> = SortedMap::new();
        let _ = vars.has_no_entries();
        let mut at: usize = 0;
        proof {
            assert(chars@.skip(0) == chars@);
        }
        while at < n
            invariant
                0 <= at <= n,
                n == chars.len(),
                chars@ == input@,
                env_vars(input@, Map::empty()) == env_vars(chars@.skip(at as int), vars.deep_view()),
            decreases n - at,
        {
            let ghost text = chars@.skip(at as int);
            let end = find_char(&chars, at, n, '\n');
            proof {
                assert(chars@.subrange(at as int, n as int) == text);
                assert(text.take(end - at) == chars@.subrange(at as int, end as int));
                if end < n {
                    assert(text.skip(end - at + 1) == chars@.skip(end + 1));
                } else {
                    assert(chars@.skip(n as int) == Seq::<char>::empty());
                }
                lemma_index_of(text, '\n');
            }
            let line_to = if end > at && chars[end - 1] == '\r' {
                end - 1
            } else {
                end
            };
            proof {
                let whole = text.take(end - at);
                if whole.len() > 0 {
                    assert(whole.last() == chars@[end - 1]);
                }
                assert(without_carriage_return(whole) == chars@.subrange(
                    at as int,
                    line_to as int,
                ));
            }
            match read_line(&chars, at, line_to) {
                LineAt::Nothing => {},
                LineAt::Unreadable => {
                    return Err(Error::ParseEnv { line: string_of_range(&chars, at, line_to) });
                },
                LineAt::Variable { name_to, has_value } => {
                    let name = string_of_range(&chars, at, name_to);
                    let value = if has_value {
                        Some(string_of_range(&chars, name_to + 1, line_to))
                    } else {
                        None
                    };
                    vars.insert(name, value);
                },
            }
            at = if end < n {
                end + 1
            } else {
                n
            };
        }
        proof {
            assert(chars@.skip(n as int).len() == 0);
        }
        Ok(EnvFile { vars })
    }

    /// The variables of this file in the form that the `environment` of a
    /// service has: the values are literal, and a `$` in them is a dollar
    /// sign.
    pub fn to_environment(&self) -> (r: Result<SortedMap<Option<RawOr<String>>>, Error>)
        ensures
            r is Ok,
            r->Ok_0.deep_view() == literal_environment(self.deep_view()),
    {
        let n = self.vars.len();
        self.vars.check_order();
        let ghost entries = self.vars.entries();
        let mut out: SortedMap<Option<RawOr<String>>> = SortedMap::new();
        let _ = out.has_no_entries();
        let mut i: usize = 0;
        proof {
            assert(entries.take(0) == Seq::<(Seq<char>, Option<Seq<char>>)>::empty());
            assert(out.deep_view() =~= literal_environment(entries_map(entries.take(0))));
        }
        while i < n
            invariant
                0 <= i <= n,
                n == self.vars.count(),
                entries == self.vars.entries(),
                n == entries.len(),
                out.deep_view() == literal_environment(entries_map(entries.take(i as int))),
            decreases n - i,
        {
            proof {
                assert(entries.take(i + 1).drop_last() == entries.take(i as int));
                assert(entries.take(i + 1).last() == entries[i as int]);
            }
            let key = self.vars.key_at(i).clone();
            let literal = match self.vars.value_at(i) {
                Some(text) => Some(value(text.clone())),
                None => None,
            };
            out.insert(key, literal);
            proof {
                assert(out.deep_view() =~= literal_environment(
                    entries_map(entries.take(i + 1)),
                ));
            }
            i += 1;
        }
        proof {
            assert(entries.take(n as int) == entries);
        }
        Ok(out)
    }
}

/// The environment in which every variable of `vars` has its value as a
/// literal.
pub open spec fn literal_environment(vars: Map<Seq<char>, Option<Seq<char>>>) -> Map<
    Seq<char>,
    Option<RawOrView<Seq<char>>>,
> {
    Map::new(
        |k: Seq<char>| vars.contains_key(k),
        |k: Seq<char>|
            match vars[k] {
                Some(text) => Some(RawOrView::Value(text)),
                None => None,
            },
    )
}

} // verus!
