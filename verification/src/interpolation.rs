//! Interpolation of shell-style variables into strings.
//!
//! A string may refer to a variable as `$NAME` or `${NAME}`, and may hold a
//! literal dollar sign written as `$$`.  Any other use of `$` is malformed.
//! One grammar, [`expand`], backs interpolation, unescaping and validation,
//! so the three can never disagree on what is well formed.

use vstd::prelude::*;
use vstd::string::StringExecFns;
use crate::errors::{InterpolationError, InterpolationErrorView};
use crate::text::{chars_of, same_text, string_of_range};

verus! {

/// A source of variable values.
pub trait Environment {
    /// The variables that this environment defines, with their values.
    spec fn vars(&self) -> Map<Seq<char>, Seq<char>>;

    /// Look up the variable `key`.
    fn var(&self, key: &str) -> (r: Option<String>)
        ensures
            r is Some <==> self.vars().contains_key(key@),
            r is Some ==> r->0@ == self.vars()[key@],
    ;
}

/// An environment that defines no variable at all.
pub struct EmptyEnvironment {}

impl Environment for EmptyEnvironment {
    open spec fn vars(&self) -> Map<Seq<char>, Seq<char>> {
        Map::empty()
    }

    fn var(&self, key: &str) -> (r: Option<String>) {
        None
    }
}

/// The variables that a list of bindings defines: a later binding of a
/// name replaces an earlier one.
pub open spec fn bound_vars(bindings: Seq<(Seq<char>, Seq<char>)>) -> Map<Seq<char>, Seq<char>>
    decreases bindings.len(),
{
    if bindings.len() == 0 {
        Map::empty()
    } else {
        bound_vars(bindings.drop_last()).insert(bindings.last().0, bindings.last().1)
    }
}

/// An environment that defines the variables it was given, and no others.
#[derive(Debug, Default)]
pub struct FixedEnvironment {
    bindings: Vec<(String, String)>,
}

impl FixedEnvironment {
    /// The bindings made so far, oldest first.
    pub closed spec fn bindings(&self) -> Seq<(Seq<char>, Seq<char>)> {
        self.bindings@.map_values(|b: (String, String)| (b.0@, b.1@))
    }

    /// An environment that defines nothing.
    pub fn new() -> (env: FixedEnvironment)
        ensures
            env.bindings() == Seq::<(Seq<char>, Seq<char>)>::empty(),
            env.vars() == Map::<Seq<char>, Seq<char>>::empty(),
    {
        let env = FixedEnvironment { bindings: Vec::new() };
        assert(env.bindings() == Seq::<(Seq<char>, Seq<char>)>::empty());
        env
    }

    /// Define `name` as `value`, in place of any earlier value.
    pub fn set(&mut self, name: &str, value: &str)
        ensures
            final(self).bindings() == old(self).bindings().push((name@, value@)),
            final(self).vars() == old(self).vars().insert(name@, value@),
    {
        self.bindings.push((name.to_owned(), value.to_owned()));
        proof {
            let after = self.bindings();
            assert(after == old(self).bindings().push((name@, value@)));
            assert(after.drop_last() == old(self).bindings());
        }
    }
}

impl Environment for FixedEnvironment {
    open spec fn vars(&self) -> Map<Seq<char>, Seq<char>> {
        bound_vars(self.bindings())
    }

    fn var(&self, key: &str) -> (r: Option<String>) {
        let mut i: usize = self.bindings.len();
        proof {
            assert(self.bindings().take(i as int) == self.bindings());
        }
        while i > 0
            invariant
                0 <= i <= self.bindings.len(),
                self.bindings().len() == self.bindings.len(),
                self.vars().contains_key(key@) <==> bound_vars(
                    self.bindings().take(i as int),
                ).contains_key(key@),
                self.vars().contains_key(key@) ==> self.vars()[key@] == bound_vars(
                    self.bindings().take(i as int),
                )[key@],
            decreases i,
        {
            i -= 1;
            proof {
                let prefix = self.bindings().take(i + 1);
                assert(prefix.drop_last() == self.bindings().take(i as int));
                assert(prefix.last() == (self.bindings[i as int].0@, self.bindings[i as int].1@));
            }
            if same_text(self.bindings[i].0.as_str(), key) {
                return Some(self.bindings[i].1.clone());
            }
        }
        None
    }
}

/// What to do with the variable references in a string.
#[derive(Debug, Clone, Copy, PartialEq, Eq)]
pub enum Mode {
    /// Replace each reference by the variable's value.
    Interpolate,
    /// Turn `$$` into `$`, and fail on any reference to a variable.
    Unescape,
    /// Check the syntax only; the result's text is of no use.
    Validate,
}

/// May `c` start a variable's name?
pub open spec fn is_ident_start(c: char) -> bool {
    ('A' <= c && c <= 'Z') || ('a' <= c && c <= 'z') || c == '_'
}

/// May `c` occur in a variable's name?
pub open spec fn is_ident_char(c: char) -> bool {
    is_ident_start(c) || ('0' <= c && c <= '9')
}

/// The length of the longest prefix of `s` made of name characters.
pub open spec fn ident_len(s: Seq<char>) -> nat
    decreases s.len(),
{
    if s.len() > 0 && is_ident_char(s[0]) {
        1 + ident_len(s.drop_first())
    } else {
        0
    }
}

/// What a `$` introduces.
pub enum TokenKind {
    /// `$$`: a literal dollar sign.
    Escape,
    /// `$NAME` or `${NAME}`: a reference to the variable `NAME`.
    Variable(Seq<char>),
    /// Anything else.
    Malformed,
}

/// A token and the number of characters it takes up.
pub struct Token {
    pub kind: TokenKind,
    pub used: nat,
}

/// The token at the start of `s`, where `s` starts with a `$`.
///
/// A malformed token takes up the `$` alone.
pub open spec fn token(s: Seq<char>) -> Token {
    let after = s.drop_first();
    if after.len() == 0 {
        Token { kind: TokenKind::Malformed, used: 1 }
    } else if after[0] == '$' {
        Token { kind: TokenKind::Escape, used: 2 }
    } else if is_ident_start(after[0]) {
        let n = ident_len(after);
        Token { kind: TokenKind::Variable(after.take(n as int)), used: 1 + n }
    } else if after[0] == '{' {
        let inner = after.drop_first();
        let n = ident_len(inner);
        if inner.len() > n && is_ident_start(inner[0]) && inner[n as int] == '}' {
            Token { kind: TokenKind::Variable(inner.take(n as int)), used: n + 3 }
        } else {
            Token { kind: TokenKind::Malformed, used: 1 }
        }
    } else {
        Token { kind: TokenKind::Malformed, used: 1 }
    }
}

/// Why a string could not be expanded.
pub enum Problem {
    /// A `$` introduces nothing that the grammar knows.
    InvalidSyntax,
    /// A variable is referred to where none may be looked up.
    InterpolationDisabled,
    /// The named variable is not defined.
    UndefinedVariable(Seq<char>),
}

/// The result of expanding a string: the text that came out, and the
/// problem that was met last, if any was.
pub struct Expansion {
    pub text: Seq<char>,
    pub problem: Option<Problem>,
}

/// `later` if it names a problem, else `earlier`: of two problems the one
/// met later in the string is the one reported.
pub open spec fn later_problem(earlier: Option<Problem>, later: Option<Problem>) -> Option<
    Problem,
> {
    if later is Some {
        later
    } else {
        earlier
    }
}

/// What a reference to the variable `name` expands to in the given mode.
pub open spec fn expand_variable(
    name: Seq<char>,
    mode: Mode,
    vars: Map<Seq<char>, Seq<char>>,
) -> Expansion {
    match mode {
        Mode::Unescape => Expansion {
            text: Seq::empty(),
            problem: Some(Problem::InterpolationDisabled),
        },
        Mode::Validate => Expansion { text: Seq::empty(), problem: None },
        Mode::Interpolate => if vars.contains_key(name) {
            Expansion { text: vars[name], problem: None }
        } else {
            Expansion { text: Seq::empty(), problem: Some(Problem::UndefinedVariable(name)) }
        },
    }
}

/// What the token at the start of `s` expands to, where `s` starts with `$`.
pub open spec fn expand_token(
    s: Seq<char>,
    mode: Mode,
    vars: Map<Seq<char>, Seq<char>>,
) -> Expansion {
    match token(s).kind {
        TokenKind::Escape => Expansion { text: seq!['$'], problem: None },
        TokenKind::Malformed => Expansion {
            text: Seq::empty(),
            problem: Some(Problem::InvalidSyntax),
        },
        TokenKind::Variable(name) => expand_variable(name, mode, vars),
    }
}

/// The grammar: expand `s` from left to right.
pub open spec fn expand(s: Seq<char>, mode: Mode, vars: Map<Seq<char>, Seq<char>>) -> Expansion
    decreases s.len(),
{
    if s.len() == 0 {
        Expansion { text: Seq::empty(), problem: None }
    } else if s[0] != '$' {
        let rest = expand(s.drop_first(), mode, vars);
        Expansion { text: seq![s[0]] + rest.text, problem: rest.problem }
    } else {
        let used = token(s).used;
        if 1 <= used <= s.len() {
            let here = expand_token(s, mode, vars);
            let rest = expand(s.skip(used as int), mode, vars);
            Expansion {
                text: here.text + rest.text,
                problem: later_problem(here.problem, rest.problem),
            }
        } else {
            Expansion { text: Seq::empty(), problem: None }
        }
    }
}

/// The error that reports `problem`, met while expanding `input`.
pub open spec fn problem_error(problem: Problem, input: Seq<char>) -> InterpolationErrorView {
    match problem {
        Problem::InvalidSyntax => InterpolationErrorView::InvalidSyntax(input),
        Problem::InterpolationDisabled => InterpolationErrorView::InterpolationDisabled(input),
        Problem::UndefinedVariable(name) => InterpolationErrorView::UndefinedVariable(name),
    }
}

/// What expanding the whole of `input` yields: the text, or the error for
/// the last problem met.
pub open spec fn outcome(input: Seq<char>, mode: Mode, vars: Map<Seq<char>, Seq<char>>) -> Result<
    Seq<char>,
    InterpolationErrorView,
> {
    let e = expand(input, mode, vars);
    match e.problem {
        None => Ok(e.text),
        Some(problem) => Err(problem_error(problem, input)),
    }
}

/// A result that holds a string or an error, as plain values.
pub open spec fn text_result(r: Result<String, InterpolationError>) -> Result<
    Seq<char>,
    InterpolationErrorView,
> {
    match r {
        Ok(s) => Ok(s@),
        Err(e) => Err(e.deep_view()),
    }
}

/// Every token takes up at least its `$`, and no more than there is.
pub proof fn lemma_token_used(s: Seq<char>)
    requires
        s.len() > 0,
    ensures
        1 <= token(s).used <= s.len(),
{
    let after = s.drop_first();
    lemma_ident_len_bound(after);
    if after.len() > 0 {
        lemma_ident_len_bound(after.drop_first());
    }
}

/// A run of name characters is no longer than the string it starts.
pub proof fn lemma_ident_len_bound(s: Seq<char>)
    ensures
        ident_len(s) <= s.len(),
        forall|i: int| 0 <= i < ident_len(s) ==> is_ident_char(#[trigger] s[i]),
        ident_len(s) < s.len() ==> !is_ident_char(s[ident_len(s) as int]),
    decreases s.len(),
{
    if s.len() > 0 && is_ident_char(s[0]) {
        let t = s.drop_first();
        lemma_ident_len_bound(t);
        assert forall|i: int| 0 <= i < ident_len(s) implies is_ident_char(#[trigger] s[i]) by {
            if i > 0 {
                assert(s[i] == t[i - 1]);
            }
        }
        if ident_len(s) < s.len() {
            assert(s[ident_len(s) as int] == t[ident_len(t) as int]);
        }
    }
}

/// Executable test for [`is_ident_start`].
pub fn is_ident_start_char(c: char) -> (r: bool)
    ensures
        r == is_ident_start(c),
{
    ('A' <= c && c <= 'Z') || ('a' <= c && c <= 'z') || c == '_'
}

/// Executable test for [`is_ident_char`].
pub fn is_ident_char_char(c: char) -> (r: bool)
    ensures
        r == is_ident_char(c),
{
    is_ident_start_char(c) || ('0' <= c && c <= '9')
}

/// The index just past the run of name characters that starts at `from`.
fn scan_ident(chars: &Vec<char>, from: usize) -> (end: usize)
    requires
        from <= chars.len(),
    ensures
        from <= end <= chars.len(),
        end - from == ident_len(chars@.skip(from as int)),
{
    let mut end: usize = from;
    while end < chars.len() && is_ident_char_char(chars[end])
        invariant
            from <= end <= chars.len(),
            ident_len(chars@.skip(from as int)) == (end - from) + ident_len(
                chars@.skip(end as int),
            ),
        decreases chars.len() - end,
    {
        proof {
            let s = chars@.skip(end as int);
            assert(s[0] == chars@[end as int]);
            assert(s.drop_first() == chars@.skip(end + 1));
        }
        end += 1;
    }
    proof {
        let s = chars@.skip(end as int);
        if end < chars.len() {
            assert(s[0] == chars@[end as int]);
        }
    }
    end
}

/// The index just past the run of name characters that starts at `from`
/// and ends before `to` at the latest.
pub fn scan_name(chars: &Vec<char>, from: usize, to: usize) -> (end: usize)
    requires
        from <= to <= chars.len(),
    ensures
        from <= end <= to,
        end - from == ident_len(chars@.subrange(from as int, to as int)),
{
    let ghost line = chars@.subrange(from as int, to as int);
    let mut end: usize = from;
    proof {
        assert(line.skip(0) == line);
    }
    while end < to && is_ident_char_char(chars[end])
        invariant
            from <= end <= to <= chars.len(),
            line == chars@.subrange(from as int, to as int),
            ident_len(line) == (end - from) + ident_len(line.skip(end - from)),
        decreases to - end,
    {
        proof {
            let s = line.skip(end - from);
            assert(s[0] == chars@[end as int]);
            assert(s.drop_first() == line.skip(end - from + 1));
        }
        end += 1;
    }
    proof {
        let s = line.skip(end - from);
        if end < to {
            assert(s[0] == chars@[end as int]);
        }
    }
    end
}

/// What [`read_token`] found: the kind of token, where the variable's name
/// lies if it is a reference, and where the token ends.
struct TokenAt {
    escape: bool,
    malformed: bool,
    name_from: usize,
    name_to: usize,
    next: usize,
}

/// Read the token that starts with the `$` at index `i`.
fn read_token(chars: &Vec<char>, i: usize) -> (t: TokenAt)
    requires
        i < chars.len(),
        chars[i as int] == '$',
    ensures
        i < t.next <= chars.len(),
        t.next - i == token(chars@.skip(i as int)).used,
        t.escape <==> token(chars@.skip(i as int)).kind is Escape,
        t.malformed <==> token(chars@.skip(i as int)).kind is Malformed,
        !t.escape && !t.malformed ==> t.name_from <= t.name_to <= chars.len() && token(
            chars@.skip(i as int),
        ).kind == TokenKind::Variable(chars@.subrange(t.name_from as int, t.name_to as int)),
{
    let n = chars.len();
    let ghost s = chars@.skip(i as int);
    let ghost after = s.drop_first();
    proof {
        assert(after == chars@.skip(i + 1));
        lemma_token_used(s);
    }
    let malformed = TokenAt { escape: false, malformed: true, name_from: 0, name_to: 0, next: i + 1 };
    if i + 1 >= n {
        return malformed;
    }
    let d = chars[i + 1];
    assert(after[0] == d);
    if d == '$' {
        TokenAt { escape: true, malformed: false, name_from: 0, name_to: 0, next: i + 2 }
    } else if is_ident_start_char(d) {
        let end = scan_ident(chars, i + 1);
        proof {
            assert(after.take((end - (i + 1)) as int) == chars@.subrange(i + 1, end as int));
        }
        TokenAt { escape: false, malformed: false, name_from: i + 1, name_to: end, next: end }
    } else if d == '{' {
        let ghost inner = after.drop_first();
        proof {
            assert(inner == chars@.skip(i + 2));
            lemma_ident_len_bound(inner);
        }
        if i + 2 >= n {
            return malformed;
        }
        assert(inner[0] == chars@[i + 2]);
        if !is_ident_start_char(chars[i + 2]) {
            return malformed;
        }
        let end = scan_ident(chars, i + 2);
        if end >= n {
            return malformed;
        }
        assert(inner[(end - (i + 2)) as int] == chars@[end as int]);
        if chars[end] != '}' {
            return malformed;
        }
        proof {
            assert(inner.take((end - (i + 2)) as int) == chars@.subrange(i + 2, end as int));
        }
        TokenAt { escape: false, malformed: false, name_from: i + 2, name_to: end, next: end + 1 }
    } else {
        malformed
    }
}

/// Does `failure` report `problem`, met while expanding `input`?
spec fn reports(
    failure: Option<InterpolationError>,
    problem: Option<Problem>,
    input: Seq<char>,
) -> bool {
    match failure {
        None => problem is None,
        Some(e) => problem is Some && e.deep_view() == problem_error(problem->0, input),
    }
}

/// Expand `input` in the given mode.  All three of [`interpolate_env`],
/// [`unescape_str`] and [`validate`] go through this one function.  The
/// environment is consulted in [`Mode::Interpolate`] only.
pub fn interpolate_helper<E: Environment>(input: &str, mode: Mode, env: &E) -> (r: Result<
    String,
    InterpolationError,
>)
    ensures
        text_result(r) == outcome(input@, mode, env.vars()),
{
    let chars = chars_of(input);
    let n = chars.len();
    let mut out = String::new();
    let mut failure: Option<InterpolationError> = None;
    let ghost mut met: Option<Problem> = None;
    let ghost whole = expand(input@, mode, env.vars());
    let mut i: usize = 0;
    proof {
        assert(chars@.skip(0) == chars@);
    }
    while i < n
        invariant
            chars@ == input@,
            n == chars.len(),
            0 <= i <= n,
            whole == expand(input@, mode, env.vars()),
            whole.text == out@ + expand(chars@.skip(i as int), mode, env.vars()).text,
            whole.problem == later_problem(
                met,
                expand(chars@.skip(i as int), mode, env.vars()).problem,
            ),
            reports(failure, met, input@),
        decreases n - i,
    {
        let ghost s = chars@.skip(i as int);
        let ghost before = out@;
        let c = chars[i];
        assert(s[0] == c);
        if c != '$' {
            out.push(c);
            proof {
                assert(s.drop_first() == chars@.skip(i + 1));
                let rest = expand(s.drop_first(), mode, env.vars());
                assert(before + (seq![c] + rest.text) == before.push(c) + rest.text);
            }
            i += 1;
        } else {
            let t = read_token(&chars, i);
            proof {
                assert(s.skip((t.next - i) as int) == chars@.skip(t.next as int));
            }
            let ghost here = expand_token(s, mode, env.vars());
            let ghost rest = expand(chars@.skip(t.next as int), mode, env.vars());
            if t.malformed {
                failure = Some(InterpolationError::InvalidSyntax(String::from_str(input)));
                proof {
                    met = Some(Problem::InvalidSyntax);
                }
            } else if t.escape {
                out.push('$');
            } else {
                match mode {
                    Mode::Validate => {},
                    Mode::Unescape => {
                        failure = Some(
                            InterpolationError::InterpolationDisabled(String::from_str(input)),
                        );
                        proof {
                            met = Some(Problem::InterpolationDisabled);
                        }
                    },
                    Mode::Interpolate => {
                        let name = string_of_range(&chars, t.name_from, t.name_to);
                        match env.var(name.as_str()) {
                            Some(val) => {
                                out.append(val.as_str());
                            },
                            None => {
                                failure = Some(InterpolationError::UndefinedVariable(name));
                                proof {
                                    met = Some(Problem::UndefinedVariable(name@));
                                }
                            },
                        }
                    },
                }
            }
            proof {
                assert(out@ == before + here.text);
                assert(before + (here.text + rest.text) == (before + here.text) + rest.text);
            }
            i = t.next;
        }
    }
    proof {
        assert(chars@.skip(n as int).len() == 0);
        assert(whole.text == out@ + Seq::<char>::empty());
        assert(out@ + Seq::<char>::empty() == out@);
    }
    match failure {
        Some(e) => Err(e),
        None => Ok(out),
    }
}

/// Interpolate the variables of `env` into `input`.
///
/// `$NAME` and `${NAME}` are replaced by the value of `NAME`, and `$$` by a
/// single `$`.  A variable that `env` does not define is an error, and so
/// is a `$` followed by anything else.
pub fn interpolate_env<E: Environment>(input: &str, env: &E) -> (r: Result<
    String,
    InterpolationError,
>)
    ensures
        text_result(r) == outcome(input@, Mode::Interpolate, env.vars()),
{
    interpolate_helper(input, Mode::Interpolate, env)
}

/// What [`unescape_str`] yields for `input`.
pub open spec fn unescaped(input: Seq<char>) -> Result<Seq<char>, InterpolationErrorView> {
    outcome(input, Mode::Unescape, Map::empty())
}

/// Turn each `$$` of `input` into `$`, and fail if `input` refers to a
/// variable or is malformed.  No environment is consulted.
pub fn unescape_str(input: &str) -> (r: Result<String, InterpolationError>)
    ensures
        text_result(r) == unescaped(input@),
{
    let env = EmptyEnvironment {  };
    interpolate_helper(input, Mode::Unescape, &env)
}

/// Is the interpolation syntax of `input` well formed?
pub open spec fn well_formed(input: Seq<char>) -> bool {
    expand(input, Mode::Validate, Map::empty()).problem is None
}

/// Check that every `$` of `input` introduces an escape or a reference to a
/// variable.  No environment is consulted, and no variable needs to be
/// defined.
pub fn validate(input: &str) -> (r: Result<(), InterpolationError>)
    ensures
        r is Ok <==> well_formed(input@),
        r is Err ==> r->Err_0.deep_view() == InterpolationErrorView::InvalidSyntax(input@),
{
    let env = EmptyEnvironment {  };
    proof {
        lemma_validate_problem(input@);
    }
    match interpolate_helper(input, Mode::Validate, &env) {
        Ok(_) => Ok(()),
        Err(e) => Err(e),
    }
}

/// `s` with every `$` doubled.
pub open spec fn escaped(s: Seq<char>) -> Seq<char>
    decreases s.len(),
{
    if s.len() == 0 {
        s
    } else if s[0] == '$' {
        seq!['$', '$'] + escaped(s.drop_first())
    } else {
        seq![s[0]] + escaped(s.drop_first())
    }
}

/// Escape a literal string: every `$` becomes `$$`, so that unescaping or
/// interpolating the result gives `input` back.
pub fn escape_str(input: &str) -> (r: String)
    ensures
        r@ == escaped(input@),
{
    let chars = chars_of(input);
    let mut out = String::new();
    let mut i: usize = 0;
    proof {
        assert(chars@.skip(0) == chars@);
    }
    while i < chars.len()
        invariant
            0 <= i <= chars.len(),
            chars@ == input@,
            escaped(input@) == out@ + escaped(chars@.skip(i as int)),
        decreases chars.len() - i,
    {
        let ghost s = chars@.skip(i as int);
        let ghost before = out@;
        let c = chars[i];
        proof {
            assert(s[0] == c);
            assert(s.drop_first() == chars@.skip(i + 1));
        }
        if c == '$' {
            out.push('$');
            out.push('$');
            assert(out@ == before + seq!['$', '$']);
        } else {
            out.push(c);
            assert(out@ == before + seq![c]);
        }
        proof {
            let rest = escaped(chars@.skip(i + 1));
            assert(before + ((out@.skip(before.len() as int)) + rest) == out@ + rest);
            assert(out@.skip(before.len() as int) == if c == '$' {
                seq!['$', '$']
            } else {
                seq![c]
            });
        }
        i += 1;
    }
    proof {
        assert(escaped(chars@.skip(i as int)) == Seq::<char>::empty());
        assert(out@ + Seq::<char>::empty() == out@);
    }
    out
}

/// Validation can fail for one reason only: malformed syntax.
pub proof fn lemma_validate_problem(s: Seq<char>)
    ensures
        expand(s, Mode::Validate, Map::empty()).problem is None || expand(
            s,
            Mode::Validate,
            Map::empty(),
        ).problem == Some(Problem::InvalidSyntax),
    decreases s.len(),
{
    if s.len() == 0 {
    } else if s[0] != '$' {
        lemma_validate_problem(s.drop_first());
    } else {
        lemma_token_used(s);
        lemma_validate_problem(s.skip(token(s).used as int));
    }
}

/// Unescaping and validation never look at the variables.
pub proof fn lemma_vars_only_matter_when_interpolating(
    s: Seq<char>,
    mode: Mode,
    vars1: Map<Seq<char>, Seq<char>>,
    vars2: Map<Seq<char>, Seq<char>>,
)
    requires
        mode != Mode::Interpolate,
    ensures
        expand(s, mode, vars1) == expand(s, mode, vars2),
    decreases s.len(),
{
    if s.len() == 0 {
    } else if s[0] != '$' {
        lemma_vars_only_matter_when_interpolating(s.drop_first(), mode, vars1, vars2);
    } else {
        lemma_token_used(s);
        lemma_vars_only_matter_when_interpolating(
            s.skip(token(s).used as int),
            mode,
            vars1,
            vars2,
        );
    }
}

/// Validation gives the verdict that interpolation gives on syntax, whatever
/// the environment: a string that interpolates is well formed, and a well
/// formed string fails to interpolate only for want of a variable.
pub proof fn lemma_validate_agrees_with_interpolate(s: Seq<char>, vars: Map<Seq<char>, Seq<char>>)
    ensures
        expand(s, Mode::Interpolate, vars).problem is None ==> well_formed(s),
        well_formed(s) ==> expand(s, Mode::Interpolate, vars).problem is None || expand(
            s,
            Mode::Interpolate,
            vars,
        ).problem->0 is UndefinedVariable,
        !well_formed(s) ==> outcome(s, Mode::Interpolate, vars) is Err,
    decreases s.len(),
{
    if s.len() == 0 {
    } else if s[0] != '$' {
        lemma_validate_agrees_with_interpolate(s.drop_first(), vars);
    } else {
        lemma_token_used(s);
        lemma_validate_agrees_with_interpolate(s.skip(token(s).used as int), vars);
    }
}

/// A string that can be unescaped is well formed, and interpolates to the
/// same text in every environment: it refers to no variable.
pub proof fn lemma_unescaped_needs_no_environment(s: Seq<char>, vars: Map<Seq<char>, Seq<char>>)
    requires
        unescaped(s) is Ok,
    ensures
        well_formed(s),
        outcome(s, Mode::Interpolate, vars) == unescaped(s),
    decreases s.len(),
{
    lemma_unescape_is_interpolation_without_references(s, vars);
}

/// The inductive form of [`lemma_unescaped_needs_no_environment`].
proof fn lemma_unescape_is_interpolation_without_references(
    s: Seq<char>,
    vars: Map<Seq<char>, Seq<char>>,
)
    requires
        expand(s, Mode::Unescape, Map::empty()).problem is None,
    ensures
        expand(s, Mode::Validate, Map::empty()).problem is None,
        expand(s, Mode::Interpolate, vars) == expand(s, Mode::Unescape, Map::empty()),
    decreases s.len(),
{
    if s.len() == 0 {
    } else if s[0] != '$' {
        lemma_unescape_is_interpolation_without_references(s.drop_first(), vars);
    } else {
        lemma_token_used(s);
        lemma_unescape_is_interpolation_without_references(s.skip(token(s).used as int), vars);
    }
}

/// A well-formed string that cannot be unescaped fails to unescape because
/// it refers to a variable.
pub proof fn lemma_well_formed_unescape_failure(s: Seq<char>)
    requires
        well_formed(s),
        unescaped(s) is Err,
    ensures
        unescaped(s) == Err::<Seq<char>, _>(InterpolationErrorView::InterpolationDisabled(s)),
{
    lemma_unescape_problem(s);
}

/// The inductive form of [`lemma_well_formed_unescape_failure`].
proof fn lemma_unescape_problem(s: Seq<char>)
    requires
        expand(s, Mode::Validate, Map::empty()).problem is None,
    ensures
        expand(s, Mode::Unescape, Map::empty()).problem is None || expand(
            s,
            Mode::Unescape,
            Map::empty(),
        ).problem == Some(Problem::InterpolationDisabled),
    decreases s.len(),
{
    if s.len() == 0 {
    } else if s[0] != '$' {
        lemma_unescape_problem(s.drop_first());
    } else {
        lemma_token_used(s);
        lemma_unescape_problem(s.skip(token(s).used as int));
    }
}

/// Unescaping undoes escaping: for every text `t`, unescaping `escaped(t)`
/// succeeds and gives `t` back.
pub proof fn lemma_unescape_escaped(t: Seq<char>)
    ensures
        unescaped(escaped(t)) == Ok::<_, InterpolationErrorView>(t),
    decreases t.len(),
{
    lemma_expand_escaped(t);
}

/// The inductive form of [`lemma_unescape_escaped`].
proof fn lemma_expand_escaped(t: Seq<char>)
    ensures
        expand(escaped(t), Mode::Unescape, Map::empty()) == (Expansion { text: t, problem: None }),
    decreases t.len(),
{
    let s = escaped(t);
    let e = expand(s, Mode::Unescape, Map::empty());
    if t.len() == 0 {
        assert(e.text == t);
    } else {
        let rest = escaped(t.drop_first());
        lemma_expand_escaped(t.drop_first());
        if t[0] == '$' {
            assert(s == seq!['$', '$'] + rest);
            assert(s[0] == '$');
            assert(s.drop_first()[0] == '$');
            assert(token(s).used == 2);
            assert(token(s).kind is Escape);
            assert(s.skip(2) == rest);
            assert(seq!['$'] + t.drop_first() == t);
            assert(e.text == t);
        } else {
            assert(s == seq![t[0]] + rest);
            assert(s[0] == t[0]);
            assert(s.drop_first() == rest);
            assert(seq![t[0]] + t.drop_first() == t);
            assert(e.text == t);
        }
    }
}

/// Escaping undoes unescaping: if `s` unescapes to `t`, then `escaped(t)`
/// is `s` again.
pub proof fn lemma_escape_unescaped(s: Seq<char>)
    requires
        unescaped(s) is Ok,
    ensures
        escaped(unescaped(s)->Ok_0) == s,
    decreases s.len(),
{
    lemma_escaped_expand(s);
}

/// The inductive form of [`lemma_escape_unescaped`].
proof fn lemma_escaped_expand(s: Seq<char>)
    requires
        expand(s, Mode::Unescape, Map::empty()).problem is None,
    ensures
        escaped(expand(s, Mode::Unescape, Map::empty()).text) == s,
    decreases s.len(),
{
    let vars = Map::<Seq<char>, Seq<char>>::empty();
    let t = expand(s, Mode::Unescape, vars).text;
    if s.len() == 0 {
    } else if s[0] != '$' {
        let rest = expand(s.drop_first(), Mode::Unescape, vars);
        lemma_escaped_expand(s.drop_first());
        assert(t == seq![s[0]] + rest.text);
        assert(t.drop_first() == rest.text);
        assert(seq![s[0]] + s.drop_first() == s);
    } else {
        lemma_token_used(s);
        assert(token(s).kind is Escape);
        let rest = expand(s.skip(2), Mode::Unescape, vars);
        lemma_escaped_expand(s.skip(2));
        assert(t == seq!['$'] + rest.text);
        assert(t.drop_first() == rest.text);
        assert(s.drop_first()[0] == s[1]);
        assert(seq!['$', '$'] + s.skip(2) == s);
    }
}

} // verus!
