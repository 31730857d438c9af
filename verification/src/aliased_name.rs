//! Names of outside resources, with the alias they have in a container.

use vstd::prelude::*;
use crate::errors::{InvalidValueError, InvalidValueErrorView};
use crate::merge_override::Duplicate;
use crate::raw_or::{parse_result, InterpolatableValue};
use crate::text::{
    chars_of,
    find_char,
    has_char,
    index_of,
    is_empty_text,
    lacks_char,
    lemma_index_of,
    lemma_index_of_concat,
    string_of_range,
};

verus! {

/// The name of an external resource, and an optional local alias to which
/// it is mapped inside a container.  It is written `name` or `name:alias`.
#[derive(Debug, Clone, Eq, PartialEq)]
pub struct AliasedName {
    /// The name of the external resource outside the container.
    pub name: String,
    /// An optional alias for the external resource inside the container.
    /// If it is missing, the external name is used.
    pub alias: Option<String>,
}

/// An [`AliasedName`], as plain values.
pub struct AliasedNameView {
    pub name: Seq<char>,
    pub alias: Option<Seq<char>>,
}

impl DeepView for AliasedName {
    type V = AliasedNameView;

    open spec fn deep_view(&self) -> AliasedNameView {
        AliasedNameView {
            name: self.name@,
            alias: match self.alias {
                Some(a) => Some(a@),
                None => None,
            },
        }
    }
}

/// Is `s` a name that can stand on one side of the colon?  It is not
/// empty and holds no colon.
pub open spec fn is_plain_name(s: Seq<char>) -> bool {
    s.len() > 0 && !has_char(s, ':')
}

/// Does a colon in the name or in the alias make `v` impossible to write
/// down?
pub open spec fn has_misplaced_colon(v: AliasedNameView) -> bool {
    has_char(v.name, ':') || (v.alias matches Some(a) && has_char(a, ':'))
}

/// The text of this value as `Debug` formats it.  Nothing is claimed of
/// the text.
#[verifier::external_body]
fn debug_text(v: &AliasedName) -> String {
    format!("{:?}", v)
}

/// Does `s` hold a colon?
fn holds_colon(s: &str) -> (r: bool)
    ensures
        r == has_char(s@, ':'),
{
    let chars = chars_of(s);
    let i = find_char(&chars, 0, chars.len(), ':');
    proof {
        assert(chars@.subrange(0, chars.len() as int) == chars@);
    }
    i < chars.len()
}

impl AliasedName {
    /// Make an aliased name from a name and an optional alias.  Neither may
    /// hold a colon.
    pub fn new(name: &str, alias: Option<&str>) -> (r: Result<AliasedName, InvalidValueError>)
        ensures
            r is Err <==> has_char(name@, ':') || (alias matches Some(a) && has_char(a@, ':')),
            r is Ok ==> r->Ok_0.deep_view() == (AliasedNameView {
                name: name@,
                alias: match alias {
                    Some(a) => Some(a@),
                    None => None,
                },
            }),
            r is Err ==> r->Err_0.wanted@ == "aliased name"@,
    {
        let result = AliasedName {
            name: name.to_owned(),
            alias: match alias {
                Some(a) => Some(a.to_owned()),
                None => None,
            },
        };
        match result.validate() {
            Ok(_) => Ok(result),
            Err(e) => Err(e),
        }
    }

    /// Check that this can be written down and read back: that neither the
    /// name nor the alias holds a colon.
    pub fn validate(&self) -> (r: Result<(), InvalidValueError>)
        ensures
            r is Err <==> has_misplaced_colon(self.deep_view()),
            r is Err ==> r->Err_0.wanted@ == "aliased name"@,
    {
        let bad_name = holds_colon(self.name.as_str());
        let bad_alias = match &self.alias {
            Some(a) => holds_colon(a.as_str()),
            None => false,
        };
        if bad_name || bad_alias {
            let val = debug_text(self);
            return Err(InvalidValueError::new("aliased name", val.as_str()));
        }
        Ok(())
    }

    /// Parse `name` or `name:alias`.
    pub fn from_str(s: &str) -> (r: Result<AliasedName, InvalidValueError>)
        ensures
            parse_result(r) == Self::parse_model(s@),
    {
        let chars = chars_of(s);
        let n = chars.len();
        let i = find_char(&chars, 0, n, ':');
        proof {
            assert(chars@.subrange(0, n as int) == chars@);
            assert(chars@.subrange(0, i as int) == s@.take(i as int));
        }
        if i == 0 {
            return Err(InvalidValueError::new("aliased name", s));
        }
        if i == n {
            return Ok(AliasedName { name: string_of_range(&chars, 0, n), alias: None });
        }
        let j = find_char(&chars, i + 1, n, ':');
        proof {
            assert(chars@.subrange(i + 1, n as int) == s@.skip(i + 1));
        }
        if i + 1 == n || j < n {
            return Err(InvalidValueError::new("aliased name", s));
        }
        Ok(
            AliasedName {
                name: string_of_range(&chars, 0, i),
                alias: Some(string_of_range(&chars, i + 1, n)),
            },
        )
    }

    /// Write `name` or `name:alias`.
    pub fn to_string(&self) -> (r: String)
        ensures
            r@ == Self::formatted(self.deep_view()),
    {
        let mut out = self.name.clone();
        match &self.alias {
            Some(alias) => {
                out.push(':');
                vstd::string::StringExecFns::append(&mut out, alias.as_str());
                proof {
                    assert(out@ == self.name@ + seq![':'] + alias@);
                }
            },
            None => {},
        }
        out
    }
}

impl Duplicate for AliasedName {
    fn duplicate(&self) -> (r: AliasedName) {
        AliasedName {
            name: self.name.clone(),
            alias: match &self.alias {
                Some(a) => Some(a.clone()),
                None => None,
            },
        }
    }
}

/// Can `s` stand on one side of the colon?
fn is_plain(s: &str) -> (r: bool)
    ensures
        r == is_plain_name(s@),
{
    !is_empty_text(s) && lacks_char(s, ':')
}

impl InterpolatableValue for AliasedName {
    open spec fn valid(v: AliasedNameView) -> bool {
        is_plain_name(v.name) && (v.alias matches Some(a) ==> is_plain_name(a))
    }

    open spec fn parse_model(s: Seq<char>) -> Result<AliasedNameView, InvalidValueErrorView> {
        let colon = index_of(s, ':');
        let name = s.take(colon);
        let failure = Err(InvalidValueErrorView { wanted: "aliased name"@, input: s });
        if name.len() == 0 {
            failure
        } else if colon == s.len() {
            Ok(AliasedNameView { name, alias: None })
        } else if is_plain_name(s.skip(colon + 1)) {
            Ok(AliasedNameView { name, alias: Some(s.skip(colon + 1)) })
        } else {
            failure
        }
    }

    open spec fn formatted(v: AliasedNameView) -> Seq<char> {
        match v.alias {
            Some(alias) => v.name + seq![':'] + alias,
            None => v.name,
        }
    }

    proof fn lemma_parse_formatted(v: AliasedNameView) {
        let s = Self::formatted(v);
        match v.alias {
            Some(alias) => {
                let tail = seq![':'] + alias;
                assert(v.name + tail == s);
                assert(tail[0] == ':');
                assert(index_of(tail, ':') == 0);
                lemma_index_of_concat(v.name, tail, ':');
                assert(index_of(s, ':') == v.name.len());
                assert(s.take(v.name.len() as int) == v.name);
                assert(s.skip(v.name.len() as int + 1) == alias);
            },
            None => {
                lemma_index_of(s, ':');
                assert(s.take(s.len() as int) == s);
            },
        }
    }

    fn iv_from_str(s: &str) -> (r: Result<AliasedName, InvalidValueError>) {
        AliasedName::from_str(s)
    }

    fn fmt_iv(&self) -> (r: String) {
        self.to_string()
    }

    fn is_valid(&self) -> (r: bool) {
        is_plain(self.name.as_str()) && match &self.alias {
            Some(a) => is_plain(a.as_str()),
            None => true,
        }
    }
}

} // verus!
