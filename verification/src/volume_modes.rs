//! The modes in which a volume can be mounted.

use vstd::prelude::*;
use vstd::string::StringExecFns;
use crate::errors::{InvalidValueError, InvalidValueErrorView};
use crate::merge_override::Duplicate;
use crate::raw_or::{parse_result, InterpolatableValue};
use crate::text::{has_char, lemma_index_of, same_text};

verus! {

/// Mount modes on volumes that are mapped into a container.
#[derive(Debug, Eq, PartialEq, Clone, Copy)]
pub enum VolumeModes {
    /// This volume can be read and written (the default).
    ReadWrite,
    /// This volume is read-only.
    ReadOnly,
    /// This volume and the host are perfectly synchronized.
    Consistent,
    /// Permit delays before updates on the host appear in the container.
    Cached,
    /// Permit delays before updates on the container appear in the host.
    Delegated,
}

impl DeepView for VolumeModes {
    type V = VolumeModes;

    open spec fn deep_view(&self) -> VolumeModes {
        *self
    }
}

impl Default for VolumeModes {
    fn default() -> (r: VolumeModes)
        ensures
            r == VolumeModes::ReadWrite,
    {
        VolumeModes::ReadWrite
    }
}

impl VolumeModes {
    /// Parse a mode from the word that names it.
    pub fn from_str(s: &str) -> (r: Result<VolumeModes, InvalidValueError>)
        ensures
            parse_result(r) == Self::parse_model(s@),
    {
        if same_text(s, "rw") {
            Ok(VolumeModes::ReadWrite)
        } else if same_text(s, "ro") {
            Ok(VolumeModes::ReadOnly)
        } else if same_text(s, "consistent") {
            Ok(VolumeModes::Consistent)
        } else if same_text(s, "cached") {
            Ok(VolumeModes::Cached)
        } else if same_text(s, "delegated") {
            Ok(VolumeModes::Delegated)
        } else {
            Err(InvalidValueError::new("volume mode", s))
        }
    }

    /// The word that names this mode.
    pub fn to_string(&self) -> (r: String)
        ensures
            r@ == Self::formatted(*self),
    {
        match self {
            VolumeModes::ReadWrite => String::from_str("rw"),
            VolumeModes::ReadOnly => String::from_str("ro"),
            VolumeModes::Consistent => String::from_str("consistent"),
            VolumeModes::Cached => String::from_str("cached"),
            VolumeModes::Delegated => String::from_str("delegated"),
        }
    }

    /// Is this the default, which is left out when writing?
    pub fn is_default(&self) -> (r: bool)
        ensures
            r == (*self == VolumeModes::ReadWrite),
    {
        match self {
            VolumeModes::ReadWrite => true,
            _ => false,
        }
    }
}

impl Duplicate for VolumeModes {
    fn duplicate(&self) -> (r: VolumeModes) {
        *self
    }
}

impl InterpolatableValue for VolumeModes {
    open spec fn valid(v: VolumeModes) -> bool {
        true
    }

    open spec fn parse_model(s: Seq<char>) -> Result<VolumeModes, InvalidValueErrorView> {
        if s == "rw"@ {
            Ok(VolumeModes::ReadWrite)
        } else if s == "ro"@ {
            Ok(VolumeModes::ReadOnly)
        } else if s == "consistent"@ {
            Ok(VolumeModes::Consistent)
        } else if s == "cached"@ {
            Ok(VolumeModes::Cached)
        } else if s == "delegated"@ {
            Ok(VolumeModes::Delegated)
        } else {
            Err(InvalidValueErrorView { wanted: "volume mode"@, input: s })
        }
    }

    open spec fn formatted(v: VolumeModes) -> Seq<char> {
        match v {
            VolumeModes::ReadWrite => "rw"@,
            VolumeModes::ReadOnly => "ro"@,
            VolumeModes::Consistent => "consistent"@,
            VolumeModes::Cached => "cached"@,
            VolumeModes::Delegated => "delegated"@,
        }
    }

    proof fn lemma_parse_formatted(v: VolumeModes) {
        reveal_strlit("rw");
        reveal_strlit("ro");
        reveal_strlit("consistent");
        reveal_strlit("cached");
        reveal_strlit("delegated");
        assert("rw"@.len() == 2);
        assert("ro"@.len() == 2);
        assert("consistent"@.len() == 10);
        assert("cached"@.len() == 6);
        assert("delegated"@.len() == 9);
        assert("rw"@[1] != "ro"@[1]);
    }

    fn iv_from_str(s: &str) -> (r: Result<VolumeModes, InvalidValueError>) {
        VolumeModes::from_str(s)
    }

    fn fmt_iv(&self) -> (r: String) {
        self.to_string()
    }

    fn is_valid(&self) -> (r: bool) {
        true
    }
}

/// The word that names a mode holds no colon.
pub proof fn lemma_mode_text_lacks_colon(m: VolumeModes)
    ensures
        !has_char(VolumeModes::formatted(m), ':'),
        VolumeModes::formatted(m).len() > 0,
{
    reveal_strlit("rw");
    reveal_strlit("ro");
    reveal_strlit("consistent");
    reveal_strlit("cached");
    reveal_strlit("delegated");
    let s = VolumeModes::formatted(m);
    lemma_index_of(s, ':');
    if has_char(s, ':') {
        let i = choose|i: int| 0 <= i < s.len() && #[trigger] s[i] == ':';
        if m == VolumeModes::ReadWrite {
            if i == 0 {
                assert(s[0] == 'r');
            }
            if i == 1 {
                assert(s[1] == 'w');
            }
        }
        if m == VolumeModes::ReadOnly {
            if i == 0 {
                assert(s[0] == 'r');
            }
            if i == 1 {
                assert(s[1] == 'o');
            }
        }
        if m == VolumeModes::Consistent {
            if i == 0 {
                assert(s[0] == 'c');
            }
            if i == 1 {
                assert(s[1] == 'o');
            }
            if i == 2 {
                assert(s[2] == 'n');
            }
            if i == 3 {
                assert(s[3] == 's');
            }
            if i == 4 {
                assert(s[4] == 'i');
            }
            if i == 5 {
                assert(s[5] == 's');
            }
            if i == 6 {
                assert(s[6] == 't');
            }
            if i == 7 {
                assert(s[7] == 'e');
            }
            if i == 8 {
                assert(s[8] == 'n');
            }
            if i == 9 {
                assert(s[9] == 't');
            }
        }
        if m == VolumeModes::Cached {
            if i == 0 {
                assert(s[0] == 'c');
            }
            if i == 1 {
                assert(s[1] == 'a');
            }
            if i == 2 {
                assert(s[2] == 'c');
            }
            if i == 3 {
                assert(s[3] == 'h');
            }
            if i == 4 {
                assert(s[4] == 'e');
            }
            if i == 5 {
                assert(s[5] == 'd');
            }
        }
        if m == VolumeModes::Delegated {
            if i == 0 {
                assert(s[0] == 'd');
            }
            if i == 1 {
                assert(s[1] == 'e');
            }
            if i == 2 {
                assert(s[2] == 'l');
            }
            if i == 3 {
                assert(s[3] == 'e');
            }
            if i == 4 {
                assert(s[4] == 'g');
            }
            if i == 5 {
                assert(s[5] == 'a');
            }
            if i == 6 {
                assert(s[6] == 't');
            }
            if i == 7 {
                assert(s[7] == 'e');
            }
            if i == 8 {
                assert(s[8] == 'd');
            }
        }
    }
}

} // verus!
