//! Checking a file against the schema of its version of the format.

use vstd::prelude::*;
use vstd::string::StringExecFns;
use crate::errors::{Error, ErrorView};
use crate::file::File;
use crate::text::same_text;

verus! {

/// The versions of the file format that have a schema.
#[derive(Debug, Clone, Copy, PartialEq, Eq)]
pub enum SchemaVersion {
    /// Version 2.
    V2,
    /// Version 2.1.
    V2Dot1,
    /// Version 2.2.
    V2Dot2,
    /// Version 2.3.
    V2Dot3,
    /// Version 2.4.
    V2Dot4,
}

/// The schema that goes with the version `version` of the format, if that
/// version is supported.
pub open spec fn schema_for(version: Seq<char>) -> Option<SchemaVersion> {
    if version == "2"@ {
        Some(SchemaVersion::V2)
    } else if version == "2.1"@ {
        Some(SchemaVersion::V2Dot1)
    } else if version == "2.2"@ {
        Some(SchemaVersion::V2Dot2)
    } else if version == "2.3"@ {
        Some(SchemaVersion::V2Dot3)
    } else if version == "2.4"@ {
        Some(SchemaVersion::V2Dot4)
    } else {
        None
    }
}

/// The schema against which a file of the version `version` is checked.  A
/// version without a schema is not supported.
pub fn schema_version(version: &str) -> (r: Result<SchemaVersion, Error>)
    ensures
        match schema_for(version@) {
            Some(v) => r == Ok::<_, Error>(v),
            None => r is Err && r->Err_0.deep_view() == ErrorView::UnsupportedVersion(version@),
        },
{
    if same_text(version, "2") {
        Ok(SchemaVersion::V2)
    } else if same_text(version, "2.1") {
        Ok(SchemaVersion::V2Dot1)
    } else if same_text(version, "2.2") {
        Ok(SchemaVersion::V2Dot2)
    } else if same_text(version, "2.3") {
        Ok(SchemaVersion::V2Dot3)
    } else if same_text(version, "2.4") {
        Ok(SchemaVersion::V2Dot4)
    } else {
        Err(Error::UnsupportedVersion(version.to_owned()))
    }
}

/// The report of what a validator found wrong: one line for each
/// violation, and then one line for each schema that could not be found.
pub open spec fn schema_report(violations: Seq<Seq<char>>, missing: Seq<Seq<char>>) -> Seq<char>
    decreases violations.len() + missing.len(),
{
    if missing.len() > 0 {
        schema_report(violations, missing.drop_last()) + "\n- missing "@ + missing.last()
    } else if violations.len() > 0 {
        schema_report(violations.drop_last(), missing) + "\n- validation error: "@
            + violations.last()
    } else {
        Seq::empty()
    }
}

/// The texts of a list of strings.
pub open spec fn texts(list: Seq<String>) -> Seq<Seq<char>> {
    Seq::new(list.len(), |i: int| list[i]@)
}

/// The verdict on a file, given what a validator of schemas found wrong
/// with it: the file conforms if nothing was found.
pub fn schema_verdict(violations: &Vec<String>, missing: &Vec<String>) -> (r: Result<(), Error>)
    ensures
        r is Ok <==> violations.len() == 0 && missing.len() == 0,
        r is Err ==> r->Err_0.deep_view() == ErrorView::DoesNotConformToSchema(
            schema_report(texts(violations@), texts(missing@)),
        ),
{
    if violations.len() == 0 && missing.len() == 0 {
        return Ok(());
    }
    let ghost all_violations = texts(violations@);
    let ghost all_missing = texts(missing@);
    let mut out = String::new();
    let mut i: usize = 0;
    proof {
        assert(all_violations.take(0) == Seq::<Seq<char>>::empty());
    }
    while i < violations.len()
        invariant
            0 <= i <= violations.len(),
            all_violations == texts(violations@),
            out@ == schema_report(all_violations.take(i as int), Seq::empty()),
        decreases violations.len() - i,
    {
        proof {
            assert(all_violations.take(i + 1).drop_last() == all_violations.take(i as int));
            assert(all_violations.take(i + 1).last() == violations@[i as int]@);
        }
        out.append("\n- validation error: ");
        out.append(violations[i].as_str());
        i += 1;
    }
    let mut j: usize = 0;
    proof {
        assert(all_violations.take(violations.len() as int) == all_violations);
        assert(all_missing.take(0) == Seq::<Seq<char>>::empty());
    }
    while j < missing.len()
        invariant
            0 <= j <= missing.len(),
            all_missing == texts(missing@),
            all_violations == texts(violations@),
            out@ == schema_report(all_violations, all_missing.take(j as int)),
        decreases missing.len() - j,
    {
        proof {
            assert(all_missing.take(j + 1).drop_last() == all_missing.take(j as int));
            assert(all_missing.take(j + 1).last() == missing@[j as int]@);
        }
        out.append("\n- missing ");
        out.append(missing[j].as_str());
        j += 1;
    }
    proof {
        assert(all_missing.take(missing.len() as int) == all_missing);
    }
    Err(Error::DoesNotConformToSchema(out))
}

/// Validate a file, given what a validator of schemas found wrong with it
/// when it was held against the schema of its version.  A file of a
/// version that is not supported is refused whatever was found.
pub fn validate_file(file: &File, violations: &Vec<String>, missing: &Vec<String>) -> (r: Result<
    (),
    Error,
>)
    ensures
        r is Ok <==> schema_for(file.version@) is Some && violations.len() == 0 && missing.len()
            == 0,
        r is Err ==> r->Err_0.deep_view() == if schema_for(file.version@) is None {
            ErrorView::UnsupportedVersion(file.version@)
        } else {
            ErrorView::DoesNotConformToSchema(schema_report(texts(violations@), texts(missing@)))
        },
{
    match schema_version(file.version.as_str()) {
        Err(e) => Err(e),
        Ok(_) => schema_verdict(violations, missing),
    }
}

} // verus!
