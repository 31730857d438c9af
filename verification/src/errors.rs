//! The failures this crate reports to its callers.

use vstd::prelude::*;
use vstd::string::StringExecFns;

verus! {

/// A string could not be parsed as the kind of value that was wanted.
#[derive(Debug, Clone, PartialEq, Eq)]
pub struct InvalidValueError {
    /// What kind of value the caller asked for.
    pub wanted: String,
    /// The text that failed to parse.
    pub input: String,
}

/// What an [`InvalidValueError`] says, as plain sequences of characters.
pub struct InvalidValueErrorView {
    pub wanted: Seq<char>,
    pub input: Seq<char>,
}

impl DeepView for InvalidValueError {
    type V = InvalidValueErrorView;

    open spec fn deep_view(&self) -> InvalidValueErrorView {
        InvalidValueErrorView { wanted: self.wanted@, input: self.input@ }
    }
}

impl InvalidValueError {
    /// Report that `input` is not a valid `wanted`.
    pub fn new(wanted: &str, input: &str) -> (e: InvalidValueError)
        ensures
            e.deep_view() == (InvalidValueErrorView { wanted: wanted@, input: input@ }),
    {
        InvalidValueError { wanted: String::from_str(wanted), input: String::from_str(input) }
    }

    /// The message `Invalid <wanted>: <<input>>`.
    pub open spec fn message(v: InvalidValueErrorView) -> Seq<char> {
        "Invalid "@ + v.wanted + ": <"@ + v.input + ">"@
    }

    /// A human-readable description of this error.
    pub fn to_string(&self) -> (s: String)
        ensures
            s@ == Self::message(self.deep_view()),
    {
        let mut s = String::from_str("Invalid ");
        s.append(self.wanted.as_str());
        s.append(": <");
        s.append(self.input.as_str());
        s.append(">");
        s
    }

    /// A copy of this error.
    pub fn duplicate(&self) -> (e: InvalidValueError)
        ensures
            e == *self,
    {
        InvalidValueError { wanted: self.wanted.clone(), input: self.input.clone() }
    }
}

/// A failure to interpolate environment variables into a string.
#[derive(Debug, Clone, PartialEq, Eq)]
pub enum InterpolationError {
    /// The interpolation syntax in the given string is malformed.
    InvalidSyntax(String),
    /// The interpolation syntax was fine, but what it stands for did not
    /// parse as a value of the intended type.
    UnparsableValue(InvalidValueError),
    /// The named variable is not defined.  An undefined variable is never
    /// silently replaced by the empty string.
    UndefinedVariable(String),
    /// The given string refers to a variable, in a context where looking
    /// variables up is not permitted.
    InterpolationDisabled(String),
}

/// What an [`InterpolationError`] says, as plain sequences of characters.
pub enum InterpolationErrorView {
    InvalidSyntax(Seq<char>),
    UnparsableValue(InvalidValueErrorView),
    UndefinedVariable(Seq<char>),
    InterpolationDisabled(Seq<char>),
}

impl DeepView for InterpolationError {
    type V = InterpolationErrorView;

    open spec fn deep_view(&self) -> InterpolationErrorView {
        match self {
            InterpolationError::InvalidSyntax(s) => InterpolationErrorView::InvalidSyntax(s@),
            InterpolationError::UnparsableValue(e) => InterpolationErrorView::UnparsableValue(
                e.deep_view(),
            ),
            InterpolationError::UndefinedVariable(s) => InterpolationErrorView::UndefinedVariable(
                s@,
            ),
            InterpolationError::InterpolationDisabled(s) => {
                InterpolationErrorView::InterpolationDisabled(s@)
            },
        }
    }
}

impl InterpolationError {
    /// The fixed phrase that names each kind of failure.
    pub open spec fn description_of(v: InterpolationErrorView) -> Seq<char> {
        match v {
            InterpolationErrorView::InvalidSyntax(_) => "invalid interpolation syntax"@,
            InterpolationErrorView::UnparsableValue(_) => "cannot escape invalid value"@,
            InterpolationErrorView::UndefinedVariable(_) => {
                "undefined environment variable in interpolation"@
            },
            InterpolationErrorView::InterpolationDisabled(_) => {
                "cannot parse without interpolating environment variables"@
            },
        }
    }

    /// The full message: the description, then the offending text.
    pub open spec fn message(v: InterpolationErrorView) -> Seq<char> {
        match v {
            InterpolationErrorView::InvalidSyntax(input) => Self::description_of(v) + ": <"@ + input
                + ">"@,
            InterpolationErrorView::UnparsableValue(err) => Self::description_of(v) + ": "@
                + InvalidValueError::message(err),
            InterpolationErrorView::UndefinedVariable(var) => Self::description_of(v) + ": "@ + var,
            InterpolationErrorView::InterpolationDisabled(input) => Self::description_of(v)
                + ": <"@ + input + ">"@,
        }
    }

    /// The fixed phrase that names this kind of failure.
    pub fn description(&self) -> (s: &'static str)
        ensures
            s@ == Self::description_of(self.deep_view()),
    {
        match self {
            InterpolationError::InvalidSyntax(_) => "invalid interpolation syntax",
            InterpolationError::UnparsableValue(_) => "cannot escape invalid value",
            InterpolationError::UndefinedVariable(_) => {
                "undefined environment variable in interpolation"
            },
            InterpolationError::InterpolationDisabled(_) => {
                "cannot parse without interpolating environment variables"
            },
        }
    }

    /// A human-readable description of this error.
    pub fn to_string(&self) -> (s: String)
        ensures
            s@ == Self::message(self.deep_view()),
    {
        let mut s = String::from_str(self.description());
        match self {
            InterpolationError::InvalidSyntax(input) => {
                s.append(": <");
                s.append(input.as_str());
                s.append(">");
            },
            InterpolationError::UnparsableValue(err) => {
                s.append(": ");
                let inner = err.to_string();
                s.append(inner.as_str());
            },
            InterpolationError::UndefinedVariable(var) => {
                s.append(": ");
                s.append(var.as_str());
            },
            InterpolationError::InterpolationDisabled(input) => {
                s.append(": <");
                s.append(input.as_str());
                s.append(">");
            },
        }
        s
    }

    /// The parse failure behind this error, if that is what it wraps.
    pub fn cause(&self) -> (c: Option<&InvalidValueError>)
        ensures
            c == match self {
                InterpolationError::UnparsableValue(err) => Some(err),
                _ => None,
            },
    {
        match self {
            InterpolationError::UnparsableValue(err) => Some(err),
            _ => None,
        }
    }

    /// Wrap a parse failure.
    pub fn from_invalid_value(err: InvalidValueError) -> (e: InterpolationError)
        ensures
            e == InterpolationError::UnparsableValue(err),
    {
        InterpolationError::UnparsableValue(err)
    }
}

/// Every failure that reading, checking and transforming a
/// `docker-compose.yml` file can end in.
#[derive(Debug, Clone, PartialEq, Eq)]
pub enum Error {
    /// A path mounted inside a container has no equivalent on the host.
    ConvertMountedPathToWindows(String),
    /// A value did not conform to the schema of the file format.  The text
    /// lists what was found wrong.
    DoesNotConformToSchema(String),
    /// The interpolation syntax in the given string is malformed.
    InterpolateInvalidSyntax(String),
    /// The named variable is not defined.
    InterpolateUndefinedVariable(String),
    /// The given string refers to a variable, in a context where looking
    /// variables up is not permitted.
    InterpolationDisabled(String),
    /// A string could not be parsed as the kind of value that was wanted.
    InvalidValue {
        wanted: String,
        input: String,
    },
    /// A line of an `.env` file could not be parsed.
    ParseEnv {
        line: String,
    },
    /// A string is not a Git URL that Docker accepts.
    ParseGitUrl {
        url: String,
    },
    /// The file declares a version of the format that is not supported.
    UnsupportedVersion(String),
    /// A node of the document has none of the shapes that are accepted in
    /// its place.  The text says which shapes are: "a map or a key/value
    /// list".
    UnexpectedShape {
        expected: String,
    },
    /// A key occurs twice in a mapping or in a key/value list.
    DuplicateKey(String),
    /// An entry of a key/value list is not of the form `KEY=value`.
    MalformedPair(String),
    /// A mapping holds a key that the value it stands for does not have.
    UnknownField(String),
    /// A mapping lacks a key that the value it stands for must have.
    MissingField(String),
}

/// An [`Error`], as plain values.
pub enum ErrorView {
    ConvertMountedPathToWindows(Seq<char>),
    DoesNotConformToSchema(Seq<char>),
    InterpolateInvalidSyntax(Seq<char>),
    InterpolateUndefinedVariable(Seq<char>),
    InterpolationDisabled(Seq<char>),
    InvalidValue { wanted: Seq<char>, input: Seq<char> },
    ParseEnv { line: Seq<char> },
    ParseGitUrl { url: Seq<char> },
    UnsupportedVersion(Seq<char>),
    UnexpectedShape { expected: Seq<char> },
    DuplicateKey(Seq<char>),
    MalformedPair(Seq<char>),
    UnknownField(Seq<char>),
    MissingField(Seq<char>),
}

impl DeepView for Error {
    type V = ErrorView;

    open spec fn deep_view(&self) -> ErrorView {
        match self {
            Error::ConvertMountedPathToWindows(s) => ErrorView::ConvertMountedPathToWindows(s@),
            Error::DoesNotConformToSchema(s) => ErrorView::DoesNotConformToSchema(s@),
            Error::InterpolateInvalidSyntax(s) => ErrorView::InterpolateInvalidSyntax(s@),
            Error::InterpolateUndefinedVariable(s) => ErrorView::InterpolateUndefinedVariable(s@),
            Error::InterpolationDisabled(s) => ErrorView::InterpolationDisabled(s@),
            Error::InvalidValue { wanted, input } => ErrorView::InvalidValue {
                wanted: wanted@,
                input: input@,
            },
            Error::ParseEnv { line } => ErrorView::ParseEnv { line: line@ },
            Error::ParseGitUrl { url } => ErrorView::ParseGitUrl { url: url@ },
            Error::UnsupportedVersion(s) => ErrorView::UnsupportedVersion(s@),
            Error::UnexpectedShape { expected } => ErrorView::UnexpectedShape {
                expected: expected@,
            },
            Error::DuplicateKey(s) => ErrorView::DuplicateKey(s@),
            Error::MalformedPair(s) => ErrorView::MalformedPair(s@),
            Error::UnknownField(s) => ErrorView::UnknownField(s@),
            Error::MissingField(s) => ErrorView::MissingField(s@),
        }
    }
}

/// The error that stands for a failure to parse a value.
pub open spec fn invalid_value_error(e: InvalidValueErrorView) -> ErrorView {
    ErrorView::InvalidValue { wanted: e.wanted, input: e.input }
}

/// The error that stands for a failure to interpolate.
pub open spec fn interpolation_error(e: InterpolationErrorView) -> ErrorView {
    match e {
        InterpolationErrorView::InvalidSyntax(s) => ErrorView::InterpolateInvalidSyntax(s),
        InterpolationErrorView::UnparsableValue(inner) => invalid_value_error(inner),
        InterpolationErrorView::UndefinedVariable(s) => ErrorView::InterpolateUndefinedVariable(s),
        InterpolationErrorView::InterpolationDisabled(s) => ErrorView::InterpolationDisabled(s),
    }
}

impl Error {
    /// The error for an `input` that is not a valid `wanted`.
    pub fn invalid_value(wanted: &str, input: &str) -> (e: Error)
        ensures
            e.deep_view() == (ErrorView::InvalidValue { wanted: wanted@, input: input@ }),
    {
        Error::InvalidValue { wanted: String::from_str(wanted), input: String::from_str(input) }
    }

    /// The error that stands for a failure to parse a value.
    pub fn from_invalid_value(e: InvalidValueError) -> (r: Error)
        ensures
            r.deep_view() == invalid_value_error(e.deep_view()),
    {
        Error::InvalidValue { wanted: e.wanted, input: e.input }
    }

    /// The error that stands for a failure to interpolate.
    pub fn from_interpolation(e: InterpolationError) -> (r: Error)
        ensures
            r.deep_view() == interpolation_error(e.deep_view()),
    {
        match e {
            InterpolationError::InvalidSyntax(s) => Error::InterpolateInvalidSyntax(s),
            InterpolationError::UnparsableValue(inner) => Error::from_invalid_value(inner),
            InterpolationError::UndefinedVariable(s) => Error::InterpolateUndefinedVariable(s),
            InterpolationError::InterpolationDisabled(s) => Error::InterpolationDisabled(s),
        }
    }

    /// The message of an error.  Texts that come from the file are shown
    /// as they are, between `<` and `>`.
    pub open spec fn message(v: ErrorView) -> Seq<char> {
        match v {
            ErrorView::ConvertMountedPathToWindows(s) => "could not convert <"@ + s
                + "> to the equivalent Windows path"@,
            ErrorView::DoesNotConformToSchema(s) => "data did not confirm to schema: "@ + s,
            ErrorView::InterpolateInvalidSyntax(s) => "invalid interpolation syntax <"@ + s + ">"@,
            ErrorView::InterpolateUndefinedVariable(s) => {
                "undefined environment variable in interpolation <"@ + s + ">"@
            },
            ErrorView::InterpolationDisabled(s) => {
                "cannot parse without interpolating environment variables <"@ + s + ">"@
            },
            ErrorView::InvalidValue { wanted, input } => "invalid "@ + wanted + " <"@ + input
                + ">"@,
            ErrorView::ParseEnv { line } => "cannot parse env variable declaration <"@ + line
                + ">"@,
            ErrorView::ParseGitUrl { url } => "not a Docker-compatible git URL <"@ + url + ">"@,
            ErrorView::UnsupportedVersion(s) => "unsupported docker-compose.yml version <"@ + s
                + ">"@,
            ErrorView::UnexpectedShape { expected } => "expected "@ + expected,
            ErrorView::DuplicateKey(s) => "duplicate map key: "@ + s,
            ErrorView::MalformedPair(s) => "expected KEY=value, got: <"@ + s + ">"@,
            ErrorView::UnknownField(s) => "unknown field <"@ + s + ">"@,
            ErrorView::MissingField(s) => "missing field <"@ + s + ">"@,
        }
    }

    /// A human-readable description of this error.
    pub fn to_string(&self) -> (s: String)
        ensures
            s@ == Self::message(self.deep_view()),
    {
        match self {
            Error::ConvertMountedPathToWindows(t) => {
                let mut s = String::from_str("could not convert <");
                s.append(t.as_str());
                s.append("> to the equivalent Windows path");
                s
            },
            Error::DoesNotConformToSchema(t) => {
                let mut s = String::from_str("data did not confirm to schema: ");
                s.append(t.as_str());
                s
            },
            Error::InterpolateInvalidSyntax(t) => {
                let mut s = String::from_str("invalid interpolation syntax <");
                s.append(t.as_str());
                s.append(">");
                s
            },
            Error::InterpolateUndefinedVariable(t) => {
                let mut s = String::from_str("undefined environment variable in interpolation <");
                s.append(t.as_str());
                s.append(">");
                s
            },
            Error::InterpolationDisabled(t) => {
                let mut s = String::from_str(
                    "cannot parse without interpolating environment variables <",
                );
                s.append(t.as_str());
                s.append(">");
                s
            },
            Error::InvalidValue { wanted, input } => {
                let mut s = String::from_str("invalid ");
                s.append(wanted.as_str());
                s.append(" <");
                s.append(input.as_str());
                s.append(">");
                s
            },
            Error::ParseEnv { line } => {
                let mut s = String::from_str("cannot parse env variable declaration <");
                s.append(line.as_str());
                s.append(">");
                s
            },
            Error::ParseGitUrl { url } => {
                let mut s = String::from_str("not a Docker-compatible git URL <");
                s.append(url.as_str());
                s.append(">");
                s
            },
            Error::UnsupportedVersion(t) => {
                let mut s = String::from_str("unsupported docker-compose.yml version <");
                s.append(t.as_str());
                s.append(">");
                s
            },
            Error::UnexpectedShape { expected } => {
                let mut s = String::from_str("expected ");
                s.append(expected.as_str());
                s
            },
            Error::DuplicateKey(t) => {
                let mut s = String::from_str("duplicate map key: ");
                s.append(t.as_str());
                s
            },
            Error::MalformedPair(t) => {
                let mut s = String::from_str("expected KEY=value, got: <");
                s.append(t.as_str());
                s.append(">");
                s
            },
            Error::UnknownField(t) => {
                let mut s = String::from_str("unknown field <");
                s.append(t.as_str());
                s.append(">");
                s
            },
            Error::MissingField(t) => {
                let mut s = String::from_str("missing field <");
                s.append(t.as_str());
                s.append(">");
                s
            },
        }
    }

    /// The error for a node that has none of the shapes `expected`.
    pub fn unexpected_shape(expected: &str) -> (e: Error)
        ensures
            e.deep_view() == (ErrorView::UnexpectedShape { expected: expected@ }),
    {
        Error::UnexpectedShape { expected: String::from_str(expected) }
    }
}

} // verus!
