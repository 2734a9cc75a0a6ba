//! The errors of the library.

use vstd::prelude::*;
use vstd::string::*;
use vstd::std_specs::convert::FromSpecImpl;
use crate::document::{decode_error_text, encode_error_text};
use crate::env::VarError;

verus! {

#[verifier::external_type_specification]
#[verifier::external_body]
pub struct ExIoError(std::io::Error);

/// The specific kind of error that can occur.
#[derive(Debug)]
pub enum ErrorKind {
    /// A path contains invalid unicode; the path is given as far as it can
    /// be shown.
    PathUnicode(String),
    /// An unexpected I/O error.
    Io(std::io::Error),
    /// A file that has to be there is not; the path is given.
    FileNotFound(String),
    /// A document could not be written as TOML.
    TomlSer(toml::ser::Error),
    /// A text is not TOML.
    TomlDe(toml::de::Error),
    /// A text nests deeper than the library reads.
    TooDeep,
    /// A table lacks a field that it must have; the field is named.
    MissingField(String),
    /// A value is not of the kind that its place asks for; the kind that was
    /// expected is named.
    InvalidShape(String),
    /// An environment variable could not be read.
    Env(VarError),
    /// A system string holds invalid Unicode data; its bytes are given.
    OsString(Vec<u8>),
    /// The process was started without arguments.
    NoArgs,
}

/// The `Display` text of `std::io::Error`: what the system says of an
/// operation that failed. Nothing is claimed of it.
#[verifier::external_body]
fn io_error_text(error: &std::io::Error) -> (text: String) {
    error.to_string()
}

/// What an error of a kind says, where the library words it itself. The
/// three kinds that carry an error from outside say what that error says.
pub open spec fn message_of(kind: ErrorKind) -> Option<Seq<char>> {
    match kind {
        ErrorKind::PathUnicode(path) => Some("Path contains invalid unicode: "@ + path@),
        ErrorKind::Io(_) => None,
        ErrorKind::FileNotFound(path) => Some("File Not Found: "@ + path@),
        ErrorKind::TomlSer(_) => None,
        ErrorKind::TomlDe(_) => None,
        ErrorKind::TooDeep => Some("TOML text nests too deep"@),
        ErrorKind::MissingField(field) => Some("missing field `"@ + field@ + "`"@),
        ErrorKind::InvalidShape(expected) => Some("invalid type: expected "@ + expected@),
        ErrorKind::Env(VarError::NotPresent) => Some("environment variable not found"@),
        ErrorKind::Env(VarError::NotUnicode(_)) => Some(
            "environment variable was not valid unicode"@,
        ),
        ErrorKind::OsString(_) => Some("invalid unicode characters provided"@),
        ErrorKind::NoArgs => Some("Not enough args passed"@),
    }
}

impl ErrorKind {
    /// The kind of error for a path that is not valid unicode.
    pub fn new_path(path: &str) -> (kind: ErrorKind)
        ensures
            match kind {
                ErrorKind::PathUnicode(shown) => shown@ == path@,
                _ => false,
            },
    {
        ErrorKind::PathUnicode(path.to_owned())
    }

    /// What this kind of error says.
    pub fn message(&self) -> (text: String)
        ensures
            message_of(*self) is Some ==> text@ == message_of(*self)->Some_0,
    {
        match self {
            ErrorKind::PathUnicode(path) => "Path contains invalid unicode: ".to_owned().concat(
                path.as_str(),
            ),
            ErrorKind::Io(error) => io_error_text(error),
            ErrorKind::FileNotFound(path) => "File Not Found: ".to_owned().concat(path.as_str()),
            ErrorKind::TomlSer(error) => match encode_error_text(error) {
                Some(text) => text,
                None => "TOML document could not be written".to_owned(),
            },
            ErrorKind::TomlDe(error) => decode_error_text(error),
            ErrorKind::TooDeep => "TOML text nests too deep".to_owned(),
            ErrorKind::MissingField(field) => "missing field `".to_owned().concat(
                field.as_str(),
            ).concat("`"),
            ErrorKind::InvalidShape(expected) => "invalid type: expected ".to_owned().concat(
                expected.as_str(),
            ),
            ErrorKind::Env(VarError::NotPresent) => "environment variable not found".to_owned(),
            ErrorKind::Env(VarError::NotUnicode(_)) =>
                "environment variable was not valid unicode".to_owned(),
            ErrorKind::OsString(_) => "invalid unicode characters provided".to_owned(),
            ErrorKind::NoArgs => "Not enough args passed".to_owned(),
        }
    }
}

/// An error that can occur while running a buildpack.
#[derive(Debug)]
pub struct BuildpackError {
    ctx: ErrorKind,
}

impl BuildpackError {
    /// The kind of this error.
    pub closed spec fn cause(&self) -> ErrorKind {
        self.ctx
    }

    /// The error of the given kind.
    pub closed spec fn of(kind: ErrorKind) -> BuildpackError {
        BuildpackError { ctx: kind }
    }

    /// The error of the given kind.
    pub fn new(kind: ErrorKind) -> (error: BuildpackError)
        ensures
            error == Self::of(kind),
            error.cause() == kind,
    {
        BuildpackError { ctx: kind }
    }

    /// The kind of this error.
    pub fn kind(&self) -> (kind: &ErrorKind)
        ensures
            *kind == self.cause(),
    {
        &self.ctx
    }

    /// The error that says that the field `name` is missing.
    pub fn missing_field(name: &str) -> (error: BuildpackError)
        ensures
            error.is_missing_field(name@),
    {
        BuildpackError::new(ErrorKind::MissingField(name.to_owned()))
    }

    /// The error that says that a value is not of the kind `expected`.
    pub fn invalid_shape(expected: &str) -> (error: BuildpackError)
        ensures
            error.is_invalid_shape(expected@),
    {
        BuildpackError::new(ErrorKind::InvalidShape(expected.to_owned()))
    }

    /// What this error says.
    pub fn message(&self) -> (text: String)
        ensures
            message_of(self.cause()) is Some ==> text@ == message_of(self.cause())->Some_0,
    {
        self.ctx.message()
    }

    /// Whether this error says that the field `name` is missing.
    pub open spec fn is_missing_field(&self, name: Seq<char>) -> bool {
        match self.cause() {
            ErrorKind::MissingField(field) => field@ == name,
            _ => false,
        }
    }

    /// Whether this error says that a value is not of the kind `expected`.
    pub open spec fn is_invalid_shape(&self, expected: Seq<char>) -> bool {
        match self.cause() {
            ErrorKind::InvalidShape(kind) => kind@ == expected,
            _ => false,
        }
    }

    /// Whether this error says that a text is not TOML.
    pub open spec fn is_decode_failure(&self) -> bool {
        self.cause() is TomlDe
    }

    /// Whether this error says that a document could not be written.
    pub open spec fn is_encode_failure(&self) -> bool {
        self.cause() is TomlSer
    }
}

/// What is wrong with a document that does not describe what it should.
pub enum Fault {
    /// A table lacks the named field.
    MissingField(Seq<char>),
    /// A value is not of the named kind.
    InvalidShape(Seq<char>),
}

/// Whether `error` reports `fault`.
pub open spec fn reports(error: BuildpackError, fault: Fault) -> bool {
    match fault {
        Fault::MissingField(name) => error.is_missing_field(name),
        Fault::InvalidShape(expected) => error.is_invalid_shape(expected),
    }
}

impl From<ErrorKind> for BuildpackError {
    fn from(kind: ErrorKind) -> (error: BuildpackError) {
        BuildpackError { ctx: kind }
    }
}

impl FromSpecImpl<ErrorKind> for BuildpackError {
    open spec fn obeys_from_spec() -> bool {
        true
    }

    open spec fn from_spec(kind: ErrorKind) -> BuildpackError {
        BuildpackError::of(kind)
    }
}

impl From<std::io::Error> for BuildpackError {
    fn from(err: std::io::Error) -> (error: BuildpackError) {
        BuildpackError { ctx: ErrorKind::Io(err) }
    }
}

impl FromSpecImpl<std::io::Error> for BuildpackError {
    open spec fn obeys_from_spec() -> bool {
        true
    }

    open spec fn from_spec(err: std::io::Error) -> BuildpackError {
        BuildpackError::of(ErrorKind::Io(err))
    }
}

impl From<toml::ser::Error> for BuildpackError {
    fn from(err: toml::ser::Error) -> (error: BuildpackError) {
        BuildpackError { ctx: ErrorKind::TomlSer(err) }
    }
}

impl FromSpecImpl<toml::ser::Error> for BuildpackError {
    open spec fn obeys_from_spec() -> bool {
        true
    }

    open spec fn from_spec(err: toml::ser::Error) -> BuildpackError {
        BuildpackError::of(ErrorKind::TomlSer(err))
    }
}

impl From<toml::de::Error> for BuildpackError {
    fn from(err: toml::de::Error) -> (error: BuildpackError) {
        BuildpackError { ctx: ErrorKind::TomlDe(err) }
    }
}

impl FromSpecImpl<toml::de::Error> for BuildpackError {
    open spec fn obeys_from_spec() -> bool {
        true
    }

    open spec fn from_spec(err: toml::de::Error) -> BuildpackError {
        BuildpackError::of(ErrorKind::TomlDe(err))
    }
}

impl From<VarError> for BuildpackError {
    fn from(err: VarError) -> (error: BuildpackError) {
        BuildpackError { ctx: ErrorKind::Env(err) }
    }
}

impl FromSpecImpl<VarError> for BuildpackError {
    open spec fn obeys_from_spec() -> bool {
        true
    }

    open spec fn from_spec(err: VarError) -> BuildpackError {
        BuildpackError::of(ErrorKind::Env(err))
    }
}

} // verus!
