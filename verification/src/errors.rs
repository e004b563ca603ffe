//! Error values of the import pipeline.

use vstd::prelude::*;
use vstd::std_specs::convert::FromSpecImpl;
use vstd::string::StringExecFns;

verus! {

/// An I/O error of the standard library, carried through unopened.
#[verifier::external_type_specification]
#[verifier::external_body]
pub struct ExIoError(std::io::Error);

/// The `Display` text of a `std::io::Error`. The text depends on the platform,
/// so nothing is claimed of it.
#[verifier::external_body]
pub(crate) fn io_error_text(err: &std::io::Error) -> (r: String) {
    err.to_string()
}

/// Why a parser could not be built or could not produce records. Each error
/// carries its cause as text.
#[derive(Debug)]
pub enum ParserError {
    /// The input, or a parser's script, could not be read.
    FileReadError(String),
    /// The input, or an external parser's output, is not a document of the expected shape.
    InvalidFormat(String),
    /// A required field is absent.
    MissingField(String),
    /// A parser's configuration is unusable.
    ConfigError(String),
    /// The external program could not be launched, or reported failure.
    PythonError(String),
    /// A Lua parser reported failure.
    LuaError(String),
    /// An I/O error outside reading the input.
    IoError(String),
}

impl ParserError {
    /// The text that precedes the cause in the error's rendering.
    pub open spec fn prefix(&self) -> Seq<char> {
        match self {
            ParserError::FileReadError(_) => "File read error: "@,
            ParserError::InvalidFormat(_) => "Invalid format: "@,
            ParserError::MissingField(_) => "Missing required field: "@,
            ParserError::ConfigError(_) => "Configuration error: "@,
            ParserError::PythonError(_) => "Python error: "@,
            ParserError::LuaError(_) => "Lua error: "@,
            ParserError::IoError(_) => "IO error: "@,
        }
    }

    /// The cause that the error carries.
    pub open spec fn cause(&self) -> Seq<char> {
        match self {
            ParserError::FileReadError(cause) => cause@,
            ParserError::InvalidFormat(cause) => cause@,
            ParserError::MissingField(cause) => cause@,
            ParserError::ConfigError(cause) => cause@,
            ParserError::PythonError(cause) => cause@,
            ParserError::LuaError(cause) => cause@,
            ParserError::IoError(cause) => cause@,
        }
    }

    /// The error's rendering: its kind, then its cause verbatim.
    pub open spec fn text(&self) -> Seq<char> {
        self.prefix() + self.cause()
    }

    /// A human-readable rendering: the kind of error, then its cause verbatim.
    pub fn message(&self) -> (r: String)
        ensures
            r@ == self.text(),
    {
        match self {
            ParserError::FileReadError(cause) => String::from_str("File read error: ").concat(
                cause.as_str(),
            ),
            ParserError::InvalidFormat(cause) => String::from_str("Invalid format: ").concat(
                cause.as_str(),
            ),
            ParserError::MissingField(cause) => String::from_str("Missing required field: ").concat(
                cause.as_str(),
            ),
            ParserError::ConfigError(cause) => String::from_str("Configuration error: ").concat(
                cause.as_str(),
            ),
            ParserError::PythonError(cause) => String::from_str("Python error: ").concat(
                cause.as_str(),
            ),
            ParserError::LuaError(cause) => String::from_str("Lua error: ").concat(cause.as_str()),
            ParserError::IoError(cause) => String::from_str("IO error: ").concat(cause.as_str()),
        }
    }
}

impl From<String> for ParserError {
    /// A bare text is taken for a fault of the configuration.
    fn from(s: String) -> (r: Self) {
        ParserError::ConfigError(s)
    }
}

impl FromSpecImpl<String> for ParserError {
    open spec fn obeys_from_spec() -> bool {
        true
    }

    open spec fn from_spec(s: String) -> Self {
        ParserError::ConfigError(s)
    }
}

impl<'a> From<&'a str> for ParserError {
    /// A bare text is taken for a fault of the configuration.
    fn from(s: &'a str) -> (r: Self)
        ensures
            r matches ParserError::ConfigError(cause) && cause@ == s@,
    {
        ParserError::ConfigError(String::from_str(s))
    }
}

impl<'a> FromSpecImpl<&'a str> for ParserError {
    open spec fn obeys_from_spec() -> bool {
        false
    }

    open spec fn from_spec(s: &'a str) -> Self {
        arbitrary()
    }
}

impl From<std::io::Error> for ParserError {
    /// An I/O error is kept as its text.
    fn from(err: std::io::Error) -> (r: Self)
        ensures
            r is IoError,
    {
        ParserError::IoError(io_error_text(&err))
    }
}

impl FromSpecImpl<std::io::Error> for ParserError {
    open spec fn obeys_from_spec() -> bool {
        false
    }

    open spec fn from_spec(err: std::io::Error) -> Self {
        arbitrary()
    }
}

/// A parser was offered to the registry under a name that is already taken.
#[derive(Debug)]
pub struct DuplicateNameError {
    /// The name that was taken.
    pub name: String,
}

impl DuplicateNameError {
    /// The rendering of the error for a given name.
    pub open spec fn message_for(name: Seq<char>) -> Seq<char> {
        "Parser with name '"@ + name + "' already exists"@
    }

    /// A human-readable rendering that names the parser.
    pub fn message(&self) -> (r: String)
        ensures
            r@ == Self::message_for(self.name@),
    {
        String::from_str("Parser with name '").concat(self.name.as_str()).concat("' already exists")
    }
}

/// The store refused a batch; nothing of that batch was kept.
#[derive(Debug)]
pub struct PersistenceError {
    /// What the store said.
    pub message: String,
}

} // verus!
