//! The parsers that turn an input file into bookmark records.
//!
//! A parser does not touch the file itself. The built-in parser is handed the
//! text of the file; a parser of the user's says which program to run and is
//! handed what the run gave.

use vstd::prelude::*;
use vstd::string::StringExecFns;
use crate::decode::{decode_item, decode_node, decode_outcome, decode_success};
use crate::errors::ParserError;
use crate::json::{json_document, parse_json, JsonModel, JsonValue};
use crate::models::{clone_texts, texts_of};
use crate::text::{lossy_text, utf8_lossy};
use crate::structs::{
    failures_of, records_of, BrowserJsonBookmarkItem, ParseFailBookmark, ParseFailure,
    ParsedBookmarkWithTags, ParsedRecord, ParserConfig, ParserDescriptor,
};
use crate::tree::{flatten, flatten_tree, lemma_record_count, link_count};

verus! {

/// What a parser returns, as a mathematical value.
pub ghost struct ParseOutcome {
    pub successful: Seq<ParsedRecord>,
    pub failed: Seq<ParseFailure>,
}

/// What a parser returns: the records it made, and the source entries it gave up on.
#[derive(Debug)]
pub struct ParserSuccess {
    successful: Vec<ParsedBookmarkWithTags>,
    failed: Vec<ParseFailBookmark>,
}

impl View for ParserSuccess {
    type V = ParseOutcome;

    closed spec fn view(&self) -> ParseOutcome {
        ParseOutcome {
            successful: records_of(self.successful@),
            failed: failures_of(self.failed@),
        }
    }
}

impl ParserSuccess {
    /// Puts records and failures together.
    pub fn new(successful: Vec<ParsedBookmarkWithTags>, failed: Vec<ParseFailBookmark>) -> (r: Self)
        ensures
            r@.successful == records_of(successful@),
            r@.failed == failures_of(failed@),
    {
        ParserSuccess { successful, failed }
    }

    /// The records, in the order in which the parser made them.
    pub fn get_successful(&self) -> (r: &Vec<ParsedBookmarkWithTags>)
        ensures
            records_of(r@) == self@.successful,
    {
        &self.successful
    }

    /// The source entries that the parser could not turn into records.
    pub fn get_failed(&self) -> (r: &Vec<ParseFailBookmark>)
        ensures
            failures_of(r@) == self@.failed,
    {
        &self.failed
    }
}

/// The texts of a list of string slices, in order.
pub open spec fn strs_of(values: Seq<&str>) -> Seq<Seq<char>> {
    Seq::new(values.len(), |i: int| values[i]@)
}

/// Borrows each string of a list.
pub fn borrow_texts(values: &Vec<String>) -> (r: Vec<&str>)
    ensures
        strs_of(r@) == texts_of(values@),
{
    let mut out: Vec<&str> = Vec::new();
    let mut i: usize = 0;
    while i < values.len()
        invariant
            i <= values.len(),
            out@.len() == i,
            forall|k: int| 0 <= k < i ==> (#[trigger] out@[k])@ == values@[k]@,
        decreases values.len() - i,
    {
        out.push(values[i].as_str());
        i = i + 1;
    }
    assert(strs_of(out@) =~= texts_of(values@));
    out
}

/// What every parser can say of itself.
pub trait Parser {
    /// The parser's description: its name, kind, source path and formats.
    spec fn descriptor(&self) -> ParserDescriptor;

    /// The parser's name.
    fn name(&self) -> (r: &str)
        ensures
            r@ == self.descriptor().name,
    ;

    /// The formats that the parser claims to read.
    fn supported_formats(&self) -> (r: Vec<&str>)
        ensures
            strs_of(r@) == self.descriptor().supported_formats,
    ;

    /// The parser's description, as the configuration file holds it.
    fn info(&self) -> (r: ParserConfig)
        ensures
            r@ == self.descriptor(),
    ;
}

/// Whether `result` reports `expected`: the same outcome, or an
/// `InvalidFormat` error with the same message.
pub open spec fn reports(
    result: Result<ParserSuccess, ParserError>,
    expected: Result<ParseOutcome, Seq<char>>,
) -> bool {
    match expected {
        Ok(outcome) => result matches Ok(success) && success@ == outcome,
        Err(reason) => result matches Err(ParserError::InvalidFormat(message)) && message@
            == reason,
    }
}

/// The built-in parser for the JSON export of a browser's bookmark tree.
#[derive(Debug)]
pub struct BrowserJsonParser {
    name: String,
    kind: String,
    path: String,
    supported_formats: Vec<String>,
}

impl BrowserJsonParser {
    /// The description of the built-in parser.
    pub open spec fn default_descriptor() -> ParserDescriptor {
        ParserDescriptor {
            name: "Default JSON"@,
            kind: "default"@,
            source_path: "In app"@,
            supported_formats: seq!["json"@],
        }
    }

    /// The built-in parser.
    pub fn new() -> (r: Self)
        ensures
            r.descriptor() == Self::default_descriptor(),
    {
        let mut formats: Vec<String> = Vec::new();
        formats.push(String::from_str("json"));
        assert(texts_of(formats@) =~= seq!["json"@]);
        BrowserJsonParser {
            name: String::from_str("Default JSON"),
            kind: String::from_str("default"),
            path: String::from_str("In app"),
            supported_formats: formats,
        }
    }

    /// The message of the error for a file that could not be read.
    pub open spec fn unreadable_file(reason: Seq<char>) -> Seq<char> {
        "Error reading file: "@ + reason
    }

    /// The message of the error for a file whose text is not JSON.
    pub open spec fn not_json(reason: Seq<char>) -> Seq<char> {
        "Failed to parse bookmark file: "@ + reason
    }

    /// The message of the error for a JSON document that is not a bookmark tree.
    pub open spec fn not_a_tree() -> Seq<char> {
        "Failed to parse bookmark file: the document is not a bookmark tree"@
    }

    /// What the parser makes of a document once its text has been read as
    /// JSON: the records of the tree that it describes, or the message of an
    /// `InvalidFormat` error.
    pub open spec fn outcome_of_json(parsed: Result<JsonModel, Seq<char>>) -> Result<
        ParseOutcome,
        Seq<char>,
    > {
        match parsed {
            Err(reason) => Err(Self::not_json(reason)),
            Ok(json) => match decode_node(json) {
                None => Err(Self::not_a_tree()),
                Some(root) => Ok(
                    ParseOutcome { successful: flatten(root, Seq::empty()), failed: Seq::empty() },
                ),
            },
        }
    }

    /// The error for an input file that could not be read.
    pub fn unreadable(&self, reason: &str) -> (r: ParserError)
        ensures
            r matches ParserError::FileReadError(message) && message@ == Self::unreadable_file(
                reason@,
            ),
    {
        ParserError::FileReadError(String::from_str("Error reading file: ").concat(reason))
    }

    /// Parses a document that has been read as JSON, or reports why it could
    /// not be read: text that is not JSON and a document that is not a
    /// bookmark tree are both an `InvalidFormat` error.
    pub fn parse_json_tree(&self, parsed: Result<JsonValue, String>) -> (r: Result<
        ParserSuccess,
        ParserError,
    >)
        ensures
            reports(r, Self::outcome_of_json(crate::json::parse_outcome(parsed))),
    {
        match parsed {
            Err(reason) => Err(
                ParserError::InvalidFormat(
                    String::from_str("Failed to parse bookmark file: ").concat(reason.as_str()),
                ),
            ),
            Ok(json) => match decode_item(&json) {
                None => Err(
                    ParserError::InvalidFormat(
                        String::from_str(
                            "Failed to parse bookmark file: the document is not a bookmark tree",
                        ),
                    ),
                ),
                Some(root) => Ok(self.parse_tree(&root)),
            },
        }
    }

    /// Parses the text of an exported bookmark file.
    pub fn parse_content(&self, content: &str) -> (r: Result<ParserSuccess, ParserError>)
        ensures
            reports(r, Self::outcome_of_json(json_document(content@))),
    {
        self.parse_json_tree(parse_json(content))
    }

    /// Turns an export's tree into records: one for each link, in document
    /// order, tagged with the folder names on the way to it. No entry is ever
    /// reported as failed.
    pub fn parse_tree(&self, root: &BrowserJsonBookmarkItem) -> (r: ParserSuccess)
        ensures
            r@.successful == flatten(root@, Seq::empty()),
            r@.successful.len() == link_count(root@),
            r@.failed == Seq::<ParseFailure>::empty(),
    {
        let successful = flatten_tree(root);
        let failed: Vec<ParseFailBookmark> = Vec::new();
        proof {
            lemma_record_count(root@, Seq::empty());
            assert(failures_of(failed@) =~= Seq::<ParseFailure>::empty());
        }
        ParserSuccess::new(successful, failed)
    }
}

impl Clone for BrowserJsonParser {
    fn clone(&self) -> (r: Self)
        ensures
            r.descriptor() == self.descriptor(),
    {
        BrowserJsonParser {
            name: self.name.clone(),
            kind: self.kind.clone(),
            path: self.path.clone(),
            supported_formats: clone_texts(&self.supported_formats),
        }
    }
}

impl Parser for BrowserJsonParser {
    closed spec fn descriptor(&self) -> ParserDescriptor {
        ParserDescriptor {
            name: self.name@,
            kind: self.kind@,
            source_path: self.path@,
            supported_formats: texts_of(self.supported_formats@),
        }
    }

    fn name(&self) -> (r: &str) {
        self.name.as_str()
    }

    fn supported_formats(&self) -> (r: Vec<&str>) {
        borrow_texts(&self.supported_formats)
    }

    fn info(&self) -> (r: ParserConfig) {
        ParserConfig {
            name: self.name.clone(),
            kind: self.kind.clone(),
            path: self.path.clone(),
            supported_formats: clone_texts(&self.supported_formats),
        }
    }
}

/// `std::path::Path::exists`: whether something can be found at `path` right
/// now. The answer depends on the file system, so nothing is claimed of it.
#[verifier::external_body]
pub(crate) fn path_exists(path: &str) -> bool {
    std::path::Path::new(path).exists()
}

/// The program to run for an external parser, and its one argument.
#[derive(Debug)]
pub struct ProcessCommand {
    pub program: String,
    pub argument: String,
}

/// A parser that hands the input file to a program of the user's.
#[derive(Debug)]
pub struct PythonParser {
    pub name: String,
    kind: String,
    path: String,
    supported_formats: Vec<String>,
}

impl PythonParser {
    /// The message of the error for a script that is not there.
    pub open spec fn missing_script(path: Seq<char>) -> Seq<char> {
        "Python script not found: "@ + path
    }

    /// The message of the error for a program that could not be started.
    pub open spec fn not_started(reason: Seq<char>) -> Seq<char> {
        "Failed to run Python script: "@ + reason
    }

    /// Builds the parser once it is known whether its script exists: with the
    /// script there the parser is returned, without it a `FileReadError`.
    pub fn with_script_check(
        script_exists: bool,
        name: &str,
        kind: &str,
        path: &str,
        supported_formats: &Vec<String>,
    ) -> (r: Result<Self, ParserError>)
        ensures
            script_exists ==> (r matches Ok(parser) && parser.descriptor() == (ParserDescriptor {
                name: name@,
                kind: kind@,
                source_path: path@,
                supported_formats: texts_of(supported_formats@),
            })),
            !script_exists ==> (r matches Err(ParserError::FileReadError(message)) && message@
                == Self::missing_script(path@)),
    {
        if !script_exists {
            return Err(
                ParserError::FileReadError(String::from_str("Python script not found: ").concat(path)),
            );
        }
        Ok(
            PythonParser {
                name: String::from_str(name),
                kind: String::from_str(kind),
                path: String::from_str(path),
                supported_formats: clone_texts(supported_formats),
            },
        )
    }

    /// Builds the parser after looking for its script. The look is taken now
    /// and promises nothing for the time of a later run.
    pub fn new(name: &str, kind: &str, path: &str, supported_formats: &Vec<String>) -> (r: Result<
        Self,
        ParserError,
    >)
        ensures
            r matches Ok(parser) ==> parser.descriptor() == (ParserDescriptor {
                name: name@,
                kind: kind@,
                source_path: path@,
                supported_formats: texts_of(supported_formats@),
            }),
            r matches Err(error) ==> (error matches ParserError::FileReadError(message) && message@
                == Self::missing_script(path@)),
    {
        let script_exists = path_exists(path);
        Self::with_script_check(script_exists, name, kind, path, supported_formats)
    }

    /// The command that parses `input_path`: the parser's program, with the
    /// input path as its only argument.
    pub fn command(&self, input_path: &str) -> (r: ProcessCommand)
        ensures
            r.program@ == self.descriptor().source_path,
            r.argument@ == input_path@,
    {
        ProcessCommand { program: self.path.clone(), argument: String::from_str(input_path) }
    }

    /// The message of the error for a program that reported failure.
    pub open spec fn script_failed(errors: Seq<char>) -> Seq<char> {
        "Python script error: "@ + errors
    }

    /// The message of the error for output that is not JSON.
    pub open spec fn not_json(reason: Seq<char>) -> Seq<char> {
        "Failed to parse script output: "@ + reason
    }

    /// The message of the error for JSON output that does not hold records and failures.
    pub open spec fn not_an_outcome() -> Seq<char> {
        "Failed to parse script output: the document does not hold records and failures"@
    }

    /// What the parser makes of a program's output once it has been read as
    /// JSON: the records and failures that it lists, or the message of an
    /// `InvalidFormat` error.
    pub open spec fn outcome_of_json(parsed: Result<JsonModel, Seq<char>>) -> Result<
        ParseOutcome,
        Seq<char>,
    > {
        match parsed {
            Err(reason) => Err(Self::not_json(reason)),
            Ok(json) => match decode_outcome(json) {
                None => Err(Self::not_an_outcome()),
                Some(outcome) => Ok(outcome),
            },
        }
    }

    /// Reads what a program printed once it has been read as JSON. Output that
    /// is not JSON, or that does not hold records and failures, is an
    /// `InvalidFormat` error. The program's list of failures is handed on as
    /// it is.
    pub fn read_output(&self, parsed: Result<JsonValue, String>) -> (r: Result<
        ParserSuccess,
        ParserError,
    >)
        ensures
            reports(
                r,
                Self::outcome_of_json(crate::json::parse_outcome(parsed)),
            ),
    {
        match parsed {
            Err(reason) => Err(
                ParserError::InvalidFormat(
                    String::from_str("Failed to parse script output: ").concat(reason.as_str()),
                ),
            ),
            Ok(json) => match decode_success(&json) {
                None => Err(
                    ParserError::InvalidFormat(
                        String::from_str(
                            "Failed to parse script output: the document does not hold records and failures",
                        ),
                    ),
                ),
                Some(outcome) => Ok(outcome),
            },
        }
    }

    /// Judges a run of the program. A run that ended in failure is a
    /// `PythonError` that carries what the program wrote to its error stream,
    /// and its output is not looked at. After a run that ended well the output
    /// is read as by `read_output`.
    pub fn interpret(&self, success: bool, stdout: &[u8], stderr: &[u8]) -> (r: Result<
        ParserSuccess,
        ParserError,
    >)
        ensures
            !success ==> (r matches Err(ParserError::PythonError(message)) && message@
                == Self::script_failed(utf8_lossy(stderr@))),
            success ==> reports(
                r,
                Self::outcome_of_json(json_document(utf8_lossy(stdout@))),
            ),
    {
        if !success {
            let errors = lossy_text(stderr);
            return Err(
                ParserError::PythonError(
                    String::from_str("Python script error: ").concat(errors.as_str()),
                ),
            );
        }
        let output = lossy_text(stdout);
        self.read_output(parse_json(output.as_str()))
    }

    /// The error for a program that could not be started.
    pub fn launch_failed(&self, reason: &str) -> (r: ParserError)
        ensures
            r matches ParserError::PythonError(message) && message@ == Self::not_started(reason@),
    {
        ParserError::PythonError(String::from_str("Failed to run Python script: ").concat(reason))
    }
}

impl Clone for PythonParser {
    fn clone(&self) -> (r: Self)
        ensures
            r.descriptor() == self.descriptor(),
    {
        PythonParser {
            name: self.name.clone(),
            kind: self.kind.clone(),
            path: self.path.clone(),
            supported_formats: clone_texts(&self.supported_formats),
        }
    }
}

impl Parser for PythonParser {
    closed spec fn descriptor(&self) -> ParserDescriptor {
        ParserDescriptor {
            name: self.name@,
            kind: self.kind@,
            source_path: self.path@,
            supported_formats: texts_of(self.supported_formats@),
        }
    }

    fn name(&self) -> (r: &str) {
        self.name.as_str()
    }

    fn supported_formats(&self) -> (r: Vec<&str>) {
        borrow_texts(&self.supported_formats)
    }

    fn info(&self) -> (r: ParserConfig) {
        ParserConfig {
            name: self.name.clone(),
            kind: self.kind.clone(),
            path: self.path.clone(),
            supported_formats: clone_texts(&self.supported_formats),
        }
    }
}

/// A parser of one of the two kinds that the registry holds.
#[derive(Debug)]
pub enum RegisteredParser {
    BuiltIn(BrowserJsonParser),
    External(PythonParser),
}

/// A registered parser, as a mathematical value: its kind and its description.
pub ghost struct RegisteredModel {
    /// Whether the parser runs a program of the user's.
    pub external: bool,
    pub descriptor: ParserDescriptor,
}

impl Clone for RegisteredParser {
    fn clone(&self) -> (r: Self)
        ensures
            r@ == self@,
    {
        match self {
            RegisteredParser::BuiltIn(parser) => RegisteredParser::BuiltIn(parser.clone()),
            RegisteredParser::External(parser) => RegisteredParser::External(parser.clone()),
        }
    }
}

impl View for RegisteredParser {
    type V = RegisteredModel;

    open spec fn view(&self) -> RegisteredModel {
        RegisteredModel { external: self is External, descriptor: self.descriptor() }
    }
}

impl Parser for RegisteredParser {
    open spec fn descriptor(&self) -> ParserDescriptor {
        match self {
            RegisteredParser::BuiltIn(parser) => parser.descriptor(),
            RegisteredParser::External(parser) => parser.descriptor(),
        }
    }

    fn name(&self) -> (r: &str) {
        match self {
            RegisteredParser::BuiltIn(parser) => parser.name(),
            RegisteredParser::External(parser) => parser.name(),
        }
    }

    fn supported_formats(&self) -> (r: Vec<&str>) {
        match self {
            RegisteredParser::BuiltIn(parser) => parser.supported_formats(),
            RegisteredParser::External(parser) => parser.supported_formats(),
        }
    }

    fn info(&self) -> (r: ParserConfig) {
        match self {
            RegisteredParser::BuiltIn(parser) => parser.info(),
            RegisteredParser::External(parser) => parser.info(),
        }
    }
}

} // verus!
