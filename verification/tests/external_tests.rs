use pcpocket::custom_parsers::{Parser, PythonParser};
use pcpocket::errors::ParserError;

fn parser() -> PythonParser {
    PythonParser::with_script_check(true, "Mine", "python", "/opt/parse.py", &vec![String::from("html")])
        .unwrap()
}

#[test]
fn failed_run_carries_the_error_stream() {
    match parser().interpret(false, b"{\"successful\":[],\"failed\":[]}", b"boom") {
        Err(ParserError::PythonError(message)) => {
            assert!(message.contains("boom"));
            assert_eq!(message, "Python script error: boom");
        },
        other => panic!("unexpected {:?}", other),
    }
}

#[test]
fn good_run_with_bad_output_is_an_invalid_format() {
    match parser().interpret(true, b"this is not json", b"") {
        Err(ParserError::InvalidFormat(message)) => {
            assert!(message.starts_with("Failed to parse script output: "));
        },
        other => panic!("unexpected {:?}", other),
    }
    match parser().interpret(true, b"{\"successful\": 1}", b"") {
        Err(ParserError::InvalidFormat(message)) => assert_eq!(
            message,
            "Failed to parse script output: the document does not hold records and failures"
        ),
        other => panic!("unexpected {:?}", other),
    }
}

#[test]
fn good_run_with_good_output_gives_its_records() {
    let output = b"{\"successful\":[{\"title\":\"T\",\"link\":\"https://l\",\"icon_link\":null,\
                   \"created_at\":1700000000,\"tags\":[\"x\"]}],\
                   \"failed\":[{\"note_index\":2,\"note_title\":\"n\",\"error\":\"bad\"}]}";
    let outcome = parser().interpret(true, output, b"warning: ignored").unwrap();
    assert_eq!(outcome.get_successful().len(), 1);
    assert_eq!(outcome.get_successful()[0].bookmark.link, "https://l");
    assert_eq!(outcome.get_successful()[0].tags, vec![String::from("x")]);
    assert_eq!(outcome.get_failed().len(), 1);
    assert_eq!(outcome.get_failed()[0].error, "bad");
}

#[test]
fn output_of_a_failed_run_is_not_read() {
    let result = parser().interpret(false, b"not json at all", b"");
    assert!(matches!(result, Err(ParserError::PythonError(message)) if message == "Python script error: "));
}

#[test]
fn error_stream_that_is_not_utf8_is_still_carried() {
    match parser().interpret(false, b"", &[0x62, 0xff, 0x6d]) {
        Err(ParserError::PythonError(message)) => assert_eq!(message, "Python script error: b\u{fffd}m"),
        other => panic!("unexpected {:?}", other),
    }
}

#[test]
fn missing_script_is_a_file_read_error() {
    let formats = vec![String::from("html")];
    match PythonParser::new("Mine", "python", "/no/such/dir/parse.py", &formats) {
        Err(ParserError::FileReadError(message)) => {
            assert_eq!(message, "Python script not found: /no/such/dir/parse.py");
        },
        other => panic!("unexpected {:?}", other),
    }
    match PythonParser::with_script_check(false, "Mine", "python", "/", &formats) {
        Err(ParserError::FileReadError(message)) => assert_eq!(message, "Python script not found: /"),
        other => panic!("unexpected {:?}", other),
    }
}

#[test]
fn existing_script_gives_a_parser_that_describes_itself() {
    let formats = vec![String::from("html"), String::from("csv")];
    let parser = PythonParser::new("Mine", "python", "/", &formats).unwrap();
    assert_eq!(parser.name(), "Mine");
    assert_eq!(parser.supported_formats(), vec!["html", "csv"]);
    let info = parser.info();
    assert_eq!(info.name, "Mine");
    assert_eq!(info.kind, "python");
    assert_eq!(info.path, "/");
    assert_eq!(info.supported_formats, formats);
}

#[test]
fn command_runs_the_script_on_the_input() {
    let command = parser().command("/home/me/export.html");
    assert_eq!(command.program, "/opt/parse.py");
    assert_eq!(command.argument, "/home/me/export.html");
}

#[test]
fn launch_failure_is_a_python_error() {
    match parser().launch_failed("No such file or directory") {
        ParserError::PythonError(message) => {
            assert_eq!(message, "Failed to run Python script: No such file or directory");
        },
        other => panic!("unexpected {:?}", other),
    }
}
