use pcpocket::custom_parsers::BrowserJsonParser;
use pcpocket::decode::{decode_config, decode_item, decode_success, find_member};
use pcpocket::errors::ParserError;
use pcpocket::json::{parse_json, JsonMember, JsonValue};
use pcpocket::structs::BrowserJsonBookmarkItem;

fn node(title: &str, rest: &str) -> String {
    format!(
        "{{\"guid\":\"g\",\"title\":\"{}\",\"index\":0,\"dateAdded\":1700000000123000,\
         \"lastModified\":1700000000123000,\"id\":5,\"typeCode\":1,\"type\":\"t\"{}}}",
        title, rest
    )
}

fn link(title: &str, uri: &str) -> String {
    node(title, &format!(",\"uri\":\"{}\"", uri))
}

fn folder(title: &str, children: &[String]) -> String {
    node(title, &format!(",\"children\":[{}]", children.join(",")))
}

fn invalid_format(result: Result<pcpocket::custom_parsers::ParserSuccess, ParserError>) -> String {
    match result {
        Err(ParserError::InvalidFormat(message)) => message,
        other => panic!("expected InvalidFormat, got {:?}", other),
    }
}

#[test]
fn document_with_work_folder_and_top_link() {
    let text = folder("", &[folder("Work", &[link("Site", "https://x")]), link("Top", "https://y")]);
    let parsed = BrowserJsonParser::new().parse_content(&text).unwrap();
    let records = parsed.get_successful();
    assert_eq!(records.len(), 2);
    assert_eq!(records[0].bookmark.link, "https://x");
    assert_eq!(records[0].tags, vec![String::from("Work")]);
    assert_eq!(records[0].bookmark.created_at, 1_700_000_000_123);
    assert_eq!(records[1].bookmark.link, "https://y");
    assert!(records[1].tags.is_empty());
    assert!(parsed.get_failed().is_empty());
}

#[test]
fn text_that_is_not_json_is_an_invalid_format() {
    let message = invalid_format(BrowserJsonParser::new().parse_content("{ not json"));
    assert!(message.starts_with("Failed to parse bookmark file: "));
    assert!(message.contains("line 1"));
}

#[test]
fn json_that_is_not_a_tree_is_an_invalid_format() {
    let parser = BrowserJsonParser::new();
    let expected = "Failed to parse bookmark file: the document is not a bookmark tree";
    assert_eq!(invalid_format(parser.parse_content("[1, 2]")), expected);
    assert_eq!(invalid_format(parser.parse_content("{\"title\": \"x\"}")), expected);
    assert_eq!(invalid_format(parser.parse_content("\"text\"")), expected);
}

#[test]
fn parse_json_copies_every_kind_of_value() {
    let value = parse_json("{\"b\":[null,true,-3,1.5,\"s\",18446744073709551615],\"a\":{}}").unwrap();
    let members = match value {
        JsonValue::Object(members) => members,
        other => panic!("unexpected {:?}", other),
    };
    assert_eq!(members.len(), 2);
    let at = find_member(&members, "b").unwrap();
    match &members[at].value {
        JsonValue::Array(items) => {
            assert!(matches!(items[0], JsonValue::Null));
            assert!(matches!(items[1], JsonValue::Bool(true)));
            assert!(matches!(items[2], JsonValue::Number(Some(-3))));
            assert!(matches!(items[3], JsonValue::Number(None)));
            assert!(matches!(&items[4], JsonValue::Text(text) if text == "s"));
            assert!(matches!(items[5], JsonValue::Number(None)));
        },
        other => panic!("unexpected {:?}", other),
    }
    let at = find_member(&members, "a").unwrap();
    assert!(matches!(&members[at].value, JsonValue::Object(inner) if inner.is_empty()));
    assert_eq!(find_member(&members, "c"), None);
}

#[test]
fn parse_json_reports_the_reason() {
    let message = parse_json("[1,").unwrap_err();
    assert_eq!(message, "EOF while parsing a value at line 1 column 3");
    assert!(parse_json("").is_err());
    assert!(parse_json("1 2").is_err());
}

#[test]
fn a_node_with_a_uri_is_a_link() {
    let text = node("L", ",\"uri\":\"u\",\"iconUri\":\"i\",\"children\":[]");
    let item = decode_item(&parse_json(&text).unwrap()).unwrap();
    match item {
        BrowserJsonBookmarkItem::Link(link) => {
            assert_eq!(link.uri, "u");
            assert_eq!(link.icon_uri, Some(String::from("i")));
            assert_eq!(link.base.title, "L");
            assert_eq!(link.base.guid, "g");
            assert_eq!(link.base.id, 5);
            assert_eq!(link.base.item_type, "t");
            assert_eq!(link.base.root, None);
        },
        other => panic!("unexpected {:?}", other),
    }
}

#[test]
fn a_node_without_uri_is_a_folder_even_without_children() {
    let item = decode_item(&parse_json(&node("F", ",\"root\":\"menu\"")).unwrap()).unwrap();
    match item {
        BrowserJsonBookmarkItem::Folder(folder) => {
            assert!(folder.children.is_empty());
            assert_eq!(folder.base.root, Some(String::from("menu")));
        },
        other => panic!("unexpected {:?}", other),
    }
}

#[test]
fn a_null_icon_is_no_icon() {
    let text = node("L", ",\"uri\":\"u\",\"iconUri\":null");
    match decode_item(&parse_json(&text).unwrap()).unwrap() {
        BrowserJsonBookmarkItem::Link(link) => assert_eq!(link.icon_uri, None),
        other => panic!("unexpected {:?}", other),
    }
}

#[test]
fn faulty_nodes_are_refused() {
    let refused = |text: &str| decode_item(&parse_json(text).unwrap()).is_none();
    assert!(refused("{\"title\":\"only\",\"uri\":\"u\"}"));
    assert!(refused(&node("F", ",\"children\":3")));
    assert!(refused(&node("F", ",\"children\":[1]")));
    assert!(refused(&node("F", ",\"children\":null")));
    assert!(refused(&node("F", ",\"root\":7")));
    assert!(refused(&folder("F", &[String::from("{}")])));
    let big_index = node("L", ",\"uri\":\"u\"").replace("\"index\":0", "\"index\":2147483648");
    assert!(refused(&big_index));
    let fraction = node("L", ",\"uri\":\"u\"").replace("\"id\":5", "\"id\":5.5");
    assert!(refused(&fraction));
}

#[test]
fn a_uri_that_is_no_string_makes_a_folder() {
    match decode_item(&parse_json(&node("F", ",\"uri\":7")).unwrap()).unwrap() {
        BrowserJsonBookmarkItem::Folder(folder) => assert!(folder.children.is_empty()),
        other => panic!("unexpected {:?}", other),
    }
}

#[test]
fn external_output_is_read_with_records_and_failures() {
    let text = "{\"successful\":[{\"title\":null,\"link\":\"l1\",\"created_at\":12,\"tags\":[\"a\",\"b\"]},\
                {\"title\":\"T\",\"link\":\"l2\",\"icon_link\":\"i\",\"created_at\":-4,\"tags\":[]}],\
                \"failed\":[{\"note_index\":3,\"note_title\":\"n\",\"error\":\"e\"}]}";
    let outcome = decode_success(&parse_json(text).unwrap()).unwrap();
    let records = outcome.get_successful();
    assert_eq!(records.len(), 2);
    assert_eq!(records[0].bookmark.title, None);
    assert_eq!(records[0].bookmark.link, "l1");
    assert_eq!(records[0].bookmark.icon_link, None);
    assert_eq!(records[0].bookmark.created_at, 12);
    assert_eq!(records[0].tags, vec![String::from("a"), String::from("b")]);
    assert_eq!(records[1].bookmark.title, Some(String::from("T")));
    assert_eq!(records[1].bookmark.icon_link, Some(String::from("i")));
    assert_eq!(records[1].bookmark.created_at, -4);
    let failed = outcome.get_failed();
    assert_eq!(failed.len(), 1);
    assert_eq!(failed[0].note_index, 3);
    assert_eq!(failed[0].note_title, "n");
    assert_eq!(failed[0].error, "e");
}

#[test]
fn faulty_external_output_is_refused() {
    let refused = |text: &str| decode_success(&parse_json(text).unwrap()).is_none();
    assert!(refused("{\"successful\":[]}"));
    assert!(refused("{\"failed\":[]}"));
    assert!(refused("{\"successful\":{},\"failed\":[]}"));
    assert!(refused("{\"successful\":[{\"link\":\"l\",\"created_at\":1}],\"failed\":[]}"));
    assert!(refused("{\"successful\":[{\"link\":\"l\",\"created_at\":\"1\",\"tags\":[]}],\"failed\":[]}"));
    assert!(refused("{\"successful\":[{\"link\":1,\"created_at\":1,\"tags\":[]}],\"failed\":[]}"));
    assert!(refused("{\"successful\":[{\"link\":\"l\",\"created_at\":1,\"tags\":[1]}],\"failed\":[]}"));
    assert!(refused("{\"successful\":[],\"failed\":[{\"note_index\":1,\"note_title\":\"n\"}]}"));
    assert!(refused("[]"));
    assert!(decode_success(&parse_json("{\"successful\":[],\"failed\":[]}").unwrap()).is_some());
}

#[test]
fn parser_configuration_is_read() {
    let text = "{\"name\":\"N\",\"type\":\"python\",\"path\":\"/p\",\"supportedFormats\":[\"html\",\"csv\"]}";
    let config = decode_config(&parse_json(text).unwrap()).unwrap();
    assert_eq!(config.name, "N");
    assert_eq!(config.kind, "python");
    assert_eq!(config.path, "/p");
    assert_eq!(config.supported_formats, vec![String::from("html"), String::from("csv")]);
    let short = "{\"name\":\"N\",\"type\":\"python\",\"path\":\"/p\"}";
    assert!(decode_config(&parse_json(short).unwrap()).is_none());
}

#[test]
fn the_first_member_of_a_name_is_found() {
    let members = vec![
        JsonMember { key: String::from("k"), value: JsonValue::Bool(true) },
        JsonMember { key: String::from("k"), value: JsonValue::Null },
    ];
    assert_eq!(find_member(&members, "k"), Some(0));
}

#[test]
fn an_unreadable_file_is_a_file_read_error() {
    match BrowserJsonParser::new().unreadable("No such file or directory (os error 2)") {
        ParserError::FileReadError(message) => {
            assert_eq!(message, "Error reading file: No such file or directory (os error 2)");
        },
        other => panic!("unexpected {:?}", other),
    }
}
