use pcpocket::custom_parsers::{BrowserJsonParser, Parser, PythonParser, RegisteredParser};
use pcpocket::registry::{contains_text, ParserRegistry};
use pcpocket::structs::ParserConfig;
use pcpocket::utils::{
    add_custom_parser, add_parser_checked, broadcast_info, register_parsers, report_add, AddOutcome,
    Level,
};

fn external(name: &str, path: &str, formats: &[&str]) -> RegisteredParser {
    let formats: Vec<String> = formats.iter().map(|f| String::from(*f)).collect();
    RegisteredParser::External(
        PythonParser::with_script_check(true, name, "python", path, &formats).unwrap(),
    )
}

fn config(name: &str, kind: &str, path: &str) -> ParserConfig {
    ParserConfig {
        name: String::from(name),
        kind: String::from(kind),
        path: String::from(path),
        supported_formats: vec![String::from("html")],
    }
}

fn path_of(parser: &RegisteredParser) -> String {
    parser.info().path
}

#[test]
fn second_registration_of_a_name_is_refused_and_the_first_stays() {
    let mut registry = ParserRegistry::new();
    assert!(registry.register(String::from("Mine"), external("Mine", "/first", &["html"])).is_ok());
    let error = registry
        .register(String::from("Mine"), external("Mine", "/second", &["csv"]))
        .unwrap_err();
    assert_eq!(error.name, "Mine");
    assert_eq!(error.message(), "Parser with name 'Mine' already exists");
    assert_eq!(registry.len(), 1);
    assert_eq!(path_of(registry.get("Mine").unwrap()), "/first");
}

#[test]
fn get_finds_by_exact_name() {
    let mut registry = ParserRegistry::new();
    registry.register(String::from("One"), external("One", "/1", &["a"])).unwrap();
    registry.register(String::from("Two"), external("Two", "/2", &["b"])).unwrap();
    assert_eq!(path_of(registry.get("Two").unwrap()), "/2");
    assert_eq!(path_of(registry.get("One").unwrap()), "/1");
    assert!(registry.get("one").is_none());
    assert!(registry.get("").is_none());
    assert!(ParserRegistry::new().get("One").is_none());
}

#[test]
fn the_registry_goes_by_the_name_given_at_registration() {
    let mut registry = ParserRegistry::new();
    registry.register(String::from("Alias"), external("Inner", "/1", &["a"])).unwrap();
    assert!(registry.get("Inner").is_none());
    assert_eq!(registry.get("Alias").unwrap().name(), "Inner");
    assert_eq!(registry.list_parsers_for_format(String::from("a")), vec!["Alias"]);
}

#[test]
fn parsers_are_listed_by_format_in_order_of_registration() {
    let mut registry = ParserRegistry::new();
    registry
        .register(
            String::from("Default JSON"),
            RegisteredParser::BuiltIn(BrowserJsonParser::new()),
        )
        .unwrap();
    registry.register(String::from("B"), external("B", "/b", &["html", "json"])).unwrap();
    registry.register(String::from("A"), external("A", "/a", &["csv"])).unwrap();
    registry.register(String::from("C"), external("C", "/c", &["json"])).unwrap();
    assert_eq!(
        registry.list_parsers_for_format(String::from("json")),
        vec!["Default JSON", "B", "C"]
    );
    assert_eq!(registry.list_parsers_for_format(String::from("csv")), vec!["A"]);
    assert!(registry.list_parsers_for_format(String::from("JSON")).is_empty());
    assert!(registry.list_parsers_for_format(String::new()).is_empty());
}

#[test]
fn remove_parsers_empties_the_registry() {
    let mut registry = ParserRegistry::new();
    registry.register(String::from("A"), external("A", "/a", &["csv"])).unwrap();
    registry.remove_parsers();
    assert_eq!(registry.len(), 0);
    assert!(registry.get("A").is_none());
    assert!(registry.register(String::from("A"), external("A", "/again", &["csv"])).is_ok());
}

#[test]
fn list_all_describes_every_parser() {
    let mut registry = ParserRegistry::new();
    registry
        .register(
            String::from("Default JSON"),
            RegisteredParser::BuiltIn(BrowserJsonParser::new()),
        )
        .unwrap();
    registry.register(String::from("A"), external("A", "/a", &["csv"])).unwrap();
    let all = registry.list_all();
    assert_eq!(all.len(), 2);
    assert_eq!(all[0].name, "Default JSON");
    assert_eq!(all[0].kind, "default");
    assert_eq!(all[0].path, "In app");
    assert_eq!(all[0].supported_formats, vec![String::from("json")]);
    assert_eq!(all[1].name, "A");
    assert_eq!(all[1].kind, "python");
}

#[test]
fn the_built_in_parser_describes_itself() {
    let parser = BrowserJsonParser::new();
    assert_eq!(parser.name(), "Default JSON");
    assert_eq!(parser.supported_formats(), vec!["json"]);
    let info = parser.info();
    assert_eq!(info.kind, "default");
    assert_eq!(info.path, "In app");
}

#[test]
fn contains_text_looks_for_an_equal_string() {
    assert!(contains_text(&vec!["a", "b"], "b"));
    assert!(!contains_text(&vec!["a", "b"], "c"));
    assert!(!contains_text(&vec![], ""));
}

#[test]
fn reload_puts_the_built_in_parser_first() {
    let mut registry = ParserRegistry::new();
    registry.register(String::from("Old"), external("Old", "/old", &["x"])).unwrap();
    let configs = vec![
        config("Here", "python", "/"),
        config("Gone", "python", "/no/such/script.py"),
        config("Lua", "lua", "/"),
        config("Here", "python", "/"),
        config("Default JSON", "python", "/"),
    ];
    let reports = register_parsers(&configs, &mut registry);
    let names: Vec<String> = registry.list_all().into_iter().map(|c| c.name).collect();
    assert_eq!(names, vec!["Default JSON", "Here"]);
    assert!(matches!(registry.get("Default JSON"), Some(RegisteredParser::BuiltIn(_))));
    assert!(registry.get("Old").is_none());
    let texts: Vec<&str> = reports.iter().map(|r| r.text.as_str()).collect();
    assert_eq!(
        texts,
        vec![
            "Failed to load Python parser from /no/such/script.py: File read error: Python script not found: /no/such/script.py",
            "Unsupported parser type: lua",
            "Failed to register parser: Parser with name 'Here' already exists",
            "Failed to register parser: Parser with name 'Default JSON' already exists",
        ]
    );
    assert_eq!(reports[0].level, Level::Error);
    assert_eq!(reports[1].level, Level::Warn);
    assert_eq!(reports[2].level, Level::Error);
    assert!(reports.iter().all(|r| r.notification.is_none()));
}

#[test]
fn reload_without_configuration_leaves_the_built_in_parser() {
    let mut registry = ParserRegistry::new();
    let reports = register_parsers(&vec![], &mut registry);
    assert!(reports.is_empty());
    assert_eq!(registry.len(), 1);
    assert_eq!(registry.list_parsers_for_format(String::from("json")), vec!["Default JSON"]);
}

#[test]
fn adding_a_parser_tells_the_user_how_it_went() {
    let mut registry = ParserRegistry::new();
    let added = add_custom_parser(&mut registry, &config("Mine", "python", "/"));
    assert_eq!(added.text, "Registered parser: Mine");
    assert_eq!(added.level, Level::Info);
    let note = added.notification.unwrap();
    assert_eq!(note.title, "Parser Registered");
    assert_eq!(note.body, "Registered parser: Mine");
    assert_eq!(registry.len(), 1);

    let again = add_custom_parser(&mut registry, &config("Mine", "python", "/"));
    assert_eq!(again.text, "Failed to register parser: Parser with name 'Mine' already exists");
    assert_eq!(again.notification.unwrap().title, "Parser Registration Error");
    assert_eq!(registry.len(), 1);

    let gone = add_custom_parser(&mut registry, &config("Other", "python", "/no/such/script.py"));
    assert_eq!(gone.notification.unwrap().title, "Parser Error");
    assert_eq!(gone.level, Level::Error);

    let lua = add_custom_parser(&mut registry, &config("Lua", "lua", "/"));
    assert_eq!(lua.text, "Unsupported parser type: lua");
    assert_eq!(lua.level, Level::Warn);
    assert_eq!(registry.len(), 1);
}

#[test]
fn add_parser_checked_goes_by_the_given_answer() {
    let mut registry = ParserRegistry::new();
    let missing = add_parser_checked(&mut registry, &config("M", "python", "/"), false);
    assert!(matches!(missing, AddOutcome::Missing(_)));
    assert_eq!(registry.len(), 0);
    let ok = add_parser_checked(&mut registry, &config("M", "python", "/no/such"), true);
    assert!(matches!(ok, AddOutcome::Registered));
    let duplicate = add_parser_checked(&mut registry, &config("M", "python", "/"), true);
    assert!(matches!(duplicate, AddOutcome::Duplicate(_)));
    let unsupported = add_parser_checked(&mut registry, &config("M", "default", "/"), true);
    assert!(matches!(unsupported, AddOutcome::Unsupported));
    let report = report_add(&config("M", "default", "/"), &unsupported, false);
    assert_eq!(report.text, "Unsupported parser type: default");
    assert!(report.notification.is_none());
}

#[test]
fn broadcast_notifies_only_where_asked() {
    let quiet = broadcast_info("Title", "Body", Level::Debug, false);
    assert!(quiet.notification.is_none());
    assert_eq!(quiet.text, "Body");
    assert_eq!(quiet.level, Level::Debug);
    let loud = broadcast_info("Title", "Body", Level::Error, true);
    let note = loud.notification.unwrap();
    assert_eq!(note.title, "Title");
    assert_eq!(note.body, "Body");
    assert_eq!(loud.level, Level::Error);
}
