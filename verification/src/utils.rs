//! What to tell the user and the log, and how the registry is filled from the
//! configuration.

use vstd::prelude::*;
use vstd::string::StringExecFns;
use crate::custom_parsers::{
    path_exists, BrowserJsonParser, Parser, PythonParser, RegisteredModel, RegisteredParser,
};
use crate::errors::{DuplicateNameError, ParserError};
use crate::registry::{has_name, lemma_lookup_first, lookup, ParserRegistry, Registrations};
use crate::structs::{ParserConfig, ParserDescriptor};
use crate::text::same_text;

verus! {

/// How grave a line of the log is.
#[derive(Debug, Clone, Copy, PartialEq, Eq, Structural)]
pub enum Level {
    Error,
    Warn,
    Info,
    Debug,
    Trace,
}

/// A message for the desktop's notification area.
#[derive(Debug)]
pub struct Notification {
    pub title: String,
    pub body: String,
}

/// What to make known: a line for the log and, where the user has to act or
/// learn of an outcome, a notification.
#[derive(Debug)]
pub struct Broadcast {
    pub notification: Option<Notification>,
    pub level: Level,
    pub text: String,
}

/// A broadcast, as a mathematical value.
pub ghost struct BroadcastModel {
    /// Title and body of the notification, if there is one.
    pub notification: Option<(Seq<char>, Seq<char>)>,
    pub level: Level,
    pub text: Seq<char>,
}

impl View for Broadcast {
    type V = BroadcastModel;

    open spec fn view(&self) -> BroadcastModel {
        BroadcastModel {
            notification: match self.notification {
                Some(note) => Some((note.title@, note.body@)),
                None => None,
            },
            level: self.level,
            text: self.text@,
        }
    }
}

/// The broadcast for a message: the body goes to the log at the given level,
/// and title and body are notified where the user is to see them.
pub open spec fn broadcast(
    title: Seq<char>,
    body: Seq<char>,
    level: Level,
    user_action_needed: bool,
) -> BroadcastModel {
    BroadcastModel {
        notification: if user_action_needed {
            Some((title, body))
        } else {
            None
        },
        level,
        text: body,
    }
}

/// Says what to make known of a message.
pub fn broadcast_info(title: &str, body: &str, level: Level, user_action_needed: bool) -> (r:
    Broadcast)
    ensures
        r@ == broadcast(title@, body@, level, user_action_needed),
{
    let notification = if user_action_needed {
        Some(Notification { title: String::from_str(title), body: String::from_str(body) })
    } else {
        None
    };
    Broadcast { notification, level, text: String::from_str(body) }
}

/// How an attempt to add a configured parser ends.
pub ghost enum AddResult {
    Registered,
    Duplicate,
    Missing,
    Unsupported,
}

/// How an attempt to add a configured parser ended.
#[derive(Debug)]
pub enum AddOutcome {
    /// The parser is registered.
    Registered,
    /// The name is taken; the registry is as it was.
    Duplicate(DuplicateNameError),
    /// The parser's script was not found.
    Missing(ParserError),
    /// The configuration names a kind of parser that is not known.
    Unsupported,
}

/// The parser that a configuration of kind `python` stands for.
pub open spec fn external_model(config: ParserDescriptor) -> RegisteredModel {
    RegisteredModel { external: true, descriptor: config }
}

/// How adding a configured parser ends: only the kind `python` is known, its
/// script has to be there, and its name has to be free.
pub open spec fn add_result(entries: Registrations, config: ParserDescriptor, script_exists: bool) -> AddResult {
    if config.kind != "python"@ {
        AddResult::Unsupported
    } else if !script_exists {
        AddResult::Missing
    } else if has_name(entries, config.name) {
        AddResult::Duplicate
    } else {
        AddResult::Registered
    }
}

/// The registry after an attempt to add a configured parser.
pub open spec fn entries_after_add(
    entries: Registrations,
    config: ParserDescriptor,
    script_exists: bool,
) -> Registrations {
    if add_result(entries, config, script_exists) is Registered {
        entries.push((config.name, external_model(config)))
    } else {
        entries
    }
}

/// Whether `outcome` is what `result` says, with the error that belongs to it.
pub open spec fn outcome_is(outcome: AddOutcome, result: AddResult, config: ParserDescriptor) -> bool {
    match result {
        AddResult::Registered => outcome is Registered,
        AddResult::Duplicate => outcome matches AddOutcome::Duplicate(error) && error.name@
            == config.name,
        AddResult::Missing => outcome matches AddOutcome::Missing(
            ParserError::FileReadError(message),
        ) && message@ == PythonParser::missing_script(config.source_path),
        AddResult::Unsupported => outcome is Unsupported,
    }
}

/// Adds a configured parser once it is known whether its script exists.
pub fn add_parser_checked(
    registry: &mut ParserRegistry,
    config: &ParserConfig,
    script_exists: bool,
) -> (r: AddOutcome)
    ensures
        outcome_is(r, add_result(old(registry)@, config@, script_exists), config@),
        final(registry)@ == entries_after_add(old(registry)@, config@, script_exists),
{
    if !same_text(config.kind.as_str(), "python") {
        return AddOutcome::Unsupported;
    }
    let built = PythonParser::with_script_check(
        script_exists,
        config.name.as_str(),
        config.kind.as_str(),
        config.path.as_str(),
        &config.supported_formats,
    );
    match built {
        Err(error) => AddOutcome::Missing(error),
        Ok(parser) => {
            let parser = RegisteredParser::External(parser);
            assert(parser@ == external_model(config@));
            match registry.register(config.name.clone(), parser) {
                Ok(()) => AddOutcome::Registered,
                Err(error) => AddOutcome::Duplicate(error),
            }
        },
    }
}

/// Whether an attempt to add `config` to `before`, with the script found or
/// not as `script_exists` says, ends in `outcome` and leaves `after`.
pub open spec fn added(
    before: Registrations,
    config: ParserDescriptor,
    script_exists: bool,
    outcome: AddOutcome,
    after: Registrations,
) -> bool {
    &&& outcome_is(outcome, add_result(before, config, script_exists), config)
    &&& after == entries_after_add(before, config, script_exists)
}

/// Adds a configured parser, looking for its script first. Whatever the look
/// finds, the attempt ends as `add_parser_checked` says for what was found.
pub fn add_parser(registry: &mut ParserRegistry, config: &ParserConfig) -> (r: AddOutcome)
    ensures
        exists|script_exists: bool| #[trigger]
            added(old(registry)@, config@, script_exists, r, final(registry)@),
{
    let ghost before = registry@;
    let script_exists = if same_text(config.kind.as_str(), "python") {
        path_exists(config.path.as_str())
    } else {
        false
    };
    let outcome = add_parser_checked(registry, config, script_exists);
    assert(added(before, config@, script_exists, outcome, registry@));
    outcome
}

/// The body of the message for a parser that was registered.
pub open spec fn registered_text(config: ParserDescriptor) -> Seq<char> {
    "Registered parser: "@ + config.name
}

/// The body of the message for a parser whose name is taken.
pub open spec fn duplicate_text(name: Seq<char>) -> Seq<char> {
    "Failed to register parser: "@ + DuplicateNameError::message_for(name)
}

/// The body of the message for a parser that could not be built.
pub open spec fn missing_text(config: ParserDescriptor, error: Seq<char>) -> Seq<char> {
    "Failed to load Python parser from "@ + config.source_path + ": "@ + error
}

/// The body of the message for a parser of an unknown kind.
pub open spec fn unsupported_text(config: ParserDescriptor) -> Seq<char> {
    "Unsupported parser type: "@ + config.kind
}

/// What to make known of an attempt to add a parser.
pub open spec fn add_report(
    config: ParserDescriptor,
    outcome: AddOutcome,
    user_action_needed: bool,
) -> BroadcastModel {
    match outcome {
        AddOutcome::Registered => broadcast(
            "Parser Registered"@,
            registered_text(config),
            Level::Info,
            user_action_needed,
        ),
        AddOutcome::Duplicate(error) => broadcast(
            "Parser Registration Error"@,
            duplicate_text(error.name@),
            Level::Error,
            user_action_needed,
        ),
        AddOutcome::Missing(error) => broadcast(
            "Parser Error"@,
            missing_text(config, error.text()),
            Level::Error,
            user_action_needed,
        ),
        AddOutcome::Unsupported => broadcast(
            "Parser Error"@,
            unsupported_text(config),
            Level::Warn,
            user_action_needed,
        ),
    }
}

/// What to make known of an attempt to add a parser, told from how it ended.
pub open spec fn result_report(
    config: ParserDescriptor,
    result: AddResult,
    user_action_needed: bool,
) -> BroadcastModel {
    match result {
        AddResult::Registered => broadcast(
            "Parser Registered"@,
            registered_text(config),
            Level::Info,
            user_action_needed,
        ),
        AddResult::Duplicate => broadcast(
            "Parser Registration Error"@,
            duplicate_text(config.name),
            Level::Error,
            user_action_needed,
        ),
        AddResult::Missing => broadcast(
            "Parser Error"@,
            missing_text(
                config,
                "File read error: "@ + PythonParser::missing_script(config.source_path),
            ),
            Level::Error,
            user_action_needed,
        ),
        AddResult::Unsupported => broadcast(
            "Parser Error"@,
            unsupported_text(config),
            Level::Warn,
            user_action_needed,
        ),
    }
}

/// The view of an optional broadcast.
pub open spec fn report_of(report: Option<Broadcast>) -> Option<BroadcastModel> {
    match report {
        Some(broadcast) => Some(broadcast@),
        None => None,
    }
}

/// Says what to make known of an attempt to add a parser.
pub fn report_add(config: &ParserConfig, outcome: &AddOutcome, user_action_needed: bool) -> (r:
    Broadcast)
    ensures
        r@ == add_report(config@, *outcome, user_action_needed),
        forall|result: AddResult| #[trigger]
            outcome_is(*outcome, result, config@) ==> r@ == result_report(
                config@,
                result,
                user_action_needed,
            ),
{
    match outcome {
        AddOutcome::Registered => {
            let body = String::from_str("Registered parser: ").concat(config.name.as_str());
            broadcast_info("Parser Registered", body.as_str(), Level::Info, user_action_needed)
        },
        AddOutcome::Duplicate(error) => {
            let body = String::from_str("Failed to register parser: ").concat(
                error.message().as_str(),
            );
            broadcast_info(
                "Parser Registration Error",
                body.as_str(),
                Level::Error,
                user_action_needed,
            )
        },
        AddOutcome::Missing(error) => {
            let body = String::from_str("Failed to load Python parser from ").concat(
                config.path.as_str(),
            ).concat(": ").concat(error.message().as_str());
            broadcast_info("Parser Error", body.as_str(), Level::Error, user_action_needed)
        },
        AddOutcome::Unsupported => {
            let body = String::from_str("Unsupported parser type: ").concat(config.kind.as_str());
            broadcast_info("Parser Error", body.as_str(), Level::Warn, user_action_needed)
        },
    }
}

/// Adds a parser at the user's request and says what to tell the user: the
/// parser is registered unless its kind is unknown, its script is missing or
/// its name is taken, and each of the four outcomes has its message.
pub fn add_custom_parser(registry: &mut ParserRegistry, parser_config: &ParserConfig) -> (r:
    Broadcast)
    ensures
        exists|script_exists: bool|
            {
                &&& final(registry)@ == #[trigger] entries_after_add(
                    old(registry)@,
                    parser_config@,
                    script_exists,
                )
                &&& r@ == result_report(
                    parser_config@,
                    add_result(old(registry)@, parser_config@, script_exists),
                    true,
                )
            },
{
    let ghost before = registry@;
    let outcome = add_parser(registry, parser_config);
    let report = report_add(parser_config, &outcome, true);
    proof {
        let script_exists = choose|script_exists: bool| #[trigger]
            added(before, parser_config@, script_exists, outcome, registry@);
        assert(outcome_is(outcome, add_result(before, parser_config@, script_exists), parser_config@));
        assert(registry@ == entries_after_add(before, parser_config@, script_exists));
    }
    report
}

/// The descriptions of a list of configurations, in order.
pub open spec fn descriptors_of(configs: Seq<ParserConfig>) -> Seq<ParserDescriptor> {
    Seq::new(configs.len(), |i: int| configs[i]@)
}

/// The views of a list of broadcasts, in order.
pub open spec fn broadcasts_of(reports: Seq<Broadcast>) -> Seq<BroadcastModel> {
    Seq::new(reports.len(), |i: int| reports[i]@)
}

/// The registration of the built-in parser.
pub open spec fn default_entry() -> (Seq<char>, RegisteredModel) {
    (
        "Default JSON"@,
        RegisteredModel { external: false, descriptor: BrowserJsonParser::default_descriptor() },
    )
}

/// The registry after a reload from `configs`, where `found` says of each
/// configuration whether its script was found: the built-in parser first, then
/// each configured parser that could be added, in the order of the
/// configuration.
pub open spec fn reloaded(configs: Seq<ParserDescriptor>, found: Seq<bool>) -> Registrations
    decreases configs.len(),
{
    if configs.len() == 0 || found.len() != configs.len() {
        seq![default_entry()]
    } else {
        entries_after_add(
            reloaded(configs.drop_last(), found.drop_last()),
            configs.last(),
            found.last(),
        )
    }
}

/// What a reload makes known: a line for the log for each configured parser
/// that could not be added, in the order of the configuration.
pub open spec fn reload_reports(configs: Seq<ParserDescriptor>, found: Seq<bool>) -> Seq<
    BroadcastModel,
>
    decreases configs.len(),
{
    if configs.len() == 0 || found.len() != configs.len() {
        Seq::empty()
    } else {
        let earlier = reload_reports(configs.drop_last(), found.drop_last());
        let result = add_result(
            reloaded(configs.drop_last(), found.drop_last()),
            configs.last(),
            found.last(),
        );
        if result is Registered {
            earlier
        } else {
            earlier.push(result_report(configs.last(), result, false))
        }
    }
}

/// Whether `entries` and `reports` are what a reload from `configs` gives
/// where `found` says which scripts were found.
pub open spec fn is_reload(
    configs: Seq<ParserDescriptor>,
    found: Seq<bool>,
    entries: Registrations,
    reports: Seq<BroadcastModel>,
) -> bool {
    &&& found.len() == configs.len()
    &&& entries == reloaded(configs, found)
    &&& reports == reload_reports(configs, found)
}

/// After every reload the built-in parser is registered, and it comes first:
/// a way to import exists even where no configured parser could be added.
/// And no name is taken twice.
pub proof fn lemma_default_parser_survives(configs: Seq<ParserDescriptor>, found: Seq<bool>)
    ensures
        reloaded(configs, found).len() >= 1,
        reloaded(configs, found)[0] == default_entry(),
        lookup(reloaded(configs, found), "Default JSON"@) == Some(default_entry().1),
        crate::registry::names_unique(reloaded(configs, found)),
    decreases configs.len(),
{
    let entries = reloaded(configs, found);
    if configs.len() == 0 || found.len() != configs.len() {
        assert(entries[0] == default_entry());
    } else {
        let before = reloaded(configs.drop_last(), found.drop_last());
        lemma_default_parser_survives(configs.drop_last(), found.drop_last());
        if add_result(before, configs.last(), found.last()) is Registered {
            assert(entries[0] == before[0]);
            crate::registry::lemma_registered_unique(
                before,
                configs.last().name,
                external_model(configs.last()),
            );
        }
    }
    lemma_lookup_first(entries, "Default JSON"@, 0);
}

/// Refills the registry from the configuration: everything is removed, the
/// built-in parser is registered first, then each configured parser is added
/// in turn. A parser that cannot be added is passed over with a line for the
/// log, and the next one is tried.
pub fn register_parsers(custom_parsers: &Vec<ParserConfig>, registry: &mut ParserRegistry) -> (r:
    Vec<Broadcast>)
    ensures
        exists|found: Seq<bool>| #[trigger]
            is_reload(descriptors_of(custom_parsers@), found, final(registry)@, broadcasts_of(r@)),
{
    let ghost configs = descriptors_of(custom_parsers@);
    registry.remove_parsers();
    let default_browser_json_parser = BrowserJsonParser::new();
    let name = String::from_str(default_browser_json_parser.name());
    let parser = RegisteredParser::BuiltIn(default_browser_json_parser);
    assert(!has_name(registry@, name@));
    let first = registry.register(name, parser);
    assert(first is Ok);
    let mut reports: Vec<Broadcast> = Vec::new();
    let ghost mut found: Seq<bool> = Seq::empty();
    let mut i: usize = 0;
    proof {
        assert(registry@ =~= seq![default_entry()]);
        assert(configs.subrange(0, 0) =~= Seq::empty());
        assert(broadcasts_of(reports@) =~= Seq::empty());
    }
    while i < custom_parsers.len()
        invariant
            i <= custom_parsers@.len(),
            configs == descriptors_of(custom_parsers@),
            is_reload(configs.subrange(0, i as int), found, registry@, broadcasts_of(reports@)),
        decreases custom_parsers.len() - i,
    {
        let ghost before = registry@;
        let ghost earlier = broadcasts_of(reports@);
        let ghost seen = configs.subrange(0, i as int);
        let config = &custom_parsers[i];
        let outcome = add_parser(registry, config);
        let ghost script_exists = choose|script_exists: bool| #[trigger]
            added(before, config@, script_exists, outcome, registry@);
        proof {
            assert(added(before, config@, script_exists, outcome, registry@));
            let next = configs.subrange(0, i + 1);
            assert(next.drop_last() =~= seen);
            assert(next.last() == config@);
            assert(found.push(script_exists).drop_last() =~= found);
        }
        match outcome {
            AddOutcome::Registered => {},
            _ => {
                let report = report_add(config, &outcome, false);
                reports.push(report);
                proof {
                    assert(broadcasts_of(reports@) =~= earlier.push(report@));
                }
            },
        }
        proof {
            found = found.push(script_exists);
        }
        i = i + 1;
    }
    proof {
        assert(configs.subrange(0, i as int) =~= configs);
    }
    reports
}

} // verus!
