//! What the commands of the application decide: how an import is reported,
//! and which parsers the configuration file is to keep.

use vstd::prelude::*;
use vstd::string::StringExecFns;
use crate::custom_parsers::ParserSuccess;
use crate::errors::{ParserError, PersistenceError};
use crate::ingest::{IngestStep, Ingestion, IngestionState, DEFAULT_BATCH_SIZE};
use crate::structs::{records_of, ParsedBookmarkWithTags};
use crate::text::{decimal, decimal_text};
use crate::utils::{broadcast, broadcast_info, Broadcast, BroadcastModel, Level};

verus! {

/// How an import ended.
#[derive(Debug)]
pub enum ImportOutcome {
    /// Every record is stored.
    Imported { count: usize },
    /// The parser gave no records; nothing was stored.
    ParseFailed(ParserError),
    /// The store refused a batch; earlier batches stay stored.
    StoreFailed(PersistenceError),
}

/// The body of the message for an import that stored `count` records.
pub open spec fn imported_text(count: nat) -> Seq<char> {
    "Successfully imported "@ + decimal(count) + " bookmarks"@
}

/// The body of the message for an import whose parser failed.
pub open spec fn parse_failed_text(cause: Seq<char>) -> Seq<char> {
    "Error parsing bookmarks: "@ + cause
}

/// The body of the message for an import that the store cut short.
pub open spec fn store_failed_text(cause: Seq<char>) -> Seq<char> {
    "Error inserting bookmarks: "@ + cause
}

/// The one message that an import ends with: a success states the number of
/// records, a failure carries its cause. The user is notified either way.
pub open spec fn import_message(outcome: ImportOutcome) -> BroadcastModel {
    match outcome {
        ImportOutcome::Imported { count } => broadcast(
            "Bookmarks Imported"@,
            imported_text(count as nat),
            Level::Info,
            true,
        ),
        ImportOutcome::ParseFailed(error) => broadcast(
            "Bookmarks Import Error"@,
            parse_failed_text(error.text()),
            Level::Error,
            true,
        ),
        ImportOutcome::StoreFailed(error) => broadcast(
            "Bookmarks Import Error"@,
            store_failed_text(error.message@),
            Level::Error,
            true,
        ),
    }
}

/// Says what to tell the user at the end of an import.
pub fn import_report(outcome: &ImportOutcome) -> (r: Broadcast)
    ensures
        r@ == import_message(*outcome),
{
    match outcome {
        ImportOutcome::Imported { count } => {
            let body = String::from_str("Successfully imported ").concat(
                decimal_text(*count).as_str(),
            ).concat(" bookmarks");
            broadcast_info("Bookmarks Imported", body.as_str(), Level::Info, true)
        },
        ImportOutcome::ParseFailed(error) => {
            let body = String::from_str("Error parsing bookmarks: ").concat(
                error.message().as_str(),
            );
            broadcast_info("Bookmarks Import Error", body.as_str(), Level::Error, true)
        },
        ImportOutcome::StoreFailed(error) => {
            let body = String::from_str("Error inserting bookmarks: ").concat(
                error.message.as_str(),
            );
            broadcast_info("Bookmarks Import Error", body.as_str(), Level::Error, true)
        },
    }
}

/// Starts storing what a parser returned, in batches of the default size.
/// Entries that the parser reported as failed are not stored.
pub fn import_bookmarks(parsed: &ParserSuccess) -> (r: IngestStep)
    ensures
        r.is_step_of(
            IngestionState::start(parsed@.successful, DEFAULT_BATCH_SIZE as nat),
        ),
{
    let source = parsed.get_successful();
    let mut records: Vec<ParsedBookmarkWithTags> = Vec::new();
    let mut i: usize = 0;
    while i < source.len()
        invariant
            i <= source@.len(),
            records_of(records@) == records_of(source@).subrange(0, i as int),
        decreases source.len() - i,
    {
        let ghost copied = records_of(records@);
        records.push(source[i].clone());
        assert(records_of(records@) =~= copied.push(source@[i as int]@));
        assert(copied.push(source@[i as int]@) =~= records_of(source@).subrange(0, i + 1));
        i = i + 1;
    }
    assert(records_of(source@).subrange(0, source@.len() as int) =~= records_of(source@));
    Ingestion::with_default_batches(records).step()
}

} // verus!
