use pcpocket::commands::{import_bookmarks, import_report, ImportOutcome};
use pcpocket::custom_parsers::ParserSuccess;
use pcpocket::errors::{ParserError, PersistenceError};
use pcpocket::ingest::{tag_rows, IngestFailure, IngestStep, Ingestion, DEFAULT_BATCH_SIZE};
use pcpocket::models::BookmarkNew;
use pcpocket::structs::ParsedBookmarkWithTags;
use pcpocket::utils::Level;

fn record(n: usize) -> ParsedBookmarkWithTags {
    ParsedBookmarkWithTags {
        bookmark: BookmarkNew {
            title: Some(format!("t{}", n)),
            link: format!("https://site/{}", n),
            icon_link: None,
            created_at: n as i64,
        },
        tags: vec![format!("tag{}", n % 3)],
    }
}

fn records(count: usize) -> Vec<ParsedBookmarkWithTags> {
    (0..count).map(record).collect()
}

/// Plays the store: keeps what is committed, refuses the batch that holds
/// the record with the link `refused`.
fn run(
    mut step: IngestStep,
    refused: Option<&str>,
    stored: &mut Vec<String>,
    sizes: &mut Vec<usize>,
) -> Result<usize, IngestFailure> {
    loop {
        match step {
            IngestStep::Flush(pending) => {
                let batch = pending.batch();
                sizes.push(batch.len());
                if batch.iter().any(|r| Some(r.bookmark.link.as_str()) == refused) {
                    return Err(pending.rolled_back(String::from("UNIQUE constraint failed")));
                }
                stored.extend(batch.into_iter().map(|r| r.bookmark.link));
                step = pending.committed();
            },
            IngestStep::Finished { count } => return Ok(count),
        }
    }
}

#[test]
fn hundred_and_twenty_records_take_three_transactions() {
    let mut stored = Vec::new();
    let mut sizes = Vec::new();
    let start = Ingestion::new(records(120), 50).unwrap().step();
    let result = run(start, None, &mut stored, &mut sizes);
    assert_eq!(result.unwrap(), 120);
    assert_eq!(sizes, vec![50, 50, 20]);
    let expected: Vec<String> = (0..120).map(|n| format!("https://site/{}", n)).collect();
    assert_eq!(stored, expected);
}

#[test]
fn refused_second_batch_leaves_the_first_stored() {
    let mut stored = Vec::new();
    let mut sizes = Vec::new();
    let start = Ingestion::new(records(120), 50).unwrap().step();
    let failure = run(start, Some("https://site/74"), &mut stored, &mut sizes).unwrap_err();
    assert_eq!(failure.committed, 50);
    assert_eq!(failure.error.message, "UNIQUE constraint failed");
    assert_eq!(sizes, vec![50, 50]);
    assert_eq!(stored.len(), 50);
    assert_eq!(stored[49], "https://site/49");
}

#[test]
fn refused_first_batch_stores_nothing() {
    let mut stored = Vec::new();
    let mut sizes = Vec::new();
    let start = Ingestion::new(records(10), 4).unwrap().step();
    let failure = run(start, Some("https://site/0"), &mut stored, &mut sizes).unwrap_err();
    assert_eq!(failure.committed, 0);
    assert_eq!(sizes, vec![4]);
    assert!(stored.is_empty());
}

#[test]
fn batches_of_every_shape() {
    let sizes_for = |count: usize, batch: usize| {
        let mut stored = Vec::new();
        let mut sizes = Vec::new();
        let start = Ingestion::new(records(count), batch).unwrap().step();
        assert_eq!(run(start, None, &mut stored, &mut sizes).unwrap(), count);
        assert_eq!(stored.len(), count);
        sizes
    };
    assert_eq!(sizes_for(0, 50), Vec::<usize>::new());
    assert_eq!(sizes_for(1, 50), vec![1]);
    assert_eq!(sizes_for(50, 50), vec![50]);
    assert_eq!(sizes_for(51, 50), vec![50, 1]);
    assert_eq!(sizes_for(100, 50), vec![50, 50]);
    assert_eq!(sizes_for(3, 1), vec![1, 1, 1]);
    assert_eq!(sizes_for(5, usize::MAX), vec![5]);
}

#[test]
fn a_batch_size_of_zero_is_refused() {
    assert!(Ingestion::new(records(3), 0).is_none());
    assert!(Ingestion::new(Vec::new(), 0).is_none());
}

#[test]
fn the_default_batch_size_is_fifty() {
    assert_eq!(DEFAULT_BATCH_SIZE, 50);
    let mut stored = Vec::new();
    let mut sizes = Vec::new();
    let start = Ingestion::with_default_batches(records(101)).step();
    assert_eq!(run(start, None, &mut stored, &mut sizes).unwrap(), 101);
    assert_eq!(sizes, vec![50, 50, 1]);
}

#[test]
fn an_import_stores_the_successful_records_only() {
    let failed = vec![pcpocket::structs::ParseFailBookmark {
        note_index: 1,
        note_title: String::from("n"),
        error: String::from("e"),
    }];
    let parsed = ParserSuccess::new(records(60), failed);
    let mut stored = Vec::new();
    let mut sizes = Vec::new();
    let count = run(import_bookmarks(&parsed), None, &mut stored, &mut sizes).unwrap();
    assert_eq!(count, 60);
    assert_eq!(sizes, vec![50, 10]);
    assert_eq!(stored[0], "https://site/0");
}

#[test]
fn a_batch_keeps_records_whole() {
    let start = Ingestion::new(records(2), 50).unwrap().step();
    match start {
        IngestStep::Flush(pending) => {
            let batch = pending.batch();
            assert_eq!(batch[1].bookmark.title, Some(String::from("t1")));
            assert_eq!(batch[1].bookmark.created_at, 1);
            assert_eq!(batch[1].tags, vec![String::from("tag1")]);
        },
        IngestStep::Finished { .. } => panic!("nothing to store"),
    }
}

#[test]
fn tag_rows_link_each_tag_to_the_record() {
    let mut item = record(1);
    item.tags = vec![String::from("a"), String::from("b"), String::from("a")];
    let rows = tag_rows(&item, 17);
    assert_eq!(rows.len(), 3);
    assert!(rows.iter().all(|row| row.bookmark_id == 17));
    let names: Vec<&str> = rows.iter().map(|row| row.tag_name.as_str()).collect();
    assert_eq!(names, vec!["a", "b", "a"]);
    item.tags.clear();
    assert!(tag_rows(&item, -3).is_empty());
}

#[test]
fn an_import_ends_with_one_message() {
    let done = import_report(&ImportOutcome::Imported { count: 120 });
    assert_eq!(done.text, "Successfully imported 120 bookmarks");
    assert_eq!(done.level, Level::Info);
    let note = done.notification.unwrap();
    assert_eq!(note.title, "Bookmarks Imported");
    assert_eq!(note.body, "Successfully imported 120 bookmarks");

    let parse = import_report(&ImportOutcome::ParseFailed(ParserError::PythonError(String::from(
        "Python script error: boom",
    ))));
    assert_eq!(parse.text, "Error parsing bookmarks: Python error: Python script error: boom");
    assert_eq!(parse.level, Level::Error);
    assert_eq!(parse.notification.unwrap().title, "Bookmarks Import Error");

    let store = import_report(&ImportOutcome::StoreFailed(PersistenceError {
        message: String::from("UNIQUE constraint failed"),
    }));
    assert_eq!(store.text, "Error inserting bookmarks: UNIQUE constraint failed");
    assert_eq!(store.notification.unwrap().title, "Bookmarks Import Error");

    let none = import_report(&ImportOutcome::Imported { count: 0 });
    assert_eq!(none.text, "Successfully imported 0 bookmarks");
}
