use pcpocket::custom_parsers::BrowserJsonParser;
use pcpocket::structs::{
    BrowserJsonBookmarkFolder, BrowserJsonBookmarkItem, BrowserJsonBookmarkItemBase,
    BrowserJsonBookmarkLink,
};
use pcpocket::tree::{extend_tags, flatten_tree, link_to_record};

fn base(title: &str, date_added: i64) -> BrowserJsonBookmarkItemBase {
    BrowserJsonBookmarkItemBase {
        guid: String::from("guid"),
        title: String::from(title),
        index: 0,
        date_added,
        last_modified: date_added,
        id: 1,
        type_code: 1,
        item_type: String::from("text/x-moz-place"),
        root: None,
    }
}

fn link_node(title: &str, uri: &str) -> BrowserJsonBookmarkLink {
    BrowserJsonBookmarkLink {
        base: base(title, 1_700_000_000_123),
        icon_uri: None,
        uri: String::from(uri),
    }
}

fn link(title: &str, uri: &str) -> BrowserJsonBookmarkItem {
    BrowserJsonBookmarkItem::Link(link_node(title, uri))
}

fn folder(title: &str, children: Vec<BrowserJsonBookmarkItem>) -> BrowserJsonBookmarkItem {
    BrowserJsonBookmarkItem::Folder(BrowserJsonBookmarkFolder { base: base(title, 0), children })
}

fn links_of(root: &BrowserJsonBookmarkItem) -> Vec<String> {
    flatten_tree(root).iter().map(|record| record.bookmark.link.clone()).collect()
}

fn tags(names: &[&str]) -> Vec<String> {
    names.iter().map(|name| String::from(*name)).collect()
}

#[test]
fn work_folder_then_top_link() {
    let root = folder(
        "",
        vec![folder("Work", vec![link("Site", "https://x")]), link("Top", "https://y")],
    );
    let parsed = BrowserJsonParser::new().parse_tree(&root);
    let records = parsed.get_successful();
    assert_eq!(records.len(), 2);
    assert_eq!(records[0].bookmark.link, "https://x");
    assert_eq!(records[0].bookmark.title, Some(String::from("Site")));
    assert_eq!(records[0].tags, tags(&["Work"]));
    assert_eq!(records[1].bookmark.link, "https://y");
    assert!(records[1].tags.is_empty());
    assert!(parsed.get_failed().is_empty());
}

#[test]
fn one_record_for_each_link() {
    let root = folder(
        "a",
        vec![
            link("1", "u1"),
            folder("b", vec![link("2", "u2"), folder("c", vec![]), link("3", "u3")]),
            folder("d", vec![folder("e", vec![link("4", "u4")])]),
        ],
    );
    assert_eq!(flatten_tree(&root).len(), 4);
}

#[test]
fn sibling_links_keep_document_order() {
    let root = folder("f", vec![link("A", "a"), link("B", "b"), link("C", "c")]);
    assert_eq!(links_of(&root), vec!["a", "b", "c"]);
}

#[test]
fn nested_folders_come_out_in_preorder() {
    let root = folder(
        "r",
        vec![
            link("1", "1"),
            folder("x", vec![link("2", "2"), folder("y", vec![link("3", "3")]), link("4", "4")]),
            link("5", "5"),
        ],
    );
    assert_eq!(links_of(&root), vec!["1", "2", "3", "4", "5"]);
}

#[test]
fn tags_are_ancestor_titles_from_the_root_down() {
    let root = folder("Root", vec![folder("Work", vec![folder("Rust", vec![link("V", "v")])])]);
    let records = flatten_tree(&root);
    assert_eq!(records[0].tags, tags(&["Root", "Work", "Rust"]));
}

#[test]
fn titles_are_trimmed_and_blank_ones_left_out() {
    let root = folder(
        "  ",
        vec![folder("\t Work \n", vec![folder("", vec![link("V", "v")])])],
    );
    let records = flatten_tree(&root);
    assert_eq!(records[0].tags, tags(&["Work"]));
}

#[test]
fn unicode_white_space_is_trimmed() {
    let root = folder("\u{a0}\u{2003}Caf\u{e9} au lait\u{3000}", vec![link("V", "v")]);
    let records = flatten_tree(&root);
    assert_eq!(records[0].tags, tags(&["Caf\u{e9} au lait"]));
}

#[test]
fn root_link_yields_one_record_without_tags() {
    let root = link("Only", "https://only");
    let records = flatten_tree(&root);
    assert_eq!(records.len(), 1);
    assert_eq!(records[0].bookmark.link, "https://only");
    assert!(records[0].tags.is_empty());
}

#[test]
fn empty_folder_yields_nothing() {
    assert!(flatten_tree(&folder("Empty", vec![])).is_empty());
    let root = folder("r", vec![folder("Empty", vec![]), link("L", "l")]);
    assert_eq!(links_of(&root), vec!["l"]);
}

#[test]
fn same_title_on_two_branches_gives_independent_paths() {
    let root = folder(
        "",
        vec![
            folder("A", vec![folder("Same", vec![link("1", "1")])]),
            folder("B", vec![folder("Same", vec![link("2", "2")])]),
        ],
    );
    let records = flatten_tree(&root);
    assert_eq!(records[0].tags, tags(&["A", "Same"]));
    assert_eq!(records[1].tags, tags(&["B", "Same"]));
}

#[test]
fn creation_time_is_in_whole_seconds() {
    let mut node = link_node("T", "t");
    node.base.date_added = 1_700_000_000_999;
    assert_eq!(link_to_record(&node, vec![]).bookmark.created_at, 1_700_000_000);
    node.base.date_added = 999;
    assert_eq!(link_to_record(&node, vec![]).bookmark.created_at, 0);
    node.base.date_added = -1_500;
    assert_eq!(link_to_record(&node, vec![]).bookmark.created_at, -1);
    node.base.date_added = i64::MIN;
    assert_eq!(link_to_record(&node, vec![]).bookmark.created_at, i64::MIN / 1000);
}

#[test]
fn icon_is_kept_and_a_missing_one_is_empty() {
    let mut node = link_node("T", "t");
    assert_eq!(link_to_record(&node, vec![]).bookmark.icon_link, Some(String::new()));
    node.icon_uri = Some(String::from("https://icon"));
    let record = link_to_record(&node, tags(&["a"]));
    assert_eq!(record.bookmark.icon_link, Some(String::from("https://icon")));
    assert_eq!(record.tags, tags(&["a"]));
}

#[test]
fn extend_tags_adds_the_trimmed_title() {
    assert_eq!(extend_tags(&tags(&["a"]), " b "), tags(&["a", "b"]));
    assert_eq!(extend_tags(&tags(&["a"]), " \n"), tags(&["a"]));
    assert_eq!(extend_tags(&vec![], "x"), tags(&["x"]));
}

#[test]
fn deep_tree_needs_no_deep_call_stack() {
    let mut node = link("leaf", "leaf");
    for _ in 0..200_000 {
        node = folder(" ", vec![node]);
    }
    node = folder("Top", vec![node]);
    let records = flatten_tree(&node);
    assert_eq!(records.len(), 1);
    assert_eq!(records[0].tags, tags(&["Top"]));
    let mut rest = node;
    loop {
        match rest {
            BrowserJsonBookmarkItem::Folder(mut inner) => match inner.children.pop() {
                Some(child) => rest = child,
                None => break,
            },
            BrowserJsonBookmarkItem::Link(_) => break,
        }
    }
}
