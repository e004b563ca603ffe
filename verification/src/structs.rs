//! The bookmark tree of a browser export, and the flat records made from it.

use vstd::prelude::*;
use crate::models::{clone_texts, text_of, texts_of, BookmarkNew, NewBookmarkRecord};

verus! {

/// A node of an exported bookmark tree, as a mathematical value.
pub ghost enum BookmarkTreeNode {
    Link { title: Seq<char>, created_at_ms: int, icon_url: Option<Seq<char>>, target_url: Seq<char> },
    Folder { title: Seq<char>, children: Seq<BookmarkTreeNode> },
}

/// The folder names on the way from the root to a link.
pub type TagPath = Seq<Seq<char>>;

/// A record together with the tags to attach to it.
pub ghost struct ParsedRecord {
    pub bookmark: NewBookmarkRecord,
    pub tags: TagPath,
}

/// A record that a parser gave up on.
pub ghost struct ParseFailure {
    pub source_index: int,
    pub source_title: Seq<char>,
    pub error_message: Seq<char>,
}

/// How a parser is known to the registry and to the configuration file.
pub ghost struct ParserDescriptor {
    pub name: Seq<char>,
    pub kind: Seq<char>,
    pub source_path: Seq<char>,
    pub supported_formats: Seq<Seq<char>>,
}

/// The fields that links and folders of an export share.
#[derive(Debug)]
pub struct BrowserJsonBookmarkItemBase {
    pub guid: String,
    pub title: String,
    pub index: i32,
    /// Milliseconds since the epoch.
    pub date_added: i64,
    pub last_modified: i64,
    pub id: i32,
    pub type_code: i32,
    pub item_type: String,
    pub root: Option<String>,
}

/// A folder of an export, with its children in document order.
#[derive(Debug)]
pub struct BrowserJsonBookmarkFolder {
    pub base: BrowserJsonBookmarkItemBase,
    pub children: Vec<BrowserJsonBookmarkItem>,
}

/// A link of an export.
#[derive(Debug)]
pub struct BrowserJsonBookmarkLink {
    pub base: BrowserJsonBookmarkItemBase,
    pub icon_uri: Option<String>,
    pub uri: String,
}

/// A node of an export: a link or a folder.
#[derive(Debug)]
pub enum BrowserJsonBookmarkItem {
    Link(BrowserJsonBookmarkLink),
    Folder(BrowserJsonBookmarkFolder),
}

impl BrowserJsonBookmarkItem {
    /// The tree that the item stands for: what the import reads of it.
    pub open spec fn node(self) -> BookmarkTreeNode
        decreases self,
    {
        match self {
            BrowserJsonBookmarkItem::Link(link) => BookmarkTreeNode::Link {
                title: link.base.title@,
                created_at_ms: link.base.date_added as int,
                icon_url: text_of(link.icon_uri),
                target_url: link.uri@,
            },
            BrowserJsonBookmarkItem::Folder(folder) => BookmarkTreeNode::Folder {
                title: folder.base.title@,
                children: nodes_of(folder.children@),
            },
        }
    }
}

impl View for BrowserJsonBookmarkItem {
    type V = BookmarkTreeNode;

    open spec fn view(&self) -> BookmarkTreeNode {
        self.node()
    }
}

/// The nodes that a list of items stands for, in order.
pub open spec fn nodes_of(items: Seq<BrowserJsonBookmarkItem>) -> Seq<BookmarkTreeNode>
    decreases items,
{
    if items.len() == 0 {
        Seq::empty()
    } else {
        nodes_of(items.drop_last()).push(items.last().node())
    }
}

/// `nodes_of` keeps the length and maps item by item.
pub proof fn lemma_nodes_of(items: Seq<BrowserJsonBookmarkItem>)
    ensures
        nodes_of(items).len() == items.len(),
        forall|i: int| 0 <= i < items.len() ==> nodes_of(items)[i] == (#[trigger] items[i])@,
    decreases items.len(),
{
    if items.len() > 0 {
        let front = items.drop_last();
        lemma_nodes_of(front);
        assert forall|i: int| 0 <= i < items.len() implies nodes_of(items)[i] == (
        #[trigger] items[i])@ by {
            if i < front.len() {
                assert(front[i] == items[i]);
            }
        }
    }
}

/// A bookmark with the tags that go with it.
#[derive(Debug)]
pub struct ParsedBookmarkWithTags {
    pub bookmark: BookmarkNew,
    pub tags: Vec<String>,
}

impl View for ParsedBookmarkWithTags {
    type V = ParsedRecord;

    open spec fn view(&self) -> ParsedRecord {
        ParsedRecord { bookmark: self.bookmark@, tags: texts_of(self.tags@) }
    }
}

impl Clone for ParsedBookmarkWithTags {
    fn clone(&self) -> (r: Self)
        ensures
            r@ == self@,
            r.bookmark == self.bookmark,
            r.tags@ == self.tags@,
    {
        ParsedBookmarkWithTags { bookmark: self.bookmark.clone(), tags: clone_texts(&self.tags) }
    }
}

/// The records of a list, in order.
pub open spec fn records_of(items: Seq<ParsedBookmarkWithTags>) -> Seq<ParsedRecord> {
    Seq::new(items.len(), |i: int| items[i]@)
}

/// A source entry that a parser could not turn into a record.
#[derive(Debug)]
pub struct ParseFailBookmark {
    pub note_index: i32,
    pub note_title: String,
    pub error: String,
}

impl View for ParseFailBookmark {
    type V = ParseFailure;

    open spec fn view(&self) -> ParseFailure {
        ParseFailure {
            source_index: self.note_index as int,
            source_title: self.note_title@,
            error_message: self.error@,
        }
    }
}

impl Clone for ParseFailBookmark {
    fn clone(&self) -> (r: Self)
        ensures
            r == *self,
    {
        ParseFailBookmark {
            note_index: self.note_index,
            note_title: self.note_title.clone(),
            error: self.error.clone(),
        }
    }
}

/// The failures of a list, in order.
pub open spec fn failures_of(items: Seq<ParseFailBookmark>) -> Seq<ParseFailure> {
    Seq::new(items.len(), |i: int| items[i]@)
}

/// A parser as the configuration file describes it.
#[derive(Debug)]
pub struct ParserConfig {
    pub name: String,
    pub kind: String,
    pub path: String,
    pub supported_formats: Vec<String>,
}

impl View for ParserConfig {
    type V = ParserDescriptor;

    open spec fn view(&self) -> ParserDescriptor {
        ParserDescriptor {
            name: self.name@,
            kind: self.kind@,
            source_path: self.path@,
            supported_formats: texts_of(self.supported_formats@),
        }
    }
}

impl Clone for ParserConfig {
    fn clone(&self) -> (r: Self)
        ensures
            r@ == self@,
    {
        ParserConfig {
            name: self.name.clone(),
            kind: self.kind.clone(),
            path: self.path.clone(),
            supported_formats: clone_texts(&self.supported_formats),
        }
    }
}

} // verus!
