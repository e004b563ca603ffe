//! Records as they are handed to the store.

use vstd::prelude::*;

verus! {

/// The text of an optional string.
pub open spec fn text_of(value: Option<String>) -> Option<Seq<char>> {
    match value {
        Some(s) => Some(s@),
        None => None,
    }
}

/// The texts of a list of strings, in order.
pub open spec fn texts_of(values: Seq<String>) -> Seq<Seq<char>> {
    Seq::new(values.len(), |i: int| values[i]@)
}

/// Copies an optional string.
pub fn clone_text(value: &Option<String>) -> (r: Option<String>)
    ensures
        r == *value,
{
    match value {
        Some(s) => Some(s.clone()),
        None => None,
    }
}

/// Copies a list of strings.
pub fn clone_texts(values: &Vec<String>) -> (r: Vec<String>)
    ensures
        r@ == values@,
{
    let mut copy: Vec<String> = Vec::new();
    let mut i: usize = 0;
    while i < values.len()
        invariant
            i <= values.len(),
            copy@ == values@.subrange(0, i as int),
        decreases values.len() - i,
    {
        copy.push(values[i].clone());
        assert(copy@ =~= values@.subrange(0, i + 1));
        i = i + 1;
    }
    assert(values@.subrange(0, values.len() as int) =~= values@);
    copy
}

/// A bookmark that has not been stored yet, as a mathematical value.
pub ghost struct NewBookmarkRecord {
    pub title: Option<Seq<char>>,
    pub link: Seq<char>,
    pub icon_link: Option<Seq<char>>,
    /// Seconds since the epoch.
    pub created_at: int,
}

/// A bookmark that has not been stored yet.
#[derive(Debug)]
pub struct BookmarkNew {
    pub title: Option<String>,
    pub link: String,
    pub icon_link: Option<String>,
    /// Seconds since the epoch.
    pub created_at: i64,
}

impl View for BookmarkNew {
    type V = NewBookmarkRecord;

    open spec fn view(&self) -> NewBookmarkRecord {
        NewBookmarkRecord {
            title: text_of(self.title),
            link: self.link@,
            icon_link: text_of(self.icon_link),
            created_at: self.created_at as int,
        }
    }
}

impl Clone for BookmarkNew {
    fn clone(&self) -> (r: Self)
        ensures
            r == *self,
    {
        BookmarkNew {
            title: clone_text(&self.title),
            link: self.link.clone(),
            icon_link: clone_text(&self.icon_link),
            created_at: self.created_at,
        }
    }
}

/// A tag row that has not been stored yet: a tag name attached to a stored bookmark.
#[derive(Debug)]
pub struct TagNew {
    pub bookmark_id: i32,
    pub tag_name: String,
}

} // verus!
