//! What a request for a page of bookmarks asks of the store: which rows to
//! keep and how to order them.

use vstd::prelude::*;
use vstd::string::StringExecFns;
use crate::models::texts_of;
use crate::text::same_text;

verus! {

/// The value of a filter: a text to look for, or a list of tags.
#[derive(Debug)]
pub enum FilterValue {
    Text(String),
    Tags(Vec<String>),
}

/// A filter on one column of the bookmark table.
#[derive(Debug)]
pub struct FilterItem {
    pub id: String,
    pub value: FilterValue,
}

/// A wish to sort by one column.
#[derive(Debug)]
pub struct SortItem {
    pub id: String,
    pub desc: bool,
}

/// What a filter asks of a row.
#[derive(Debug)]
pub enum Criterion {
    /// The title matches the pattern.
    TitleLike(String),
    /// The link matches the pattern.
    LinkLike(String),
    /// The creation time is the number that the text spells.
    CreatedAt(String),
    /// Some tag of the bookmark matches one of the patterns.
    AnyTagLike(Vec<String>),
}

/// What a filter asks of a row, as a mathematical value.
pub ghost enum CriterionModel {
    TitleLike(Seq<char>),
    LinkLike(Seq<char>),
    CreatedAt(Seq<char>),
    AnyTagLike(Seq<Seq<char>>),
}

impl View for Criterion {
    type V = CriterionModel;

    open spec fn view(&self) -> CriterionModel {
        match self {
            Criterion::TitleLike(pattern) => CriterionModel::TitleLike(pattern@),
            Criterion::LinkLike(pattern) => CriterionModel::LinkLike(pattern@),
            Criterion::CreatedAt(text) => CriterionModel::CreatedAt(text@),
            Criterion::AnyTagLike(patterns) => CriterionModel::AnyTagLike(texts_of(patterns@)),
        }
    }
}

/// A column by which bookmarks can be ordered.
#[derive(Debug, Clone, Copy, PartialEq, Eq, Structural)]
pub enum SortColumn {
    Title,
    Link,
    CreatedAt,
}

/// An order of the rows.
#[derive(Debug, Clone, Copy, PartialEq, Eq, Structural)]
pub struct SortOrder {
    pub column: SortColumn,
    pub descending: bool,
}

/// The pattern that matches every text holding `text`.
pub open spec fn like(text: Seq<char>) -> Seq<char> {
    "%"@ + text + "%"@
}

/// The patterns for a list of texts, in order.
pub open spec fn likes(texts: Seq<Seq<char>>) -> Seq<Seq<char>> {
    Seq::new(texts.len(), |i: int| like(texts[i]))
}

/// What a filter with the given column and value asks. A column that is not
/// known, or a value of the wrong kind for its column, asks nothing.
pub open spec fn criterion_of(id: Seq<char>, value: FilterValue) -> Option<CriterionModel> {
    match value {
        FilterValue::Text(text) => if id == "title"@ {
            Some(CriterionModel::TitleLike(like(text@)))
        } else if id == "link"@ {
            Some(CriterionModel::LinkLike(like(text@)))
        } else if id == "created_at"@ {
            Some(CriterionModel::CreatedAt(text@))
        } else {
            None
        },
        FilterValue::Tags(tags) => if id == "tags"@ {
            Some(CriterionModel::AnyTagLike(likes(texts_of(tags@))))
        } else {
            None
        },
    }
}

/// The column that a name stands for.
pub open spec fn column_of(id: Seq<char>) -> Option<SortColumn> {
    if id == "title"@ {
        Some(SortColumn::Title)
    } else if id == "link"@ {
        Some(SortColumn::Link)
    } else if id == "created_at"@ {
        Some(SortColumn::CreatedAt)
    } else {
        None
    }
}

/// The order that a list of wishes gives: that of the last wish that names a
/// known column. Earlier wishes are overridden, unknown columns passed over.
pub open spec fn order_of(items: Seq<SortItem>) -> Option<SortOrder>
    decreases items.len(),
{
    if items.len() == 0 {
        None
    } else {
        match column_of(items.last().id@) {
            Some(column) => Some(SortOrder { column, descending: items.last().desc }),
            None => order_of(items.drop_last()),
        }
    }
}

/// Builds the pattern that matches every text holding `text`.
pub fn like_pattern(text: &str) -> (r: String)
    ensures
        r@ == like(text@),
{
    String::from_str("%").concat(text).concat("%")
}

impl FilterItem {
    /// What the filter asks of a row, if anything.
    pub fn criterion(&self) -> (r: Option<Criterion>)
        ensures
            r matches Some(criterion) ==> criterion_of(self.id@, self.value) == Some(criterion@),
            r is None ==> criterion_of(self.id@, self.value) is None,
    {
        match &self.value {
            FilterValue::Text(text) => {
                if same_text(self.id.as_str(), "title") {
                    Some(Criterion::TitleLike(like_pattern(text.as_str())))
                } else if same_text(self.id.as_str(), "link") {
                    Some(Criterion::LinkLike(like_pattern(text.as_str())))
                } else if same_text(self.id.as_str(), "created_at") {
                    Some(Criterion::CreatedAt(text.clone()))
                } else {
                    None
                }
            },
            FilterValue::Tags(tags) => {
                if same_text(self.id.as_str(), "tags") {
                    let mut patterns: Vec<String> = Vec::new();
                    let mut i: usize = 0;
                    while i < tags.len()
                        invariant
                            i <= tags@.len(),
                            patterns@.len() == i,
                            forall|k: int|
                                0 <= k < i ==> (#[trigger] patterns@[k])@ == like(tags@[k]@),
                        decreases tags.len() - i,
                    {
                        patterns.push(like_pattern(tags[i].as_str()));
                        i = i + 1;
                    }
                    assert(texts_of(patterns@) =~= likes(texts_of(tags@)));
                    Some(Criterion::AnyTagLike(patterns))
                } else {
                    None
                }
            },
        }
    }
}

impl SortItem {
    /// The column that the wish names, if it is known.
    pub fn column(&self) -> (r: Option<SortColumn>)
        ensures
            r == column_of(self.id@),
    {
        if same_text(self.id.as_str(), "title") {
            Some(SortColumn::Title)
        } else if same_text(self.id.as_str(), "link") {
            Some(SortColumn::Link)
        } else if same_text(self.id.as_str(), "created_at") {
            Some(SortColumn::CreatedAt)
        } else {
            None
        }
    }
}

/// The order in which to hand out the rows, if the request asks for one.
pub fn effective_sort(items: &Vec<SortItem>) -> (r: Option<SortOrder>)
    ensures
        r == order_of(items@),
{
    let mut i: usize = items.len();
    proof {
        assert(items@.subrange(0, items@.len() as int) =~= items@);
    }
    while i > 0
        invariant
            i <= items@.len(),
            order_of(items@) == order_of(items@.subrange(0, i as int)),
        decreases i,
    {
        let ghost seen = items@.subrange(0, i as int);
        proof {
            assert(seen.last() == items@[i - 1]);
            assert(seen.drop_last() =~= items@.subrange(0, i - 1));
        }
        match items[i - 1].column() {
            Some(column) => {
                return Some(SortOrder { column, descending: items[i - 1].desc });
            },
            None => {},
        }
        i = i - 1;
    }
    None
}

} // verus!
