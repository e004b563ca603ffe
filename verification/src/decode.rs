//! Reading the library's values out of JSON documents: the bookmark tree of a
//! browser export, the output of an external parser, a parser's configuration.

use vstd::prelude::*;
use crate::custom_parsers::{ParseOutcome, ParserSuccess};
use crate::json::{
    lemma_members_of, lemma_models_of, members_of, models_of, JsonMember, JsonModel, JsonValue,
};
use crate::models::{text_of, texts_of, BookmarkNew, NewBookmarkRecord};
use crate::structs::{
    failures_of, lemma_nodes_of, nodes_of, records_of, BookmarkTreeNode, BrowserJsonBookmarkFolder,
    BrowserJsonBookmarkItem, BrowserJsonBookmarkItemBase, BrowserJsonBookmarkLink,
    ParseFailBookmark, ParseFailure, ParsedBookmarkWithTags, ParsedRecord, ParserConfig,
    ParserDescriptor,
};
use crate::text::same_text;

verus! {

/// The members of a JSON object, in order.
pub type JsonFields = Seq<(Seq<char>, JsonModel)>;

/// The position of the first member named `key` at or after `start`.
pub open spec fn position_from(fields: JsonFields, key: Seq<char>, start: int) -> Option<int>
    decreases fields.len() - start,
{
    if start < 0 || start >= fields.len() {
        None
    } else if fields[start].0 == key {
        Some(start)
    } else {
        position_from(fields, key, start + 1)
    }
}

/// The position of the first member named `key`.
pub open spec fn position(fields: JsonFields, key: Seq<char>) -> Option<int> {
    position_from(fields, key, 0)
}

/// The value of the first member named `key`.
pub open spec fn member(fields: JsonFields, key: Seq<char>) -> Option<JsonModel> {
    match position(fields, key) {
        Some(at) => Some(fields[at].1),
        None => None,
    }
}

/// The text of the member named `key`, where there is such a member and it is a string.
pub open spec fn text_member(fields: JsonFields, key: Seq<char>) -> Option<Seq<char>> {
    match member(fields, key) {
        Some(JsonModel::Text(text)) => Some(text),
        _ => None,
    }
}

/// The text of the member named `key` where that may be left out: nothing for
/// a missing or null member, the text for a string. Any other value is a fault,
/// for which the result is `None`.
pub open spec fn optional_text_member(fields: JsonFields, key: Seq<char>) -> Option<
    Option<Seq<char>>,
> {
    match member(fields, key) {
        None => Some(None),
        Some(JsonModel::Null) => Some(None),
        Some(JsonModel::Text(text)) => Some(Some(text)),
        _ => None,
    }
}

/// The number of the member named `key`, where it is a whole number of 64 signed bits.
pub open spec fn integer_member(fields: JsonFields, key: Seq<char>) -> Option<int> {
    match member(fields, key) {
        Some(JsonModel::Number(Some(n))) => if i64::MIN <= n <= i64::MAX {
            Some(n)
        } else {
            None
        },
        _ => None,
    }
}

/// The number of the member named `key`, where it is a whole number of 32 signed bits.
pub open spec fn small_integer_member(fields: JsonFields, key: Seq<char>) -> Option<int> {
    match member(fields, key) {
        Some(JsonModel::Number(Some(n))) => if i32::MIN <= n <= i32::MAX {
            Some(n)
        } else {
            None
        },
        _ => None,
    }
}

/// What `read` makes of each value of a list, where it makes something of every one.
pub open spec fn decode_all<T>(items: Seq<JsonModel>, read: spec_fn(JsonModel) -> Option<T>) -> Option<
    Seq<T>,
>
    decreases items.len(),
{
    if items.len() == 0 {
        Some(Seq::empty())
    } else {
        match (decode_all(items.drop_last(), read), read(items.last())) {
            (Some(front), Some(value)) => Some(front.push(value)),
            _ => None,
        }
    }
}

/// A list with an unreadable front part is unreadable.
proof fn lemma_stay_unreadable<T>(
    items: Seq<JsonModel>,
    read: spec_fn(JsonModel) -> Option<T>,
    upto: int,
)
    requires
        0 <= upto <= items.len(),
        decode_all(items.subrange(0, upto), read) is None,
    ensures
        decode_all(items, read) is None,
    decreases items.len() - upto,
{
    if upto < items.len() {
        let next = items.subrange(0, upto + 1);
        assert(next.drop_last() =~= items.subrange(0, upto));
        lemma_stay_unreadable(items, read, upto + 1);
    } else {
        assert(items.subrange(0, upto) =~= items);
    }
}

/// The text of a JSON value that is a string.
pub open spec fn text_value(json: JsonModel) -> Option<Seq<char>> {
    match json {
        JsonModel::Text(text) => Some(text),
        _ => None,
    }
}

/// The texts of a list of JSON values, where every one of them is a string.
pub open spec fn decode_texts(items: Seq<JsonModel>) -> Option<Seq<Seq<char>>> {
    decode_all(items, |item: JsonModel| text_value(item))
}

/// The texts of the member named `key`, where it is a list of strings.
pub open spec fn texts_member(fields: JsonFields, key: Seq<char>) -> Option<Seq<Seq<char>>> {
    match member(fields, key) {
        Some(JsonModel::Array(items)) => decode_texts(items),
        _ => None,
    }
}

/// A member before which no member has the key is the first with that key.
proof fn lemma_position_found(fields: JsonFields, key: Seq<char>, start: int, at: int)
    requires
        0 <= start <= at < fields.len(),
        fields[at].0 == key,
        forall|k: int| start <= k < at ==> (#[trigger] fields[k]).0 != key,
    ensures
        position_from(fields, key, start) == Some(at),
    decreases at - start,
{
    if start < at {
        lemma_position_found(fields, key, start + 1, at);
    }
}

/// Where no member has the key, there is no position.
proof fn lemma_position_missing(fields: JsonFields, key: Seq<char>, start: int)
    requires
        0 <= start <= fields.len(),
        forall|k: int| start <= k < fields.len() ==> (#[trigger] fields[k]).0 != key,
    ensures
        position_from(fields, key, start) is None,
    decreases fields.len() - start,
{
    if start < fields.len() {
        lemma_position_missing(fields, key, start + 1);
    }
}

/// Finds the first member named `key`.
pub fn find_member(fields: &Vec<JsonMember>, key: &str) -> (r: Option<usize>)
    ensures
        r matches Some(at) ==> at < fields@.len() && position(members_of(fields@), key@) == Some(
            at as int,
        ),
        r is None ==> position(members_of(fields@), key@) is None,
{
    let ghost model = members_of(fields@);
    proof {
        lemma_members_of(fields@);
    }
    let mut i: usize = 0;
    while i < fields.len()
        invariant
            i <= fields@.len(),
            model == members_of(fields@),
            model.len() == fields@.len(),
            forall|k: int| 0 <= k < fields@.len() ==> model[k] == ((#[trigger] fields@[k]).key@,
                fields@[k].value@),
            forall|k: int| 0 <= k < i ==> (#[trigger] model[k]).0 != key@,
        decreases fields.len() - i,
    {
        if same_text(fields[i].key.as_str(), key) {
            proof {
                assert(model[i as int].0 == key@);
                lemma_position_found(model, key@, 0, i as int);
            }
            return Some(i);
        }
        proof {
            assert(model[i as int].0 != key@);
        }
        i = i + 1;
    }
    proof {
        lemma_position_missing(model, key@, 0);
    }
    None
}

/// The string of the member named `key`.
pub fn text_at(fields: &Vec<JsonMember>, key: &str) -> (r: Option<String>)
    ensures
        text_of(r) == text_member(members_of(fields@), key@),
{
    proof {
        lemma_members_of(fields@);
    }
    match find_member(fields, key) {
        Some(at) => match &fields[at].value {
            JsonValue::Text(text) => Some(text.clone()),
            _ => None,
        },
        None => None,
    }
}

/// The string of the member named `key`, which may be missing or null.
pub fn optional_text_at(fields: &Vec<JsonMember>, key: &str) -> (r: Option<Option<String>>)
    ensures
        r matches Some(found) ==> optional_text_member(members_of(fields@), key@) == Some(
            text_of(found),
        ),
        r is None ==> optional_text_member(members_of(fields@), key@) is None,
{
    proof {
        lemma_members_of(fields@);
    }
    match find_member(fields, key) {
        Some(at) => match &fields[at].value {
            JsonValue::Text(text) => Some(Some(text.clone())),
            JsonValue::Null => Some(None),
            _ => None,
        },
        None => Some(None),
    }
}

/// The whole number of the member named `key`.
pub fn integer_at(fields: &Vec<JsonMember>, key: &str) -> (r: Option<i64>)
    ensures
        r matches Some(n) ==> integer_member(members_of(fields@), key@) == Some(n as int),
        r is None ==> integer_member(members_of(fields@), key@) is None,
{
    proof {
        lemma_members_of(fields@);
    }
    match find_member(fields, key) {
        Some(at) => match &fields[at].value {
            JsonValue::Number(Some(n)) => Some(*n),
            _ => None,
        },
        None => None,
    }
}

/// The whole number of the member named `key`, where it fits 32 signed bits.
pub fn small_integer_at(fields: &Vec<JsonMember>, key: &str) -> (r: Option<i32>)
    ensures
        r matches Some(n) ==> small_integer_member(members_of(fields@), key@) == Some(n as int),
        r is None ==> small_integer_member(members_of(fields@), key@) is None,
{
    proof {
        lemma_members_of(fields@);
    }
    match find_member(fields, key) {
        Some(at) => match &fields[at].value {
            JsonValue::Number(Some(n)) => {
                let n = *n;
                if -2147483648 <= n && n <= 2147483647 {
                    Some(n as i32)
                } else {
                    None
                }
            },
            _ => None,
        },
        None => None,
    }
}

/// The strings of a list of JSON values.
pub fn texts_in(items: &Vec<JsonValue>) -> (r: Option<Vec<String>>)
    ensures
        r matches Some(texts) ==> decode_texts(models_of(items@)) == Some(texts_of(texts@)),
        r is None ==> decode_texts(models_of(items@)) is None,
{
    let ghost models = models_of(items@);
    let ghost read = |item: JsonModel| text_value(item);
    proof {
        lemma_models_of(items@);
    }
    let mut texts: Vec<String> = Vec::new();
    let mut i: usize = 0;
    proof {
        assert(models.subrange(0, 0) =~= Seq::empty());
        assert(texts_of(texts@) =~= Seq::empty());
    }
    while i < items.len()
        invariant
            i <= items@.len(),
            models == models_of(items@),
            models.len() == items@.len(),
            read == |item: JsonModel| text_value(item),
            forall|k: int| 0 <= k < items@.len() ==> models[k] == (#[trigger] items@[k])@,
            decode_all(models.subrange(0, i as int), read) == Some(texts_of(texts@)),
        decreases items.len() - i,
    {
        let ghost next = models.subrange(0, i + 1);
        let ghost before = texts_of(texts@);
        proof {
            assert(next.drop_last() =~= models.subrange(0, i as int));
            assert(next.last() == models[i as int]);
        }
        match &items[i] {
            JsonValue::Text(text) => {
                texts.push(text.clone());
                proof {
                    assert(texts_of(texts@) =~= before.push(text@));
                }
            },
            _ => {
                proof {
                    lemma_stay_unreadable(models, read, i + 1);
                }
                return None;
            },
        }
        i = i + 1;
    }
    proof {
        assert(models.subrange(0, i as int) =~= models);
    }
    Some(texts)
}

/// The strings of the member named `key`.
pub fn texts_at(fields: &Vec<JsonMember>, key: &str) -> (r: Option<Vec<String>>)
    ensures
        r matches Some(texts) ==> texts_member(members_of(fields@), key@) == Some(
            texts_of(texts@),
        ),
        r is None ==> texts_member(members_of(fields@), key@) is None,
{
    proof {
        lemma_members_of(fields@);
    }
    match find_member(fields, key) {
        Some(at) => match &fields[at].value {
            JsonValue::Array(items) => texts_in(items),
            _ => None,
        },
        None => None,
    }
}

/// Whether an object has the fields that links and folders share, each of its type.
pub open spec fn base_ok(fields: JsonFields) -> bool {
    &&& text_member(fields, "guid"@) is Some
    &&& text_member(fields, "title"@) is Some
    &&& small_integer_member(fields, "index"@) is Some
    &&& integer_member(fields, "dateAdded"@) is Some
    &&& integer_member(fields, "lastModified"@) is Some
    &&& small_integer_member(fields, "id"@) is Some
    &&& small_integer_member(fields, "typeCode"@) is Some
    &&& text_member(fields, "type"@) is Some
    &&& optional_text_member(fields, "root"@) is Some
}

/// Whether `base` holds what the shared fields of an object say.
pub open spec fn base_matches(base: BrowserJsonBookmarkItemBase, fields: JsonFields) -> bool {
    &&& Some(base.guid@) == text_member(fields, "guid"@)
    &&& Some(base.title@) == text_member(fields, "title"@)
    &&& Some(base.index as int) == small_integer_member(fields, "index"@)
    &&& Some(base.date_added as int) == integer_member(fields, "dateAdded"@)
    &&& Some(base.last_modified as int) == integer_member(fields, "lastModified"@)
    &&& Some(base.id as int) == small_integer_member(fields, "id"@)
    &&& Some(base.type_code as int) == small_integer_member(fields, "typeCode"@)
    &&& Some(base.item_type@) == text_member(fields, "type"@)
    &&& Some(text_of(base.root)) == optional_text_member(fields, "root"@)
}

/// Whether an object with the shared fields is a link: it has a string `uri`,
/// and its `iconUri`, if it has one, is a string or null.
pub open spec fn link_ok(fields: JsonFields) -> bool {
    &&& optional_text_member(fields, "iconUri"@) is Some
    &&& text_member(fields, "uri"@) is Some
}

/// The tree that a JSON document describes. A node is an object with the
/// shared fields. It is a link where it has a `uri`; otherwise it is a folder,
/// whose `children`, if it has any, are a list of nodes.
pub open spec fn decode_node(json: JsonModel) -> Option<BookmarkTreeNode>
    decreases json,
{
    match json {
        JsonModel::Object(fields) => {
            if !base_ok(fields) {
                None
            } else if link_ok(fields) {
                Some(
                    BookmarkTreeNode::Link {
                        title: text_member(fields, "title"@)->0,
                        created_at_ms: integer_member(fields, "dateAdded"@)->0,
                        icon_url: optional_text_member(fields, "iconUri"@)->0,
                        target_url: text_member(fields, "uri"@)->0,
                    },
                )
            } else {
                match position(fields, "children"@) {
                    None => Some(
                        BookmarkTreeNode::Folder {
                            title: text_member(fields, "title"@)->0,
                            children: Seq::empty(),
                        },
                    ),
                    Some(at) => if 0 <= at < fields.len() {
                        match fields[at].1 {
                            JsonModel::Array(items) => match decode_nodes(items) {
                                Some(children) => Some(
                                    BookmarkTreeNode::Folder {
                                        title: text_member(fields, "title"@)->0,
                                        children,
                                    },
                                ),
                                None => None,
                            },
                            _ => None,
                        }
                    } else {
                        None
                    },
                }
            }
        },
        _ => None,
    }
}

/// The trees that a list of JSON values describes, where each describes one.
pub open spec fn decode_nodes(items: Seq<JsonModel>) -> Option<Seq<BookmarkTreeNode>>
    decreases items,
{
    if items.len() == 0 {
        Some(Seq::empty())
    } else {
        match (decode_nodes(items.drop_last()), decode_node(items.last())) {
            (Some(front), Some(node)) => Some(front.push(node)),
            _ => None,
        }
    }
}

/// A list of nodes with an unreadable front part is unreadable.
proof fn lemma_nodes_stay_unreadable(items: Seq<JsonModel>, upto: int)
    requires
        0 <= upto <= items.len(),
        decode_nodes(items.subrange(0, upto)) is None,
    ensures
        decode_nodes(items) is None,
    decreases items.len() - upto,
{
    if upto < items.len() {
        let next = items.subrange(0, upto + 1);
        assert(next.drop_last() =~= items.subrange(0, upto));
        lemma_nodes_stay_unreadable(items, upto + 1);
    } else {
        assert(items.subrange(0, upto) =~= items);
    }
}

/// Reads the fields that links and folders share.
pub fn decode_base(fields: &Vec<JsonMember>) -> (r: Option<BrowserJsonBookmarkItemBase>)
    ensures
        r is Some <==> base_ok(members_of(fields@)),
        r matches Some(base) ==> base_matches(base, members_of(fields@)),
{
    let guid = text_at(fields, "guid");
    let title = text_at(fields, "title");
    let index = small_integer_at(fields, "index");
    let date_added = integer_at(fields, "dateAdded");
    let last_modified = integer_at(fields, "lastModified");
    let id = small_integer_at(fields, "id");
    let type_code = small_integer_at(fields, "typeCode");
    let item_type = text_at(fields, "type");
    let root = optional_text_at(fields, "root");
    match (guid, title, index, date_added, last_modified, id, type_code, item_type, root) {
        (
            Some(guid),
            Some(title),
            Some(index),
            Some(date_added),
            Some(last_modified),
            Some(id),
            Some(type_code),
            Some(item_type),
            Some(root),
        ) => Some(
            BrowserJsonBookmarkItemBase {
                guid,
                title,
                index,
                date_added,
                last_modified,
                id,
                type_code,
                item_type,
                root,
            },
        ),
        _ => None,
    }
}

/// Reads a bookmark tree out of a JSON document.
pub fn decode_item(json: &JsonValue) -> (r: Option<BrowserJsonBookmarkItem>)
    ensures
        r matches Some(item) ==> decode_node(json@) == Some(item@),
        r is None ==> decode_node(json@) is None,
    decreases json,
{
    match json {
        JsonValue::Object(fields) => {
            let ghost model = members_of(fields@);
            proof {
                lemma_members_of(fields@);
            }
            let base = match decode_base(fields) {
                Some(base) => base,
                None => {
                    return None;
                },
            };
            let icon_uri = optional_text_at(fields, "iconUri");
            let uri = text_at(fields, "uri");
            match (icon_uri, uri) {
                (Some(icon_uri), Some(uri)) => {
                    return Some(
                        BrowserJsonBookmarkItem::Link(BrowserJsonBookmarkLink { base, icon_uri, uri }),
                    );
                },
                _ => {},
            }
            match find_member(fields, "children") {
                None => {
                    let children: Vec<BrowserJsonBookmarkItem> = Vec::new();
                    proof {
                        assert(nodes_of(children@) =~= Seq::empty());
                    }
                    Some(
                        BrowserJsonBookmarkItem::Folder(BrowserJsonBookmarkFolder { base, children }),
                    )
                },
                Some(at) => match &fields[at].value {
                    JsonValue::Array(items) => {
                        let ghost models = models_of(items@);
                        proof {
                            lemma_models_of(items@);
                            assert(model[at as int].1 == JsonModel::Array(models));
                        }
                        let mut children: Vec<BrowserJsonBookmarkItem> = Vec::new();
                        let mut i: usize = 0;
                        let ghost title = base.title@;
                        proof {
                            assert(models.subrange(0, 0) =~= Seq::empty());
                            assert(nodes_of(children@) =~= Seq::empty());
                        }
                        while i < items.len()
                            invariant
                                i <= items@.len(),
                                at < fields@.len(),
                                fields@[at as int].value == JsonValue::Array(*items),
                                *json == JsonValue::Object(*fields),
                                models == models_of(items@),
                                models.len() == items@.len(),
                                forall|k: int|
                                    0 <= k < items@.len() ==> models[k] == (#[trigger] items@[k])@,
                                decode_nodes(models.subrange(0, i as int)) == Some(
                                    nodes_of(children@),
                                ),
                                decode_nodes(models) is None ==> decode_node(json@) is None,
                                decode_nodes(models) matches Some(all) ==> decode_node(json@)
                                    == Some(BookmarkTreeNode::Folder { title, children: all }),
                            decreases items.len() - i,
                        {
                            let ghost seen = models.subrange(0, i as int);
                            let ghost next = models.subrange(0, i + 1);
                            let ghost before = children@;
                            proof {
                                assert(next.drop_last() =~= seen);
                                assert(next.last() == models[i as int]);
                                assert(fields@[at as int].value->Array_0 == *items);
                                assert(decreases_to!(*json => items@[i as int]));
                            }
                            match decode_item(&items[i]) {
                                Some(child) => {
                                    children.push(child);
                                    proof {
                                        assert(children@.drop_last() =~= before);
                                        assert(children@.last() == child);
                                    }
                                },
                                None => {
                                    proof {
                                        lemma_nodes_stay_unreadable(models, i + 1);
                                    }
                                    return None;
                                },
                            }
                            i = i + 1;
                        }
                        proof {
                            assert(models.subrange(0, i as int) =~= models);
                        }
                        Some(
                            BrowserJsonBookmarkItem::Folder(
                                BrowserJsonBookmarkFolder { base, children },
                            ),
                        )
                    },
                    _ => None,
                },
            }
        },
        _ => None,
    }
}

/// The record that a JSON value describes: an object with a string `link`, a
/// whole number `created_at`, a list of strings `tags`, and a `title` and an
/// `icon_link` that are strings, null or left out.
pub open spec fn decode_record(json: JsonModel) -> Option<ParsedRecord> {
    match json {
        JsonModel::Object(fields) => match (
            optional_text_member(fields, "title"@),
            text_member(fields, "link"@),
            optional_text_member(fields, "icon_link"@),
            integer_member(fields, "created_at"@),
            texts_member(fields, "tags"@),
        ) {
            (Some(title), Some(link), Some(icon_link), Some(created_at), Some(tags)) => Some(
                ParsedRecord {
                    bookmark: NewBookmarkRecord { title, link, icon_link, created_at },
                    tags,
                },
            ),
            _ => None,
        },
        _ => None,
    }
}

/// The failure that a JSON value describes: an object with a whole number
/// `note_index` of 32 bits and strings `note_title` and `error`.
pub open spec fn decode_failure(json: JsonModel) -> Option<ParseFailure> {
    match json {
        JsonModel::Object(fields) => match (
            small_integer_member(fields, "note_index"@),
            text_member(fields, "note_title"@),
            text_member(fields, "error"@),
        ) {
            (Some(source_index), Some(source_title), Some(error_message)) => Some(
                ParseFailure { source_index, source_title, error_message },
            ),
            _ => None,
        },
        _ => None,
    }
}

/// What an external parser's output says: an object whose `successful` is a
/// list of records and whose `failed` is a list of failures.
pub open spec fn decode_outcome(json: JsonModel) -> Option<ParseOutcome> {
    match json {
        JsonModel::Object(fields) => match (
            member(fields, "successful"@),
            member(fields, "failed"@),
        ) {
            (Some(JsonModel::Array(successful)), Some(JsonModel::Array(failed))) => match (
                decode_all(successful, |item: JsonModel| decode_record(item)),
                decode_all(failed, |item: JsonModel| decode_failure(item)),
            ) {
                (Some(successful), Some(failed)) => Some(ParseOutcome { successful, failed }),
                _ => None,
            },
            _ => None,
        },
        _ => None,
    }
}

/// The parser that a JSON value describes: an object with strings `name`,
/// `type` and `path` and a list of strings `supportedFormats`.
pub open spec fn decode_descriptor(json: JsonModel) -> Option<ParserDescriptor> {
    match json {
        JsonModel::Object(fields) => match (
            text_member(fields, "name"@),
            text_member(fields, "type"@),
            text_member(fields, "path"@),
            texts_member(fields, "supportedFormats"@),
        ) {
            (Some(name), Some(kind), Some(source_path), Some(supported_formats)) => Some(
                ParserDescriptor { name, kind, source_path, supported_formats },
            ),
            _ => None,
        },
        _ => None,
    }
}

/// Reads one record of an external parser's output.
pub fn decode_parsed(json: &JsonValue) -> (r: Option<ParsedBookmarkWithTags>)
    ensures
        r matches Some(record) ==> decode_record(json@) == Some(record@),
        r is None ==> decode_record(json@) is None,
{
    match json {
        JsonValue::Object(fields) => {
            let title = optional_text_at(fields, "title");
            let link = text_at(fields, "link");
            let icon_link = optional_text_at(fields, "icon_link");
            let created_at = integer_at(fields, "created_at");
            let tags = texts_at(fields, "tags");
            match (title, link, icon_link, created_at, tags) {
                (Some(title), Some(link), Some(icon_link), Some(created_at), Some(tags)) => Some(
                    ParsedBookmarkWithTags {
                        bookmark: BookmarkNew { title, link, icon_link, created_at },
                        tags,
                    },
                ),
                _ => None,
            }
        },
        _ => None,
    }
}

/// Reads one failure of an external parser's output.
pub fn decode_failed(json: &JsonValue) -> (r: Option<ParseFailBookmark>)
    ensures
        r matches Some(failure) ==> decode_failure(json@) == Some(failure@),
        r is None ==> decode_failure(json@) is None,
{
    match json {
        JsonValue::Object(fields) => {
            let note_index = small_integer_at(fields, "note_index");
            let note_title = text_at(fields, "note_title");
            let error = text_at(fields, "error");
            match (note_index, note_title, error) {
                (Some(note_index), Some(note_title), Some(error)) => Some(
                    ParseFailBookmark { note_index, note_title, error },
                ),
                _ => None,
            }
        },
        _ => None,
    }
}

/// Reads the records of an external parser's output.
pub fn decode_parsed_list(items: &Vec<JsonValue>) -> (r: Option<Vec<ParsedBookmarkWithTags>>)
    ensures
        r matches Some(records) ==> decode_all(
            models_of(items@),
            |item: JsonModel| decode_record(item),
        ) == Some(records_of(records@)),
        r is None ==> decode_all(models_of(items@), |item: JsonModel| decode_record(item))
            is None,
{
    let ghost models = models_of(items@);
    let ghost read = |item: JsonModel| decode_record(item);
    proof {
        lemma_models_of(items@);
    }
    let mut records: Vec<ParsedBookmarkWithTags> = Vec::new();
    let mut i: usize = 0;
    proof {
        assert(models.subrange(0, 0) =~= Seq::empty());
        assert(records_of(records@) =~= Seq::empty());
    }
    while i < items.len()
        invariant
            i <= items@.len(),
            models == models_of(items@),
            models.len() == items@.len(),
            read == |item: JsonModel| decode_record(item),
            forall|k: int| 0 <= k < items@.len() ==> models[k] == (#[trigger] items@[k])@,
            decode_all(models.subrange(0, i as int), read) == Some(records_of(records@)),
        decreases items.len() - i,
    {
        let ghost next = models.subrange(0, i + 1);
        let ghost before = records_of(records@);
        proof {
            assert(next.drop_last() =~= models.subrange(0, i as int));
            assert(next.last() == models[i as int]);
        }
        match decode_parsed(&items[i]) {
            Some(record) => {
                records.push(record);
                proof {
                    assert(records_of(records@) =~= before.push(record@));
                }
            },
            None => {
                proof {
                    lemma_stay_unreadable(models, read, i + 1);
                }
                return None;
            },
        }
        i = i + 1;
    }
    proof {
        assert(models.subrange(0, i as int) =~= models);
    }
    Some(records)
}

/// Reads the failures of an external parser's output.
pub fn decode_failed_list(items: &Vec<JsonValue>) -> (r: Option<Vec<ParseFailBookmark>>)
    ensures
        r matches Some(failures) ==> decode_all(
            models_of(items@),
            |item: JsonModel| decode_failure(item),
        ) == Some(failures_of(failures@)),
        r is None ==> decode_all(models_of(items@), |item: JsonModel| decode_failure(item))
            is None,
{
    let ghost models = models_of(items@);
    let ghost read = |item: JsonModel| decode_failure(item);
    proof {
        lemma_models_of(items@);
    }
    let mut failures: Vec<ParseFailBookmark> = Vec::new();
    let mut i: usize = 0;
    proof {
        assert(models.subrange(0, 0) =~= Seq::empty());
        assert(failures_of(failures@) =~= Seq::empty());
    }
    while i < items.len()
        invariant
            i <= items@.len(),
            models == models_of(items@),
            models.len() == items@.len(),
            read == |item: JsonModel| decode_failure(item),
            forall|k: int| 0 <= k < items@.len() ==> models[k] == (#[trigger] items@[k])@,
            decode_all(models.subrange(0, i as int), read) == Some(failures_of(failures@)),
        decreases items.len() - i,
    {
        let ghost next = models.subrange(0, i + 1);
        let ghost before = failures_of(failures@);
        proof {
            assert(next.drop_last() =~= models.subrange(0, i as int));
            assert(next.last() == models[i as int]);
        }
        match decode_failed(&items[i]) {
            Some(failure) => {
                failures.push(failure);
                proof {
                    assert(failures_of(failures@) =~= before.push(failure@));
                }
            },
            None => {
                proof {
                    lemma_stay_unreadable(models, read, i + 1);
                }
                return None;
            },
        }
        i = i + 1;
    }
    proof {
        assert(models.subrange(0, i as int) =~= models);
    }
    Some(failures)
}

/// Reads the output of an external parser.
pub fn decode_success(json: &JsonValue) -> (r: Option<ParserSuccess>)
    ensures
        r matches Some(outcome) ==> decode_outcome(json@) == Some(outcome@),
        r is None ==> decode_outcome(json@) is None,
{
    match json {
        JsonValue::Object(fields) => {
            proof {
                lemma_members_of(fields@);
            }
            let successful = match find_member(fields, "successful") {
                Some(at) => match &fields[at].value {
                    JsonValue::Array(items) => items,
                    _ => {
                        return None;
                    },
                },
                None => {
                    return None;
                },
            };
            let failed = match find_member(fields, "failed") {
                Some(at) => match &fields[at].value {
                    JsonValue::Array(items) => items,
                    _ => {
                        return None;
                    },
                },
                None => {
                    return None;
                },
            };
            let records = decode_parsed_list(successful);
            let failures = decode_failed_list(failed);
            match (records, failures) {
                (Some(records), Some(failures)) => Some(ParserSuccess::new(records, failures)),
                _ => None,
            }
        },
        _ => None,
    }
}

/// Reads a parser's configuration.
pub fn decode_config(json: &JsonValue) -> (r: Option<ParserConfig>)
    ensures
        r matches Some(config) ==> decode_descriptor(json@) == Some(config@),
        r is None ==> decode_descriptor(json@) is None,
{
    match json {
        JsonValue::Object(fields) => {
            let name = text_at(fields, "name");
            let kind = text_at(fields, "type");
            let path = text_at(fields, "path");
            let supported_formats = texts_at(fields, "supportedFormats");
            match (name, kind, path, supported_formats) {
                (Some(name), Some(kind), Some(path), Some(supported_formats)) => Some(
                    ParserConfig { name, kind, path, supported_formats },
                ),
                _ => None,
            }
        },
        _ => None,
    }
}

} // verus!
