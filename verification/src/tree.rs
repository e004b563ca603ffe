//! Flattening a bookmark tree into records, each with the folder names that lead to it.

use vstd::prelude::*;
use crate::models::{clone_text, clone_texts, texts_of, BookmarkNew, NewBookmarkRecord};
use crate::structs::{
    lemma_nodes_of, records_of, BookmarkTreeNode, BrowserJsonBookmarkItem, BrowserJsonBookmarkLink,
    ParsedBookmarkWithTags, ParsedRecord, TagPath,
};
use crate::text::{trim, trimmed};

verus! {

/// Whole seconds in a span of milliseconds, rounded toward zero.
pub open spec fn seconds_of_millis(ms: int) -> int {
    if ms >= 0 {
        ms / 1000
    } else {
        -((-ms) / 1000)
    }
}

/// The tags that the children of a folder inherit: those of the folder, then its
/// trimmed title unless that is empty.
pub open spec fn child_tags(inherited: TagPath, title: Seq<char>) -> TagPath {
    if trimmed(title).len() > 0 {
        inherited.push(trimmed(title))
    } else {
        inherited
    }
}

/// The record made from a link. A link without an icon gets an empty icon link.
pub open spec fn link_record(
    title: Seq<char>,
    created_at_ms: int,
    icon_url: Option<Seq<char>>,
    target_url: Seq<char>,
) -> NewBookmarkRecord {
    NewBookmarkRecord {
        title: Some(title),
        link: target_url,
        icon_link: Some(
            match icon_url {
                Some(url) => url,
                None => Seq::empty(),
            },
        ),
        created_at: seconds_of_millis(created_at_ms),
    }
}

/// The records of a tree in document order (depth first, a folder's children
/// from left to right), each with the tags inherited on the way down.
pub open spec fn flatten(node: BookmarkTreeNode, tags: TagPath) -> Seq<ParsedRecord>
    decreases node,
{
    match node {
        BookmarkTreeNode::Link { title, created_at_ms, icon_url, target_url } => seq![
            ParsedRecord { bookmark: link_record(title, created_at_ms, icon_url, target_url), tags },
        ],
        BookmarkTreeNode::Folder { title, children } => flatten_all(
            children,
            child_tags(tags, title),
        ),
    }
}

/// The records of a list of sibling trees, the first sibling's records first.
pub open spec fn flatten_all(nodes: Seq<BookmarkTreeNode>, tags: TagPath) -> Seq<ParsedRecord>
    decreases nodes,
{
    if nodes.len() == 0 {
        Seq::empty()
    } else {
        flatten(nodes[0], tags) + flatten_all(nodes.drop_first(), tags)
    }
}

/// The number of nodes of a tree.
spec fn tree_size(node: BookmarkTreeNode) -> nat
    decreases node,
{
    match node {
        BookmarkTreeNode::Link { .. } => 1,
        BookmarkTreeNode::Folder { children, .. } => 1 + forest_size(children),
    }
}

/// The number of nodes of a list of trees.
spec fn forest_size(nodes: Seq<BookmarkTreeNode>) -> nat
    decreases nodes,
{
    if nodes.len() == 0 {
        0
    } else {
        tree_size(nodes[0]) + forest_size(nodes.drop_first())
    }
}

/// The number of links of a tree.
pub open spec fn link_count(node: BookmarkTreeNode) -> nat
    decreases node,
{
    match node {
        BookmarkTreeNode::Link { .. } => 1,
        BookmarkTreeNode::Folder { children, .. } => forest_link_count(children),
    }
}

/// The number of links of a list of trees.
pub open spec fn forest_link_count(nodes: Seq<BookmarkTreeNode>) -> nat
    decreases nodes,
{
    if nodes.len() == 0 {
        0
    } else {
        link_count(nodes[0]) + forest_link_count(nodes.drop_first())
    }
}

/// The node reached from `node` by descending into the children that `path` names.
pub open spec fn node_at(node: BookmarkTreeNode, path: Seq<int>) -> Option<BookmarkTreeNode>
    decreases path.len(),
{
    if path.len() == 0 {
        Some(node)
    } else {
        match node {
            BookmarkTreeNode::Folder { children, .. } => if 0 <= path[0] < children.len() {
                node_at(children[path[0]], path.drop_first())
            } else {
                None
            },
            BookmarkTreeNode::Link { .. } => None,
        }
    }
}

/// The titles of the folders passed through on the way along `path`, outermost first.
pub open spec fn ancestor_titles(node: BookmarkTreeNode, path: Seq<int>) -> Seq<Seq<char>>
    decreases path.len(),
{
    if path.len() == 0 {
        Seq::empty()
    } else {
        match node {
            BookmarkTreeNode::Folder { title, children } => if 0 <= path[0] < children.len() {
                seq![title] + ancestor_titles(children[path[0]], path.drop_first())
            } else {
                Seq::empty()
            },
            BookmarkTreeNode::Link { .. } => Seq::empty(),
        }
    }
}

/// The tags that a list of folder titles gives: each title trimmed, the empty ones left out.
pub open spec fn tag_path(titles: Seq<Seq<char>>) -> TagPath {
    titles.map_values(|title: Seq<char>| trimmed(title)).filter(|tag: Seq<char>| tag.len() > 0)
}

/// Whether `record` is the record of the link at `path` below `root`, tagged with
/// the titles of that link's ancestors.
pub open spec fn comes_from(
    root: BookmarkTreeNode,
    inherited: TagPath,
    path: Seq<int>,
    record: ParsedRecord,
) -> bool {
    &&& node_at(root, path) matches Some(
        BookmarkTreeNode::Link { title, created_at_ms, icon_url, target_url },
    )
    &&& record.bookmark == link_record(title, created_at_ms, icon_url, target_url)
    &&& record.tags == inherited + tag_path(ancestor_titles(root, path))
}

/// A tree yields one record for each of its links; folders yield none of their own.
pub proof fn lemma_record_count(node: BookmarkTreeNode, tags: TagPath)
    ensures
        flatten(node, tags).len() == link_count(node),
    decreases node, 0nat,
{
    match node {
        BookmarkTreeNode::Link { .. } => {},
        BookmarkTreeNode::Folder { title, children } => {
            lemma_forest_record_count(children, child_tags(tags, title));
        },
    }
}

/// A list of trees yields one record for each link in it.
pub proof fn lemma_forest_record_count(nodes: Seq<BookmarkTreeNode>, tags: TagPath)
    ensures
        flatten_all(nodes, tags).len() == forest_link_count(nodes),
    decreases nodes, 1nat,
{
    if nodes.len() > 0 {
        lemma_record_count(nodes[0], tags);
        lemma_forest_record_count(nodes.drop_first(), tags);
    }
}

/// Sibling order is kept: the records of a list of trees are those of its front
/// part followed by those of its back part.
pub proof fn lemma_flatten_all_concat(
    front: Seq<BookmarkTreeNode>,
    back: Seq<BookmarkTreeNode>,
    tags: TagPath,
)
    ensures
        flatten_all(front + back, tags) == flatten_all(front, tags) + flatten_all(back, tags),
    decreases front.len(),
{
    if front.len() == 0 {
        assert(front + back =~= back);
        assert(flatten_all(front, tags) + flatten_all(back, tags) =~= flatten_all(back, tags));
    } else {
        let all = front + back;
        assert(all[0] == front[0]);
        assert(all.drop_first() =~= front.drop_first() + back);
        lemma_flatten_all_concat(front.drop_first(), back, tags);
        assert(flatten(front[0], tags) + (flatten_all(front.drop_first(), tags) + flatten_all(
            back,
            tags,
        )) =~= (flatten(front[0], tags) + flatten_all(front.drop_first(), tags)) + flatten_all(
            back,
            tags,
        ));
    }
}

/// Sibling links come out in document order: where every tree of a list is a
/// link, the list's records are the links' records, index by index.
pub proof fn lemma_sibling_links_keep_order(links: Seq<BookmarkTreeNode>, tags: TagPath)
    requires
        forall|i: int| 0 <= i < links.len() ==> (#[trigger] links[i]) is Link,
    ensures
        flatten_all(links, tags).len() == links.len(),
        forall|i: int|
            0 <= i < links.len() ==> (#[trigger] flatten_all(links, tags)[i]) == flatten(
                links[i],
                tags,
            )[0],
    decreases links.len(),
{
    if links.len() > 0 {
        let rest = links.drop_first();
        assert(links[0] is Link);
        assert(flatten(links[0], tags).len() == 1);
        assert forall|i: int| 0 <= i < rest.len() implies (#[trigger] rest[i]) is Link by {
            assert(rest[i] == links[i + 1]);
        }
        lemma_sibling_links_keep_order(rest, tags);
        assert forall|i: int| 0 <= i < links.len() implies (#[trigger] flatten_all(links, tags)[i])
            == flatten(links[i], tags)[0] by {
            if i > 0 {
                assert(flatten_all(links, tags)[i] == flatten_all(rest, tags)[i - 1]);
                assert(rest[i - 1] == links[i]);
            }
        }
    }
}

/// A folder that holds only links yields one record for each of them, in the
/// order in which the folder holds them.
pub proof fn lemma_folder_of_links_keeps_order(folder: BookmarkTreeNode, tags: TagPath)
    requires
        folder is Folder,
        forall|i: int|
            0 <= i < folder->children.len() ==> (#[trigger] folder->children[i]) is Link,
    ensures
        flatten(folder, tags).len() == folder->children.len(),
        forall|i: int|
            0 <= i < folder->children.len() ==> (#[trigger] flatten(folder, tags)[i]) == flatten(
                folder->children[i],
                child_tags(tags, folder->Folder_title),
            )[0],
{
    lemma_sibling_links_keep_order(folder->children, child_tags(tags, folder->Folder_title));
}

/// A link directly in a document's outermost folder has no tags where that
/// folder has no name: its record stands after the records of the siblings
/// before it, and its tag list is empty.
pub proof fn lemma_link_under_unnamed_root(root: BookmarkTreeNode, i: int)
    requires
        root is Folder,
        trimmed(root->Folder_title).len() == 0,
        0 <= i < root->children.len(),
        root->children[i] is Link,
    ensures
        forest_link_count(root->children.subrange(0, i)) < flatten(root, Seq::empty()).len(),
        flatten(root, Seq::empty())[forest_link_count(root->children.subrange(0, i)) as int]
            == flatten(root->children[i], Seq::empty())[0],
        flatten(root, Seq::empty())[forest_link_count(
            root->children.subrange(0, i),
        ) as int].tags == Seq::<Seq<char>>::empty(),
{
    let children = root->children;
    let tags = Seq::<Seq<char>>::empty();
    let before = children.subrange(0, i);
    let from = children.subrange(i, children.len() as int);
    assert(before + from =~= children);
    lemma_flatten_all_concat(before, from, tags);
    lemma_forest_record_count(before, tags);
    assert(from[0] == children[i]);
    assert(flatten(children[i], tags).len() == 1);
}

/// What the tags of a folder's children add to its own: the folder's title,
/// trimmed, unless that is empty.
pub proof fn lemma_tag_path_step(inherited: TagPath, title: Seq<char>, titles: Seq<Seq<char>>)
    ensures
        child_tags(inherited, title) + tag_path(titles) == inherited + tag_path(
            seq![title] + titles,
        ),
{
    let trim_all = |t: Seq<char>| trimmed(t);
    let kept = |tag: Seq<char>| tag.len() > 0;
    let head = seq![title];
    assert((head + titles).map_values(trim_all) =~= head.map_values(trim_all) + titles.map_values(
        trim_all,
    ));
    Seq::filter_distributes_over_add(head.map_values(trim_all), titles.map_values(trim_all), kept);
    let first = head.map_values(trim_all);
    reveal_with_fuel(Seq::filter, 2);
    assert(first =~= seq![trimmed(title)]);
    assert(first.drop_last() =~= Seq::<Seq<char>>::empty());
    assert(first.drop_last().filter(kept) =~= Seq::<Seq<char>>::empty());
    assert(first.last() == trimmed(title));
    if trimmed(title).len() > 0 {
        assert(first.filter(kept) =~= seq![trimmed(title)]);
        assert(inherited.push(trimmed(title)) + tag_path(titles) =~= inherited + (seq![
            trimmed(title),
        ] + tag_path(titles)));
    } else {
        assert(first.filter(kept) =~= Seq::<Seq<char>>::empty());
        assert(Seq::<Seq<char>>::empty() + tag_path(titles) =~= tag_path(titles));
    }
}

/// Every record of a tree is the record of one of its links, and its tags are
/// the inherited ones followed by the trimmed, non-empty titles of the folders
/// that contain the link, outermost first.
pub proof fn lemma_record_origin(node: BookmarkTreeNode, tags: TagPath, k: int)
    requires
        0 <= k < flatten(node, tags).len(),
    ensures
        exists|path: Seq<int>| comes_from(node, tags, path, #[trigger] flatten(node, tags)[k]),
    decreases node, 0nat,
{
    match node {
        BookmarkTreeNode::Link { .. } => {
            let path = Seq::<int>::empty();
            assert(tag_path(Seq::empty()) =~= Seq::<Seq<char>>::empty());
            assert(tags + tag_path(ancestor_titles(node, path)) =~= tags);
            assert(comes_from(node, tags, path, flatten(node, tags)[k]));
        },
        BookmarkTreeNode::Folder { title, children } => {
            let inner = child_tags(tags, title);
            let (c, j) = lemma_forest_record_origin(children, inner, k);
            lemma_record_origin(children[c], inner, j);
            let record = flatten(node, tags)[k];
            let below = choose|p: Seq<int>| comes_from(children[c], inner, p, record);
            let path = seq![c] + below;
            assert(path.drop_first() =~= below);
            lemma_tag_path_step(tags, title, ancestor_titles(children[c], below));
            assert(comes_from(node, tags, path, record));
        },
    }
}

/// Every record of a list of trees is a record of one of the trees.
pub proof fn lemma_forest_record_origin(nodes: Seq<BookmarkTreeNode>, tags: TagPath, k: int) -> (at: (
    int,
    int,
))
    requires
        0 <= k < flatten_all(nodes, tags).len(),
    ensures
        0 <= at.0 < nodes.len(),
        0 <= at.1 < flatten(nodes[at.0], tags).len(),
        flatten_all(nodes, tags)[k] == flatten(nodes[at.0], tags)[at.1],
    decreases nodes.len(),
{
    let first = flatten(nodes[0], tags);
    if k < first.len() {
        (0, k)
    } else {
        let rest = nodes.drop_first();
        let (c, j) = lemma_forest_record_origin(rest, tags, k - first.len());
        assert(rest[c] == nodes[c + 1]);
        (c + 1, j)
    }
}

/// The tags of every record of a whole document are the trimmed, non-empty
/// titles of the folders around its link, outermost first.
pub proof fn lemma_tags_are_ancestor_titles(root: BookmarkTreeNode, k: int)
    requires
        0 <= k < flatten(root, Seq::empty()).len(),
    ensures
        exists|path: Seq<int>|
            {
                &&& comes_from(root, Seq::empty(), path, #[trigger] flatten(root, Seq::empty())[k])
                &&& flatten(root, Seq::empty())[k].tags == tag_path(ancestor_titles(root, path))
            },
{
    lemma_record_origin(root, Seq::empty(), k);
    let record = flatten(root, Seq::empty())[k];
    let path = choose|p: Seq<int>| comes_from(root, Seq::empty(), p, record);
    assert(Seq::<Seq<char>>::empty() + tag_path(ancestor_titles(root, path)) =~= tag_path(
        ancestor_titles(root, path),
    ));
}

/// A document that is a single link yields that link's record with no tags.
pub proof fn lemma_root_link_has_no_tags(root: BookmarkTreeNode)
    requires
        root is Link,
    ensures
        flatten(root, Seq::empty()).len() == 1,
        flatten(root, Seq::empty())[0].tags == Seq::<Seq<char>>::empty(),
{
}

/// The records still owed by a work list whose last entry is visited next.
spec fn pending_records(work: Seq<(BookmarkTreeNode, TagPath)>) -> Seq<ParsedRecord>
    decreases work.len(),
{
    if work.len() == 0 {
        Seq::empty()
    } else {
        flatten(work.last().0, work.last().1) + pending_records(work.drop_last())
    }
}

/// The number of nodes still to visit.
spec fn pending_size(work: Seq<(BookmarkTreeNode, TagPath)>) -> nat
    decreases work.len(),
{
    if work.len() == 0 {
        0
    } else {
        tree_size(work.last().0) + pending_size(work.drop_last())
    }
}

/// Whether a stack of borrowed nodes with their tags stands for a work list.
spec fn stands_for(
    stack: Seq<(&BrowserJsonBookmarkItem, Vec<String>)>,
    work: Seq<(BookmarkTreeNode, TagPath)>,
) -> bool {
    &&& stack.len() == work.len()
    &&& forall|i: int|
        0 <= i < stack.len() ==> (#[trigger] stack[i]).0@ == work[i].0 && texts_of(stack[i].1@)
            == work[i].1
}

proof fn lemma_push_pending(work: Seq<(BookmarkTreeNode, TagPath)>, node: BookmarkTreeNode, tags: TagPath)
    ensures
        pending_records(work.push((node, tags))) == flatten(node, tags) + pending_records(work),
        pending_size(work.push((node, tags))) == tree_size(node) + pending_size(work),
{
    assert(work.push((node, tags)).drop_last() =~= work);
}

proof fn lemma_forest_from(nodes: Seq<BookmarkTreeNode>, tags: TagPath, i: int)
    requires
        0 <= i < nodes.len(),
    ensures
        flatten_all(nodes.subrange(i, nodes.len() as int), tags) == flatten(nodes[i], tags)
            + flatten_all(nodes.subrange(i + 1, nodes.len() as int), tags),
        forest_size(nodes.subrange(i, nodes.len() as int)) == tree_size(nodes[i]) + forest_size(
            nodes.subrange(i + 1, nodes.len() as int),
        ),
{
    let tail = nodes.subrange(i, nodes.len() as int);
    assert(tail[0] == nodes[i]);
    assert(tail.drop_first() =~= nodes.subrange(i + 1, nodes.len() as int));
}

/// Builds the record of a link, with the tags inherited on the way to it.
pub fn link_to_record(link: &BrowserJsonBookmarkLink, tags: Vec<String>) -> (r: ParsedBookmarkWithTags)
    ensures
        r@ == (ParsedRecord {
            bookmark: link_record(
                link.base.title@,
                link.base.date_added as int,
                crate::models::text_of(link.icon_uri),
                link.uri@,
            ),
            tags: texts_of(tags@),
        }),
{
    let icon = match &link.icon_uri {
        Some(url) => url.clone(),
        None => String::new(),
    };
    ParsedBookmarkWithTags {
        bookmark: BookmarkNew {
            title: Some(link.base.title.clone()),
            link: link.uri.clone(),
            icon_link: Some(icon),
            created_at: link.base.date_added / 1000,
        },
        tags,
    }
}

/// Extends a tag path for the children of a folder with the given title.
pub fn extend_tags(inherited: &Vec<String>, title: &str) -> (r: Vec<String>)
    ensures
        texts_of(r@) == child_tags(texts_of(inherited@), title@),
{
    let mut tags = clone_texts(inherited);
    let name = trim(title);
    if !name.as_str().is_empty() {
        tags.push(name);
        assert(texts_of(tags@) =~= texts_of(inherited@).push(trimmed(title@)));
    }
    tags
}

/// Flattens a tree into its records, in document order. The walk keeps its own
/// work list, so the depth of the tree costs no call stack.
pub fn flatten_tree(root: &BrowserJsonBookmarkItem) -> (records: Vec<ParsedBookmarkWithTags>)
    ensures
        records_of(records@) == flatten(root@, Seq::empty()),
{
    let mut records: Vec<ParsedBookmarkWithTags> = Vec::new();
    let mut stack: Vec<(&BrowserJsonBookmarkItem, Vec<String>)> = Vec::new();
    stack.push((root, Vec::new()));
    let ghost mut work: Seq<(BookmarkTreeNode, TagPath)> = seq![(root@, Seq::empty())];
    proof {
        assert(texts_of(Seq::<String>::empty()) =~= Seq::<Seq<char>>::empty());
        lemma_push_pending(Seq::empty(), root@, Seq::empty());
        assert(Seq::<(BookmarkTreeNode, TagPath)>::empty().push((root@, Seq::empty())) =~= work);
        assert(records_of(records@) =~= Seq::<ParsedRecord>::empty());
    }
    while stack.len() > 0
        invariant
            stands_for(stack@, work),
            records_of(records@) + pending_records(work) == flatten(root@, Seq::empty()),
        decreases pending_size(work),
    {
        let ghost before = work;
        let ghost done = records_of(records@);
        let entry = stack.pop().unwrap();
        let current = entry.0;
        let current_tags = entry.1;
        proof {
            work = before.drop_last();
            assert(current@ == before.last().0);
            assert(texts_of(current_tags@) == before.last().1);
        }
        match current {
            BrowserJsonBookmarkItem::Link(link) => {
                let record = link_to_record(link, current_tags);
                records.push(record);
                proof {
                    assert(records_of(records@) =~= done + flatten(before.last().0, before.last().1));
                    assert(done + (flatten(before.last().0, before.last().1) + pending_records(work))
                        =~= (done + flatten(before.last().0, before.last().1)) + pending_records(
                        work,
                    ));
                }
            },
            BrowserJsonBookmarkItem::Folder(folder) => {
                let new_tags = extend_tags(&current_tags, folder.base.title.as_str());
                let ghost rest = work;
                let ghost children = current@->Folder_children;
                let ghost tags = texts_of(new_tags@);
                let n = folder.children.len();
                let mut i: usize = n;
                proof {
                    lemma_nodes_of(folder.children@);
                    assert(children.subrange(n as int, n as int) =~= Seq::empty());
                    assert(flatten_all(children.subrange(n as int, n as int), tags) =~= Seq::empty());
                    assert(Seq::<ParsedRecord>::empty() + pending_records(rest) =~= pending_records(
                        rest,
                    ));
                }
                while i > 0
                    invariant
                        i <= n,
                        n == folder.children@.len(),
                        n == children.len(),
                        forall|k: int| 0 <= k < n ==> (#[trigger] folder.children@[k])@ == children[k],
                        tags == texts_of(new_tags@),
                        stands_for(stack@, work),
                        pending_records(work) == flatten_all(
                            children.subrange(i as int, n as int),
                            tags,
                        ) + pending_records(rest),
                        pending_size(work) == forest_size(children.subrange(i as int, n as int))
                            + pending_size(rest),
                    decreases i,
                {
                    i = i - 1;
                    let child_tags = clone_texts(&new_tags);
                    stack.push((&folder.children[i], child_tags));
                    proof {
                        lemma_push_pending(work, children[i as int], tags);
                        lemma_forest_from(children, tags, i as int);
                        let tail = flatten_all(children.subrange(i + 1, n as int), tags);
                        assert(flatten(children[i as int], tags) + (tail + pending_records(rest))
                            =~= (flatten(children[i as int], tags) + tail) + pending_records(rest));
                        work = work.push((children[i as int], tags));
                    }
                }
                proof {
                    assert(children.subrange(0, n as int) =~= children);
                }
            },
        }
    }
    proof {
        assert(work.len() == 0);
        assert(records_of(records@) + Seq::<ParsedRecord>::empty() =~= records_of(records@));
    }
    records
}

} // verus!
