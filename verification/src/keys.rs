//! Lists that stand for maps.  An object, the data of a block, the blocks
//! of a document and its text map are lists of members; each is meant to
//! hold a key once.  This module says what that means, and that the copy
//! of a document keeps it so.

use crate::document::{
    rewrite_blocks, rewrite_data, rewrite_document, rewrite_entry, rewrite_items, rewrite_member,
    rewrite_text_entries, BlockModel, DocumentModel,
};
use crate::folder::FolderView;
use crate::ids::refs_extend;
use crate::invariants::{block_outcome, is_relinked};
use crate::json::{key_index, lemma_key_index, tree_put, JsonTree};
use crate::store::PublishedStore;
use vstd::prelude::*;

verus! {

/// No two members have one key.
pub open spec fn distinct_keys<V>(members: Seq<(Seq<char>, V)>) -> bool {
    forall|i: int, j: int|
        0 <= i < j < members.len() ==> (#[trigger] members[i]).0 != (#[trigger] members[j]).0
}

/// Every object in the tree, at whatever depth, holds a key once.
pub open spec fn tree_keyed(tree: JsonTree) -> bool
    decreases tree,
{
    match tree {
        JsonTree::Array(items) => forall|i: int|
            0 <= i < items.len() ==> tree_keyed(#[trigger] items[i]),
        JsonTree::Object(members) => distinct_keys(members) && forall|i: int|
            0 <= i < members.len() ==> tree_keyed((#[trigger] members[i]).1),
        _ => true,
    }
}

/// The data of a block holds a key once, and so does every object in it.
pub open spec fn data_keyed(data: Seq<(Seq<char>, JsonTree)>) -> bool {
    tree_keyed(JsonTree::Object(data))
}

/// No two blocks go by one identifier.
pub open spec fn distinct_blocks(blocks: Seq<BlockModel>) -> bool {
    forall|i: int, j: int|
        0 <= i < j < blocks.len() ==> (#[trigger] blocks[i]).id != (#[trigger] blocks[j]).id
}

/// The document holds a block once, a key of the text map once, and a key
/// once in every object of its blocks' data.
pub open spec fn document_keyed(doc: DocumentModel) -> bool {
    &&& distinct_blocks(doc.blocks)
    &&& forall|i: int| 0 <= i < doc.blocks.len() ==> data_keyed((#[trigger] doc.blocks[i]).data)
    &&& doc.text_map matches Some(entries) ==> distinct_keys(entries)
}

/// Where a key occurs once, the member found for it is the only one that
/// holds it: the first and the last are one.
pub proof fn law_a_key_is_found_once(members: Seq<(Seq<char>, JsonTree)>, key: Seq<char>, i: int)
    requires
        distinct_keys(members),
        0 <= i < members.len(),
        members[i].0 == key,
    ensures
        key_index(members, key, 0) == Some(i),
{
    lemma_key_index(members, key, 0);
    lemma_key_index_finds(members, key, 0, i);
}

proof fn lemma_key_index_finds(members: Seq<(Seq<char>, JsonTree)>, key: Seq<char>, from: int, i: int)
    requires
        0 <= from <= i < members.len(),
        members[i].0 == key,
    ensures
        key_index(members, key, from) matches Some(at) && from <= at <= i,
    decreases members.len() - from,
{
    if members[from].0 != key {
        lemma_key_index_finds(members, key, from + 1, i);
    }
}

/// A value put into a tree along a path leaves every key where it is.
pub proof fn lemma_tree_put_keyed(tree: JsonTree, path: Seq<Seq<char>>, leaf: JsonTree)
    requires
        tree_keyed(tree),
        tree_keyed(leaf),
    ensures
        tree_keyed(tree_put(tree, path, leaf)),
    decreases path.len(),
{
    if path.len() > 0 {
        match tree {
            JsonTree::Object(members) => {
                lemma_key_index(members, path[0], 0);
                match key_index(members, path[0], 0) {
                    Some(at) => {
                        assert(tree_keyed(members[at].1));
                        lemma_tree_put_keyed(members[at].1, path.skip(1), leaf);
                        let put = members.update(
                            at,
                            (members[at].0, tree_put(members[at].1, path.skip(1), leaf)),
                        );
                        assert forall|i: int, j: int| 0 <= i < j < put.len() implies (
                        #[trigger] put[i]).0 != (#[trigger] put[j]).0 by {
                            assert(put[i].0 == members[i].0);
                            assert(put[j].0 == members[j].0);
                        }
                        assert forall|i: int| 0 <= i < put.len() implies tree_keyed(
                            (#[trigger] put[i]).1,
                        ) by {
                            if i != at {
                                assert(put[i] == members[i]);
                            }
                        }
                    },
                    None => {},
                }
            },
            _ => {},
        }
    }
}

/// The data of a block with its mentions rewritten holds each key once,
/// as the data did.
pub proof fn lemma_rewrite_data_keyed(
    data: Seq<(Seq<char>, JsonTree)>,
    refs: Map<Seq<char>, Option<Seq<char>>>,
)
    requires
        data_keyed(data),
    ensures
        data_keyed(rewrite_data(data, refs)),
{
    let after = rewrite_data(data, refs);
    assert forall|i: int, j: int| 0 <= i < j < after.len() implies (#[trigger] after[i]).0 != (
    #[trigger] after[j]).0 by {
        assert(after[i].0 == data[i].0);
        assert(after[j].0 == data[j].0);
    }
    assert forall|i: int| 0 <= i < after.len() implies tree_keyed((#[trigger] after[i]).1) by {
        assert(tree_keyed(data[i].1));
        assert(after[i].1 == rewrite_member(data[i].0, data[i].1, refs));
        match data[i].1 {
            JsonTree::Array(items) => {
                let rewritten = rewrite_items(items, refs);
                assert forall|k: int| 0 <= k < rewritten.len() implies tree_keyed(
                    #[trigger] rewritten[k],
                ) by {
                    assert(tree_keyed(items[k]));
                    assert(rewritten[k] == rewrite_entry(items[k], refs));
                    lemma_rewrite_entry_keyed(items[k], refs);
                }
            },
            _ => {},
        }
    }
}

/// An entry of a delta with its mention rewritten holds each key once, as
/// the entry did.
pub proof fn lemma_rewrite_entry_keyed(entry: JsonTree, refs: Map<Seq<char>, Option<Seq<char>>>)
    requires
        tree_keyed(entry),
    ensures
        tree_keyed(rewrite_entry(entry, refs)),
{
    if rewrite_entry(entry, refs) != entry {
        let page_id = crate::document::mention_target(entry).unwrap();
        lemma_tree_put_keyed(
            entry,
            crate::document::page_id_path(),
            JsonTree::Text(refs[page_id].unwrap()),
        );
    }
}

/// A document with its mentions rewritten holds each block and each key
/// once, as the document did.
pub proof fn lemma_rewrite_document_keyed(doc: DocumentModel, refs: Map<Seq<char>, Option<Seq<char>>>)
    requires
        document_keyed(doc),
    ensures
        document_keyed(rewrite_document(doc, refs)),
{
    let after = rewrite_document(doc, refs);
    assert forall|i: int, j: int| 0 <= i < j < after.blocks.len() implies (
    #[trigger] after.blocks[i]).id != (#[trigger] after.blocks[j]).id by {
        assert(after.blocks[i].id == doc.blocks[i].id);
        assert(after.blocks[j].id == doc.blocks[j].id);
    }
    assert forall|i: int| 0 <= i < after.blocks.len() implies data_keyed(
        (#[trigger] after.blocks[i]).data,
    ) by {
        assert(data_keyed(doc.blocks[i].data));
        lemma_rewrite_data_keyed(doc.blocks[i].data, refs);
    }
    match doc.text_map {
        Some(entries) => {
            let texts = rewrite_text_entries(entries, refs);
            assert forall|i: int, j: int| 0 <= i < j < texts.len() implies (#[trigger] texts[i]).0
                != (#[trigger] texts[j]).0 by {
                assert(texts[i].0 == entries[i].0);
                assert(texts[j].0 == entries[j].0);
            }
        },
        None => {},
    }
}

/// A block that is linked anew holds each key once, as the block did.
pub proof fn lemma_relinked_keyed(
    before: BlockModel,
    after: BlockModel,
    views: Seq<FolderView>,
    below: Seq<char>,
)
    requires
        is_relinked(before, after, views, below),
        data_keyed(before.data),
    ensures
        data_keyed(after.data),
{
    let at_view = key_index(before.data, "view_id"@, 0).unwrap();
    let at_parent = key_index(before.data, "parent_id"@, 0).unwrap();
    assert forall|i: int| 0 <= i < after.data.len() implies (#[trigger] after.data[i]).0
        == before.data[i].0 by {
        if i != at_view && i != at_parent {
            assert(after.data[i] == before.data[i]);
        }
    }
    assert forall|i: int, j: int| 0 <= i < j < after.data.len() implies (#[trigger] after.data[i]).0
        != (#[trigger] after.data[j]).0 by {
        assert(after.data[i].0 == before.data[i].0);
        assert(after.data[j].0 == before.data[j].0);
    }
    assert forall|i: int| 0 <= i < after.data.len() implies tree_keyed(
        (#[trigger] after.data[i]).1,
    ) by {
        if i != at_view && i != at_parent {
            assert(after.data[i] == before.data[i]);
            assert(tree_keyed(before.data[i].1));
        }
    }
}

/// The copy of a document holds each block and each key once where the
/// published document does: `copy` has the blocks of `published`
/// rewritten by `refs`, those that show a published database linked anew,
/// and the text map of `published` rewritten by a mapping that says no
/// less than `refs`.
pub proof fn lemma_copy_keyed(
    published: DocumentModel,
    copy: DocumentModel,
    store: PublishedStore,
    refs: Map<Seq<char>, Option<Seq<char>>>,
    views: Seq<FolderView>,
    below: Seq<char>,
)
    requires
        document_keyed(published),
        copy.blocks.len() == published.blocks.len(),
        forall|j: int|
            0 <= j < published.blocks.len() ==> block_outcome(
                store,
                rewrite_blocks(published.blocks, refs)[j],
                #[trigger] copy.blocks[j],
                views,
                below,
            ),
        exists|then: Map<Seq<char>, Option<Seq<char>>>|
            refs_extend(then, refs) && copy.text_map == (#[trigger] rewrite_document(
                published,
                then,
            )).text_map,
    ensures
        document_keyed(copy),
{
    lemma_rewrite_document_keyed(published, refs);
    let rewritten = rewrite_blocks(published.blocks, refs);
    assert(rewritten == rewrite_document(published, refs).blocks);
    assert forall|i: int| 0 <= i < copy.blocks.len() implies data_keyed(
        (#[trigger] copy.blocks[i]).data,
    ) && copy.blocks[i].id == rewritten[i].id by {
        assert(block_outcome(store, rewritten[i], copy.blocks[i], views, below));
        assert(data_keyed(rewritten[i].data));
        if copy.blocks[i] != rewritten[i] {
            lemma_relinked_keyed(rewritten[i], copy.blocks[i], views, below);
        }
    }
    assert forall|i: int, j: int| 0 <= i < j < copy.blocks.len() implies (
    #[trigger] copy.blocks[i]).id != (#[trigger] copy.blocks[j]).id by {
        assert(copy.blocks[i].id == rewritten[i].id);
        assert(copy.blocks[j].id == rewritten[j].id);
    }
    let then = choose|then: Map<Seq<char>, Option<Seq<char>>>|
        refs_extend(then, refs) && copy.text_map == (#[trigger] rewrite_document(
            published,
            then,
        )).text_map;
    lemma_rewrite_document_keyed(published, then);
}

} // verus!
