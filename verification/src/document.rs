//! A document as a duplication reads it: its blocks with their data, and
//! its text map; the page mentions in them, and how they are rewritten.

use crate::ids::{texts, IdRewriter, Lookup};
use crate::json::{
    clone_members, lemma_members_of, lemma_trees_of, members_of, parse_json, print_json, tree_get,
    tree_of, tree_put, trees_of, JsonMember, JsonTree, JsonValue,
};
use vstd::prelude::*;

verus! {

/// A block of a document.
#[derive(Debug, PartialEq, Eq)]
pub struct Block {
    pub id: String,
    /// The kind of the block: `paragraph`, `grid`, and so on.
    pub ty: String,
    /// The data of the block, key by key.
    pub data: Vec<JsonMember>,
}

/// An entry of a document's text map: a key and a JSON text.
#[derive(Debug, PartialEq, Eq)]
pub struct TextEntry {
    pub key: String,
    pub value: String,
}

/// The part of a document that a duplication reads and rewrites.
#[derive(Debug, PartialEq, Eq)]
pub struct DocumentData {
    pub blocks: Vec<Block>,
    pub text_map: Option<Vec<TextEntry>>,
}

/// The model of a block.
pub struct BlockModel {
    pub id: Seq<char>,
    pub ty: Seq<char>,
    pub data: Seq<(Seq<char>, JsonTree)>,
}

/// The model of a document.
pub struct DocumentModel {
    pub blocks: Seq<BlockModel>,
    pub text_map: Option<Seq<(Seq<char>, Seq<char>)>>,
}

impl View for Block {
    type V = BlockModel;

    open spec fn view(&self) -> BlockModel {
        BlockModel { id: self.id@, ty: self.ty@, data: members_of(self.data@) }
    }
}

impl View for TextEntry {
    type V = (Seq<char>, Seq<char>);

    open spec fn view(&self) -> (Seq<char>, Seq<char>) {
        (self.key@, self.value@)
    }
}

/// The models of a list of blocks.
pub open spec fn blocks_of(blocks: Seq<Block>) -> Seq<BlockModel> {
    blocks.map_values(|b: Block| b@)
}

/// The model of a text map.
pub open spec fn text_map_of(text_map: Option<Vec<TextEntry>>) -> Option<
    Seq<(Seq<char>, Seq<char>)>,
> {
    match text_map {
        Some(entries) => Some(entries@.map_values(|e: TextEntry| e@)),
        None => None,
    }
}

impl View for DocumentData {
    type V = DocumentModel;

    open spec fn view(&self) -> DocumentModel {
        DocumentModel { blocks: blocks_of(self.blocks@), text_map: text_map_of(self.text_map) }
    }
}

/// The page that an entry of a delta mentions: the `page_id` of its
/// `attributes.mention`, where that mention is of type `page` and the
/// identifier is a string.
pub open spec fn mention_target(entry: JsonTree) -> Option<Seq<char>> {
    match tree_get(entry, "attributes"@) {
        Some(attributes) => match tree_get(attributes, "mention"@) {
            Some(mention) => if tree_get(mention, "type"@) == Some(JsonTree::Text("page"@)) {
                match tree_get(mention, "page_id"@) {
                    Some(JsonTree::Text(page_id)) => Some(page_id),
                    _ => None,
                }
            } else {
                None
            },
            None => None,
        },
        None => None,
    }
}

/// The pages that the entries of a delta mention, in their order.
pub open spec fn delta_mentions(items: Seq<JsonTree>) -> Seq<Seq<char>>
    decreases items.len(),
{
    if items.len() == 0 {
        Seq::empty()
    } else {
        delta_mentions(items.drop_last()) + match mention_target(items.last()) {
            Some(page_id) => seq![page_id],
            None => Seq::empty(),
        }
    }
}

/// The pages mentioned in one member of a block's data: those of its
/// delta, where the member is `delta` and holds an array.
pub open spec fn member_mentions(key: Seq<char>, value: JsonTree) -> Seq<Seq<char>> {
    if key == "delta"@ {
        match value {
            JsonTree::Array(items) => delta_mentions(items),
            _ => Seq::empty(),
        }
    } else {
        Seq::empty()
    }
}

/// The pages mentioned in a block's data, in their order.
pub open spec fn data_mentions(data: Seq<(Seq<char>, JsonTree)>) -> Seq<Seq<char>>
    decreases data.len(),
{
    if data.len() == 0 {
        Seq::empty()
    } else {
        data_mentions(data.drop_last()) + member_mentions(data.last().0, data.last().1)
    }
}

/// The pages mentioned in a list of blocks, in their order.
pub open spec fn blocks_mentions(blocks: Seq<BlockModel>) -> Seq<Seq<char>>
    decreases blocks.len(),
{
    if blocks.len() == 0 {
        Seq::empty()
    } else {
        blocks_mentions(blocks.drop_last()) + data_mentions(blocks.last().data)
    }
}

/// The keys that lead from an entry of a delta to the mentioned page.
pub open spec fn page_id_path() -> Seq<Seq<char>> {
    seq!["attributes"@, "mention"@, "page_id"@]
}

/// An entry of a delta with its page mention rewritten: where it mentions
/// a page that `refs` replaces by a new one, the new one stands in its
/// place; any other entry stays as it is.
pub open spec fn rewrite_entry(
    entry: JsonTree,
    refs: Map<Seq<char>, Option<Seq<char>>>,
) -> JsonTree {
    match mention_target(entry) {
        Some(page_id) => if refs.contains_key(page_id) && refs[page_id] is Some {
            tree_put(entry, page_id_path(), JsonTree::Text(refs[page_id].unwrap()))
        } else {
            entry
        },
        None => entry,
    }
}

/// The entries of a delta, each rewritten.
pub open spec fn rewrite_items(
    items: Seq<JsonTree>,
    refs: Map<Seq<char>, Option<Seq<char>>>,
) -> Seq<JsonTree> {
    Seq::new(items.len(), |i: int| rewrite_entry(items[i], refs))
}

/// A member of a block's data with the mentions of its delta rewritten.
pub open spec fn rewrite_member(
    key: Seq<char>,
    value: JsonTree,
    refs: Map<Seq<char>, Option<Seq<char>>>,
) -> JsonTree {
    if key == "delta"@ {
        match value {
            JsonTree::Array(items) => JsonTree::Array(rewrite_items(items, refs)),
            _ => value,
        }
    } else {
        value
    }
}

/// A block's data with every page mention rewritten.
pub open spec fn rewrite_data(
    data: Seq<(Seq<char>, JsonTree)>,
    refs: Map<Seq<char>, Option<Seq<char>>>,
) -> Seq<(Seq<char>, JsonTree)> {
    Seq::new(data.len(), |i: int| (data[i].0, rewrite_member(data[i].0, data[i].1, refs)))
}

/// Blocks with every page mention rewritten.
pub open spec fn rewrite_blocks(
    blocks: Seq<BlockModel>,
    refs: Map<Seq<char>, Option<Seq<char>>>,
) -> Seq<BlockModel> {
    Seq::new(
        blocks.len(),
        |i: int|
            BlockModel {
                id: blocks[i].id,
                ty: blocks[i].ty,
                data: rewrite_data(blocks[i].data, refs),
            },
    )
}

/// A value of the text map with its page mentions rewritten: a text that
/// parses to an array is printed anew, its entries rewritten; any other
/// text stays as it is.
pub open spec fn rewrite_text(text: Seq<char>, refs: Map<Seq<char>, Option<Seq<char>>>) -> Seq<
    char,
> {
    match crate::json::json_parse_result(text) {
        Some(JsonTree::Array(items)) => crate::json::json_text(
            JsonTree::Array(rewrite_items(items, refs)),
        ),
        _ => text,
    }
}

/// A text map with every value rewritten.
pub open spec fn rewrite_text_entries(
    entries: Seq<(Seq<char>, Seq<char>)>,
    refs: Map<Seq<char>, Option<Seq<char>>>,
) -> Seq<(Seq<char>, Seq<char>)> {
    Seq::new(entries.len(), |i: int| (entries[i].0, rewrite_text(entries[i].1, refs)))
}

/// A document with every page mention rewritten, in its blocks and in its
/// text map.
pub open spec fn rewrite_document(
    doc: DocumentModel,
    refs: Map<Seq<char>, Option<Seq<char>>>,
) -> DocumentModel {
    DocumentModel {
        blocks: rewrite_blocks(doc.blocks, refs),
        text_map: match doc.text_map {
            Some(entries) => Some(rewrite_text_entries(entries, refs)),
            None => None,
        },
    }
}

/// The page that an entry of a delta mentions.
pub fn mention_of(entry: &JsonValue) -> (r: Option<&String>)
    ensures
        match r {
            Some(page_id) => mention_target(entry@) == Some(page_id@),
            None => mention_target(entry@) is None,
        },
{
    let attributes = match entry.get(&"attributes".to_owned()) {
        Some(a) => a,
        None => {
            return None;
        },
    };
    let mention = match attributes.get(&"mention".to_owned()) {
        Some(m) => m,
        None => {
            return None;
        },
    };
    let is_page = match mention.get(&"type".to_owned()) {
        Some(ty) => match ty.as_text() {
            Some(t) => *t == "page".to_owned(),
            None => false,
        },
        None => false,
    };
    if !is_page {
        return None;
    }
    match mention.get(&"page_id".to_owned()) {
        Some(page_id) => page_id.as_text(),
        None => None,
    }
}

/// The views of a list of strings grow with the list.
pub proof fn lemma_texts_push(ids: Seq<String>, id: String)
    ensures
        texts(ids.push(id)) == texts(ids).push(id@),
{
}

/// Appends to `out` the pages that the entries of a delta mention.
fn collect_delta_mentions(items: &Vec<JsonValue>, out: &mut Vec<String>)
    ensures
        texts(final(out)@) == texts(old(out)@) + delta_mentions(trees_of(items@)),
{
    proof {
        lemma_trees_of(items@);
    }
    let ghost all = trees_of(items@);
    let mut i: usize = 0;
    while i < items.len()
        invariant
            0 <= i <= items.len(),
            all == trees_of(items@),
            all.len() == items.len(),
            forall|j: int| 0 <= j < items.len() ==> #[trigger] all[j] == tree_of(items@[j]),
            texts(out@) == texts(old(out)@) + delta_mentions(all.take(i as int)),
        decreases items.len() - i,
    {
        proof {
            let upto = all.take(i + 1);
            assert(upto.drop_last() == all.take(i as int));
        }
        match mention_of(&items[i]) {
            Some(page_id) => {
                proof {
                    lemma_texts_push(out@, *page_id);
                }
                out.push(page_id.clone());
            },
            None => {},
        }
        i += 1;
    }
    proof {
        assert(all.take(items.len() as int) == all);
    }
}

/// Appends to `out` the pages mentioned in a block's data.
fn collect_data_mentions(data: &Vec<JsonMember>, out: &mut Vec<String>)
    ensures
        texts(final(out)@) == texts(old(out)@) + data_mentions(members_of(data@)),
{
    proof {
        lemma_members_of(data@);
    }
    let ghost all = members_of(data@);
    let delta = "delta".to_owned();
    let mut i: usize = 0;
    while i < data.len()
        invariant
            0 <= i <= data.len(),
            delta@ == "delta"@,
            all == members_of(data@),
            all.len() == data.len(),
            forall|j: int|
                0 <= j < data.len() ==> #[trigger] all[j] == (
                    data@[j].key@,
                    tree_of(data@[j].value),
                ),
            texts(out@) == texts(old(out)@) + data_mentions(all.take(i as int)),
        decreases data.len() - i,
    {
        proof {
            let upto = all.take(i + 1);
            assert(upto.drop_last() == all.take(i as int));
        }
        if data[i].key == delta {
            match data[i].value.as_array() {
                Some(items) => {
                    collect_delta_mentions(items, out);
                },
                None => {},
            }
        }
        i += 1;
    }
    proof {
        assert(all.take(data.len() as int) == all);
    }
}

/// The pages that a document's blocks mention, in the order of the blocks,
/// of each block's data, and of each delta's entries.
pub fn page_mentions(doc: &DocumentData) -> (r: Vec<String>)
    ensures
        texts(r@) == blocks_mentions(doc@.blocks),
{
    let ghost all = doc@.blocks;
    let mut out: Vec<String> = Vec::new();
    let mut i: usize = 0;
    while i < doc.blocks.len()
        invariant
            0 <= i <= doc.blocks.len(),
            all == doc@.blocks,
            texts(out@) == blocks_mentions(all.take(i as int)),
        decreases doc.blocks.len() - i,
    {
        proof {
            let upto = all.take(i + 1);
            assert(upto.drop_last() == all.take(i as int));
        }
        collect_data_mentions(&doc.blocks[i].data, &mut out);
        i += 1;
    }
    proof {
        assert(all.take(doc.blocks.len() as int) == all);
    }
    out
}

/// The keys that lead from an entry of a delta to the mentioned page.
fn page_id_keys() -> (path: Vec<String>)
    ensures
        texts(path@) == page_id_path(),
{
    let mut path: Vec<String> = Vec::new();
    path.push("attributes".to_owned());
    path.push("mention".to_owned());
    path.push("page_id".to_owned());
    path
}

/// Rewrites the page mention of an entry of a delta.
fn rewrite_delta_entry(entry: &mut JsonValue, refs: &IdRewriter, path: &Vec<String>)
    requires
        refs.wf(),
        texts(path@) == page_id_path(),
    ensures
        final(entry)@ == rewrite_entry(old(entry)@, refs@),
{
    let target = match mention_of(entry) {
        Some(page_id) => page_id.clone(),
        None => {
            return ;
        },
    };
    match refs.lookup(&target) {
        Lookup::Pending(new_id) => {
            proof {
                assert(texts(path@).skip(0) == page_id_path());
            }
            entry.put(path, 0, JsonValue::Text(new_id));
        },
        _ => {},
    }
}

/// Rewrites the page mentions of the entries of a delta.
fn rewrite_delta(items: &mut Vec<JsonValue>, refs: &IdRewriter, path: &Vec<String>)
    requires
        refs.wf(),
        texts(path@) == page_id_path(),
    ensures
        trees_of(final(items)@) == rewrite_items(trees_of(old(items)@), refs@),
{
    let mut i: usize = 0;
    while i < items.len()
        invariant
            0 <= i <= items.len(),
            refs.wf(),
            texts(path@) == page_id_path(),
            items.len() == old(items).len(),
            forall|j: int|
                0 <= j < i ==> (#[trigger] items@[j])@ == rewrite_entry(old(items)@[j]@, refs@),
            forall|j: int| i <= j < items.len() ==> #[trigger] items@[j] == old(items)@[j],
        decreases items.len() - i,
    {
        rewrite_delta_entry(&mut items[i], refs, path);
        i += 1;
    }
    proof {
        lemma_trees_of(items@);
        lemma_trees_of(old(items)@);
    }
}

/// Rewrites the page mentions in a block's data.
fn rewrite_block_data(data: &mut Vec<JsonMember>, refs: &IdRewriter, path: &Vec<String>)
    requires
        refs.wf(),
        texts(path@) == page_id_path(),
    ensures
        members_of(final(data)@) == rewrite_data(members_of(old(data)@), refs@),
{
    let delta = "delta".to_owned();
    let mut i: usize = 0;
    while i < data.len()
        invariant
            0 <= i <= data.len(),
            refs.wf(),
            texts(path@) == page_id_path(),
            delta@ == "delta"@,
            data.len() == old(data).len(),
            forall|j: int|
                0 <= j < i ==> (#[trigger] data@[j]).key@ == old(data)@[j].key@ && data@[j].value@
                    == rewrite_member(old(data)@[j].key@, old(data)@[j].value@, refs@),
            forall|j: int| i <= j < data.len() ==> #[trigger] data@[j] == old(data)@[j],
        decreases data.len() - i,
    {
        if data[i].key == delta {
            match &mut data[i].value {
                JsonValue::Array(items) => {
                    rewrite_delta(items, refs, path);
                },
                _ => {},
            }
        }
        i += 1;
    }
    proof {
        lemma_members_of(data@);
        lemma_members_of(old(data)@);
    }
}

/// Rewrites a value of the text map.
fn rewrite_text_value(value: &String, refs: &IdRewriter, path: &Vec<String>) -> (r: String)
    requires
        refs.wf(),
        texts(path@) == page_id_path(),
    ensures
        r@ == rewrite_text(value@, refs@),
{
    match parse_json(value.as_str()) {
        Some(JsonValue::Array(mut items)) => {
            rewrite_delta(&mut items, refs, path);
            print_json(&JsonValue::Array(items))
        },
        _ => value.clone(),
    }
}

/// Rewrites every page mention of a document by what `refs` says of the
/// mentioned page: a page that has a new identifier is mentioned by that
/// one, in the blocks and in the text map; every other mention, and
/// everything else, stays as it is.
pub fn rewrite_page_mentions(doc: &mut DocumentData, refs: &IdRewriter)
    requires
        refs.wf(),
    ensures
        final(doc)@ == rewrite_document(old(doc)@, refs@),
{
    let path = page_id_keys();
    let mut i: usize = 0;
    while i < doc.blocks.len()
        invariant
            0 <= i <= doc.blocks.len(),
            refs.wf(),
            texts(path@) == page_id_path(),
            doc.blocks.len() == old(doc).blocks.len(),
            doc.text_map == old(doc).text_map,
            forall|j: int|
                0 <= j < i ==> (#[trigger] doc.blocks@[j])@ == (BlockModel {
                    id: old(doc).blocks@[j].id@,
                    ty: old(doc).blocks@[j].ty@,
                    data: rewrite_data(members_of(old(doc).blocks@[j].data@), refs@),
                }),
            forall|j: int|
                i <= j < doc.blocks.len() ==> #[trigger] doc.blocks@[j] == old(doc).blocks@[j],
        decreases doc.blocks.len() - i,
    {
        rewrite_block_data(&mut doc.blocks[i].data, refs, &path);
        i += 1;
    }
    proof {
        assert(blocks_of(doc.blocks@) =~= rewrite_blocks(blocks_of(old(doc).blocks@), refs@));
    }
    match &mut doc.text_map {
        Some(entries) => {
            let ghost before = entries@;
            let mut k: usize = 0;
            while k < entries.len()
                invariant
                    0 <= k <= entries.len(),
                    refs.wf(),
                    texts(path@) == page_id_path(),
                    entries.len() == before.len(),
                    forall|j: int|
                        0 <= j < k ==> (#[trigger] entries@[j])@ == (
                            before[j].key@,
                            rewrite_text(before[j].value@, refs@),
                        ),
                    forall|j: int| k <= j < entries.len() ==> #[trigger] entries@[j] == before[j],
                decreases entries.len() - k,
            {
                let rewritten = rewrite_text_value(&entries[k].value, refs, &path);
                entries[k].value = rewritten;
                k += 1;
            }
            proof {
                assert(entries@.map_values(|e: TextEntry| e@) =~= rewrite_text_entries(
                    before.map_values(|e: TextEntry| e@),
                    refs@,
                ));
            }
        },
        None => {},
    }
}

/// A copy of a document.
pub fn clone_document(doc: &DocumentData) -> (r: DocumentData)
    ensures
        r@ == doc@,
{
    let mut blocks: Vec<Block> = Vec::new();
    let mut i: usize = 0;
    while i < doc.blocks.len()
        invariant
            0 <= i <= doc.blocks.len(),
            blocks@.len() == i,
            forall|j: int| 0 <= j < i ==> (#[trigger] blocks@[j])@ == doc.blocks@[j]@,
        decreases doc.blocks.len() - i,
    {
        let block = &doc.blocks[i];
        blocks.push(
            Block { id: block.id.clone(), ty: block.ty.clone(), data: clone_members(&block.data) },
        );
        i += 1;
    }
    proof {
        assert(blocks_of(blocks@) =~= blocks_of(doc.blocks@));
    }
    let text_map = match &doc.text_map {
        Some(entries) => {
            let mut copy: Vec<TextEntry> = Vec::new();
            let mut k: usize = 0;
            while k < entries.len()
                invariant
                    0 <= k <= entries.len(),
                    copy@.len() == k,
                    forall|j: int| 0 <= j < k ==> (#[trigger] copy@[j])@ == entries@[j]@,
                decreases entries.len() - k,
            {
                copy.push(
                    TextEntry { key: entries[k].key.clone(), value: entries[k].value.clone() },
                );
                k += 1;
            }
            proof {
                assert(copy@.map_values(|e: TextEntry| e@) =~= entries@.map_values(
                    |e: TextEntry| e@,
                ));
            }
            Some(copy)
        },
        None => None,
    };
    DocumentData { blocks, text_map }
}

/// A block of this kind shows a database.
pub open spec fn is_database_block(ty: Seq<char>) -> bool {
    ty == "grid"@ || ty == "board"@ || ty == "calendar"@
}

/// Whether a block of the kind `ty` shows a database.
pub fn shows_database(ty: &String) -> (r: bool)
    ensures
        r == is_database_block(ty@),
{
    *ty == "grid".to_owned() || *ty == "board".to_owned() || *ty == "calendar".to_owned()
}

/// The new identifiers of the mentioned pages that have one, in the order
/// of the mentions.  A page is named once for each mention of it.
pub open spec fn mention_children(
    mentions: Seq<Seq<char>>,
    refs: Map<Seq<char>, Option<Seq<char>>>,
) -> Seq<Seq<char>>
    decreases mentions.len(),
{
    if mentions.len() == 0 {
        Seq::empty()
    } else {
        let rest = mention_children(mentions.drop_last(), refs);
        if refs.contains_key(mentions.last()) && refs[mentions.last()] is Some {
            rest.push(refs[mentions.last()].unwrap())
        } else {
            rest
        }
    }
}

/// Every mentioned page has an entry in the mapping.
pub open spec fn all_known(mentions: Seq<Seq<char>>, refs: Map<Seq<char>, Option<Seq<char>>>) -> bool {
    forall|i: int| 0 <= i < mentions.len() ==> refs.contains_key(#[trigger] mentions[i])
}

/// A mapping that says more names the same children, once every mentioned
/// page has an entry.
pub proof fn lemma_children_stable(
    mentions: Seq<Seq<char>>,
    refs: Map<Seq<char>, Option<Seq<char>>>,
    later: Map<Seq<char>, Option<Seq<char>>>,
)
    requires
        all_known(mentions, refs),
        crate::ids::refs_extend(refs, later),
    ensures
        all_known(mentions, later),
        mention_children(mentions, later) == mention_children(mentions, refs),
    decreases mentions.len(),
{
    if mentions.len() > 0 {
        assert(refs.contains_key(mentions[mentions.len() - 1]));
        assert forall|i: int| 0 <= i < mentions.drop_last().len() implies refs.contains_key(
            #[trigger] mentions.drop_last()[i],
        ) by {
        }
        lemma_children_stable(mentions.drop_last(), refs, later);
    }
}

/// Where every page of a list of mentions is known, so is every page of
/// a part of the list.
pub proof fn lemma_all_known_split(
    first: Seq<Seq<char>>,
    second: Seq<Seq<char>>,
    refs: Map<Seq<char>, Option<Seq<char>>>,
)
    requires
        all_known(first + second, refs),
    ensures
        all_known(first, refs),
        all_known(second, refs),
{
    assert forall|i: int| 0 <= i < first.len() implies refs.contains_key(#[trigger] first[i]) by {
        assert((first + second)[i] == first[i]);
    }
    assert forall|i: int| 0 <= i < second.len() implies refs.contains_key(#[trigger] second[i]) by {
        assert((first + second)[first.len() + i] == second[i]);
    }
}

/// The entries of a delta are rewritten alike by a mapping and by one
/// that says more, once every mentioned page has an entry.
pub proof fn lemma_rewrite_items_stable(
    items: Seq<JsonTree>,
    refs: Map<Seq<char>, Option<Seq<char>>>,
    later: Map<Seq<char>, Option<Seq<char>>>,
)
    requires
        all_known(delta_mentions(items), refs),
        crate::ids::refs_extend(refs, later),
    ensures
        rewrite_items(items, later) == rewrite_items(items, refs),
    decreases items.len(),
{
    if items.len() > 0 {
        let last = match mention_target(items.last()) {
            Some(page_id) => seq![page_id],
            None => Seq::empty(),
        };
        lemma_all_known_split(delta_mentions(items.drop_last()), last, refs);
        lemma_rewrite_items_stable(items.drop_last(), refs, later);
        if mention_target(items.last()) is Some {
            assert(refs.contains_key(last[0]));
        }
        assert forall|i: int| 0 <= i < items.len() implies rewrite_entry(items[i], later)
            == rewrite_entry(items[i], refs) by {
            if i < items.len() - 1 {
                assert(rewrite_items(items.drop_last(), later)[i] == rewrite_entry(
                    items.drop_last()[i],
                    later,
                ));
                assert(rewrite_items(items.drop_last(), refs)[i] == rewrite_entry(
                    items.drop_last()[i],
                    refs,
                ));
            }
        }
    }
}

/// The data of a block is rewritten alike by a mapping and by one that
/// says more, once every mentioned page has an entry.
pub proof fn lemma_rewrite_data_stable(
    data: Seq<(Seq<char>, JsonTree)>,
    refs: Map<Seq<char>, Option<Seq<char>>>,
    later: Map<Seq<char>, Option<Seq<char>>>,
)
    requires
        all_known(data_mentions(data), refs),
        crate::ids::refs_extend(refs, later),
    ensures
        rewrite_data(data, later) == rewrite_data(data, refs),
    decreases data.len(),
{
    if data.len() > 0 {
        let last = member_mentions(data.last().0, data.last().1);
        lemma_all_known_split(data_mentions(data.drop_last()), last, refs);
        lemma_rewrite_data_stable(data.drop_last(), refs, later);
        if data.last().0 == "delta"@ {
            match data.last().1 {
                JsonTree::Array(items) => {
                    lemma_rewrite_items_stable(items, refs, later);
                },
                _ => {},
            }
        }
        assert forall|i: int| 0 <= i < data.len() implies rewrite_member(
            data[i].0,
            data[i].1,
            later,
        ) == rewrite_member(data[i].0, data[i].1, refs) by {
            if i < data.len() - 1 {
                assert(rewrite_data(data.drop_last(), later)[i].1 == rewrite_member(
                    data.drop_last()[i].0,
                    data.drop_last()[i].1,
                    later,
                ));
                assert(rewrite_data(data.drop_last(), refs)[i].1 == rewrite_member(
                    data.drop_last()[i].0,
                    data.drop_last()[i].1,
                    refs,
                ));
            }
        }
    }
}

/// Blocks are rewritten alike by a mapping and by one that says more,
/// once every mentioned page has an entry.
pub proof fn lemma_rewrite_blocks_stable(
    blocks: Seq<BlockModel>,
    refs: Map<Seq<char>, Option<Seq<char>>>,
    later: Map<Seq<char>, Option<Seq<char>>>,
)
    requires
        all_known(blocks_mentions(blocks), refs),
        crate::ids::refs_extend(refs, later),
    ensures
        rewrite_blocks(blocks, later) == rewrite_blocks(blocks, refs),
    decreases blocks.len(),
{
    if blocks.len() > 0 {
        lemma_all_known_split(
            blocks_mentions(blocks.drop_last()),
            data_mentions(blocks.last().data),
            refs,
        );
        lemma_rewrite_blocks_stable(blocks.drop_last(), refs, later);
        lemma_rewrite_data_stable(blocks.last().data, refs, later);
        assert forall|i: int| 0 <= i < blocks.len() implies rewrite_data(blocks[i].data, later)
            == rewrite_data(blocks[i].data, refs) by {
            if i < blocks.len() - 1 {
                assert(rewrite_blocks(blocks.drop_last(), later)[i].data == rewrite_data(
                    blocks.drop_last()[i].data,
                    later,
                ));
                assert(rewrite_blocks(blocks.drop_last(), refs)[i].data == rewrite_data(
                    blocks.drop_last()[i].data,
                    refs,
                ));
            }
        }
    }
}

} // verus!
