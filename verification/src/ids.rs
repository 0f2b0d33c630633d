//! Allocation of fresh identifiers and the mapping from old to new ones.

use vstd::prelude::*;

verus! {

/// The view of an optional string.
pub open spec fn opt_text(s: Option<String>) -> Option<Seq<char>> {
    match s {
        Some(t) => Some(t@),
        None => None,
    }
}

/// What is known of an old identifier.
#[derive(Debug, PartialEq, Eq)]
pub enum Lookup {
    /// The identifier has not been met.
    Unknown,
    /// The identifier was met and is replaced by the one given, whose collab
    /// may still be under construction.
    Pending(String),
    /// The identifier was met and has no published data.
    Tombstone,
}

/// One pair of the mapping.
#[derive(Debug, PartialEq, Eq)]
pub struct RefEntry {
    pub old_id: String,
    pub new_id: Option<String>,
}

/// The mapping that a sequence of pairs stands for.
pub open spec fn refs_of(entries: Seq<RefEntry>) -> Map<Seq<char>, Option<Seq<char>>>
    decreases entries.len(),
{
    if entries.len() == 0 {
        Map::empty()
    } else {
        refs_of(entries.drop_last()).insert(
            entries.last().old_id@,
            opt_text(entries.last().new_id),
        )
    }
}

/// No old identifier occurs in two pairs.
pub open spec fn distinct_keys(entries: Seq<RefEntry>) -> bool {
    forall|i: int, j: int|
        0 <= i < j < entries.len() ==> entries[i].old_id@ != entries[j].old_id@
}

/// The views of a sequence of strings.
pub open spec fn texts(ids: Seq<String>) -> Seq<Seq<char>> {
    ids.map_values(|s: String| s@)
}

proof fn lemma_refs_absent(entries: Seq<RefEntry>, key: Seq<char>)
    requires
        forall|i: int| 0 <= i < entries.len() ==> entries[i].old_id@ != key,
    ensures
        !refs_of(entries).contains_key(key),
    decreases entries.len(),
{
    if entries.len() > 0 {
        lemma_refs_absent(entries.drop_last(), key);
    }
}

proof fn lemma_refs_present(entries: Seq<RefEntry>, i: int)
    requires
        distinct_keys(entries),
        0 <= i < entries.len(),
    ensures
        refs_of(entries).contains_key(entries[i].old_id@),
        refs_of(entries)[entries[i].old_id@] == opt_text(entries[i].new_id),
    decreases entries.len(),
{
    if i < entries.len() - 1 {
        lemma_refs_present(entries.drop_last(), i);
    }
}

proof fn lemma_refs_update(entries: Seq<RefEntry>, i: int, e: RefEntry)
    requires
        distinct_keys(entries),
        0 <= i < entries.len(),
        e.old_id@ == entries[i].old_id@,
    ensures
        distinct_keys(entries.update(i, e)),
        refs_of(entries.update(i, e)) == refs_of(entries).insert(e.old_id@, opt_text(e.new_id)),
    decreases entries.len(),
{
    let updated = entries.update(i, e);
    if i < entries.len() - 1 {
        lemma_refs_update(entries.drop_last(), i, e);
        assert(updated.drop_last() == entries.drop_last().update(i, e));
        assert(updated.last() == entries.last());
        assert(refs_of(updated) =~= refs_of(entries).insert(e.old_id@, opt_text(e.new_id)));
    } else {
        assert(updated.drop_last() == entries.drop_last());
        assert(refs_of(updated) =~= refs_of(entries).insert(e.old_id@, opt_text(e.new_id)));
    }
}

/// Draws a random identifier with `uuid::Uuid::new_v4` and prints it with
/// `Uuid`'s `Display`, which writes the hyphenated form: 36 characters,
/// whatever was drawn.  Two draws may give any two identifiers.
#[verifier::external_body]
pub(crate) fn fresh_uuid() -> (id: String)
    ensures
        id@.len() == 36,
{
    uuid::Uuid::new_v4().to_string()
}

/// What `uuid::Uuid::parse_str` makes of a text: the 128 bits of the UUID
/// it reads, or `None` where it reports an error.
pub uninterp spec fn uuid_parse_result(text: Seq<char>) -> Option<u128>;

/// Reads a UUID with `uuid::Uuid::parse_str`.  The contract names the
/// outcome: the same text always reads as the same UUID, or always fails.
#[verifier::external_body]
pub(crate) fn parse_uuid(text: &str) -> (r: Option<u128>)
    ensures
        r == uuid_parse_result(text@),
{
    match uuid::Uuid::parse_str(text) {
        Ok(id) => Some(id.as_u128()),
        Err(_) => None,
    }
}

/// Whether `text` reads as a UUID.
pub fn is_uuid(text: &String) -> (r: bool)
    ensures
        r == uuid_parse_result(text@).is_some(),
{
    parse_uuid(text.as_str()).is_some()
}

/// `later` says of every identifier of `earlier` what `earlier` says.
pub open spec fn refs_extend(
    earlier: Map<Seq<char>, Option<Seq<char>>>,
    later: Map<Seq<char>, Option<Seq<char>>>,
) -> bool {
    forall|k: Seq<char>| #[trigger]
        earlier.contains_key(k) ==> later.contains_key(k) && later[k] == earlier[k]
}

/// The mapping from old identifiers to new ones, and the record of every
/// identifier that was drawn.
pub struct IdRewriter {
    refs: Vec<RefEntry>,
    drawn: Vec<String>,
}

impl View for IdRewriter {
    type V = Map<Seq<char>, Option<Seq<char>>>;

    closed spec fn view(&self) -> Map<Seq<char>, Option<Seq<char>>> {
        refs_of(self.refs@)
    }
}

impl IdRewriter {
    /// The invariant of the mapping: an old identifier has one pair.
    pub closed spec fn wf(&self) -> bool {
        distinct_keys(self.refs@)
    }

    /// Every identifier drawn so far, in the order of the draws.
    pub closed spec fn drawn(&self) -> Seq<Seq<char>> {
        texts(self.drawn@)
    }

    /// An empty mapping with no draws.
    pub fn new() -> (r: IdRewriter)
        ensures
            r.wf(),
            r@ == Map::<Seq<char>, Option<Seq<char>>>::empty(),
            r.drawn() == Seq::<Seq<char>>::empty(),
    {
        let r = IdRewriter { refs: Vec::new(), drawn: Vec::new() };
        assert(r.drawn() =~= Seq::<Seq<char>>::empty());
        r
    }

    /// What the mapping says of `old_id`.
    pub fn lookup(&self, old_id: &String) -> (r: Lookup)
        requires
            self.wf(),
        ensures
            r is Unknown <==> !self@.contains_key(old_id@),
            r matches Lookup::Pending(v) ==> self@.contains_key(old_id@) && self@[old_id@] == Some(
                v@,
            ),
            r is Tombstone ==> self@.contains_key(old_id@) && self@[old_id@] is None,
    {
        let mut i: usize = 0;
        while i < self.refs.len()
            invariant
                0 <= i <= self.refs.len(),
                self.wf(),
                forall|j: int| 0 <= j < i ==> self.refs@[j].old_id@ != old_id@,
            decreases self.refs.len() - i,
        {
            if self.refs[i].old_id == *old_id {
                proof {
                    lemma_refs_present(self.refs@, i as int);
                }
                return match &self.refs[i].new_id {
                    Some(v) => Lookup::Pending(v.clone()),
                    None => Lookup::Tombstone,
                };
            }
            i += 1;
        }
        proof {
            lemma_refs_absent(self.refs@, old_id@);
        }
        Lookup::Unknown
    }

    /// Records `old_id -> new_id`, in place of what was recorded for `old_id`.
    fn set(&mut self, old_id: &String, new_id: Option<String>)
        requires
            old(self).wf(),
        ensures
            final(self).wf(),
            final(self)@ == old(self)@.insert(old_id@, opt_text(new_id)),
            final(self).drawn() == old(self).drawn(),
    {
        let entry = RefEntry { old_id: old_id.clone(), new_id };
        let mut i: usize = 0;
        while i < self.refs.len()
            invariant
                0 <= i <= self.refs.len(),
                self.wf(),
                *self == *old(self),
                entry.old_id@ == old_id@,
                entry.new_id == new_id,
                forall|j: int| 0 <= j < i ==> self.refs@[j].old_id@ != old_id@,
            decreases self.refs.len() - i,
        {
            if self.refs[i].old_id == *old_id {
                proof {
                    lemma_refs_update(self.refs@, i as int, entry);
                }
                self.refs.set(i, entry);
                return ;
            }
            i += 1;
        }
        proof {
            assert(self.refs@.push(entry).drop_last() == self.refs@);
        }
        self.refs.push(entry);
    }

    /// Draws an identifier and adds it to the record of draws.
    pub fn fresh_id(&mut self) -> (id: String)
        requires
            old(self).wf(),
        ensures
            final(self).wf(),
            final(self)@ == old(self)@,
            final(self).drawn() == old(self).drawn().push(id@),
            id@.len() == 36,
    {
        let id = fresh_uuid();
        self.drawn.push(id.clone());
        id
    }

    /// Draws an identifier and records that it replaces `old_id`.
    pub fn assign(&mut self, old_id: &String) -> (new_id: String)
        requires
            old(self).wf(),
        ensures
            final(self).wf(),
            final(self)@ == old(self)@.insert(old_id@, Some(new_id@)),
            final(self).drawn() == old(self).drawn().push(new_id@),
            new_id@.len() == 36,
    {
        let new_id = self.fresh_id();
        self.record(old_id, &new_id);
        new_id
    }

    /// Records that `old_id` is replaced by `new_id`.
    pub fn record(&mut self, old_id: &String, new_id: &String)
        requires
            old(self).wf(),
        ensures
            final(self).wf(),
            final(self)@ == old(self)@.insert(old_id@, Some(new_id@)),
            final(self).drawn() == old(self).drawn(),
    {
        self.set(old_id, Some(new_id.clone()));
    }

    /// Records that `old_id` has no published data.
    pub fn tombstone(&mut self, old_id: &String)
        requires
            old(self).wf(),
        ensures
            final(self).wf(),
            final(self)@ == old(self)@.insert(old_id@, None),
            final(self).drawn() == old(self).drawn(),
    {
        self.set(old_id, None);
    }
}

} // verus!
