//! Sticker records and the collection a product page yields.
//!
//! Each sticker of a product page is described by a record keyed by its id.
//! The records of one page form a [`StickerMap`]: no two of them share an
//! id, and a record that arrives under an id already present takes the
//! place of the earlier one.

use vstd::prelude::*;
use vstd::string::StringExecFns;

verus! {

/// What is known of one sticker. A URL is empty where the sticker has no
/// such asset.
#[derive(Debug, PartialEq, Eq)]
pub struct StickerRecord {
    pub id: String,
    pub static_url: String,
    pub fallback_static_url: String,
    pub animation_url: String,
    pub popup_url: String,
    pub sound_url: String,
}

/// A sticker record as contracts see it.
pub struct StickerRecordView {
    pub id: Seq<char>,
    pub static_url: Seq<char>,
    pub fallback_static_url: Seq<char>,
    pub animation_url: Seq<char>,
    pub popup_url: Seq<char>,
    pub sound_url: Seq<char>,
}

impl View for StickerRecord {
    type V = StickerRecordView;

    open spec fn view(&self) -> StickerRecordView {
        StickerRecordView {
            id: self.id@,
            static_url: self.static_url@,
            fallback_static_url: self.fallback_static_url@,
            animation_url: self.animation_url@,
            popup_url: self.popup_url@,
            sound_url: self.sound_url@,
        }
    }
}

/// The ids of `entries`, in order.
pub open spec fn ids(entries: Seq<StickerRecordView>) -> Seq<Seq<char>> {
    entries.map_values(|record: StickerRecordView| record.id)
}

/// Whether no two of `entries` share an id.
pub open spec fn distinct_ids(entries: Seq<StickerRecordView>) -> bool {
    ids(entries).no_duplicates()
}

/// `entries` with `record` put in: in place of the entry with the same id
/// if there is one, at the end otherwise.
pub open spec fn put(entries: Seq<StickerRecordView>, record: StickerRecordView) -> Seq<
    StickerRecordView,
> {
    match ids(entries).index_of_first(record.id) {
        Some(i) => entries.update(i, record),
        None => entries.push(record),
    }
}

/// The mapping from id to record that `entries` stands for.
pub open spec fn index_by_id(entries: Seq<StickerRecordView>) -> Map<Seq<char>, StickerRecordView>
    decreases entries.len(),
{
    if entries.len() == 0 {
        Map::empty()
    } else {
        index_by_id(entries.drop_last()).insert(entries.last().id, entries.last())
    }
}

/// The keys of the mapping are the ids of the entries.
pub proof fn lemma_index_keys(entries: Seq<StickerRecordView>, id: Seq<char>)
    ensures
        index_by_id(entries).contains_key(id) <==> ids(entries).contains(id),
        index_by_id(entries).dom().finite(),
    decreases entries.len(),
{
    if entries.len() > 0 {
        lemma_index_keys(entries.drop_last(), id);
        let rest = ids(entries.drop_last());
        assert(ids(entries) == rest.push(entries.last().id));
        if rest.contains(id) {
            let i = choose|i: int| 0 <= i < rest.len() && rest[i] == id;
            assert(ids(entries)[i] == id);
        }
        if entries.last().id == id {
            assert(ids(entries)[entries.len() - 1] == id);
        }
    }
}

/// Where no two entries share an id, each entry is what the mapping holds
/// under its id, and the mapping has as many keys as there are entries.
pub proof fn lemma_index_entries(entries: Seq<StickerRecordView>)
    requires
        distinct_ids(entries),
    ensures
        index_by_id(entries).len() == entries.len(),
        forall|i: int|
            0 <= i < entries.len() ==> index_by_id(entries).contains_key(
                #[trigger] entries[i].id,
            ) && index_by_id(entries)[entries[i].id] == entries[i],
    decreases entries.len(),
{
    if entries.len() > 0 {
        let rest = entries.drop_last();
        let last = entries.last();
        assert forall|i: int, j: int| 0 <= i < j < ids(rest).len() implies ids(rest)[i] != ids(
            rest,
        )[j] by {
            assert(ids(entries)[i] != ids(entries)[j]);
        }
        lemma_index_entries(rest);
        lemma_index_keys(rest, last.id);
        if ids(rest).contains(last.id) {
            let i = choose|i: int| 0 <= i < ids(rest).len() && ids(rest)[i] == last.id;
            assert(ids(entries)[i] == ids(entries)[entries.len() - 1]);
        }
        assert forall|i: int| 0 <= i < entries.len() implies index_by_id(entries).contains_key(
            #[trigger] entries[i].id,
        ) && index_by_id(entries)[entries[i].id] == entries[i] by {
            if i < entries.len() - 1 {
                assert(rest[i] == entries[i]);
            }
        }
    }
}

/// Putting a record in keeps the ids distinct, and gives the mapping the
/// record under its id, leaving every other key as it was.
pub proof fn lemma_put(entries: Seq<StickerRecordView>, record: StickerRecordView)
    requires
        distinct_ids(entries),
    ensures
        distinct_ids(put(entries, record)),
        index_by_id(put(entries, record)) == index_by_id(entries).insert(record.id, record),
    decreases entries.len(),
{
    ids(entries).index_of_first_ensures(record.id);
    match ids(entries).index_of_first(record.id) {
        Some(i) => {
            let after = entries.update(i, record);
            assert(ids(after) == ids(entries));
            lemma_update_inserts(entries, i, record);
        },
        None => {
            let after = entries.push(record);
            assert(after.drop_last() == entries);
            assert forall|i: int, j: int| 0 <= i < j < ids(after).len() implies ids(after)[i]
                != ids(after)[j] by {
                if j < ids(entries).len() {
                    assert(ids(entries)[i] != ids(entries)[j]);
                } else {
                    assert(ids(entries)[i] != record.id);
                }
            }
        },
    }
}

proof fn lemma_update_inserts(entries: Seq<StickerRecordView>, i: int, record: StickerRecordView)
    requires
        distinct_ids(entries),
        0 <= i < entries.len(),
        entries[i].id == record.id,
    ensures
        index_by_id(entries.update(i, record)) == index_by_id(entries).insert(record.id, record),
    decreases entries.len(),
{
    let after = entries.update(i, record);
    let rest = entries.drop_last();
    if i == entries.len() - 1 {
        assert(after.drop_last() == rest);
    } else {
        assert(after.drop_last() == rest.update(i, record));
        assert forall|a: int, b: int| 0 <= a < b < ids(rest).len() implies ids(rest)[a] != ids(
            rest,
        )[b] by {
            assert(ids(entries)[a] != ids(entries)[b]);
        }
        lemma_update_inserts(rest, i, record);
        assert(ids(entries)[i] != ids(entries)[entries.len() - 1]);
    }
}

/// The sticker records of one product page, keyed by id.
#[derive(Debug)]
pub struct StickerMap {
    records: Vec<StickerRecord>,
}

impl View for StickerMap {
    type V = Map<Seq<char>, StickerRecordView>;

    open spec fn view(&self) -> Map<Seq<char>, StickerRecordView> {
        index_by_id(self.entries())
    }
}

impl StickerMap {
    /// The records, in the order in which they are handed out.
    pub closed spec fn entries(&self) -> Seq<StickerRecordView> {
        self.records@.map_values(|record: StickerRecord| record@)
    }

    #[verifier::type_invariant]
    spec fn well_formed(&self) -> bool {
        distinct_ids(self.entries())
    }

    /// A collection without records.
    pub fn new() -> (map: StickerMap)
        ensures
            map.entries() == Seq::<StickerRecordView>::empty(),
            map@ == Map::<Seq<char>, StickerRecordView>::empty(),
    {
        StickerMap { records: Vec::new() }
    }

    /// The number of records.
    pub fn len(&self) -> (n: usize)
        ensures
            n == self.entries().len(),
            n == self@.len(),
            distinct_ids(self.entries()),
    {
        proof {
            use_type_invariant(self);
            lemma_index_entries(self.entries());
        }
        self.records.len()
    }

    /// The record at position `i`.
    pub fn entry(&self, i: usize) -> (record: &StickerRecord)
        requires
            i < self.entries().len(),
        ensures
            record@ == self.entries()[i as int],
    {
        &self.records[i]
    }

    fn position(&self, id: &str) -> (found: Option<usize>)
        ensures
            match found {
                Some(i) => ids(self.entries()).index_of_first(id@) == Some(i as int),
                None => ids(self.entries()).index_of_first(id@) is None,
            },
            found matches Some(i) ==> i < self.records.len() && self.records[i as int].id@ == id@,
    {
        let ghost all = ids(self.entries());
        let wanted = String::from_str(id);
        let mut i: usize = 0;
        while i < self.records.len()
            invariant
                i <= self.records.len(),
                all == ids(self.entries()),
                wanted@ == id@,
                forall|j: int| 0 <= j < i ==> all[j] != id@,
            decreases self.records.len() - i,
        {
            if self.records[i].id == wanted {
                proof {
                    assert(all[i as int] == id@);
                    all.index_of_first_ensures(id@);
                }
                return Some(i);
            }
            i += 1;
        }
        proof {
            all.index_of_first_ensures(id@);
        }
        None
    }

    /// Whether there is a record with the id `id`.
    pub fn contains_key(&self, id: &str) -> (found: bool)
        ensures
            found == self@.contains_key(id@),
    {
        proof {
            lemma_index_keys(self.entries(), id@);
            ids(self.entries()).index_of_first_ensures(id@);
        }
        self.position(id).is_some()
    }

    /// The record with the id `id`, if there is one.
    pub fn get(&self, id: &str) -> (found: Option<&StickerRecord>)
        ensures
            match found {
                Some(record) => self@.contains_key(id@) && self@[id@] == record@,
                None => !self@.contains_key(id@),
            },
    {
        proof {
            use_type_invariant(self);
            lemma_index_keys(self.entries(), id@);
            lemma_index_entries(self.entries());
            ids(self.entries()).index_of_first_ensures(id@);
        }
        match self.position(id) {
            Some(i) => Some(&self.records[i]),
            None => None,
        }
    }

    /// Puts `record` in: in place of the record with the same id if there
    /// is one, at the end otherwise.
    pub fn insert(&mut self, record: StickerRecord)
        ensures
            final(self).entries() == put(old(self).entries(), record@),
            final(self)@ == old(self)@.insert(record.id@, record@),
            distinct_ids(final(self).entries()),
    {
        proof {
            use_type_invariant(&*self);
            lemma_put(self.entries(), record@);
        }
        let ghost before = self.entries();
        let position = self.position(record.id.as_str());
        let mut records: Vec<StickerRecord> = Vec::new();
        core::mem::swap(&mut self.records, &mut records);
        match position {
            Some(i) => {
                records.set(i, record);
            },
            None => {
                records.push(record);
            },
        }
        assert(records@.map_values(|record: StickerRecord| record@) == put(before, record@));
        self.records = records;
    }
}

} // verus!
