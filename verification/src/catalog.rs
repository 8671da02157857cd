use vstd::prelude::*;

use crate::decode::{blob_record_view, blob_well_formed, decode_record};
use crate::record::{projects, records_view, same_record, BasicEatery, Eatery, RecordView};
use crate::text::{contains_bytes, has_substr, lower_bytes, lower_of};

verus! {

/// The records are ordered ascending by `id`.
pub open spec fn sorted_by_id(s: Seq<Eatery>) -> bool {
    forall|i: int, j: int| 0 <= i <= j < s.len() ==> s[i].id <= s[j].id
}

/// The data of the records that the well-formed blobs decode to, in blob
/// order.
pub open spec fn decoded_views(blobs: Seq<String>) -> Seq<RecordView> {
    blobs.filter(|b: String| blob_well_formed(b@)).map_values(|b: String| blob_record_view(b@))
}

/// The record's name, lower-cased, contains the lower-cased query.
pub open spec fn name_matches(e: Eatery, lowered_query: Seq<u8>) -> bool {
    has_substr(lower_of(e.name@), lowered_query)
}

/// The loaded collection: records sorted ascending by `id`, immutable once
/// built. Every query is read-only.
pub struct Catalog {
    entries: Vec<Eatery>,
}

impl View for Catalog {
    type V = Seq<Eatery>;

    closed spec fn view(&self) -> Seq<Eatery> {
        self.entries@
    }
}

impl Catalog {
    /// The catalog invariant: entries sorted ascending by id.
    pub open spec fn wf(&self) -> bool {
        sorted_by_id(self@)
    }

    /// The position before which `id` should be placed to keep the order:
    /// the first index whose id is strictly greater.
    fn insert_pos(entries: &Vec<Eatery>, id: usize) -> (pos: usize)
        requires
            sorted_by_id(entries@),
        ensures
            pos <= entries@.len(),
            forall|k: int| 0 <= k < pos ==> entries@[k].id <= id,
            forall|k: int| pos <= k < entries@.len() ==> id < entries@[k].id,
    {
        let n: usize = entries.len();
        let mut pos: usize = 0;
        while pos < n
            invariant
                n == entries@.len(),
                sorted_by_id(entries@),
                pos <= n,
                forall|k: int| 0 <= k < pos ==> entries@[k].id <= id,
            decreases n - pos,
        {
            if id < entries[pos].id {
                return pos;
            }
            pos += 1;
        }
        pos
    }

    /// Build the catalog from the decoded records: sort them ascending by
    /// `id`, keeping every record (ids are not required to be unique).
    pub fn from_records(records: Vec<Eatery>) -> (c: Catalog)
        ensures
            c.wf(),
            c@.to_multiset() == records@.to_multiset(),
            records_view(c@).to_multiset() == records_view(records@).to_multiset(),
    {
        broadcast use vstd::seq_lib::group_to_multiset_ensures, vstd::multiset::group_multiset_axioms;

        let mut rest = records;
        let mut entries: Vec<Eatery> = Vec::new();
        proof {
            assert(entries@.to_multiset().add(rest@.to_multiset()) =~= rest@.to_multiset());
            assert(records_view(entries@).to_multiset().add(records_view(rest@).to_multiset())
                =~= records_view(rest@).to_multiset());
        }
        while rest.len() > 0
            invariant
                sorted_by_id(entries@),
                entries@.to_multiset().add(rest@.to_multiset()) == records@.to_multiset(),
                records_view(entries@).to_multiset().add(records_view(rest@).to_multiset())
                    == records_view(records@).to_multiset(),
            decreases rest.len(),
        {
            let ghost old_rest = rest@;
            let ghost old_entries = entries@;
            let e = rest.pop().unwrap();
            proof {
                old_rest.to_multiset_ensures();
                assert(rest@ =~= old_rest.remove(old_rest.len() - 1));
                assert(old_rest.contains(e)) by {
                    assert(old_rest[old_rest.len() - 1] == e);
                }
                assert(old_rest.to_multiset().count(e) > 0);
                assert(rest@.to_multiset() == old_rest.to_multiset().remove(e));
                let vold_rest = records_view(old_rest);
                vold_rest.to_multiset_ensures();
                assert(records_view(rest@) =~= vold_rest.remove(vold_rest.len() - 1));
                assert(vold_rest.contains(e.rv())) by {
                    assert(vold_rest[vold_rest.len() - 1] == e.rv());
                }
                assert(vold_rest.to_multiset().count(e.rv()) > 0);
                assert(records_view(rest@).to_multiset() == vold_rest.to_multiset().remove(
                    e.rv(),
                ));
            }
            let pos = Self::insert_pos(&entries, e.id);
            entries.insert(pos, e);
            proof {
                old_entries.insert_ensures(pos as int, e);
                vstd::seq_lib::to_multiset_insert(old_entries, pos as int, e);
                assert(entries@ =~= old_entries.insert(pos as int, e));
                assert(entries@.to_multiset() == old_entries.to_multiset().insert(e));
                assert(entries@.to_multiset().add(rest@.to_multiset()) =~= records@.to_multiset());
                let vold_entries = records_view(old_entries);
                vstd::seq_lib::to_multiset_insert(vold_entries, pos as int, e.rv());
                assert(records_view(entries@) =~= vold_entries.insert(pos as int, e.rv()));
                assert(records_view(entries@).to_multiset() == vold_entries.to_multiset().insert(
                    e.rv(),
                ));
                assert(records_view(entries@).to_multiset().add(records_view(rest@).to_multiset())
                    =~= records_view(records@).to_multiset());
                assert forall|i: int, j: int|
                    0 <= i <= j < entries@.len() implies entries@[i].id <= entries@[j].id by {
                }
            }
        }
        proof {
            assert(entries@.to_multiset() =~= records@.to_multiset());
            assert(records_view(entries@).to_multiset() =~= records_view(records@).to_multiset());
        }
        Catalog { entries }
    }

    /// Decode every blob and build the catalog, sorted ascending by id: one
    /// record for each well-formed blob, holding exactly that blob's data,
    /// and nothing for a malformed blob, which is dropped silently while
    /// the rest are kept. Enumerating and reading the source is the
    /// caller's business; a source that cannot be read at all never reaches
    /// this function.
    pub fn load_catalog(blobs: &Vec<String>) -> (c: Catalog)
        ensures
            c.wf(),
            records_view(c@).to_multiset() == decoded_views(blobs@).to_multiset(),
            c@.len() <= blobs@.len(),
    {
        let n: usize = blobs.len();
        let mut records: Vec<Eatery> = Vec::new();
        let mut i: usize = 0;
        proof {
            reveal(Seq::filter);
            assert(blobs@.subrange(0, 0) =~= Seq::<String>::empty());
            assert(records_view(records@) =~= decoded_views(blobs@.subrange(0, 0)));
        }
        while i < n
            invariant
                n == blobs@.len(),
                i <= n,
                records@.len() <= i,
                records_view(records@) == decoded_views(blobs@.subrange(0, i as int)),
            decreases n - i,
        {
            let ghost prefix = blobs@.subrange(0, i as int);
            let ghost old_records = records@;
            let ghost b = blobs@[i as int];
            match decode_record(blobs[i].as_str()) {
                Some(e) => {
                    proof {
                        reveal(Seq::filter);
                        let longer = blobs@.subrange(0, i + 1);
                        assert(longer.drop_last() =~= prefix);
                        assert(longer.last() == b);
                        assert(decoded_views(longer) =~= decoded_views(prefix).push(
                            blob_record_view(b@),
                        ));
                    }
                    let ghost view_of_e = e.rv();
                    records.push(e);
                    proof {
                        assert(view_of_e == blob_record_view(b@));
                        assert(records_view(records@) =~= records_view(old_records).push(
                            view_of_e,
                        ));
                    }
                },
                None => {
                    proof {
                        reveal(Seq::filter);
                        let longer = blobs@.subrange(0, i + 1);
                        assert(longer.drop_last() =~= prefix);
                        assert(longer.last() == b);
                        assert(decoded_views(longer) =~= decoded_views(prefix));
                    }
                },
            }
            i += 1;
        }
        let ghost record_seq = records@;
        proof {
            assert(blobs@.subrange(0, n as int) =~= blobs@);
        }
        let c = Self::from_records(records);
        proof {
            vstd::seq_lib::to_multiset_len(c@);
            vstd::seq_lib::to_multiset_len(record_seq);
        }
        c
    }

    /// How many records the catalog holds.
    pub fn len(&self) -> (n: usize)
        ensures
            n == self@.len(),
    {
        self.entries.len()
    }

    /// Every record, projected to its basic shape, in catalog order.
    pub fn list(&self) -> (r: Vec<BasicEatery>)
        ensures
            r@.len() == self@.len(),
            forall|i: int| 0 <= i < self@.len() ==> projects(self@[i], #[trigger] r@[i]),
    {
        let n: usize = self.entries.len();
        let mut r: Vec<BasicEatery> = Vec::new();
        let mut i: usize = 0;
        while i < n
            invariant
                n == self@.len(),
                i <= n,
                r@.len() == i,
                forall|k: int| 0 <= k < i ==> projects(self@[k], #[trigger] r@[k]),
            decreases n - i,
        {
            r.push(self.entries[i].to_basic());
            i += 1;
        }
        r
    }

    /// Point lookup: the first record whose id equals `id`, in full; `None`
    /// exactly when no record has that id.
    pub fn get_by_id(&self, id: usize) -> (r: Option<Eatery>)
        ensures
            match r {
                Some(e) => exists|i: int|
                    0 <= i < self@.len() && (#[trigger] self@[i]).id == id && same_record(
                        e,
                        self@[i],
                    ) && (forall|j: int| 0 <= j < i ==> (#[trigger] self@[j]).id != id),
                None => forall|i: int| 0 <= i < self@.len() ==> (#[trigger] self@[i]).id != id,
            },
    {
        let n: usize = self.entries.len();
        let mut i: usize = 0;
        while i < n
            invariant
                n == self@.len(),
                i <= n,
                forall|j: int| 0 <= j < i ==> (#[trigger] self@[j]).id != id,
            decreases n - i,
        {
            if self.entries[i].id == id {
                let e = self.entries[i].duplicate();
                return Some(e);
            }
            i += 1;
        }
        None
    }

    /// Case-insensitive substring search by name: every record whose
    /// lower-cased name contains the lower-cased query, projected to its
    /// basic shape, in catalog order. An empty query matches every record.
    pub fn search_by_name(&self, query: &str) -> (r: Vec<BasicEatery>)
        ensures
            ({
                let m = self@.filter(|e: Eatery| name_matches(e, lower_of(query@)));
                r@.len() == m.len() && (forall|k: int|
                    0 <= k < m.len() ==> projects(m[k], #[trigger] r@[k]))
            }),
            query@.len() == 0 ==> r@.len() == self@.len(),
    {
        let lowered = lower_bytes(query);
        let n: usize = self.entries.len();
        let mut r: Vec<BasicEatery> = Vec::new();
        let mut i: usize = 0;
        proof {
            reveal(Seq::filter);
            assert(self@.subrange(0, 0) =~= Seq::<Eatery>::empty());
        }
        while i < n
            invariant
                n == self@.len(),
                i <= n,
                lowered@ == lower_of(query@),
                ({
                    let m = self@.subrange(0, i as int).filter(
                        |e: Eatery| name_matches(e, lower_of(query@)),
                    );
                    r@.len() == m.len() && (forall|k: int|
                        0 <= k < m.len() ==> projects(m[k], #[trigger] r@[k]))
                }),
            decreases n - i,
        {
            let ghost prefix = self@.subrange(0, i as int);
            let name_lowered = lower_bytes(self.entries[i].name.as_str());
            if contains_bytes(&name_lowered, &lowered) {
                r.push(self.entries[i].to_basic());
            }
            proof {
                reveal(Seq::filter);
                let longer = self@.subrange(0, i + 1);
                assert(longer.drop_last() =~= prefix);
                assert(longer.last() == self@[i as int]);
            }
            i += 1;
        }
        proof {
            assert(self@.subrange(0, n as int) =~= self@);
            if query@.len() == 0 {
                crate::laws::lemma_search_empty_matches_all(self@, lowered@);
            }
        }
        r
    }
}

} // verus!
