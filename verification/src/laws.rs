use vstd::prelude::*;

use crate::catalog::{name_matches, sorted_by_id};
use crate::record::{projects, records_view, same_record, BasicEatery, Eatery, RecordView};
use crate::text::{has_substr, lower_of};

verus! {

/// Some record in `s` carries the id `x`.
pub open spec fn has_id(s: Seq<Eatery>, x: usize) -> bool {
    exists|i: int| 0 <= i < s.len() && (#[trigger] s[i]).id == x
}

/// Law: building the catalog loses no decoded record and invents none.
/// Sequences with equal multisets (as the catalog and its input records
/// have) hold the same number of records, and an id occurs in one exactly
/// when it occurs in the other.
pub proof fn lemma_catalog_keeps_records(records: Seq<Eatery>, entries: Seq<Eatery>)
    requires
        entries.to_multiset() == records.to_multiset(),
    ensures
        entries.len() == records.len(),
        forall|x: usize| #[trigger] has_id(entries, x) <==> has_id(records, x),
{
    vstd::seq_lib::to_multiset_len(entries);
    vstd::seq_lib::to_multiset_len(records);
    entries.to_multiset_ensures();
    records.to_multiset_ensures();
    assert forall|x: usize| #[trigger] has_id(entries, x) <==> has_id(records, x) by {
        if has_id(entries, x) {
            let i = choose|i: int| 0 <= i < entries.len() && (#[trigger] entries[i]).id == x;
            assert(entries.contains(entries[i]));
            assert(entries.to_multiset().count(entries[i]) > 0);
            assert(records.to_multiset().count(entries[i]) > 0);
            assert(records.contains(entries[i]));
            let j = choose|j: int| 0 <= j < records.len() && records[j] == entries[i];
            assert(records[j].id == x);
        }
        if has_id(records, x) {
            let j = choose|j: int| 0 <= j < records.len() && (#[trigger] records[j]).id == x;
            assert(records.contains(records[j]));
            assert(records.to_multiset().count(records[j]) > 0);
            assert(entries.to_multiset().count(records[j]) > 0);
            assert(entries.contains(records[j]));
            let i = choose|i: int| 0 <= i < entries.len() && entries[i] == records[j];
            assert(entries[i].id == x);
        }
    }
}

/// Some record data in `s` carries the id `x`.
pub open spec fn view_has_id(s: Seq<RecordView>, x: u64) -> bool {
    exists|i: int| 0 <= i < s.len() && (#[trigger] s[i]).id == x
}

/// Law: loading keeps exactly the well-formed blobs' records. With
/// multiset-equal record data — as the loader guarantees between the
/// catalog and the decoded blobs — both sides hold the same number of
/// records, and an id occurs on one side exactly when it occurs on the
/// other.
pub proof fn lemma_load_keeps_ids(a: Seq<RecordView>, b: Seq<RecordView>)
    requires
        a.to_multiset() == b.to_multiset(),
    ensures
        a.len() == b.len(),
        forall|x: u64| #[trigger] view_has_id(a, x) <==> view_has_id(b, x),
{
    vstd::seq_lib::to_multiset_len(a);
    vstd::seq_lib::to_multiset_len(b);
    a.to_multiset_ensures();
    b.to_multiset_ensures();
    assert forall|x: u64| #[trigger] view_has_id(a, x) <==> view_has_id(b, x) by {
        if view_has_id(a, x) {
            let i = choose|i: int| 0 <= i < a.len() && (#[trigger] a[i]).id == x;
            assert(a.contains(a[i]));
            assert(a.to_multiset().count(a[i]) > 0);
            assert(b.to_multiset().count(a[i]) > 0);
            assert(b.contains(a[i]));
            let j = choose|j: int| 0 <= j < b.len() && b[j] == a[i];
            assert(b[j].id == x);
        }
        if view_has_id(b, x) {
            let j = choose|j: int| 0 <= j < b.len() && (#[trigger] b[j]).id == x;
            assert(b.contains(b[j]));
            assert(b.to_multiset().count(b[j]) > 0);
            assert(a.to_multiset().count(b[j]) > 0);
            assert(a.contains(b[j]));
            let i = choose|i: int| 0 <= i < a.len() && a[i] == b[j];
            assert(a[i].id == x);
        }
    }
}

/// Law: loading is deterministic. Two sorted catalogs holding the same
/// record data — as two loads of the same blobs produce, in whatever order
/// the source enumerated them — with no id repeated, are identical
/// sequences.
pub proof fn lemma_load_deterministic(a: Seq<Eatery>, b: Seq<Eatery>)
    requires
        sorted_by_id(a),
        sorted_by_id(b),
        records_view(a).to_multiset() == records_view(b).to_multiset(),
        forall|i: int, j: int| 0 <= i < j < a.len() ==> a[i].id != a[j].id,
    ensures
        records_view(a) == records_view(b),
    decreases a.len(),
{
    broadcast use vstd::seq_lib::group_to_multiset_ensures, vstd::multiset::group_multiset_axioms;

    let va = records_view(a);
    let vb = records_view(b);
    vstd::seq_lib::to_multiset_len(va);
    vstd::seq_lib::to_multiset_len(vb);
    va.to_multiset_ensures();
    vb.to_multiset_ensures();
    if a.len() == 0 {
        assert(va =~= vb);
    } else {
        let n = a.len() as int;
        // the two last records carry the same data: each side's last id
        // bounds the other's, and ids are unique
        assert(vb.contains(va[n - 1])) by {
            assert(va.contains(va[n - 1]));
            assert(va.to_multiset().count(va[n - 1]) > 0);
            assert(vb.to_multiset().count(va[n - 1]) > 0);
        }
        let m = choose|m: int| 0 <= m < vb.len() && vb[m] == va[n - 1];
        assert(a[n - 1].id <= b[n - 1].id) by {
            assert(b[m].rv() == a[n - 1].rv());
            assert(b[m].id <= b[n - 1].id);
        }
        assert(va.contains(vb[n - 1])) by {
            assert(vb.contains(vb[n - 1]));
            assert(vb.to_multiset().count(vb[n - 1]) > 0);
            assert(va.to_multiset().count(vb[n - 1]) > 0);
        }
        let k = choose|k: int| 0 <= k < va.len() && va[k] == vb[n - 1];
        assert(a[k].rv() == b[n - 1].rv());
        assert(b[n - 1].id <= a[n - 1].id) by {
            assert(a[k].id <= a[n - 1].id);
        }
        assert(a[k].id == a[n - 1].id);
        assert(k == n - 1);
        assert(va[n - 1] == vb[n - 1]);
        // peel the last record off both sides and recurse
        let ra = a.drop_last();
        let rb = b.drop_last();
        assert(va =~= records_view(ra).push(va[n - 1]));
        assert(vb =~= records_view(rb).push(vb[n - 1]));
        assert(records_view(ra).to_multiset().insert(va[n - 1]) == records_view(
            rb,
        ).to_multiset().insert(vb[n - 1]));
        assert forall|y: RecordView|
            records_view(ra).to_multiset().count(y) == records_view(rb).to_multiset().count(
                y,
            ) by {
            assert(records_view(ra).to_multiset().insert(va[n - 1]).count(y) == records_view(
                rb,
            ).to_multiset().insert(va[n - 1]).count(y));
        }
        assert(records_view(ra).to_multiset() =~= records_view(rb).to_multiset());
        lemma_load_deterministic(ra, rb);
        assert(va =~= vb);
    }
}

/// Law: a listing taken from a sorted catalog is itself sorted ascending by
/// id, whatever order the records were loaded in.
pub proof fn lemma_list_sorted(entries: Seq<Eatery>, basics: Seq<BasicEatery>)
    requires
        sorted_by_id(entries),
        basics.len() == entries.len(),
        forall|i: int| 0 <= i < entries.len() ==> projects(entries[i], #[trigger] basics[i]),
    ensures
        forall|i: int, j: int|
            0 <= i <= j < basics.len() ==> (#[trigger] basics[i]).id <= (#[trigger] basics[j]).id,
{
    assert forall|i: int, j: int|
        0 <= i <= j < basics.len() implies (#[trigger] basics[i]).id
        <= (#[trigger] basics[j]).id by {
        assert(projects(entries[i], basics[i]));
        assert(projects(entries[j], basics[j]));
    }
}

/// Law: a full record fetched by id agrees with the basic record listed for
/// the same entry on every field they share (and additionally carries the
/// reviews, which the basic shape omits).
pub proof fn lemma_get_matches_list(
    entries: Seq<Eatery>,
    basics: Seq<BasicEatery>,
    e: Eatery,
    id: usize,
)
    requires
        basics.len() == entries.len(),
        forall|i: int| 0 <= i < entries.len() ==> projects(entries[i], #[trigger] basics[i]),
        exists|i: int|
            0 <= i < entries.len() && (#[trigger] entries[i]).id == id && same_record(
                e,
                entries[i],
            ),
    ensures
        exists|i: int|
            0 <= i < basics.len() && (#[trigger] basics[i]).id == id && projects(e, basics[i]),
{
    let i = choose|i: int|
        0 <= i < entries.len() && (#[trigger] entries[i]).id == id && same_record(e, entries[i]);
    assert(projects(entries[i], basics[i]));
    assert(basics[i].id == id && projects(e, basics[i]));
}

/// Law: the empty query matches every record, so searching with it keeps
/// the whole catalog.
pub proof fn lemma_search_empty_matches_all(entries: Seq<Eatery>, lowered_query: Seq<u8>)
    requires
        lowered_query.len() == 0,
    ensures
        entries.filter(|e: Eatery| name_matches(e, lowered_query)) == entries,
    decreases entries.len(),
{
    reveal(Seq::filter);
    if entries.len() > 0 {
        lemma_search_empty_matches_all(entries.drop_last(), lowered_query);
        let last = entries.last();
        assert(has_substr(lower_of(last.name@), lowered_query)) by {
            assert(lower_of(last.name@).subrange(0, 0 + lowered_query.len() as int)
                =~= lowered_query);
        }
        assert(entries.drop_last().push(last) =~= entries);
    }
}

/// Law: the search is case-insensitive. Two queries with the same
/// lower-cased form select exactly the same records.
pub proof fn lemma_search_case_insensitive(entries: Seq<Eatery>, q1: Seq<char>, q2: Seq<char>)
    requires
        lower_of(q1) == lower_of(q2),
    ensures
        entries.filter(|e: Eatery| name_matches(e, lower_of(q1))) == entries.filter(
            |e: Eatery| name_matches(e, lower_of(q2)),
        ),
{
}

} // verus!
