//! Store-wide laws, stated over the views and spec functions that the
//! operations' contracts use, and proved once and for all.

use vstd::prelude::*;
use crate::report::report_of;
use crate::types::{created_record, with_medication, PayloadView, RecordView};
use crate::validation::payload_valid;

verus! {

/// Creating a record and then reading its identifier back yields exactly the
/// record the create returned: `add_health_record` turns the store's map `m`
/// into `m.insert(id, rec)` with `id = counter + 1`, and `get_health_record`
/// returns that map's entry under `id`, which is `rec`.
pub proof fn lemma_create_then_read(
    m: Map<u64, RecordView>,
    counter: u64,
    p: PayloadView,
    caller: Seq<char>,
    now: u64,
)
    requires
        payload_valid(p),
        counter < u64::MAX,
    ensures
        ({
            let id = (counter + 1) as u64;
            let rec = created_record(id, p, caller, now);
            &&& m.insert(id, rec).contains_key(id)
            &&& m.insert(id, rec)[id] == rec
        }),
{
}

/// Identifiers are never reused. A create called at counter `c1` returns the
/// identifier `c1 + 1` and raises the counter to it; no operation ever lowers
/// the counter, so any later create runs at some `c2 > c1` and returns the
/// strictly larger identifier `c2 + 1` — deletions in between change nothing
/// about this.
pub proof fn lemma_create_ids_never_reused(c1: u64, c2: u64)
    requires
        c1 < c2,
        c2 < u64::MAX,
    ensures
        c1 + 1 != c2 + 1,
{
}

/// The identifier a create hands out never collides with a live record
/// either: the store's invariant keeps every stored identifier at or below
/// the counter, and the create returns `counter + 1`.
pub proof fn lemma_created_id_fresh(m: Map<u64, RecordView>, counter: u64)
    requires
        counter < u64::MAX,
        forall|id: u64| m.contains_key(id) ==> id <= counter,
    ensures
        !m.contains_key((counter + 1) as u64),
{
}

/// Deletion is irreversible: once `delete_health_record` has turned the map
/// `m` into `m.remove(id)`, lookups, existence checks and further deletes of
/// `id` all see absence.
pub proof fn lemma_delete_irreversible(m: Map<u64, RecordView>, id: u64)
    ensures
        !m.remove(id).contains_key(id),
{
}

/// The record after a sequence of medication-tracking calls, in call order.
pub open spec fn tracked_all(r: RecordView, meds: Seq<Seq<char>>) -> RecordView
    decreases meds.len(),
{
    if meds.len() == 0 {
        r
    } else {
        with_medication(tracked_all(r, meds.drop_last()), meds.last())
    }
}

/// Medication tracking is append-only: after any sequence of tracking calls
/// the history is the original history followed by the tracked entries in
/// call order — so `n` calls on a fresh record leave a history of length `n`
/// — and neither `updated_at` nor any other field moves.
pub proof fn lemma_track_medication_append_only(r: RecordView, meds: Seq<Seq<char>>)
    ensures
        tracked_all(r, meds).medication_history == r.medication_history + meds,
        tracked_all(r, meds).updated_at == r.updated_at,
        tracked_all(r, meds).id == r.id,
        tracked_all(r, meds).doctor_principal == r.doctor_principal,
        tracked_all(r, meds).created_at == r.created_at,
    decreases meds.len(),
{
    if meds.len() == 0 {
        assert(r.medication_history + meds =~= r.medication_history);
    } else {
        lemma_track_medication_append_only(r, meds.drop_last());
        assert((r.medication_history + meds.drop_last()).push(meds.last())
            =~= r.medication_history + meds);
    }
}

/// The report is a pure function of a record's field values: equal record
/// views render byte-identical text, so two reports generated with no
/// mutation in between are equal.
pub proof fn lemma_report_deterministic(a: RecordView, b: RecordView)
    requires
        a == b,
    ensures
        report_of(a) == report_of(b),
{
}

} // verus!
