//! The record store: identity-scoped create/read/update/delete, medication
//! tracking, and read-only reporting over a table of health records keyed by
//! a monotonically allocated identifier.

use vstd::prelude::*;
use vstd::pervasive::VecAdditionalExecFns;
use crate::report::{render_report, report_of};
use crate::types::{
    created_record, updated_record, valid_record, with_medication, Error, FieldName, HealthRecord,
    PatientUpdatePayload, RecordView,
};
use crate::validation::{
    first_invalid_field, is_blank, is_invalid_string, is_payload_valid, payload_valid,
};

verus! {

/// Some row of `rows` carries the identifier `id`.
pub open spec fn has_id(rows: Seq<RecordView>, id: u64) -> bool {
    exists|i: int| 0 <= i < rows.len() && (#[trigger] rows[i]).id == id
}

/// An index of a row of `rows` carrying `id` (unique when identifiers are).
pub open spec fn row_index(rows: Seq<RecordView>, id: u64) -> int {
    choose|i: int| 0 <= i < rows.len() && (#[trigger] rows[i]).id == id
}

/// No two rows share an identifier.
pub open spec fn unique_ids(rows: Seq<RecordView>) -> bool {
    forall|i: int, j: int|
        0 <= i < j < rows.len() ==> (#[trigger] rows[i]).id != (#[trigger] rows[j]).id
}

/// The table as a mapping from identifier to record.
pub open spec fn map_of_rows(rows: Seq<RecordView>) -> Map<u64, RecordView> {
    Map::new(|id: u64| has_id(rows, id), |id: u64| rows[row_index(rows, id)])
}

proof fn lemma_row_index_of(rows: Seq<RecordView>, j: int)
    requires
        unique_ids(rows),
        0 <= j < rows.len(),
    ensures
        has_id(rows, rows[j].id),
        row_index(rows, rows[j].id) == j,
        map_of_rows(rows).contains_key(rows[j].id),
        map_of_rows(rows)[rows[j].id] == rows[j],
{
    let id = rows[j].id;
    assert(has_id(rows, id));
    let k = row_index(rows, id);
    assert(0 <= k < rows.len() && rows[k].id == id);
    if k < j {
        assert(rows[k].id != rows[j].id);
    } else if j < k {
        assert(rows[j].id != rows[k].id);
    }
}

proof fn lemma_map_of_push(rows: Seq<RecordView>, v: RecordView)
    requires
        unique_ids(rows),
        !has_id(rows, v.id),
    ensures
        unique_ids(rows.push(v)),
        map_of_rows(rows.push(v)) == map_of_rows(rows).insert(v.id, v),
{
    let rs = rows.push(v);
    let n = rows.len() as int;
    assert forall|i: int, j: int| 0 <= i < j < rs.len() implies (#[trigger] rs[i]).id != (
    #[trigger] rs[j]).id by {
        if j < n {
            assert(rs[i] == rows[i] && rs[j] == rows[j]);
        } else {
            assert(rs[j] == v);
            assert(rs[i] == rows[i]);
            if rows[i].id == v.id {
                assert(has_id(rows, v.id));
            }
        }
    }
    assert forall|k: u64| #[trigger] has_id(rs, k) implies has_id(rows, k) || k == v.id by {
        let i = choose|i: int| 0 <= i < rs.len() && (#[trigger] rs[i]).id == k;
        if i < n {
            assert(rs[i] == rows[i]);
            assert(has_id(rows, k));
        } else {
            assert(rs[i] == v);
        }
    }
    assert forall|k: u64| has_id(rows, k) implies has_id(rs, k) by {
        let i = choose|i: int| 0 <= i < rows.len() && (#[trigger] rows[i]).id == k;
        assert(rs[i] == rows[i]);
        assert(has_id(rs, k));
    }
    assert(rs[n] == v);
    assert(has_id(rs, v.id));
    assert forall|k: u64| has_id(rs, k) implies map_of_rows(rs)[k] == map_of_rows(rows).insert(
        v.id,
        v,
    )[k] by {
        let i = row_index(rs, k);
        assert(0 <= i < rs.len() && rs[i].id == k);
        if k == v.id {
            if i < n {
                assert(rs[i] == rows[i]);
                assert(has_id(rows, v.id));
                assert(false);
            }
            assert(map_of_rows(rs)[k] == v);
        } else {
            assert(i < n);
            assert(rs[i] == rows[i]);
            assert(has_id(rows, k));
            let j = row_index(rows, k);
            assert(0 <= j < rows.len() && rows[j].id == k);
            if i < j {
                assert(rows[i].id != rows[j].id);
            } else if j < i {
                assert(rows[j].id != rows[i].id);
            }
            assert(map_of_rows(rs)[k] == rows[i]);
            assert(map_of_rows(rows)[k] == rows[j]);
        }
    }
    assert(map_of_rows(rs) =~= map_of_rows(rows).insert(v.id, v));
}

proof fn lemma_map_of_update(rows: Seq<RecordView>, j: int, v: RecordView)
    requires
        unique_ids(rows),
        0 <= j < rows.len(),
        v.id == rows[j].id,
    ensures
        unique_ids(rows.update(j, v)),
        map_of_rows(rows.update(j, v)) == map_of_rows(rows).insert(v.id, v),
{
    let rs = rows.update(j, v);
    assert forall|i: int| 0 <= i < rs.len() implies (#[trigger] rs[i]).id == rows[i].id by {
        if i != j {
            assert(rs[i] == rows[i]);
        }
    }
    assert forall|k: u64| #[trigger] has_id(rs, k) implies has_id(rows, k) by {
        let i = choose|i: int| 0 <= i < rs.len() && (#[trigger] rs[i]).id == k;
        assert(rows[i].id == k);
        assert(has_id(rows, k));
    }
    assert forall|k: u64| #[trigger] has_id(rows, k) implies has_id(rs, k) by {
        let i = choose|i: int| 0 <= i < rows.len() && (#[trigger] rows[i]).id == k;
        assert(rs[i].id == k);
        assert(has_id(rs, k));
    }
    lemma_row_index_of(rows, j);
    assert forall|k: u64| has_id(rs, k) implies map_of_rows(rs)[k] == map_of_rows(rows).insert(
        v.id,
        v,
    )[k] by {
        let i = row_index(rs, k);
        assert(0 <= i < rs.len() && rs[i].id == k);
        if k == v.id {
            if i < j {
                assert(rows[i].id != rows[j].id);
            } else if j < i {
                assert(rows[j].id != rows[i].id);
            }
            assert(i == j);
            assert(map_of_rows(rs)[k] == v);
        } else {
            assert(i != j);
            assert(rs[i] == rows[i]);
            assert(has_id(rows, k));
            let l = row_index(rows, k);
            assert(0 <= l < rows.len() && rows[l].id == k);
            if i < l {
                assert(rows[i].id != rows[l].id);
            } else if l < i {
                assert(rows[l].id != rows[i].id);
            }
            assert(map_of_rows(rs)[k] == rows[i]);
            assert(map_of_rows(rows)[k] == rows[l]);
        }
    }
    assert(map_of_rows(rs) =~= map_of_rows(rows).insert(v.id, v));
}

proof fn lemma_map_of_remove(rows: Seq<RecordView>, j: int)
    requires
        unique_ids(rows),
        0 <= j < rows.len(),
    ensures
        unique_ids(rows.remove(j)),
        map_of_rows(rows.remove(j)) == map_of_rows(rows).remove(rows[j].id),
{
    let rs = rows.remove(j);
    let n = rows.len() as int;
    assert forall|i: int| 0 <= i < rs.len() implies #[trigger] rs[i] == rows[if i < j {
        i
    } else {
        i + 1
    }] by {}
    assert forall|i: int, k: int| 0 <= i < k < rs.len() implies (#[trigger] rs[i]).id != (
    #[trigger] rs[k]).id by {
        let i0 = if i < j { i } else { i + 1 };
        let k0 = if k < j { k } else { k + 1 };
        assert(rs[i] == rows[i0] && rs[k] == rows[k0]);
        assert(0 <= i0 < k0 < n);
        assert(rows[i0].id != rows[k0].id);
    }
    assert forall|k: u64| #[trigger] has_id(rs, k) implies has_id(rows, k) && k != rows[j].id by {
        let i = choose|i: int| 0 <= i < rs.len() && (#[trigger] rs[i]).id == k;
        let i0 = if i < j { i } else { i + 1 };
        assert(rs[i] == rows[i0]);
        assert(has_id(rows, k));
        if i0 < j {
            assert(rows[i0].id != rows[j].id);
        } else {
            assert(j < i0);
            assert(rows[j].id != rows[i0].id);
        }
    }
    assert forall|k: u64| has_id(rows, k) && k != rows[j].id implies has_id(rs, k) by {
        let i = choose|i: int| 0 <= i < rows.len() && (#[trigger] rows[i]).id == k;
        if i < j {
            assert(rs[i] == rows[i]);
            assert(has_id(rs, k));
        } else {
            assert(i != j);
            assert(rs[i - 1] == rows[i]);
            assert(has_id(rs, k));
        }
    }
    assert forall|k: u64| has_id(rs, k) implies map_of_rows(rs)[k] == map_of_rows(rows).remove(
        rows[j].id,
    )[k] by {
        let i = row_index(rs, k);
        assert(0 <= i < rs.len() && rs[i].id == k);
        let i0 = if i < j { i } else { i + 1 };
        assert(rs[i] == rows[i0]);
        assert(has_id(rows, k));
        let l = row_index(rows, k);
        assert(0 <= l < rows.len() && rows[l].id == k);
        if i0 < l {
            assert(rows[i0].id != rows[l].id);
        } else if l < i0 {
            assert(rows[l].id != rows[i0].id);
        }
        assert(map_of_rows(rs)[k] == rows[i0]);
        assert(map_of_rows(rows)[k] == rows[l]);
    }
    assert(map_of_rows(rs) =~= map_of_rows(rows).remove(rows[j].id));
}

proof fn lemma_map_of_rows_len(rows: Seq<RecordView>)
    requires
        unique_ids(rows),
    ensures
        map_of_rows(rows).dom().finite(),
        map_of_rows(rows).dom().len() == rows.len(),
{
    broadcast use vstd::seq_lib::seq_to_set_is_finite;

    let ids = Seq::new(rows.len(), |i: int| rows[i].id);
    assert forall|i: int, j: int|
        0 <= i < ids.len() && 0 <= j < ids.len() && i != j implies ids[i] != ids[j] by {
        if i < j {
            assert(rows[i].id != rows[j].id);
        } else {
            assert(rows[j].id != rows[i].id);
        }
    }
    assert(ids.no_duplicates());
    assert forall|k: u64| map_of_rows(rows).dom().contains(k) implies #[trigger] ids.to_set().contains(
        k,
    ) by {
        let i = choose|i: int| 0 <= i < rows.len() && (#[trigger] rows[i]).id == k;
        assert(ids[i] == k);
        assert(ids.contains(k));
    }
    assert forall|k: u64| ids.to_set().contains(k) implies #[trigger] map_of_rows(
        rows,
    ).dom().contains(k) by {
        let i = choose|i: int| 0 <= i < ids.len() && ids[i] == k;
        assert(rows[i].id == k);
        assert(has_id(rows, k));
    }
    assert(map_of_rows(rows).dom() =~= ids.to_set());
    ids.unique_seq_to_set();
}

/// The record table together with its identifier counter: the single owner of
/// all record state. The counter only ever grows, and every stored record's
/// identifier lies in `1 ..= counter`, so identifiers are never reused.
pub struct RecordStore {
    records: Vec<HealthRecord>,
    id_counter: u64,
}

impl View for RecordStore {
    type V = Map<u64, RecordView>;

    closed spec fn view(&self) -> Map<u64, RecordView> {
        map_of_rows(self.rows())
    }
}

impl RecordStore {
    spec fn rows(&self) -> Seq<RecordView> {
        self.records.deep_view()
    }

    /// The last identifier handed out; the next create returns `counter() + 1`.
    pub closed spec fn counter(&self) -> u64 {
        self.id_counter
    }

    /// The store's invariant: identifiers are unique, already allocated, and
    /// every stored record is valid.
    pub closed spec fn wf(&self) -> bool {
        &&& unique_ids(self.rows())
        &&& forall|i: int| 0 <= i < self.rows().len() ==> valid_record(#[trigger] self.rows()[i])
        &&& forall|i: int|
            0 <= i < self.rows().len() ==> (#[trigger] self.rows()[i]).id <= self.id_counter
    }

    /// What well-formedness yields about the map view: every stored record
    /// sits under its own identifier, is valid, and its identifier is one the
    /// counter has already covered.
    pub proof fn lemma_wf_invariants(&self)
        requires
            self.wf(),
        ensures
            forall|id: u64| #[trigger]
                self@.contains_key(id) ==> self@[id].id == id && valid_record(self@[id]) && 1
                    <= self@[id].id <= self.counter(),
    {
        assert forall|id: u64| #[trigger] self@.contains_key(id) implies self@[id].id == id
            && valid_record(self@[id]) && 1 <= self@[id].id <= self.counter() by {
            let i = row_index(self.rows(), id);
            assert(0 <= i < self.rows().len() && self.rows()[i].id == id);
            assert(valid_record(self.rows()[i]));
        }
    }

    /// An empty store: no records, no identifier handed out yet.
    pub fn new() -> (s: Self)
        ensures
            s.wf(),
            s@ == Map::<u64, RecordView>::empty(),
            s.counter() == 0,
    {
        let s = RecordStore { records: Vec::new(), id_counter: 0 };
        proof {
            assert(s.rows() =~= Seq::<RecordView>::empty());
            assert(s@ =~= Map::<u64, RecordView>::empty());
        }
        s
    }

    /// The last identifier handed out, for callers that must check there is
    /// room left before asking for a create.
    pub fn current_counter(&self) -> (r: u64)
        ensures
            r == self.counter(),
    {
        self.id_counter
    }

    fn find_index(&self, id: u64) -> (r: Option<usize>)
        ensures
            match r {
                Some(j) => j < self.rows().len() && self.rows()[j as int].id == id,
                None => !has_id(self.rows(), id),
            },
    {
        let n = self.records.len();
        let mut i: usize = 0;
        while i < n
            invariant
                n == self.records.len(),
                0 <= i <= n,
                forall|k: int| 0 <= k < i ==> (#[trigger] self.rows()[k]).id != id,
            decreases n - i,
        {
            if self.records[i].id == id {
                return Some(i);
            }
            i = i + 1;
        }
        proof {
            if has_id(self.rows(), id) {
                let k = choose|k: int|
                    0 <= k < self.rows().len() && (#[trigger] self.rows()[k]).id == id;
                assert(self.rows()[k].id != id);
            }
        }
        None
    }

    /// Inserts `record` under its own identifier, overwriting any record that
    /// already sits there. The identifier must have been allocated already.
    pub fn do_insert_health_record(&mut self, record: &HealthRecord)
        requires
            old(self).wf(),
            valid_record(record@),
            record@.id <= old(self).counter(),
        ensures
            final(self).wf(),
            final(self).counter() == old(self).counter(),
            final(self)@ == old(self)@.insert(record.id, record@),
    {
        let ghost rows0 = self.rows();
        match self.find_index(record.id) {
            Some(j) => {
                self.records.set(j, record.clone());
                proof {
                    assert(self.rows() =~= rows0.update(j as int, record@));
                    lemma_map_of_update(rows0, j as int, record@);
                    assert forall|i: int|
                        0 <= i < self.rows().len() implies valid_record(#[trigger] self.rows()[i])
                        && self.rows()[i].id <= self.id_counter by {
                        if i != j {
                            assert(self.rows()[i] == rows0[i]);
                        }
                    }
                }
            },
            None => {
                self.records.push(record.clone());
                proof {
                    assert(self.rows() =~= rows0.push(record@));
                    lemma_map_of_push(rows0, record@);
                    assert forall|i: int|
                        0 <= i < self.rows().len() implies valid_record(#[trigger] self.rows()[i])
                        && self.rows()[i].id <= self.id_counter by {
                        if i < rows0.len() {
                            assert(self.rows()[i] == rows0[i]);
                        } else {
                            assert(self.rows()[i] == record@);
                        }
                    }
                }
            },
        }
    }

    /// Creates a record from a valid payload: allocates the next identifier,
    /// stamps the caller as owner and `now` as creation time, and persists the
    /// record. A rejected payload consumes no identifier and changes nothing.
    pub fn add_health_record(&mut self, payload: PatientUpdatePayload, caller: String, now: u64) -> (r:
        Result<HealthRecord, Error>)
        requires
            old(self).wf(),
            old(self).counter() < u64::MAX,
            caller@.len() > 0,
        ensures
            final(self).wf(),
            !payload_valid(payload@) ==> *final(self) == *old(self) && r == Err::<
                HealthRecord,
                Error,
            >((Error::InputValidationFailed { field: first_invalid_field(payload@) })),
            payload_valid(payload@) ==> ({
                let id = (old(self).counter() + 1) as u64;
                let rec = created_record(id, payload@, caller@, now);
                &&& final(self).counter() == id
                &&& !old(self)@.contains_key(id)
                &&& final(self)@ == old(self)@.insert(id, rec)
                &&& (r matches Ok(hr) && hr@ == rec)
            }),
    {
        let ghost p = payload@;
        let ghost who = caller@;
        if let Err(e) = is_payload_valid(&payload) {
            return Err(e);
        }
        let id = self.id_counter + 1;
        self.id_counter = id;
        let record = HealthRecord {
            id,
            doctor_principal: caller,
            patient_name: payload.patient_name,
            age: payload.age,
            symptoms: payload.symptoms,
            diagnosis: payload.diagnosis,
            medications: payload.medications,
            medication_history: Vec::new(),
            monitoring_data: payload.monitoring_data,
            created_at: now,
            updated_at: None,
        };
        proof {
            assert(record.medication_history.deep_view() =~= Seq::<Seq<char>>::empty());
            assert(record@ == created_record(id, p, who, now));
            if has_id(self.rows(), id) {
                let k = row_index(self.rows(), id);
                assert(0 <= k < self.rows().len() && self.rows()[k].id == id);
            }
            assert(!old(self)@.contains_key(id));
        }
        self.do_insert_health_record(&record);
        Ok(record)
    }

    /// Looks a record up by identifier.
    pub fn _get_health_record(&self, id: &u64) -> (r: Option<HealthRecord>)
        requires
            self.wf(),
        ensures
            self@.contains_key(*id) ==> (r matches Some(hr) && hr@ == self@[*id]),
            !self@.contains_key(*id) ==> r is None,
    {
        match self.find_index(*id) {
            Some(j) => {
                proof {
                    lemma_row_index_of(self.rows(), j as int);
                }
                Some(self.records[j].clone())
            },
            None => None,
        }
    }

    /// Looks a record up by identifier; absent ids are reported as `NotFound`.
    pub fn get_health_record(&self, id: u64) -> (r: Result<HealthRecord, Error>)
        requires
            self.wf(),
        ensures
            self@.contains_key(id) ==> (r matches Ok(hr) && hr@ == self@[id]),
            !self@.contains_key(id) ==> r == Err::<HealthRecord, Error>((Error::NotFound { id })),
    {
        match self._get_health_record(&id) {
            Some(record) => Ok(record),
            None => Err(Error::NotFound { id }),
        }
    }

    /// Overwrites the clinical fields of the record under `id` from a valid
    /// payload and stamps `updated_at = now`; the caller's clock must not lie
    /// before the record's creation time, so that `updated_at >= created_at`
    /// stays true. Absence is reported before
    /// ownership, and ownership before payload validity, so a non-owner
    /// learns nothing about the payload's fate.
    pub fn update_health_record(
        &mut self,
        id: u64,
        payload: PatientUpdatePayload,
        caller: &String,
        now: u64,
    ) -> (r: Result<HealthRecord, Error>)
        requires
            old(self).wf(),
            old(self)@.contains_key(id) ==> now >= old(self)@[id].created_at,
        ensures
            final(self).wf(),
            final(self).counter() == old(self).counter(),
            !old(self)@.contains_key(id) ==> *final(self) == *old(self) && r == Err::<
                HealthRecord,
                Error,
            >((Error::NotFound { id })),
            old(self)@.contains_key(id) && old(self)@[id].doctor_principal != caller@ ==> *final(self) == *old(self) && r == Err::<HealthRecord, Error>(Error::NotDoctor),
            old(self)@.contains_key(id) && old(self)@[id].doctor_principal == caller@
                && !payload_valid(payload@) ==> *final(self) == *old(self) && r == Err::<
                HealthRecord,
                Error,
            >((Error::InputValidationFailed { field: first_invalid_field(payload@) })),
            old(self)@.contains_key(id) && old(self)@[id].doctor_principal == caller@
                && payload_valid(payload@) ==> ({
                let rec = updated_record(old(self)@[id], payload@, now);
                &&& final(self)@ == old(self)@.insert(id, rec)
                &&& (r matches Ok(hr) && hr@ == rec)
            }),
    {
        let ghost p = payload@;
        match self.find_index(id) {
            None => {
                proof {
                    if old(self)@.contains_key(id) {
                        assert(has_id(self.rows(), id));
                    }
                }
                Err(Error::NotFound { id })
            },
            Some(j) => {
                proof {
                    lemma_row_index_of(self.rows(), j as int);
                }
                if let Err(e) = is_record_doctor(&self.records[j], caller) {
                    return Err(e);
                }
                if let Err(e) = is_payload_valid(&payload) {
                    return Err(e);
                }
                let mut record = self.records[j].clone();
                record.patient_name = payload.patient_name;
                record.age = payload.age;
                record.symptoms = payload.symptoms;
                record.diagnosis = payload.diagnosis;
                record.medications = payload.medications;
                record.monitoring_data = payload.monitoring_data;
                record.updated_at = Some(now);
                proof {
                    assert(record@ == updated_record(old(self)@[id], p, now));
                }
                self.do_insert_health_record(&record);
                Ok(record)
            },
        }
    }

    /// Removes the record under `id` and returns its final state. Only the
    /// owner may delete; the identifier is never handed out again afterwards.
    pub fn delete_health_record(&mut self, id: u64, caller: &String) -> (r: Result<
        HealthRecord,
        Error,
    >)
        requires
            old(self).wf(),
        ensures
            final(self).wf(),
            final(self).counter() == old(self).counter(),
            !old(self)@.contains_key(id) ==> *final(self) == *old(self) && r == Err::<
                HealthRecord,
                Error,
            >((Error::NotFound { id })),
            old(self)@.contains_key(id) && old(self)@[id].doctor_principal != caller@ ==> *final(self) == *old(self) && r == Err::<HealthRecord, Error>(Error::NotDoctor),
            old(self)@.contains_key(id) && old(self)@[id].doctor_principal == caller@ ==> final(self)@ == old(self)@.remove(id) && (r matches Ok(hr) && hr@ == old(self)@[id]),
    {
        let ghost rows0 = self.rows();
        match self.find_index(id) {
            None => {
                proof {
                    if old(self)@.contains_key(id) {
                        assert(has_id(self.rows(), id));
                    }
                }
                Err(Error::NotFound { id })
            },
            Some(j) => {
                proof {
                    lemma_row_index_of(self.rows(), j as int);
                }
                if let Err(e) = is_record_doctor(&self.records[j], caller) {
                    return Err(e);
                }
                let record = self.records.remove(j);
                proof {
                    assert(self.rows() =~= rows0.remove(j as int));
                    lemma_map_of_remove(rows0, j as int);
                    assert forall|i: int|
                        0 <= i < self.rows().len() implies valid_record(#[trigger] self.rows()[i])
                        && self.rows()[i].id <= self.id_counter by {
                        let i0 = if i < j { i } else { i + 1 };
                        assert(self.rows()[i] == rows0[i0]);
                    }
                }
                Ok(record)
            },
        }
    }

    /// Every record in the store, one entry per identifier, in no promised
    /// order.
    pub fn get_all_health_records(&self) -> (r: Vec<HealthRecord>)
        requires
            self.wf(),
        ensures
            r@.len() == self@.len(),
            forall|i: int|
                0 <= i < r@.len() ==> self@.contains_key((#[trigger] r@[i])@.id) && self@[r@[i]@.id]
                    == r@[i]@,
            forall|i: int, j: int| 0 <= i < j < r@.len() ==> r@[i]@.id != r@[j]@.id,
    {
        let n = self.records.len();
        let mut out: Vec<HealthRecord> = Vec::new();
        let mut i: usize = 0;
        while i < n
            invariant
                n == self.records.len(),
                0 <= i <= n,
                out@.len() == i,
                forall|k: int| 0 <= k < i ==> (#[trigger] out@[k])@ == self.rows()[k],
            decreases n - i,
        {
            let next = self.records[i].clone();
            proof {
                assert(next@ == self.rows()[i as int]);
            }
            out.push(next);
            i = i + 1;
        }
        proof {
            lemma_map_of_rows_len(self.rows());
            assert forall|k: int|
                0 <= k < out@.len() implies self@.contains_key((#[trigger] out@[k])@.id)
                && self@[out@[k]@.id] == out@[k]@ by {
                lemma_row_index_of(self.rows(), k);
            }
            assert forall|k: int, l: int| 0 <= k < l < out@.len() implies out@[k]@.id
                != out@[l]@.id by {
                assert(self.rows()[k].id != self.rows()[l].id);
            }
        }
        out
    }

    /// Validates `medication`, then appends it to the history of the record
    /// under `id`, owner only. `updated_at` is deliberately not touched:
    /// medication tracking is a separate mutation channel.
    pub fn add_medication_record(&mut self, id: u64, medication: String, caller: &String) -> (r:
        Result<(), Error>)
        requires
            old(self).wf(),
        ensures
            final(self).wf(),
            final(self).counter() == old(self).counter(),
            is_blank(medication@) ==> *final(self) == *old(self) && r == Err::<(), Error>(
                (Error::InputValidationFailed { field: FieldName::Medication }),
            ),
            !is_blank(medication@) && !old(self)@.contains_key(id) ==> *final(self) == *old(self)
                && r == Err::<(), Error>((Error::NotFound { id })),
            !is_blank(medication@) && old(self)@.contains_key(id)
                && old(self)@[id].doctor_principal != caller@ ==> *final(self) == *old(self) && r
                == Err::<(), Error>(Error::NotDoctor),
            !is_blank(medication@) && old(self)@.contains_key(id)
                && old(self)@[id].doctor_principal == caller@ ==> final(self)@ == old(self)@.insert(id, with_medication(old(self)@[id], medication@)) && r == Ok::<(), Error>(()),
    {
        let ghost m = medication@;
        if is_invalid_string(&medication) {
            return Err(Error::InputValidationFailed { field: FieldName::Medication });
        }
        match self.find_index(id) {
            None => {
                proof {
                    if old(self)@.contains_key(id) {
                        assert(has_id(self.rows(), id));
                    }
                }
                Err(Error::NotFound { id })
            },
            Some(j) => {
                proof {
                    lemma_row_index_of(self.rows(), j as int);
                }
                if let Err(e) = is_record_doctor(&self.records[j], caller) {
                    return Err(e);
                }
                let mut record = self.records[j].clone();
                record.track_medication(medication);
                proof {
                    assert(record@ == with_medication(old(self)@[id], m));
                }
                self.do_insert_health_record(&record);
                Ok(())
            },
        }
    }

    /// The medication history of the record under `id`, in tracking order.
    pub fn get_medication_history(&self, id: u64) -> (r: Result<Vec<String>, Error>)
        requires
            self.wf(),
        ensures
            self@.contains_key(id) ==> (r matches Ok(h) && h.deep_view()
                == self@[id].medication_history),
            !self@.contains_key(id) ==> r == Err::<Vec<String>, Error>((Error::NotFound { id })),
    {
        match self._get_health_record(&id) {
            Some(record) => Ok(record.medication_history),
            None => Err(Error::NotFound { id }),
        }
    }

    /// How many records the store holds.
    pub fn get_total_health_records(&self) -> (r: u64)
        requires
            self.wf(),
        ensures
            r as nat == self@.len(),
    {
        proof {
            lemma_map_of_rows_len(self.rows());
        }
        self.records.len() as u64
    }

    /// Whether a record exists under `id`.
    pub fn health_record_exists(&self, id: u64) -> (r: bool)
        ensures
            r == self@.contains_key(id),
    {
        match self.find_index(id) {
            Some(j) => {
                proof {
                    assert(has_id(self.rows(), id));
                }
                true
            },
            None => false,
        }
    }

    /// The time of the record's latest activity: `updated_at` when set, the
    /// creation time otherwise.
    pub fn get_latest_health_record_by_update_time(&self, id: u64) -> (r: Result<u64, Error>)
        requires
            self.wf(),
        ensures
            self@.contains_key(id) ==> r == Ok::<u64, Error>(
                match self@[id].updated_at {
                    Some(t) => t,
                    None => self@[id].created_at,
                },
            ),
            !self@.contains_key(id) ==> r == Err::<u64, Error>((Error::NotFound { id })),
    {
        match self._get_health_record(&id) {
            Some(record) => Ok(
                match record.updated_at {
                    Some(t) => t,
                    None => record.created_at,
                },
            ),
            None => Err(Error::NotFound { id }),
        }
    }

    /// Renders the fixed-template report for the record under `id`; the text
    /// is a function of the record's current field values alone.
    pub fn generate_health_report(&self, id: u64) -> (r: Result<String, Error>)
        requires
            self.wf(),
        ensures
            self@.contains_key(id) ==> (r matches Ok(text) && text@ == report_of(self@[id])),
            !self@.contains_key(id) ==> r == Err::<String, Error>((Error::GenerateFailed { id })),
    {
        match self._get_health_record(&id) {
            Some(record) => Ok(render_report(&record)),
            None => Err(Error::GenerateFailed { id }),
        }
    }
}

/// Succeeds exactly when `caller` is the identity that created the record.
pub fn is_record_doctor(record: &HealthRecord, caller: &String) -> (r: Result<(), Error>)
    ensures
        record@.doctor_principal == caller@ ==> r == Ok::<(), Error>(()),
        record@.doctor_principal != caller@ ==> r == Err::<(), Error>(Error::NotDoctor),
{
    if record.doctor_principal == *caller {
        Ok(())
    } else {
        Err(Error::NotDoctor)
    }
}

} // verus!
