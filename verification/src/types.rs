//! Core data types: health records, update payloads, and the error taxonomy.

use vstd::prelude::*;
use crate::validation::is_blank;

verus! {

/// Names the input field that a validation failure is about.
#[derive(Clone, Copy, Debug, PartialEq, Eq, Structural)]
pub enum FieldName {
    PatientName,
    Symptoms,
    Diagnosis,
    Medications,
    MonitoringData,
    Medication,
}

/// Every failure a store operation can report, with enough context
/// (the id, or the offending field) for a boundary layer to render a message.
#[derive(Clone, Copy, Debug, PartialEq, Eq, Structural)]
pub enum Error {
    NotFound { id: u64 },
    NotDoctor,
    GenerateFailed { id: u64 },
    InputValidationFailed { field: FieldName },
}

/// Mathematical image of a [`HealthRecord`]: every string as a sequence of
/// characters. Contracts throughout the crate speak of this view.
pub ghost struct RecordView {
    pub id: u64,
    pub doctor_principal: Seq<char>,
    pub patient_name: Seq<char>,
    pub age: u32,
    pub symptoms: Seq<char>,
    pub diagnosis: Seq<char>,
    pub medications: Seq<char>,
    pub medication_history: Seq<Seq<char>>,
    pub monitoring_data: Seq<char>,
    pub created_at: u64,
    pub updated_at: Option<u64>,
}

/// One patient health record. `id`, `doctor_principal` and `created_at` are
/// fixed at creation; the clinical fields change through updates; the
/// medication history only ever grows.
#[derive(Debug)]
pub struct HealthRecord {
    pub id: u64,
    pub doctor_principal: String,
    pub patient_name: String,
    pub age: u32,
    pub symptoms: String,
    pub diagnosis: String,
    pub medications: String,
    pub medication_history: Vec<String>,
    pub monitoring_data: String,
    pub created_at: u64,
    pub updated_at: Option<u64>,
}

impl View for HealthRecord {
    type V = RecordView;

    open spec fn view(&self) -> RecordView {
        RecordView {
            id: self.id,
            doctor_principal: self.doctor_principal@,
            patient_name: self.patient_name@,
            age: self.age,
            symptoms: self.symptoms@,
            diagnosis: self.diagnosis@,
            medications: self.medications@,
            medication_history: self.medication_history.deep_view(),
            monitoring_data: self.monitoring_data@,
            created_at: self.created_at,
            updated_at: self.updated_at,
        }
    }
}

impl DeepView for HealthRecord {
    type V = RecordView;

    open spec fn deep_view(&self) -> RecordView {
        self@
    }
}

impl Clone for HealthRecord {
    fn clone(&self) -> (r: Self)
        ensures
            r@ == self@,
    {
        let medication_history = self.medication_history.clone();
        proof {
            assert forall|i: int|
                0 <= i < self.medication_history@.len() implies medication_history.deep_view()[i]
                == self.medication_history.deep_view()[i] by {
                assert(cloned::<String>(self.medication_history[i], medication_history[i]));
            }
            assert(medication_history.deep_view() =~= self.medication_history.deep_view());
        }
        HealthRecord {
            id: self.id,
            doctor_principal: self.doctor_principal.clone(),
            patient_name: self.patient_name.clone(),
            age: self.age,
            symptoms: self.symptoms.clone(),
            diagnosis: self.diagnosis.clone(),
            medications: self.medications.clone(),
            medication_history,
            monitoring_data: self.monitoring_data.clone(),
            created_at: self.created_at,
            updated_at: self.updated_at,
        }
    }
}

/// `r` after appending one medication entry: the history grows by one at the
/// end and every other field, `updated_at` included, is untouched.
pub open spec fn with_medication(r: RecordView, medication: Seq<char>) -> RecordView {
    RecordView {
        id: r.id,
        doctor_principal: r.doctor_principal,
        patient_name: r.patient_name,
        age: r.age,
        symptoms: r.symptoms,
        diagnosis: r.diagnosis,
        medications: r.medications,
        medication_history: r.medication_history.push(medication),
        monitoring_data: r.monitoring_data,
        created_at: r.created_at,
        updated_at: r.updated_at,
    }
}

impl HealthRecord {
    /// Appends one entry to the medication history; no other field changes.
    pub fn track_medication(&mut self, medication: String)
        ensures
            final(self)@ == with_medication(old(self)@, medication@),
    {
        let ghost m = medication@;
        self.medication_history.push(medication);
        proof {
            assert(self.medication_history.deep_view() =~= old(self).medication_history.deep_view().push(m));
        }
    }
}

/// Mathematical image of a [`PatientUpdatePayload`].
pub ghost struct PayloadView {
    pub patient_name: Seq<char>,
    pub age: u32,
    pub symptoms: Seq<char>,
    pub diagnosis: Seq<char>,
    pub medications: Seq<char>,
    pub monitoring_data: Seq<char>,
}

/// The caller-supplied clinical fields for a create or update; never stored
/// as such, always folded into a [`HealthRecord`].
#[derive(Debug)]
pub struct PatientUpdatePayload {
    pub patient_name: String,
    pub age: u32,
    pub symptoms: String,
    pub diagnosis: String,
    pub medications: String,
    pub monitoring_data: String,
}

impl View for PatientUpdatePayload {
    type V = PayloadView;

    open spec fn view(&self) -> PayloadView {
        PayloadView {
            patient_name: self.patient_name@,
            age: self.age,
            symptoms: self.symptoms@,
            diagnosis: self.diagnosis@,
            medications: self.medications@,
            monitoring_data: self.monitoring_data@,
        }
    }
}

/// The record a successful create persists: the payload's clinical fields,
/// the caller as owner, a fresh id, an empty history, and no update yet.
pub open spec fn created_record(id: u64, p: PayloadView, caller: Seq<char>, now: u64) -> RecordView {
    RecordView {
        id: id,
        doctor_principal: caller,
        patient_name: p.patient_name,
        age: p.age,
        symptoms: p.symptoms,
        diagnosis: p.diagnosis,
        medications: p.medications,
        medication_history: Seq::empty(),
        monitoring_data: p.monitoring_data,
        created_at: now,
        updated_at: None,
    }
}

/// The record a successful update persists: the payload's clinical fields
/// over `r`, with `updated_at` stamped; id, owner, creation time and the
/// medication history are untouched.
pub open spec fn updated_record(r: RecordView, p: PayloadView, now: u64) -> RecordView {
    RecordView {
        id: r.id,
        doctor_principal: r.doctor_principal,
        patient_name: p.patient_name,
        age: p.age,
        symptoms: p.symptoms,
        diagnosis: p.diagnosis,
        medications: p.medications,
        medication_history: r.medication_history,
        monitoring_data: p.monitoring_data,
        created_at: r.created_at,
        updated_at: Some(now),
    }
}

/// What every persisted record satisfies: an allocated id, a non-empty owner
/// identity, validated clinical fields, and an update stamp no earlier than
/// the creation stamp.
pub open spec fn valid_record(r: RecordView) -> bool {
    &&& 1 <= r.id
    &&& r.doctor_principal.len() > 0
    &&& !is_blank(r.patient_name)
    &&& !is_blank(r.symptoms)
    &&& !is_blank(r.diagnosis)
    &&& !is_blank(r.medications)
    &&& !is_blank(r.monitoring_data)
    &&& match r.updated_at {
        Some(t) => t >= r.created_at,
        None => true,
    }
}

} // verus!
