use health_records::store::RecordStore;
use health_records::types::{Error, FieldName, HealthRecord, PatientUpdatePayload};

fn payload(
    patient_name: &str,
    age: u32,
    symptoms: &str,
    diagnosis: &str,
    medications: &str,
    monitoring_data: &str,
) -> PatientUpdatePayload {
    PatientUpdatePayload {
        patient_name: patient_name.to_string(),
        age,
        symptoms: symptoms.to_string(),
        diagnosis: diagnosis.to_string(),
        medications: medications.to_string(),
        monitoring_data: monitoring_data.to_string(),
    }
}

fn jane() -> PatientUpdatePayload {
    payload("Jane Doe", 30, "cough", "flu", "paracetamol", "stable")
}

fn assert_records_equal(a: &HealthRecord, b: &HealthRecord) {
    assert_eq!(a.id, b.id);
    assert_eq!(a.doctor_principal, b.doctor_principal);
    assert_eq!(a.patient_name, b.patient_name);
    assert_eq!(a.age, b.age);
    assert_eq!(a.symptoms, b.symptoms);
    assert_eq!(a.diagnosis, b.diagnosis);
    assert_eq!(a.medications, b.medications);
    assert_eq!(a.medication_history, b.medication_history);
    assert_eq!(a.monitoring_data, b.monitoring_data);
    assert_eq!(a.created_at, b.created_at);
    assert_eq!(a.updated_at, b.updated_at);
}

#[test]
fn create_then_read_returns_equal_record() {
    let mut s = RecordStore::new();
    let created = s
        .add_health_record(jane(), "doctor-a".to_string(), 100)
        .unwrap();
    let read = s.get_health_record(created.id).unwrap();
    assert_records_equal(&created, &read);
    assert_eq!(created.id, 1);
    assert_eq!(created.doctor_principal, "doctor-a");
    assert_eq!(created.created_at, 100);
    assert_eq!(created.updated_at, None);
    assert!(created.medication_history.is_empty());
}

#[test]
fn ids_are_never_reused_after_delete() {
    let mut s = RecordStore::new();
    let caller = "doctor-a".to_string();
    let first = s.add_health_record(jane(), caller.clone(), 100).unwrap();
    assert_eq!(first.id, 1);
    s.delete_health_record(1, &caller).unwrap();
    let second = s.add_health_record(jane(), caller.clone(), 200).unwrap();
    assert_eq!(second.id, 2);
    let third = s.add_health_record(jane(), caller, 300).unwrap();
    assert_eq!(third.id, 3);
    assert_eq!(s.current_counter(), 3);
}

#[test]
fn update_nonexistent_is_not_found() {
    let mut s = RecordStore::new();
    let caller = "doctor-a".to_string();
    let r = s.update_health_record(7, jane(), &caller, 100);
    assert_eq!(r.unwrap_err(), Error::NotFound { id: 7 });
}

#[test]
fn update_by_non_owner_is_not_doctor_even_with_invalid_payload() {
    let mut s = RecordStore::new();
    s.add_health_record(jane(), "doctor-a".to_string(), 100)
        .unwrap();
    let intruder = "doctor-b".to_string();
    let invalid = payload("Jane Doe", 30, "cough", "   ", "paracetamol", "stable");
    let r = s.update_health_record(1, invalid, &intruder, 200);
    assert_eq!(r.unwrap_err(), Error::NotDoctor);
}

#[test]
fn update_by_owner_with_invalid_payload_is_validation_error() {
    let mut s = RecordStore::new();
    let caller = "doctor-a".to_string();
    s.add_health_record(jane(), caller.clone(), 100).unwrap();
    let invalid = payload("Jane Doe", 30, "cough", "   ", "paracetamol", "stable");
    let r = s.update_health_record(1, invalid, &caller, 200);
    assert_eq!(
        r.unwrap_err(),
        Error::InputValidationFailed {
            field: FieldName::Diagnosis
        }
    );
    let unchanged = s.get_health_record(1).unwrap();
    assert_eq!(unchanged.diagnosis, "flu");
    assert_eq!(unchanged.updated_at, None);
}

#[test]
fn update_overwrites_fields_and_stamps_updated_at() {
    let mut s = RecordStore::new();
    let caller = "doctor-a".to_string();
    s.add_health_record(jane(), caller.clone(), 100).unwrap();
    let updated = s
        .update_health_record(
            1,
            payload("Jane Doe", 31, "fever", "cold", "rest", "improving"),
            &caller,
            250,
        )
        .unwrap();
    assert_eq!(updated.age, 31);
    assert_eq!(updated.symptoms, "fever");
    assert_eq!(updated.diagnosis, "cold");
    assert_eq!(updated.medications, "rest");
    assert_eq!(updated.monitoring_data, "improving");
    assert_eq!(updated.updated_at, Some(250));
    assert_eq!(updated.created_at, 100);
    assert_eq!(updated.doctor_principal, "doctor-a");
    assert_eq!(updated.id, 1);
    let read = s.get_health_record(1).unwrap();
    assert_records_equal(&updated, &read);
}

#[test]
fn delete_is_irreversible() {
    let mut s = RecordStore::new();
    let caller = "doctor-a".to_string();
    let created = s.add_health_record(jane(), caller.clone(), 100).unwrap();
    let deleted = s.delete_health_record(1, &caller).unwrap();
    assert_records_equal(&created, &deleted);
    assert!(!s.health_record_exists(1));
    assert_eq!(
        s.get_health_record(1).unwrap_err(),
        Error::NotFound { id: 1 }
    );
    assert_eq!(
        s.delete_health_record(1, &caller).unwrap_err(),
        Error::NotFound { id: 1 }
    );
    assert_eq!(s.get_total_health_records(), 0);
}

#[test]
fn delete_by_non_owner_is_not_doctor() {
    let mut s = RecordStore::new();
    s.add_health_record(jane(), "doctor-a".to_string(), 100)
        .unwrap();
    let intruder = "doctor-b".to_string();
    assert_eq!(
        s.delete_health_record(1, &intruder).unwrap_err(),
        Error::NotDoctor
    );
    assert!(s.health_record_exists(1));
}

#[test]
fn medication_history_is_append_only_and_ordered() {
    let mut s = RecordStore::new();
    let caller = "doctor-a".to_string();
    s.add_health_record(jane(), caller.clone(), 100).unwrap();
    let before = s.get_health_record(1).unwrap().updated_at;
    s.add_medication_record(1, "ibuprofen".to_string(), &caller)
        .unwrap();
    s.add_medication_record(1, "aspirin".to_string(), &caller)
        .unwrap();
    s.add_medication_record(1, "vitamin c".to_string(), &caller)
        .unwrap();
    let history = s.get_medication_history(1).unwrap();
    assert_eq!(history, vec!["ibuprofen", "aspirin", "vitamin c"]);
    assert_eq!(s.get_health_record(1).unwrap().updated_at, before);
}

#[test]
fn medication_tracking_does_not_touch_updated_at_after_update() {
    let mut s = RecordStore::new();
    let caller = "doctor-a".to_string();
    s.add_health_record(jane(), caller.clone(), 100).unwrap();
    s.update_health_record(1, jane(), &caller, 200).unwrap();
    s.add_medication_record(1, "ibuprofen".to_string(), &caller)
        .unwrap();
    assert_eq!(s.get_health_record(1).unwrap().updated_at, Some(200));
}

#[test]
fn blank_medication_is_validation_error() {
    let mut s = RecordStore::new();
    let caller = "doctor-a".to_string();
    s.add_health_record(jane(), caller.clone(), 100).unwrap();
    assert_eq!(
        s.add_medication_record(1, "  \t".to_string(), &caller)
            .unwrap_err(),
        Error::InputValidationFailed {
            field: FieldName::Medication
        }
    );
    assert!(s.get_medication_history(1).unwrap().is_empty());
}

#[test]
fn medication_on_missing_record_is_not_found() {
    let mut s = RecordStore::new();
    let caller = "doctor-a".to_string();
    assert_eq!(
        s.add_medication_record(9, "ibuprofen".to_string(), &caller)
            .unwrap_err(),
        Error::NotFound { id: 9 }
    );
}

#[test]
fn medication_by_non_owner_is_not_doctor() {
    let mut s = RecordStore::new();
    s.add_health_record(jane(), "doctor-a".to_string(), 100)
        .unwrap();
    let intruder = "doctor-b".to_string();
    assert_eq!(
        s.add_medication_record(1, "ibuprofen".to_string(), &intruder)
            .unwrap_err(),
        Error::NotDoctor
    );
    assert!(s.get_medication_history(1).unwrap().is_empty());
}

#[test]
fn medication_history_of_missing_record_is_not_found() {
    let s = RecordStore::new();
    assert_eq!(
        s.get_medication_history(4).unwrap_err(),
        Error::NotFound { id: 4 }
    );
}

#[test]
fn report_is_deterministic_and_exact() {
    let mut s = RecordStore::new();
    s.add_health_record(jane(), "doctor-a".to_string(), 100)
        .unwrap();
    let first = s.generate_health_report(1).unwrap();
    let second = s.generate_health_report(1).unwrap();
    assert_eq!(first, second);
    assert_eq!(
        first,
        "Health Report for Patient Jane Doe (ID: 1)\nAge: 30\nSymptoms: cough\nDiagnosis: flu\nMedications: paracetamol\nMonitoring Data: stable"
    );
}

#[test]
fn report_on_missing_record_is_generate_failed() {
    let s = RecordStore::new();
    assert_eq!(
        s.generate_health_report(3).unwrap_err(),
        Error::GenerateFailed { id: 3 }
    );
}

#[test]
fn blank_diagnosis_is_rejected_and_consumes_no_id() {
    let mut s = RecordStore::new();
    let invalid = payload("Jane Doe", 30, "cough", "   ", "paracetamol", "stable");
    let r = s.add_health_record(invalid, "doctor-a".to_string(), 100);
    assert_eq!(
        r.unwrap_err(),
        Error::InputValidationFailed {
            field: FieldName::Diagnosis
        }
    );
    assert_eq!(s.get_total_health_records(), 0);
    let accepted = s
        .add_health_record(jane(), "doctor-a".to_string(), 200)
        .unwrap();
    assert_eq!(accepted.id, 1);
}

#[test]
fn validation_reports_first_blank_field_in_fixed_order() {
    let mut s = RecordStore::new();
    let all_blank = payload("", 30, "", "", "", "");
    let r = s.add_health_record(all_blank, "doctor-a".to_string(), 100);
    assert_eq!(
        r.unwrap_err(),
        Error::InputValidationFailed {
            field: FieldName::Diagnosis
        }
    );
    let blank_name = payload(" ", 30, "cough", "flu", "paracetamol", "stable");
    let r = s.add_health_record(blank_name, "doctor-a".to_string(), 100);
    assert_eq!(
        r.unwrap_err(),
        Error::InputValidationFailed {
            field: FieldName::PatientName
        }
    );
}

#[test]
fn latest_activity_is_created_then_updated_time() {
    let mut s = RecordStore::new();
    let caller = "doctor-a".to_string();
    s.add_health_record(jane(), caller.clone(), 100).unwrap();
    assert_eq!(s.get_latest_health_record_by_update_time(1).unwrap(), 100);
    s.update_health_record(1, jane(), &caller, 350).unwrap();
    assert_eq!(s.get_latest_health_record_by_update_time(1).unwrap(), 350);
    assert_eq!(
        s.get_latest_health_record_by_update_time(2).unwrap_err(),
        Error::NotFound { id: 2 }
    );
}

#[test]
fn count_exists_and_list_all_reflect_contents() {
    let mut s = RecordStore::new();
    let caller = "doctor-a".to_string();
    assert_eq!(s.get_total_health_records(), 0);
    assert!(s.get_all_health_records().is_empty());
    s.add_health_record(jane(), caller.clone(), 100).unwrap();
    s.add_health_record(
        payload("John Roe", 44, "ache", "sprain", "ice", "steady"),
        caller.clone(),
        150,
    )
    .unwrap();
    assert_eq!(s.get_total_health_records(), 2);
    assert!(s.health_record_exists(1));
    assert!(s.health_record_exists(2));
    assert!(!s.health_record_exists(3));
    let all = s.get_all_health_records();
    assert_eq!(all.len(), 2);
    let mut ids: Vec<u64> = all.iter().map(|r| r.id).collect();
    ids.sort();
    assert_eq!(ids, vec![1, 2]);
}

#[test]
fn full_lifecycle_scenario() {
    let mut s = RecordStore::new();
    let a = "identity-a".to_string();
    let b = "identity-b".to_string();

    let created = s.add_health_record(jane(), a.clone(), 100).unwrap();
    assert_eq!(created.id, 1);
    assert!(created.medication_history.is_empty());
    assert_eq!(created.updated_at, None);

    let older = payload("Jane Doe", 31, "cough", "flu", "paracetamol", "stable");
    assert_eq!(
        s.update_health_record(1, older, &b, 200).unwrap_err(),
        Error::NotDoctor
    );

    let older = payload("Jane Doe", 31, "cough", "flu", "paracetamol", "stable");
    let updated = s.update_health_record(1, older, &a, 200).unwrap();
    assert_eq!(updated.age, 31);
    assert_eq!(updated.updated_at, Some(200));

    s.add_medication_record(1, "ibuprofen".to_string(), &a)
        .unwrap();
    assert_eq!(s.get_medication_history(1).unwrap(), vec!["ibuprofen"]);
    assert_eq!(s.get_health_record(1).unwrap().updated_at, Some(200));

    assert_eq!(s.delete_health_record(1, &b).unwrap_err(), Error::NotDoctor);
    let deleted = s.delete_health_record(1, &a).unwrap();
    assert_eq!(deleted.id, 1);
    assert_eq!(
        s.get_health_record(1).unwrap_err(),
        Error::NotFound { id: 1 }
    );
    assert!(!s.health_record_exists(1));
}
