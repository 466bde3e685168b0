use health_records::types::{Error, FieldName, PatientUpdatePayload};
use health_records::validation::{is_invalid_string, is_payload_valid};

#[test]
fn empty_and_whitespace_strings_are_invalid() {
    assert!(is_invalid_string(&String::new()));
    assert!(is_invalid_string(&"   ".to_string()));
    assert!(is_invalid_string(&" \t\r\n ".to_string()));
    assert!(is_invalid_string(&"\u{2003}\u{00A0}".to_string()));
}

#[test]
fn strings_with_content_are_valid() {
    assert!(!is_invalid_string(&"flu".to_string()));
    assert!(!is_invalid_string(&"  a  ".to_string()));
    assert!(!is_invalid_string(&"0".to_string()));
}

#[test]
fn payload_validation_checks_fields_in_fixed_order() {
    let mut p = PatientUpdatePayload {
        patient_name: "Jane Doe".to_string(),
        age: 30,
        symptoms: "cough".to_string(),
        diagnosis: "flu".to_string(),
        medications: "paracetamol".to_string(),
        monitoring_data: "stable".to_string(),
    };
    assert_eq!(is_payload_valid(&p), Ok(()));

    p.medications = " ".to_string();
    p.symptoms = " ".to_string();
    assert_eq!(
        is_payload_valid(&p),
        Err(Error::InputValidationFailed {
            field: FieldName::Medications
        })
    );

    p.medications = "paracetamol".to_string();
    assert_eq!(
        is_payload_valid(&p),
        Err(Error::InputValidationFailed {
            field: FieldName::Symptoms
        })
    );
}
