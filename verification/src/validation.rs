//! Field validation: a clinical text field is rejected when it is empty or
//! holds nothing but whitespace.

use vstd::prelude::*;
use vstd::string::StrSliceExecFns;
use crate::types::{Error, FieldName, PatientUpdatePayload, PayloadView};

verus! {

/// A character of the Unicode `White_Space` set, the characters that
/// trimming a string removes at either end.
pub open spec fn is_whitespace_char(c: char) -> bool {
    ||| c as u32 == 0x09
    ||| c as u32 == 0x0A
    ||| c as u32 == 0x0B
    ||| c as u32 == 0x0C
    ||| c as u32 == 0x0D
    ||| c as u32 == 0x20
    ||| c as u32 == 0x85
    ||| c as u32 == 0xA0
    ||| c as u32 == 0x1680
    ||| (0x2000 <= c as u32 && c as u32 <= 0x200A)
    ||| c as u32 == 0x2028
    ||| c as u32 == 0x2029
    ||| c as u32 == 0x202F
    ||| c as u32 == 0x205F
    ||| c as u32 == 0x3000
}

/// A string whose trimmed form is empty: every character is whitespace.
/// The empty string itself is blank.
pub open spec fn is_blank(s: Seq<char>) -> bool {
    forall|i: int| 0 <= i < s.len() ==> is_whitespace_char(#[trigger] s[i])
}

fn is_whitespace(c: char) -> (r: bool)
    ensures
        r == is_whitespace_char(c),
{
    let u = c as u32;
    u == 0x09 || u == 0x0A || u == 0x0B || u == 0x0C || u == 0x0D || u == 0x20 || u == 0x85 || u
        == 0xA0 || u == 0x1680 || (0x2000 <= u && u <= 0x200A) || u == 0x2028 || u == 0x2029 || u
        == 0x202F || u == 0x205F || u == 0x3000
}

/// Whether `s` is invalid as a clinical field: empty or all whitespace.
pub fn is_invalid_string(s: &String) -> (r: bool)
    ensures
        r == is_blank(s@),
{
    let text = s.as_str();
    let n = text.unicode_len();
    let mut i: usize = 0;
    while i < n
        invariant
            0 <= i <= n,
            n == text@.len(),
            text@ == s@,
            forall|k: int| 0 <= k < i ==> is_whitespace_char(#[trigger] text@[k]),
        decreases n - i,
    {
        let c = text.get_char(i);
        if !is_whitespace(c) {
            return false;
        }
        i = i + 1;
    }
    true
}

/// All five required clinical fields are non-blank.
pub open spec fn payload_valid(p: PayloadView) -> bool {
    &&& !is_blank(p.diagnosis)
    &&& !is_blank(p.medications)
    &&& !is_blank(p.monitoring_data)
    &&& !is_blank(p.patient_name)
    &&& !is_blank(p.symptoms)
}

/// The field an invalid payload is rejected for: the first blank one, in the
/// fixed order diagnosis, medications, monitoring data, patient name, symptoms.
pub open spec fn first_invalid_field(p: PayloadView) -> FieldName {
    if is_blank(p.diagnosis) {
        FieldName::Diagnosis
    } else if is_blank(p.medications) {
        FieldName::Medications
    } else if is_blank(p.monitoring_data) {
        FieldName::MonitoringData
    } else if is_blank(p.patient_name) {
        FieldName::PatientName
    } else {
        FieldName::Symptoms
    }
}

/// Accepts a payload exactly when all five clinical fields are non-blank;
/// otherwise reports the first blank field, checked in a fixed order.
pub fn is_payload_valid(payload: &PatientUpdatePayload) -> (r: Result<(), Error>)
    ensures
        payload_valid(payload@) ==> r == Ok::<(), Error>(()),
        !payload_valid(payload@) ==> r == Err::<(), Error>(
            (Error::InputValidationFailed { field: first_invalid_field(payload@) }),
        ),
{
    if is_invalid_string(&payload.diagnosis) {
        Err(Error::InputValidationFailed { field: FieldName::Diagnosis })
    } else if is_invalid_string(&payload.medications) {
        Err(Error::InputValidationFailed { field: FieldName::Medications })
    } else if is_invalid_string(&payload.monitoring_data) {
        Err(Error::InputValidationFailed { field: FieldName::MonitoringData })
    } else if is_invalid_string(&payload.patient_name) {
        Err(Error::InputValidationFailed { field: FieldName::PatientName })
    } else if is_invalid_string(&payload.symptoms) {
        Err(Error::InputValidationFailed { field: FieldName::Symptoms })
    } else {
        Ok(())
    }
}

} // verus!
