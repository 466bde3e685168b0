//! Report rendering: a fixed-template, deterministic text summary of one
//! record's clinical fields.

use vstd::prelude::*;
use vstd::string::StringExecFns;
use crate::types::{HealthRecord, RecordView};

verus! {

/// The decimal digit character for `d`, which must lie in `0 ..= 9`.
pub open spec fn decimal_digit(d: int) -> char {
    if d == 0 {
        '0'
    } else if d == 1 {
        '1'
    } else if d == 2 {
        '2'
    } else if d == 3 {
        '3'
    } else if d == 4 {
        '4'
    } else if d == 5 {
        '5'
    } else if d == 6 {
        '6'
    } else if d == 7 {
        '7'
    } else if d == 8 {
        '8'
    } else {
        '9'
    }
}

/// The decimal rendering of `n`, most significant digit first, without
/// leading zeros (`0` renders as `"0"`).
pub open spec fn decimal_of(n: nat) -> Seq<char>
    decreases n,
{
    if n < 10 {
        seq![decimal_digit(n as int)]
    } else {
        decimal_of(n / 10).push(decimal_digit((n % 10) as int))
    }
}

/// The full report text for a record: a fixed template around the clinical
/// fields, so the output is a function of the record's current values alone.
pub open spec fn report_of(r: RecordView) -> Seq<char> {
    "Health Report for Patient "@ + r.patient_name + " (ID: "@ + decimal_of(r.id as nat)
        + ")\nAge: "@ + decimal_of(r.age as nat) + "\nSymptoms: "@ + r.symptoms + "\nDiagnosis: "@
        + r.diagnosis + "\nMedications: "@ + r.medications + "\nMonitoring Data: "@
        + r.monitoring_data
}

fn digit_str(d: u64) -> (r: &'static str)
    requires
        d < 10,
    ensures
        r@ == seq![decimal_digit(d as int)],
{
    proof {
        reveal_strlit("0");
        reveal_strlit("1");
        reveal_strlit("2");
        reveal_strlit("3");
        reveal_strlit("4");
        reveal_strlit("5");
        reveal_strlit("6");
        reveal_strlit("7");
        reveal_strlit("8");
        reveal_strlit("9");
    }
    let r: &'static str = if d == 0 {
        "0"
    } else if d == 1 {
        "1"
    } else if d == 2 {
        "2"
    } else if d == 3 {
        "3"
    } else if d == 4 {
        "4"
    } else if d == 5 {
        "5"
    } else if d == 6 {
        "6"
    } else if d == 7 {
        "7"
    } else if d == 8 {
        "8"
    } else {
        "9"
    };
    proof {
        assert(r@ =~= seq![decimal_digit(d as int)]);
    }
    r
}

fn append_decimal(out: &mut String, n: u64)
    ensures
        final(out)@ == old(out)@ + decimal_of(n as nat),
    decreases n,
{
    if n >= 10 {
        append_decimal(out, n / 10);
    }
    out.append(digit_str(n % 10));
    proof {
        assert(out@ =~= old(out)@ + decimal_of(n as nat));
    }
}

/// Renders the report for `record`; the text is determined by the record's
/// field values alone.
pub fn render_report(record: &HealthRecord) -> (r: String)
    ensures
        r@ == report_of(record@),
{
    let mut out = String::new();
    out.append("Health Report for Patient ");
    out.append(record.patient_name.as_str());
    out.append(" (ID: ");
    append_decimal(&mut out, record.id);
    out.append(")\nAge: ");
    append_decimal(&mut out, record.age as u64);
    out.append("\nSymptoms: ");
    out.append(record.symptoms.as_str());
    out.append("\nDiagnosis: ");
    out.append(record.diagnosis.as_str());
    out.append("\nMedications: ");
    out.append(record.medications.as_str());
    out.append("\nMonitoring Data: ");
    out.append(record.monitoring_data.as_str());
    proof {
        assert(out@ =~= report_of(record@));
    }
    out
}

} // verus!
