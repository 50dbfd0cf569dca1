//! The health record, the payload that creates or replaces its content, and
//! the errors of the record service.
use vstd::prelude::*;
use vstd::string::*;

verus! {

/// A stored health record.
#[derive(Debug, PartialEq, Eq)]
pub struct HealthRecord {
    pub id: u64,
    pub patient_name: String,
    pub symptoms: String,
    pub diagnosis: String,
    pub treatment: String,
    pub created_at: u64,
    pub updated_at: Option<u64>,
}

impl Clone for HealthRecord {
    fn clone(&self) -> (r: Self)
        ensures
            r == *self,
    {
        HealthRecord {
            id: self.id,
            patient_name: self.patient_name.clone(),
            symptoms: self.symptoms.clone(),
            diagnosis: self.diagnosis.clone(),
            treatment: self.treatment.clone(),
            created_at: self.created_at,
            updated_at: self.updated_at,
        }
    }
}

/// The four content fields of a record, as a caller supplies them.
#[derive(Clone, Debug, PartialEq, Eq)]
pub struct HealthRecordPayload {
    pub patient_name: String,
    pub symptoms: String,
    pub diagnosis: String,
    pub treatment: String,
}

/// The ways an operation of the record service can fail.
#[derive(Clone, Debug, PartialEq, Eq)]
pub enum Error {
    /// No live record has this identifier.
    NotFound { id: u64 },
    /// A required field was empty; the text names the field.
    ValidationError(String),
    /// The primary store refused the write.
    InsertionFailed(String),
}

/// The description of the first empty field of `p`, checked in the order
/// patient name, symptoms, diagnosis, treatment; `None` when all are filled.
pub open spec fn first_violation(p: HealthRecordPayload) -> Option<Seq<char>> {
    if p.patient_name@.len() == 0 {
        Some("Patient name cannot be empty"@)
    } else if p.symptoms@.len() == 0 {
        Some("Symptoms cannot be empty"@)
    } else if p.diagnosis@.len() == 0 {
        Some("Diagnosis cannot be empty"@)
    } else if p.treatment@.len() == 0 {
        Some("Treatment cannot be empty"@)
    } else {
        None
    }
}

/// All four content fields of `r` are non-empty.
pub open spec fn content_filled(r: HealthRecord) -> bool {
    &&& r.patient_name@.len() > 0
    &&& r.symptoms@.len() > 0
    &&& r.diagnosis@.len() > 0
    &&& r.treatment@.len() > 0
}

/// The size of a record's content, counted in characters over its four
/// content fields.
pub open spec fn record_size(r: HealthRecord) -> nat {
    r.patient_name@.len() + r.symptoms@.len() + r.diagnosis@.len() + r.treatment@.len()
}

/// The message carried by a refused write.
pub open spec fn insertion_failed_message() -> Seq<char> {
    "Failed to insert health record"@
}

/// Checks that every field of `p` is non-empty, reporting the first that is not.
pub fn validate(p: &HealthRecordPayload) -> (r: Result<(), Error>)
    ensures
        match first_violation(*p) {
            None => r is Ok,
            Some(msg) => r matches Err(Error::ValidationError(m)) && m@ == msg,
        },
{
    if p.patient_name.as_str().is_empty() {
        return Err(Error::ValidationError("Patient name cannot be empty".to_owned()));
    }
    if p.symptoms.as_str().is_empty() {
        return Err(Error::ValidationError("Symptoms cannot be empty".to_owned()));
    }
    if p.diagnosis.as_str().is_empty() {
        return Err(Error::ValidationError("Diagnosis cannot be empty".to_owned()));
    }
    if p.treatment.as_str().is_empty() {
        return Err(Error::ValidationError("Treatment cannot be empty".to_owned()));
    }
    Ok(())
}

/// Whether the content of `r` fits within `max` characters.
pub fn fits_within(r: &HealthRecord, max: u64) -> (ok: bool)
    ensures
        ok == (record_size(*r) <= max),
{
    let a = r.patient_name.as_str().unicode_len();
    let b = r.symptoms.as_str().unicode_len();
    let c = r.diagnosis.as_str().unicode_len();
    let d = r.treatment.as_str().unicode_len();
    if a as u64 > max {
        return false;
    }
    let left = max - a as u64;
    if b as u64 > left {
        return false;
    }
    let left = left - b as u64;
    if c as u64 > left {
        return false;
    }
    let left = left - c as u64;
    d as u64 <= left
}

} // verus!
