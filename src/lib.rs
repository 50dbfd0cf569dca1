//! A record store for health records, with two inverted token indexes
//! (by symptom and by diagnosis) kept consistent with the primary store
//! across creation, update and deletion.
pub mod tokens;
pub mod index;
pub mod record;
pub mod store;
pub mod laws;

pub use record::{Error, HealthRecord, HealthRecordPayload};
pub use store::{RecordStore, MAX_RECORD_SIZE};
pub use tokens::split_tokens;
