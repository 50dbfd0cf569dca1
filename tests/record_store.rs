use health_records::{split_tokens, Error, HealthRecord, HealthRecordPayload, RecordStore, MAX_RECORD_SIZE};

fn payload(name: &str, symptoms: &str, diagnosis: &str, treatment: &str) -> HealthRecordPayload {
    HealthRecordPayload {
        patient_name: name.to_string(),
        symptoms: symptoms.to_string(),
        diagnosis: diagnosis.to_string(),
        treatment: treatment.to_string(),
    }
}

fn alice() -> HealthRecordPayload {
    payload("Alice", "fever,cough", "flu", "rest")
}

fn ids(records: &[HealthRecord]) -> Vec<u64> {
    records.iter().map(|r| r.id).collect()
}

#[test]
fn example_create_search_delete() {
    let mut store = RecordStore::new();
    let rec = store.add_health_record(alice(), 100).unwrap();
    assert_eq!(rec.id, 0);
    assert_eq!(rec.patient_name, "Alice");
    assert_eq!(rec.created_at, 100);
    assert_eq!(rec.updated_at, None);
    assert_eq!(store.search_by_symptom("fever"), vec![rec.clone()]);
    let removed = store.delete_health_record(0).unwrap();
    assert_eq!(removed, rec);
    assert_eq!(store.get_health_record(0), Err(Error::NotFound { id: 0 }));
    assert_eq!(store.search_by_symptom("fever"), Vec::<HealthRecord>::new());
}

#[test]
fn created_ids_strictly_increase() {
    let mut store = RecordStore::new();
    let mut last: Option<u64> = None;
    for i in 0..5u64 {
        let rec = store.add_health_record(alice(), i).unwrap();
        if let Some(prev) = last {
            assert!(rec.id > prev);
        }
        last = Some(rec.id);
        if i == 2 {
            store.delete_health_record(rec.id).unwrap();
        }
    }
    assert_eq!(last, Some(4));
    assert_eq!(store.len(), 4);
}

#[test]
fn ids_are_not_reused_after_delete() {
    let mut store = RecordStore::new();
    let a = store.add_health_record(alice(), 1).unwrap();
    store.delete_health_record(a.id).unwrap();
    let b = store.add_health_record(alice(), 2).unwrap();
    assert_eq!(a.id, 0);
    assert_eq!(b.id, 1);
}

#[test]
fn create_then_get_returns_same_record() {
    let mut store = RecordStore::new();
    store.add_health_record(payload("Bob", "rash", "allergy", "antihistamine"), 5).unwrap();
    let rec = store.add_health_record(alice(), 7).unwrap();
    assert_eq!(store.get_health_record(rec.id), Ok(rec.clone()));
    assert_eq!(store._get_health_record(&rec.id), Some(rec));
}

#[test]
fn empty_fields_are_rejected_in_order() {
    let cases = [
        (payload("", "fever", "flu", "rest"), "Patient name cannot be empty"),
        (payload("Alice", "", "flu", "rest"), "Symptoms cannot be empty"),
        (payload("Alice", "fever", "", "rest"), "Diagnosis cannot be empty"),
        (payload("Alice", "fever", "flu", ""), "Treatment cannot be empty"),
        (payload("", "", "", ""), "Patient name cannot be empty"),
        (payload("Alice", "fever", "", ""), "Diagnosis cannot be empty"),
    ];
    for (p, msg) in cases {
        let mut store = RecordStore::new();
        store.add_health_record(alice(), 1).unwrap();
        let before = store.len();
        assert_eq!(store.add_health_record(p, 2), Err(Error::ValidationError(msg.to_string())));
        assert_eq!(store.len(), before);
        assert_eq!(store.peek_next_id(), 1);
        assert_eq!(ids(&store.search_by_symptom("fever")), vec![0]);
        assert_eq!(ids(&store.search_by_diagnosis("flu")), vec![0]);
    }
}

#[test]
fn search_matches_exact_tokens() {
    let mut store = RecordStore::new();
    let rec = store.add_health_record(alice(), 1).unwrap();
    assert_eq!(store.search_by_symptom("fever"), vec![rec.clone()]);
    assert_eq!(store.search_by_symptom("cough"), vec![rec.clone()]);
    assert!(store.search_by_symptom("feverish").is_empty());
    assert!(store.search_by_symptom("fever,cough").is_empty());
    assert_eq!(store.search_by_diagnosis("flu"), vec![rec]);
    assert!(store.search_by_diagnosis("fever").is_empty());
}

#[test]
fn tokens_are_not_trimmed() {
    let mut store = RecordStore::new();
    let rec = store.add_health_record(payload("Carol", "fever, cough", "cold", "tea"), 1).unwrap();
    assert_eq!(ids(&store.search_by_symptom(" cough")), vec![rec.id]);
    assert!(store.search_by_symptom("cough").is_empty());
}

#[test]
fn repeated_and_empty_tokens_are_indexed_as_is() {
    let mut store = RecordStore::new();
    let rec = store.add_health_record(payload("Dan", "fever,,fever", "flu", "rest"), 1).unwrap();
    assert_eq!(ids(&store.search_by_symptom("fever")), vec![rec.id, rec.id]);
    assert_eq!(ids(&store.search_by_symptom("")), vec![rec.id]);
    store.delete_health_record(rec.id).unwrap();
    assert!(store.search_by_symptom("fever").is_empty());
    assert!(store.search_by_symptom("").is_empty());
}

#[test]
fn search_keeps_indexing_order() {
    let mut store = RecordStore::new();
    let a = store.add_health_record(payload("A", "fever", "flu", "rest"), 1).unwrap();
    let b = store.add_health_record(payload("B", "cough,fever", "cold", "tea"), 2).unwrap();
    let c = store.add_health_record(payload("C", "fever", "flu,cold", "rest"), 3).unwrap();
    assert_eq!(ids(&store.search_by_symptom("fever")), vec![a.id, b.id, c.id]);
    assert_eq!(ids(&store.search_by_diagnosis("cold")), vec![b.id, c.id]);
    assert_eq!(ids(&store.search_by_diagnosis("flu")), vec![a.id, c.id]);
}

#[test]
fn update_replaces_content_and_reindexes() {
    let mut store = RecordStore::new();
    let rec = store.add_health_record(alice(), 10).unwrap();
    let upd = store
        .update_health_record(rec.id, payload("Alice B", "headache", "migraine", "sleep"), 20)
        .unwrap();
    assert_eq!(upd.id, rec.id);
    assert_eq!(upd.patient_name, "Alice B");
    assert_eq!(upd.symptoms, "headache");
    assert_eq!(upd.diagnosis, "migraine");
    assert_eq!(upd.treatment, "sleep");
    assert_eq!(upd.created_at, 10);
    assert_eq!(upd.updated_at, Some(20));
    assert_eq!(store.get_health_record(rec.id), Ok(upd.clone()));
    assert!(store.search_by_symptom("fever").is_empty());
    assert!(store.search_by_symptom("cough").is_empty());
    assert!(store.search_by_diagnosis("flu").is_empty());
    assert_eq!(store.search_by_symptom("headache"), vec![upd.clone()]);
    assert_eq!(store.search_by_diagnosis("migraine"), vec![upd]);
}

#[test]
fn update_keeping_a_token_lists_the_record_once() {
    let mut store = RecordStore::new();
    let rec = store.add_health_record(alice(), 1).unwrap();
    store.update_health_record(rec.id, payload("Alice", "fever", "flu", "rest"), 2).unwrap();
    assert_eq!(ids(&store.search_by_symptom("fever")), vec![rec.id]);
    assert!(store.search_by_symptom("cough").is_empty());
    assert_eq!(ids(&store.search_by_diagnosis("flu")), vec![rec.id]);
}

#[test]
fn update_leaves_other_records_indexed() {
    let mut store = RecordStore::new();
    let a = store.add_health_record(alice(), 1).unwrap();
    let b = store.add_health_record(payload("Bob", "fever", "flu", "rest"), 2).unwrap();
    store.update_health_record(a.id, payload("Alice", "rash", "allergy", "cream"), 3).unwrap();
    assert_eq!(ids(&store.search_by_symptom("fever")), vec![b.id]);
    assert_eq!(ids(&store.search_by_diagnosis("flu")), vec![b.id]);
}

#[test]
fn delete_removes_record_and_index_entries() {
    let mut store = RecordStore::new();
    let a = store.add_health_record(alice(), 1).unwrap();
    let b = store.add_health_record(payload("Bob", "cough", "flu", "rest"), 2).unwrap();
    assert_eq!(store.delete_health_record(a.id), Ok(a.clone()));
    assert_eq!(store.get_health_record(a.id), Err(Error::NotFound { id: a.id }));
    assert!(store.search_by_symptom("fever").is_empty());
    assert_eq!(ids(&store.search_by_symptom("cough")), vec![b.id]);
    assert_eq!(ids(&store.search_by_diagnosis("flu")), vec![b.id]);
    assert_eq!(store.len(), 1);
}

#[test]
fn missing_ids_give_not_found_and_change_nothing() {
    let mut store = RecordStore::new();
    store.add_health_record(alice(), 1).unwrap();
    assert_eq!(store.update_health_record(9, alice(), 2), Err(Error::NotFound { id: 9 }));
    assert_eq!(store.delete_health_record(9), Err(Error::NotFound { id: 9 }));
    assert_eq!(store.get_health_record(9), Err(Error::NotFound { id: 9 }));
    assert_eq!(store.len(), 1);
    assert_eq!(store.peek_next_id(), 1);
    assert_eq!(ids(&store.search_by_symptom("fever")), vec![0]);
    assert_eq!(ids(&store.search_by_diagnosis("flu")), vec![0]);
}

#[test]
fn update_validates_before_looking_up() {
    let mut store = RecordStore::new();
    assert_eq!(
        store.update_health_record(3, payload("A", "b", "c", ""), 1),
        Err(Error::ValidationError("Treatment cannot be empty".to_string()))
    );
    let rec = store.add_health_record(alice(), 1).unwrap();
    assert_eq!(
        store.update_health_record(rec.id, payload("A", "", "c", "d"), 2),
        Err(Error::ValidationError("Symptoms cannot be empty".to_string()))
    );
    assert_eq!(store.get_health_record(rec.id), Ok(rec));
}

#[test]
fn oversized_records_are_refused() {
    let mut store = RecordStore::with_max_record_size(10);
    let err = Err(Error::InsertionFailed("Failed to insert health record".to_string()));
    assert_eq!(store.add_health_record(payload("Alice", "fever", "x", "y"), 1), err.clone());
    assert_eq!(store.len(), 0);
    assert_eq!(store.peek_next_id(), 0);
    assert!(store.search_by_symptom("fever").is_empty());
    let rec = store.add_health_record(payload("Al", "fe", "x", "y"), 1).unwrap();
    assert_eq!(rec.id, 0);
    let exact = store.add_health_record(payload("Alice", "fev", "x", "y"), 1).unwrap();
    assert_eq!(exact.id, 1);
    assert_eq!(store.update_health_record(rec.id, payload("Alice", "fever", "x", "y"), 2), err);
    assert_eq!(store.get_health_record(rec.id), Ok(rec));
    assert_eq!(ids(&store.search_by_symptom("fe")), vec![0]);
}

#[test]
fn default_bound_counts_characters() {
    let mut store = RecordStore::new();
    let name = "é".repeat((MAX_RECORD_SIZE - 3) as usize);
    assert!(store.add_health_record(payload(&name, "a", "b", "c"), 1).is_ok());
    let longer = "é".repeat((MAX_RECORD_SIZE - 2) as usize);
    assert!(matches!(
        store.add_health_record(payload(&longer, "a", "b", "c"), 1),
        Err(Error::InsertionFailed(_))
    ));
}

#[test]
fn split_tokens_keeps_every_piece() {
    assert_eq!(split_tokens("fever,cough"), vec!["fever", "cough"]);
    assert_eq!(split_tokens(""), vec![""]);
    assert_eq!(split_tokens(","), vec!["", ""]);
    assert_eq!(split_tokens("a,,b,"), vec!["a", "", "b", ""]);
    assert_eq!(split_tokens(" fever , é"), vec![" fever ", " é"]);
}
