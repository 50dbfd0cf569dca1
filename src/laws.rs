//! Properties of the record service that relate several operations.
use vstd::prelude::*;
use crate::index::{ids_in, indexes_exactly};
use crate::record::{Error, HealthRecord, HealthRecordPayload, first_violation};
use crate::store::{RecordStore, diagnosis_texts, holds_id, resolve, symptom_texts};
use crate::tokens::tokens;

verus! {

/// Resolving a list of identifiers yields a record with identifier `x`
/// exactly when `x` is listed and stored.
pub proof fn lemma_resolve_holds_id(m: Map<u64, HealthRecord>, ids: Seq<u64>, x: u64)
    requires
        forall|k: u64| #[trigger] m.contains_key(k) ==> m[k].id == k,
    ensures
        holds_id(resolve(m, ids), x) <==> ids.contains(x) && m.contains_key(x),
    decreases ids.len(),
{
    if ids.len() > 0 {
        let init = ids.drop_last();
        lemma_resolve_holds_id(m, init, x);
        let rest = resolve(m, init);
        let whole = resolve(m, ids);
        if holds_id(rest, x) {
            let j = choose|j: int| 0 <= j < rest.len() && (#[trigger] rest[j]).id == x;
            assert(whole[j] == rest[j]);
        }
        if init.contains(x) {
            let j = choose|j: int| 0 <= j < init.len() && init[j] == x;
            assert(ids[j] == x);
        }
        if ids.contains(x) && ids.last() != x {
            let j = choose|j: int| 0 <= j < ids.len() && ids[j] == x;
            assert(init[j] == x);
        }
        if m.contains_key(ids.last()) {
            if ids.last() == x {
                assert(whole[rest.len() as int].id == x);
            }
            if holds_id(whole, x) && !holds_id(rest, x) {
                let j = choose|j: int| 0 <= j < whole.len() && (#[trigger] whole[j]).id == x;
                if j < rest.len() {
                    assert(rest[j] == whole[j]);
                }
            }
        }
    }
}

/// In a consistent store, a search by symptom `t` returns the record `x`
/// exactly when `x` is stored and `t` is one of the tokens of its symptoms.
pub proof fn lemma_symptom_search_exact(s: RecordStore, t: Seq<char>, x: u64)
    requires
        s.wf(),
    ensures
        holds_id(s.symptom_search(t), x) <==> s.records().contains_key(x) && tokens(
            s.records()[x].symptoms@,
        ).contains(t),
{
    lemma_resolve_holds_id(s.records(), ids_in(s.symptom_index(), t), x);
    if s.records().contains_key(x) {
        assert(symptom_texts(s.records())[x] == s.records()[x].symptoms@);
    }
    assert(indexes_exactly(s.symptom_index(), symptom_texts(s.records())));
}

/// In a consistent store, a search by diagnosis `t` returns the record `x`
/// exactly when `x` is stored and `t` is one of the tokens of its diagnosis.
pub proof fn lemma_diagnosis_search_exact(s: RecordStore, t: Seq<char>, x: u64)
    requires
        s.wf(),
    ensures
        holds_id(s.diagnosis_search(t), x) <==> s.records().contains_key(x) && tokens(
            s.records()[x].diagnosis@,
        ).contains(t),
{
    lemma_resolve_holds_id(s.records(), ids_in(s.diagnosis_index(), t), x);
    if s.records().contains_key(x) {
        assert(diagnosis_texts(s.records())[x] == s.records()[x].diagnosis@);
    }
    assert(indexes_exactly(s.diagnosis_index(), diagnosis_texts(s.records())));
}

/// No operation lowers the identifier counter.
pub proof fn lemma_counter_never_decreases(
    pre: RecordStore,
    post: RecordStore,
    id: u64,
    p: HealthRecordPayload,
    now: u64,
    r: Result<HealthRecord, Error>,
)
    ensures
        RecordStore::add_outcome(pre, p, now, post, r) ==> pre.next_id() <= post.next_id(),
        RecordStore::update_outcome(pre, id, p, now, post, r) ==> pre.next_id() <= post.next_id(),
        RecordStore::delete_outcome(pre, id, post, r) ==> pre.next_id() <= post.next_id(),
{
}

/// A created record's identifier is above every identifier already stored,
/// and below every identifier that a later creation returns, whatever
/// operations came between (none of them lowers the counter).
pub proof fn lemma_created_ids_increase(
    s1: RecordStore,
    p1: HealthRecordPayload,
    now1: u64,
    s2: RecordStore,
    r1: Result<HealthRecord, Error>,
    s3: RecordStore,
    p2: HealthRecordPayload,
    now2: u64,
    s4: RecordStore,
    r2: Result<HealthRecord, Error>,
)
    requires
        s1.wf(),
        RecordStore::add_outcome(s1, p1, now1, s2, r1),
        r1 is Ok,
        s2.next_id() <= s3.next_id(),
        RecordStore::add_outcome(s3, p2, now2, s4, r2),
        r2 is Ok,
    ensures
        forall|x: u64| #[trigger] s1.records().contains_key(x) ==> x < r1->Ok_0.id,
        r1->Ok_0.id < r2->Ok_0.id,
{
}

/// After a successful creation the store holds the returned record under its
/// identifier.
pub proof fn lemma_create_then_get(
    pre: RecordStore,
    p: HealthRecordPayload,
    now: u64,
    post: RecordStore,
    r: Result<HealthRecord, Error>,
)
    requires
        RecordStore::add_outcome(pre, p, now, post, r),
        r is Ok,
    ensures
        post.records().contains_key(r->Ok_0.id),
        post.records()[r->Ok_0.id] == r->Ok_0,
{
}

/// A creation with an empty field fails with a validation error and changes
/// nothing, the number of records included.
pub proof fn lemma_invalid_create_changes_nothing(
    pre: RecordStore,
    p: HealthRecordPayload,
    now: u64,
    post: RecordStore,
    r: Result<HealthRecord, Error>,
)
    requires
        RecordStore::add_outcome(pre, p, now, post, r),
        first_violation(p) is Some,
    ensures
        r matches Err(Error::ValidationError(_)),
        post == pre,
        post.records().len() == pre.records().len(),
{
}

/// After a successful update the record holds the new content and an update
/// time, and the searches find it under the tokens of its new symptoms and
/// diagnosis and under no other.
pub proof fn lemma_update_then_get(
    pre: RecordStore,
    id: u64,
    p: HealthRecordPayload,
    now: u64,
    post: RecordStore,
    r: Result<HealthRecord, Error>,
)
    requires
        pre.wf(),
        post.wf(),
        RecordStore::update_outcome(pre, id, p, now, post, r),
        r is Ok,
    ensures
        post.records().contains_key(id),
        post.records()[id] == r->Ok_0,
        r->Ok_0.patient_name == p.patient_name,
        r->Ok_0.symptoms == p.symptoms,
        r->Ok_0.diagnosis == p.diagnosis,
        r->Ok_0.treatment == p.treatment,
        r->Ok_0.updated_at is Some,
        forall|t: Seq<char>|
            #![trigger post.symptom_search(t)]
            holds_id(post.symptom_search(t), id) <==> tokens(p.symptoms@).contains(t),
        forall|t: Seq<char>|
            #![trigger post.diagnosis_search(t)]
            holds_id(post.diagnosis_search(t), id) <==> tokens(p.diagnosis@).contains(t),
{
    assert forall|t: Seq<char>|
        #![trigger post.symptom_search(t)]
        holds_id(post.symptom_search(t), id) <==> tokens(p.symptoms@).contains(t) by {
        lemma_symptom_search_exact(post, t, id);
    }
    assert forall|t: Seq<char>|
        #![trigger post.diagnosis_search(t)]
        holds_id(post.diagnosis_search(t), id) <==> tokens(p.diagnosis@).contains(t) by {
        lemma_diagnosis_search_exact(post, t, id);
    }
}

/// After a successful deletion the record is gone, and no search returns it.
pub proof fn lemma_delete_then_gone(pre: RecordStore, id: u64, post: RecordStore, r: Result<HealthRecord, Error>)
    requires
        pre.wf(),
        post.wf(),
        RecordStore::delete_outcome(pre, id, post, r),
        r is Ok,
    ensures
        !post.records().contains_key(id),
        forall|t: Seq<char>| #![trigger post.symptom_search(t)] !holds_id(post.symptom_search(t), id),
        forall|t: Seq<char>|
            #![trigger post.diagnosis_search(t)]
            !holds_id(post.diagnosis_search(t), id),
{
    assert forall|t: Seq<char>| #![trigger post.symptom_search(t)] !holds_id(post.symptom_search(t), id) by {
        lemma_symptom_search_exact(post, t, id);
    }
    assert forall|t: Seq<char>|
        #![trigger post.diagnosis_search(t)]
        !holds_id(post.diagnosis_search(t), id) by {
        lemma_diagnosis_search_exact(post, t, id);
    }
}

/// Updating an identifier with no record, with a payload whose fields are all
/// filled, fails with `NotFound` and changes nothing.
pub proof fn lemma_update_missing_changes_nothing(
    pre: RecordStore,
    id: u64,
    p: HealthRecordPayload,
    now: u64,
    post: RecordStore,
    r: Result<HealthRecord, Error>,
)
    requires
        !pre.records().contains_key(id),
        first_violation(p) is None,
        RecordStore::update_outcome(pre, id, p, now, post, r),
    ensures
        r == Err::<HealthRecord, Error>(Error::NotFound { id }),
        post == pre,
{
}

/// Deleting an identifier with no record fails with `NotFound` and changes
/// nothing.
pub proof fn lemma_delete_missing_changes_nothing(
    pre: RecordStore,
    id: u64,
    post: RecordStore,
    r: Result<HealthRecord, Error>,
)
    requires
        !pre.records().contains_key(id),
        RecordStore::delete_outcome(pre, id, post, r),
    ensures
        r == Err::<HealthRecord, Error>(Error::NotFound { id }),
        post == pre,
{
}

} // verus!
