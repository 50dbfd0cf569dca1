//! The record store: the primary map from identifier to record, the
//! identifier counter, the symptom and diagnosis indexes, and the service
//! operations that keep them consistent.
use vstd::prelude::*;
use vstd::hash_map::HashMapWithView;
use crate::index::{
    TokenIndex, count_of, ids_in, indexes_exactly, lemma_add_keeps_exact,
    lemma_remove_keeps_exact, repeat, without,
};
use crate::record::{
    Error, HealthRecord, HealthRecordPayload, content_filled, first_violation, fits_within,
    insertion_failed_message, record_size, validate,
};
use crate::tokens::tokens;

verus! {

broadcast use vstd::std_specs::hash::group_hash_axioms;

/// The largest record content, in characters, that a store made by
/// `RecordStore::new` accepts.
pub const MAX_RECORD_SIZE: u64 = 1024;

/// The symptom field of each stored record.
pub open spec fn symptom_texts(m: Map<u64, HealthRecord>) -> Map<u64, Seq<char>> {
    m.map_values(|r: HealthRecord| r.symptoms@)
}

/// The diagnosis field of each stored record.
pub open spec fn diagnosis_texts(m: Map<u64, HealthRecord>) -> Map<u64, Seq<char>> {
    m.map_values(|r: HealthRecord| r.diagnosis@)
}

/// The records that `ids` name, in order, skipping identifiers with no record.
pub open spec fn resolve(m: Map<u64, HealthRecord>, ids: Seq<u64>) -> Seq<HealthRecord>
    decreases ids.len(),
{
    if ids.len() == 0 {
        Seq::empty()
    } else {
        let rest = resolve(m, ids.drop_last());
        if m.contains_key(ids.last()) {
            rest.push(m[ids.last()])
        } else {
            rest
        }
    }
}

/// Some record in `s` has identifier `x`.
pub open spec fn holds_id(s: Seq<HealthRecord>, x: u64) -> bool {
    exists|j: int| 0 <= j < s.len() && (#[trigger] s[j]).id == x
}

/// The index list of token `t` after the record `id`, whose field was `text`,
/// has been taken out of it.
pub open spec fn ids_after_removal(m: Map<Seq<char>, Seq<u64>>, text: Seq<char>, id: u64, t: Seq<char>) -> Seq<u64> {
    if tokens(text).contains(t) {
        without(ids_in(m, t), id)
    } else {
        ids_in(m, t)
    }
}

/// The record that a creation with payload `p` at time `now` stores under `id`.
pub open spec fn created_record(p: HealthRecordPayload, id: u64, now: u64) -> HealthRecord {
    HealthRecord {
        id,
        patient_name: p.patient_name,
        symptoms: p.symptoms,
        diagnosis: p.diagnosis,
        treatment: p.treatment,
        created_at: now,
        updated_at: None,
    }
}

/// The record `old` after its content is replaced by `p` at time `now`.
pub open spec fn updated_record(old: HealthRecord, p: HealthRecordPayload, now: u64) -> HealthRecord {
    HealthRecord {
        id: old.id,
        patient_name: p.patient_name,
        symptoms: p.symptoms,
        diagnosis: p.diagnosis,
        treatment: p.treatment,
        created_at: old.created_at,
        updated_at: Some(now),
    }
}

/// The primary store of health records together with its identifier counter
/// and its two secondary indexes.
pub struct RecordStore {
    records: HashMapWithView<u64, HealthRecord>,
    next_id: u64,
    max_record_size: u64,
    by_symptom: TokenIndex,
    by_diagnosis: TokenIndex,
}

impl RecordStore {
    /// The stored records, by identifier.
    pub closed spec fn records(&self) -> Map<u64, HealthRecord> {
        self.records@
    }

    /// The identifier that the next creation will assign.
    pub closed spec fn next_id(&self) -> u64 {
        self.next_id
    }

    /// The largest record content, in characters, that the store accepts.
    pub closed spec fn max_size(&self) -> u64 {
        self.max_record_size
    }

    /// The symptom index: token to identifiers.
    pub closed spec fn symptom_index(&self) -> Map<Seq<char>, Seq<u64>> {
        self.by_symptom@
    }

    /// The diagnosis index: token to identifiers.
    pub closed spec fn diagnosis_index(&self) -> Map<Seq<char>, Seq<u64>> {
        self.by_diagnosis@
    }

    /// What a search by symptom `t` returns.
    pub open spec fn symptom_search(&self, t: Seq<char>) -> Seq<HealthRecord> {
        resolve(self.records(), ids_in(self.symptom_index(), t))
    }

    /// What a search by diagnosis `t` returns.
    pub open spec fn diagnosis_search(&self, t: Seq<char>) -> Seq<HealthRecord> {
        resolve(self.records(), ids_in(self.diagnosis_index(), t))
    }

    /// The store is consistent: each record sits under its own identifier,
    /// below the counter, with its content filled, and each index lists
    /// exactly the stored records under every token of their field.
    pub open spec fn wf(&self) -> bool {
        &&& forall|x: u64| #[trigger]
            self.records().contains_key(x) ==> self.records()[x].id == x && x < self.next_id()
                && content_filled(self.records()[x])
        &&& indexes_exactly(self.symptom_index(), symptom_texts(self.records()))
        &&& indexes_exactly(self.diagnosis_index(), diagnosis_texts(self.records()))
    }

    /// `post` differs from `pre` in its records at most.
    pub open spec fn same_but_records(pre: Self, post: Self) -> bool {
        &&& post.next_id() == pre.next_id()
        &&& post.max_size() == pre.max_size()
        &&& post.symptom_index() == pre.symptom_index()
        &&& post.diagnosis_index() == pre.diagnosis_index()
    }

    /// The outcome of a creation from `pre` with payload `p` at time `now`.
    pub open spec fn add_outcome(
        pre: Self,
        p: HealthRecordPayload,
        now: u64,
        post: Self,
        r: Result<HealthRecord, Error>,
    ) -> bool {
        let rec = created_record(p, pre.next_id(), now);
        match first_violation(p) {
            Some(msg) => r matches Err(Error::ValidationError(m)) && m@ == msg && post == pre,
            None => if record_size(rec) > pre.max_size() {
                r matches Err(Error::InsertionFailed(m)) && m@ == insertion_failed_message()
                    && post == pre
            } else {
                &&& r == Ok::<HealthRecord, Error>(rec)
                &&& post.records() == pre.records().insert(rec.id, rec)
                &&& post.next_id() == pre.next_id() + 1
                &&& post.max_size() == pre.max_size()
                &&& forall|t: Seq<char>| #[trigger]
                    ids_in(post.symptom_index(), t) == ids_in(pre.symptom_index(), t) + repeat(
                        rec.id,
                        count_of(tokens(rec.symptoms@), t),
                    )
                &&& forall|t: Seq<char>| #[trigger]
                    ids_in(post.diagnosis_index(), t) == ids_in(pre.diagnosis_index(), t) + repeat(
                        rec.id,
                        count_of(tokens(rec.diagnosis@), t),
                    )
            },
        }
    }

    /// The outcome of replacing the content of record `id` from `pre` with
    /// payload `p` at time `now`.
    pub open spec fn update_outcome(
        pre: Self,
        id: u64,
        p: HealthRecordPayload,
        now: u64,
        post: Self,
        r: Result<HealthRecord, Error>,
    ) -> bool {
        match first_violation(p) {
            Some(msg) => r matches Err(Error::ValidationError(m)) && m@ == msg && post == pre,
            None => if !pre.records().contains_key(id) {
                r == Err::<HealthRecord, Error>(Error::NotFound { id }) && post == pre
            } else {
                let old_rec = pre.records()[id];
                let rec = updated_record(old_rec, p, now);
                if record_size(rec) > pre.max_size() {
                    r matches Err(Error::InsertionFailed(m)) && m@ == insertion_failed_message()
                        && post == pre
                } else {
                    &&& r == Ok::<HealthRecord, Error>(rec)
                    &&& post.records() == pre.records().insert(id, rec)
                    &&& post.next_id() == pre.next_id()
                    &&& post.max_size() == pre.max_size()
                    &&& forall|t: Seq<char>| #[trigger]
                        ids_in(post.symptom_index(), t) == ids_after_removal(
                            pre.symptom_index(),
                            old_rec.symptoms@,
                            id,
                            t,
                        ) + repeat(id, count_of(tokens(rec.symptoms@), t))
                    &&& forall|t: Seq<char>| #[trigger]
                        ids_in(post.diagnosis_index(), t) == ids_after_removal(
                            pre.diagnosis_index(),
                            old_rec.diagnosis@,
                            id,
                            t,
                        ) + repeat(id, count_of(tokens(rec.diagnosis@), t))
                }
            },
        }
    }

    /// The outcome of deleting record `id` from `pre`.
    pub open spec fn delete_outcome(pre: Self, id: u64, post: Self, r: Result<HealthRecord, Error>) -> bool {
        if !pre.records().contains_key(id) {
            r == Err::<HealthRecord, Error>(Error::NotFound { id }) && post == pre
        } else {
            let old_rec = pre.records()[id];
            &&& r == Ok::<HealthRecord, Error>(old_rec)
            &&& post.records() == pre.records().remove(id)
            &&& post.next_id() == pre.next_id()
            &&& post.max_size() == pre.max_size()
            &&& forall|t: Seq<char>| #[trigger]
                ids_in(post.symptom_index(), t) == ids_after_removal(
                    pre.symptom_index(),
                    old_rec.symptoms@,
                    id,
                    t,
                )
            &&& forall|t: Seq<char>| #[trigger]
                ids_in(post.diagnosis_index(), t) == ids_after_removal(
                    pre.diagnosis_index(),
                    old_rec.diagnosis@,
                    id,
                    t,
                )
        }
    }

    /// An empty store whose records may hold up to `max_record_size`
    /// characters of content; identifiers start at 0.
    pub fn with_max_record_size(max_record_size: u64) -> (r: Self)
        ensures
            r.wf(),
            r.records() == Map::<u64, HealthRecord>::empty(),
            r.next_id() == 0,
            r.max_size() == max_record_size,
            r.symptom_index() == Map::<Seq<char>, Seq<u64>>::empty(),
            r.diagnosis_index() == Map::<Seq<char>, Seq<u64>>::empty(),
    {
        let r = RecordStore {
            records: HashMapWithView::new(),
            next_id: 0,
            max_record_size,
            by_symptom: TokenIndex::new(),
            by_diagnosis: TokenIndex::new(),
        };
        assert(symptom_texts(r.records@) =~= Map::<u64, Seq<char>>::empty());
        assert(diagnosis_texts(r.records@) =~= Map::<u64, Seq<char>>::empty());
        r
    }

    /// An empty store with the default bound on record size.
    pub fn new() -> (r: Self)
        ensures
            r.wf(),
            r.records() == Map::<u64, HealthRecord>::empty(),
            r.next_id() == 0,
            r.max_size() == MAX_RECORD_SIZE,
            r.symptom_index() == Map::<Seq<char>, Seq<u64>>::empty(),
            r.diagnosis_index() == Map::<Seq<char>, Seq<u64>>::empty(),
    {
        Self::with_max_record_size(MAX_RECORD_SIZE)
    }

    /// The number of stored records.
    pub fn len(&self) -> (r: usize)
        ensures
            r == self.records().len(),
    {
        self.records.len()
    }

    /// The identifier that the next creation will assign.
    pub fn peek_next_id(&self) -> (r: u64)
        ensures
            r == self.next_id(),
    {
        self.next_id
    }

    /// The record stored under `id`, if any.
    pub fn _get_health_record(&self, id: &u64) -> (r: Option<HealthRecord>)
        ensures
            r == if self.records().contains_key(*id) {
                Some(self.records()[*id])
            } else {
                None::<HealthRecord>
            },
    {
        match self.records.get(id) {
            Some(rec) => Some(rec.clone()),
            None => None,
        }
    }

    /// The record stored under `id`, or `NotFound`.
    pub fn get_health_record(&self, id: u64) -> (r: Result<HealthRecord, Error>)
        ensures
            r == if self.records().contains_key(id) {
                Ok::<HealthRecord, Error>(self.records()[id])
            } else {
                Err::<HealthRecord, Error>(Error::NotFound { id })
            },
    {
        match self._get_health_record(&id) {
            Some(rec) => Ok(rec),
            None => Err(Error::NotFound { id }),
        }
    }

    /// The records that `ids` name, in order, skipping those no longer stored.
    fn resolve_ids(&self, ids: &Vec<u64>) -> (r: Vec<HealthRecord>)
        ensures
            r@ == resolve(self.records(), ids@),
    {
        let mut out: Vec<HealthRecord> = Vec::new();
        let mut i: usize = 0;
        while i < ids.len()
            invariant
                i <= ids@.len(),
                out@ == resolve(self.records(), ids@.take(i as int)),
            decreases ids.len() - i,
        {
            assert(ids@.take(i + 1).drop_last() =~= ids@.take(i as int));
            match self._get_health_record(&ids[i]) {
                Some(rec) => out.push(rec),
                None => {},
            }
            i = i + 1;
        }
        assert(ids@.take(ids@.len() as int) =~= ids@);
        out
    }

    /// The records listed under symptom token `symptom`, in indexing order.
    pub fn search_by_symptom(&self, symptom: &str) -> (r: Vec<HealthRecord>)
        ensures
            r@ == self.symptom_search(symptom@),
    {
        let ids = self.by_symptom.lookup(symptom);
        self.resolve_ids(&ids)
    }

    /// The records listed under diagnosis token `diagnosis`, in indexing order.
    pub fn search_by_diagnosis(&self, diagnosis: &str) -> (r: Vec<HealthRecord>)
        ensures
            r@ == self.diagnosis_search(diagnosis@),
    {
        let ids = self.by_diagnosis.lookup(diagnosis);
        self.resolve_ids(&ids)
    }

    /// Writes `record` under its identifier, unless its content exceeds the
    /// store's bound; the indexes and the counter are left as they are.
    pub fn do_insert(&mut self, record: &HealthRecord) -> (r: Result<(), Error>)
        ensures
            Self::same_but_records(*old(self), *final(self)),
            record_size(*record) <= old(self).max_size() ==> r is Ok && final(self).records()
                == old(self).records().insert(record.id, *record),
            record_size(*record) > old(self).max_size() ==> (r matches Err(
                Error::InsertionFailed(m),
            ) && m@ == insertion_failed_message() && *final(self) == *old(self)),
    {
        if !fits_within(record, self.max_record_size) {
            return Err(Error::InsertionFailed("Failed to insert health record".to_owned()));
        }
        self.records.insert(record.id, record.clone());
        Ok(())
    }

    /// Lists `record` under each token of its symptoms and of its diagnosis.
    pub fn update_indexes(&mut self, record: &HealthRecord)
        ensures
            final(self).records() == old(self).records(),
            final(self).next_id() == old(self).next_id(),
            final(self).max_size() == old(self).max_size(),
            forall|t: Seq<char>| #[trigger]
                ids_in(final(self).symptom_index(), t) == ids_in(old(self).symptom_index(), t)
                    + repeat(record.id, count_of(tokens(record.symptoms@), t)),
            forall|t: Seq<char>| #[trigger]
                ids_in(final(self).diagnosis_index(), t) == ids_in(old(self).diagnosis_index(), t)
                    + repeat(record.id, count_of(tokens(record.diagnosis@), t)),
    {
        self.by_symptom.add(record.id, record.symptoms.as_str());
        self.by_diagnosis.add(record.id, record.diagnosis.as_str());
    }

    /// Takes `record` out of the lists of each token of its symptoms and of
    /// its diagnosis.
    pub fn remove_from_indexes(&mut self, record: &HealthRecord)
        ensures
            final(self).records() == old(self).records(),
            final(self).next_id() == old(self).next_id(),
            final(self).max_size() == old(self).max_size(),
            forall|t: Seq<char>| #[trigger]
                ids_in(final(self).symptom_index(), t) == ids_after_removal(
                    old(self).symptom_index(),
                    record.symptoms@,
                    record.id,
                    t,
                ),
            forall|t: Seq<char>| #[trigger]
                ids_in(final(self).diagnosis_index(), t) == ids_after_removal(
                    old(self).diagnosis_index(),
                    record.diagnosis@,
                    record.id,
                    t,
                ),
    {
        self.by_symptom.remove(record.id, record.symptoms.as_str());
        self.by_diagnosis.remove(record.id, record.diagnosis.as_str());
    }

    /// Creates a record from `payload`, stamped with `now`, under the next
    /// identifier, and indexes it.
    pub fn add_health_record(&mut self, payload: HealthRecordPayload, now: u64) -> (r: Result<HealthRecord, Error>)
        requires
            old(self).wf(),
            old(self).next_id() < u64::MAX,
        ensures
            final(self).wf(),
            Self::add_outcome(*old(self), payload, now, *final(self), r),
    {
        let ghost pre = *self;
        match validate(&payload) {
            Err(e) => return Err(e),
            Ok(()) => {},
        }
        let id = self.next_id;
        let record = HealthRecord {
            id,
            patient_name: payload.patient_name,
            symptoms: payload.symptoms,
            diagnosis: payload.diagnosis,
            treatment: payload.treatment,
            created_at: now,
            updated_at: None,
        };
        match self.do_insert(&record) {
            Err(e) => return Err(e),
            Ok(()) => {},
        }
        self.next_id = id + 1;
        self.update_indexes(&record);
        proof {
            assert(!pre.records().contains_key(id));
            assert(symptom_texts(self.records()) =~= symptom_texts(pre.records()).insert(
                id,
                record.symptoms@,
            ));
            assert(diagnosis_texts(self.records()) =~= diagnosis_texts(pre.records()).insert(
                id,
                record.diagnosis@,
            ));
            lemma_add_keeps_exact(
                pre.symptom_index(),
                self.symptom_index(),
                symptom_texts(pre.records()),
                id,
                record.symptoms@,
            );
            lemma_add_keeps_exact(
                pre.diagnosis_index(),
                self.diagnosis_index(),
                diagnosis_texts(pre.records()),
                id,
                record.diagnosis@,
            );
        }
        Ok(record)
    }

    /// Replaces the content of record `id` with `payload`, stamps it with
    /// `now`, and re-indexes it.
    pub fn update_health_record(&mut self, id: u64, payload: HealthRecordPayload, now: u64) -> (r: Result<HealthRecord, Error>)
        requires
            old(self).wf(),
        ensures
            final(self).wf(),
            Self::update_outcome(*old(self), id, payload, now, *final(self), r),
    {
        let ghost pre = *self;
        match validate(&payload) {
            Err(e) => return Err(e),
            Ok(()) => {},
        }
        let existing = match self._get_health_record(&id) {
            Some(rec) => rec,
            None => return Err(Error::NotFound { id }),
        };
        let record = HealthRecord {
            id,
            patient_name: payload.patient_name,
            symptoms: payload.symptoms,
            diagnosis: payload.diagnosis,
            treatment: payload.treatment,
            created_at: existing.created_at,
            updated_at: Some(now),
        };
        match self.do_insert(&record) {
            Err(e) => return Err(e),
            Ok(()) => {},
        }
        self.remove_from_indexes(&existing);
        let ghost mid = *self;
        self.update_indexes(&record);
        proof {
            let st = symptom_texts(pre.records());
            let dt = diagnosis_texts(pre.records());
            lemma_remove_keeps_exact(pre.symptom_index(), mid.symptom_index(), st, id);
            lemma_remove_keeps_exact(pre.diagnosis_index(), mid.diagnosis_index(), dt, id);
            assert(!st.remove(id).contains_key(id));
            lemma_add_keeps_exact(
                mid.symptom_index(),
                self.symptom_index(),
                st.remove(id),
                id,
                record.symptoms@,
            );
            lemma_add_keeps_exact(
                mid.diagnosis_index(),
                self.diagnosis_index(),
                dt.remove(id),
                id,
                record.diagnosis@,
            );
            assert(symptom_texts(self.records()) =~= st.remove(id).insert(id, record.symptoms@));
            assert(diagnosis_texts(self.records()) =~= dt.remove(id).insert(id, record.diagnosis@));
            assert forall|t: Seq<char>| #[trigger]
                ids_in(self.symptom_index(), t) == ids_after_removal(
                    pre.symptom_index(),
                    existing.symptoms@,
                    id,
                    t,
                ) + repeat(id, count_of(tokens(record.symptoms@), t)) by {
                assert(ids_in(mid.symptom_index(), t) == ids_after_removal(
                    pre.symptom_index(),
                    existing.symptoms@,
                    id,
                    t,
                ));
            }
            assert forall|t: Seq<char>| #[trigger]
                ids_in(self.diagnosis_index(), t) == ids_after_removal(
                    pre.diagnosis_index(),
                    existing.diagnosis@,
                    id,
                    t,
                ) + repeat(id, count_of(tokens(record.diagnosis@), t)) by {
                assert(ids_in(mid.diagnosis_index(), t) == ids_after_removal(
                    pre.diagnosis_index(),
                    existing.diagnosis@,
                    id,
                    t,
                ));
            }
        }
        Ok(record)
    }

    /// Removes record `id` and takes it out of both indexes.
    pub fn delete_health_record(&mut self, id: u64) -> (r: Result<HealthRecord, Error>)
        requires
            old(self).wf(),
        ensures
            final(self).wf(),
            Self::delete_outcome(*old(self), id, *final(self), r),
    {
        let ghost pre = *self;
        if !self.records.contains_key(&id) {
            return Err(Error::NotFound { id });
        }
        match self.records.remove(&id) {
            None => Err(Error::NotFound { id }),
            Some(record) => {
                self.remove_from_indexes(&record);
                proof {
                    let st = symptom_texts(pre.records());
                    let dt = diagnosis_texts(pre.records());
                    lemma_remove_keeps_exact(pre.symptom_index(), self.symptom_index(), st, id);
                    lemma_remove_keeps_exact(pre.diagnosis_index(), self.diagnosis_index(), dt, id);
                    assert(symptom_texts(self.records()) =~= st.remove(id));
                    assert(diagnosis_texts(self.records()) =~= dt.remove(id));
                }
                Ok(record)
            },
        }
    }
}

} // verus!
