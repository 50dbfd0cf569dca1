//! An inverted index from a token to the identifiers of the records whose
//! field holds that token.
use vstd::prelude::*;
use vstd::hash_map::StringHashMap;
use crate::tokens::{split_tokens, string_views, tokens};

verus! {

/// The identifiers listed under token `t`; empty where `t` was never indexed.
pub open spec fn ids_in(m: Map<Seq<char>, Seq<u64>>, t: Seq<char>) -> Seq<u64> {
    if m.contains_key(t) {
        m[t]
    } else {
        Seq::empty()
    }
}

/// `n` copies of `id`.
pub open spec fn repeat(id: u64, n: nat) -> Seq<u64> {
    Seq::new(n, |_j: int| id)
}

/// How many times `t` occurs in `s`.
pub open spec fn count_of(s: Seq<Seq<char>>, t: Seq<char>) -> nat
    decreases s.len(),
{
    if s.len() == 0 {
        0
    } else {
        count_of(s.drop_last(), t) + if s.last() == t {
            1nat
        } else {
            0nat
        }
    }
}

/// `s` with every occurrence of `id` taken out, the rest in order.
pub open spec fn without(s: Seq<u64>, id: u64) -> Seq<u64>
    decreases s.len(),
{
    if s.len() == 0 {
        s
    } else if s.last() == id {
        without(s.drop_last(), id)
    } else {
        without(s.drop_last(), id).push(s.last())
    }
}

/// The index `m` lists exactly the records of `texts` (identifier to indexed
/// field) under each token of their field.
pub open spec fn indexes_exactly(m: Map<Seq<char>, Seq<u64>>, texts: Map<u64, Seq<char>>) -> bool {
    &&& forall|t: Seq<char>, x: u64| #[trigger]
        ids_in(m, t).contains(x) ==> texts.contains_key(x) && tokens(texts[x]).contains(t)
    &&& forall|x: u64, t: Seq<char>|
        texts.contains_key(x) && #[trigger] tokens(texts[x]).contains(t) ==> ids_in(m, t).contains(
            x,
        )
}

/// A token occurs a positive number of times exactly when it occurs.
pub proof fn lemma_count_contains(s: Seq<Seq<char>>, t: Seq<char>)
    ensures
        count_of(s, t) > 0 <==> s.contains(t),
    decreases s.len(),
{
    if s.len() > 0 {
        lemma_count_contains(s.drop_last(), t);
        if s.drop_last().contains(t) {
            let j = choose|j: int| 0 <= j < s.drop_last().len() && s.drop_last()[j] == t;
            assert(s[j] == t);
        }
        if s.contains(t) && s.last() != t {
            let j = choose|j: int| 0 <= j < s.len() && s[j] == t;
            assert(s.drop_last()[j] == t);
        }
    }
}

/// Taking `id` out of a list keeps exactly the other identifiers.
pub proof fn lemma_without_contains(s: Seq<u64>, id: u64, x: u64)
    ensures
        without(s, id).contains(x) <==> s.contains(x) && x != id,
    decreases s.len(),
{
    if s.len() > 0 {
        lemma_without_contains(s.drop_last(), id, x);
        let w = without(s.drop_last(), id);
        if s.drop_last().contains(x) {
            let j = choose|j: int| 0 <= j < s.drop_last().len() && s.drop_last()[j] == x;
            assert(s[j] == x);
        }
        if s.contains(x) && s.last() != x {
            let j = choose|j: int| 0 <= j < s.len() && s[j] == x;
            assert(s.drop_last()[j] == x);
        }
        if s.last() != id {
            if w.contains(x) {
                let j = choose|j: int| 0 <= j < w.len() && w[j] == x;
                assert(w.push(s.last())[j] == x);
            }
            if s.last() == x {
                assert(w.push(s.last())[w.len() as int] == x);
            }
            if w.push(s.last()).contains(x) && s.last() != x {
                let w1 = w.push(s.last());
                let j = choose|j: int| 0 <= j < w1.len() && w1[j] == x;
                assert(w[j] == x);
            }
        }
    }
}

/// Taking `id` out twice is taking it out once.
pub proof fn lemma_without_twice(s: Seq<u64>, id: u64)
    ensures
        without(without(s, id), id) == without(s, id),
    decreases s.len(),
{
    if s.len() > 0 {
        lemma_without_twice(s.drop_last(), id);
        if s.last() != id {
            let w = without(s.drop_last(), id);
            assert(w.push(s.last()).drop_last() =~= w);
        }
    }
}

/// A prefix one longer holds `t` when the shorter one does or its new last item is `t`.
pub proof fn lemma_take_contains(s: Seq<Seq<char>>, k: int, t: Seq<char>)
    requires
        0 <= k < s.len(),
    ensures
        s.take(k + 1).contains(t) <==> s.take(k).contains(t) || s[k] == t,
{
    if s.take(k).contains(t) {
        let j = choose|j: int| 0 <= j < k && s.take(k)[j] == t;
        assert(s.take(k + 1)[j] == t);
    }
    if s[k] == t {
        assert(s.take(k + 1)[k] == t);
    }
    if s.take(k + 1).contains(t) && s[k] != t {
        let s1 = s.take(k + 1);
        let j = choose|j: int| 0 <= j < s1.len() && s1[j] == t;
        assert(s.take(k)[j] == t);
    }
}

/// Adding the record `id` with field `text` keeps an exact index exact.
pub proof fn lemma_add_keeps_exact(
    m: Map<Seq<char>, Seq<u64>>,
    m2: Map<Seq<char>, Seq<u64>>,
    texts: Map<u64, Seq<char>>,
    id: u64,
    text: Seq<char>,
)
    requires
        indexes_exactly(m, texts),
        !texts.contains_key(id),
        forall|t: Seq<char>| #[trigger]
            ids_in(m2, t) == ids_in(m, t) + repeat(id, count_of(tokens(text), t)),
    ensures
        indexes_exactly(m2, texts.insert(id, text)),
{
    let texts2 = texts.insert(id, text);
    assert forall|t: Seq<char>, x: u64| #[trigger]
        ids_in(m2, t).contains(x) implies texts2.contains_key(x) && tokens(texts2[x]).contains(t) by {
        let old_ids = ids_in(m, t);
        let j = choose|j: int| 0 <= j < ids_in(m2, t).len() && ids_in(m2, t)[j] == x;
        if j < old_ids.len() {
            assert(old_ids[j] == x);
            assert(old_ids.contains(x));
        } else {
            lemma_count_contains(tokens(text), t);
        }
    }
    assert forall|x: u64, t: Seq<char>|
        texts2.contains_key(x) && #[trigger] tokens(texts2[x]).contains(t) implies ids_in(
        m2,
        t,
    ).contains(x) by {
        let old_ids = ids_in(m, t);
        if x == id {
            lemma_count_contains(tokens(text), t);
            assert(ids_in(m2, t)[old_ids.len() as int] == x);
        } else {
            assert(tokens(texts[x]).contains(t));
            let j = choose|j: int| 0 <= j < old_ids.len() && old_ids[j] == x;
            assert(ids_in(m2, t)[j] == x);
        }
    }
}

/// Taking the record `id` out of an exact index leaves it exact.
pub proof fn lemma_remove_keeps_exact(
    m: Map<Seq<char>, Seq<u64>>,
    m2: Map<Seq<char>, Seq<u64>>,
    texts: Map<u64, Seq<char>>,
    id: u64,
)
    requires
        indexes_exactly(m, texts),
        texts.contains_key(id),
        forall|t: Seq<char>| #[trigger]
            ids_in(m2, t) == if tokens(texts[id]).contains(t) {
                without(ids_in(m, t), id)
            } else {
                ids_in(m, t)
            },
    ensures
        indexes_exactly(m2, texts.remove(id)),
{
    let texts2 = texts.remove(id);
    assert forall|t: Seq<char>, x: u64| #[trigger]
        ids_in(m2, t).contains(x) implies texts2.contains_key(x) && tokens(texts2[x]).contains(t) by {
        lemma_without_contains(ids_in(m, t), id, x);
        assert(ids_in(m, t).contains(x));
    }
    assert forall|x: u64, t: Seq<char>|
        texts2.contains_key(x) && #[trigger] tokens(texts2[x]).contains(t) implies ids_in(
        m2,
        t,
    ).contains(x) by {
        assert(tokens(texts[x]).contains(t));
        lemma_without_contains(ids_in(m, t), id, x);
    }
}

/// A copy of a list of identifiers.
fn copy_ids(v: &Vec<u64>) -> (r: Vec<u64>)
    ensures
        r@ == v@,
{
    let mut r: Vec<u64> = Vec::new();
    let mut i: usize = 0;
    while i < v.len()
        invariant
            i <= v@.len(),
            r@ == v@.take(i as int),
        decreases v.len() - i,
    {
        r.push(v[i]);
        i = i + 1;
        assert(r@ =~= v@.take(i as int));
    }
    assert(v@.take(v@.len() as int) =~= v@);
    r
}

/// A copy of a list of identifiers with every occurrence of `id` taken out.
fn copy_without(v: &Vec<u64>, id: u64) -> (r: Vec<u64>)
    ensures
        r@ == without(v@, id),
{
    let mut r: Vec<u64> = Vec::new();
    let mut i: usize = 0;
    assert(v@.take(0) =~= Seq::<u64>::empty());
    while i < v.len()
        invariant
            i <= v@.len(),
            r@ == without(v@.take(i as int), id),
        decreases v.len() - i,
    {
        assert(v@.take(i + 1).drop_last() =~= v@.take(i as int));
        if v[i] != id {
            r.push(v[i]);
        }
        i = i + 1;
    }
    assert(v@.take(v@.len() as int) =~= v@);
    r
}

/// A map from each token to the identifiers indexed under it, in the order in
/// which they were added, repeats included.
pub struct TokenIndex {
    map: StringHashMap<Vec<u64>>,
}

impl View for TokenIndex {
    type V = Map<Seq<char>, Seq<u64>>;

    closed spec fn view(&self) -> Map<Seq<char>, Seq<u64>> {
        self.map@.map_values(|v: Vec<u64>| v@)
    }
}

impl TokenIndex {
    /// An index with no token.
    pub fn new() -> (r: Self)
        ensures
            r@ == Map::<Seq<char>, Seq<u64>>::empty(),
    {
        let r = TokenIndex { map: StringHashMap::new() };
        assert(r@ =~= Map::<Seq<char>, Seq<u64>>::empty());
        r
    }

    /// The identifiers listed under `token`, in insertion order.
    pub fn lookup(&self, token: &str) -> (r: Vec<u64>)
        ensures
            r@ == ids_in(self@, token@),
    {
        match self.map.get(token) {
            Some(v) => copy_ids(v),
            None => Vec::new(),
        }
    }

    /// Appends `id` under each token of `text`, once per occurrence of the token.
    pub fn add(&mut self, id: u64, text: &str)
        ensures
            forall|t: Seq<char>| #[trigger]
                ids_in(final(self)@, t) == ids_in(old(self)@, t) + repeat(
                    id,
                    count_of(tokens(text@), t),
                ),
    {
        let ghost start = self@;
        let toks = split_tokens(text);
        let ghost tv = tokens(text@);
        let mut k: usize = 0;
        assert forall|t: Seq<char>| #[trigger]
            ids_in(self@, t) == ids_in(start, t) + repeat(id, count_of(tv.take(0), t)) by {
            assert(tv.take(0).len() == 0);
            assert(ids_in(start, t) + repeat(id, 0) =~= ids_in(start, t));
        }
        while k < toks.len()
            invariant
                string_views(toks@) == tv,
                tv == tokens(text@),
                k <= toks@.len(),
                forall|t: Seq<char>| #[trigger]
                    ids_in(self@, t) == ids_in(start, t) + repeat(id, count_of(tv.take(k as int), t)),
            decreases toks.len() - k,
        {
            let tok = &toks[k];
            assert(tv[k as int] == tok@);
            let ghost before = self@;
            let mut list: Vec<u64> = match self.map.get(tok.as_str()) {
                Some(v) => copy_ids(v),
                None => Vec::new(),
            };
            assert(list@ == ids_in(before, tok@));
            list.push(id);
            self.map.insert(tok.clone(), list);
            assert(tv.take(k + 1).drop_last() =~= tv.take(k as int));
            assert forall|t: Seq<char>| #[trigger]
                ids_in(self@, t) == ids_in(start, t) + repeat(id, count_of(tv.take(k + 1), t)) by {
                if t == tok@ {
                    let n = count_of(tv.take(k as int), t);
                    assert(repeat(id, n + 1) =~= repeat(id, n).push(id));
                    assert(ids_in(self@, t) =~= ids_in(start, t) + repeat(id, n + 1));
                } else {
                    assert(ids_in(self@, t) == ids_in(before, t));
                }
            }
            k = k + 1;
        }
        assert(tv.take(toks@.len() as int) =~= tv);
    }

    /// Takes `id` out of the list of each token of `text`.
    pub fn remove(&mut self, id: u64, text: &str)
        ensures
            forall|t: Seq<char>| #[trigger]
                ids_in(final(self)@, t) == if tokens(text@).contains(t) {
                    without(ids_in(old(self)@, t), id)
                } else {
                    ids_in(old(self)@, t)
                },
    {
        let ghost start = self@;
        let toks = split_tokens(text);
        let ghost tv = tokens(text@);
        let mut k: usize = 0;
        while k < toks.len()
            invariant
                string_views(toks@) == tv,
                tv == tokens(text@),
                k <= toks@.len(),
                forall|t: Seq<char>| #[trigger]
                    ids_in(self@, t) == if tv.take(k as int).contains(t) {
                        without(ids_in(start, t), id)
                    } else {
                        ids_in(start, t)
                    },
            decreases toks.len() - k,
        {
            let tok = &toks[k];
            assert(tv[k as int] == tok@);
            let ghost before = self@;
            match self.map.get(tok.as_str()) {
                Some(v) => {
                    let list = copy_without(v, id);
                    self.map.insert(tok.clone(), list);
                    assert(ids_in(self@, tok@) == without(ids_in(before, tok@), id));
                },
                None => {
                    assert(ids_in(before, tok@) =~= Seq::<u64>::empty());
                    assert(without(ids_in(before, tok@), id) == ids_in(before, tok@));
                },
            }
            assert(ids_in(self@, tok@) == without(ids_in(before, tok@), id));
            assert forall|t: Seq<char>| #[trigger]
                ids_in(self@, t) == if tv.take(k + 1).contains(t) {
                    without(ids_in(start, t), id)
                } else {
                    ids_in(start, t)
                } by {
                lemma_take_contains(tv, k as int, t);
                if t == tok@ {
                    lemma_without_twice(ids_in(start, t), id);
                    assert(tv.take(k + 1).contains(t));
                } else {
                    assert(ids_in(self@, t) == ids_in(before, t));
                }
            }
            k = k + 1;
        }
        assert(tv.take(toks@.len() as int) =~= tv);
    }
}

} // verus!
