//! A key–value store of JSON values: the shell's persisted atoms, global
//! state, configuration and sign-in state.
use vstd::prelude::*;

use crate::json::{Json, JsonV, pairs_view, member, member_set, member_remove, unique_keys, find_key, set_member, remove_member, lemma_member_set_unique, lemma_member_remove, lemma_member_set_get, lemma_member_set_other, lemma_member_remove_other};

verus! {

/// A map from string keys to JSON values; no key occurs twice.
pub struct Store {
    entries: Vec<(String, Json)>,
}

impl View for Store {
    type V = Seq<(Seq<char>, JsonV)>;

    /// The entries, in the order they were first set.
    closed spec fn view(&self) -> Seq<(Seq<char>, JsonV)> {
        pairs_view(self.entries@)
    }
}

impl Store {
    /// No key occurs twice.
    pub open spec fn wf(&self) -> bool {
        unique_keys(self@)
    }

    /// An empty store.
    pub fn new() -> (r: Store)
        ensures
            r@ == Seq::<(Seq<char>, JsonV)>::empty(),
            r.wf(),
    {
        let r = Store { entries: Vec::new() };
        assert(pairs_view(r.entries@) =~= Seq::<(Seq<char>, JsonV)>::empty());
        r
    }

    /// The value stored under `key`.
    pub fn get(&self, key: &str) -> (r: Option<&Json>)
        ensures
            match member(self@, key@) {
                None => r is None,
                Some(v) => (r matches Some(x) && x@ == v),
            },
    {
        match find_key(&self.entries, key) {
            Some(i) => Some(&self.entries[i].1),
            None => None,
        }
    }

    /// Stores `value` under `key`, replacing what was there.
    pub fn insert(&mut self, key: String, value: Json)
        requires
            old(self).wf(),
        ensures
            final(self)@ == member_set(old(self)@, key@, value@),
            final(self).wf(),
    {
        proof {
            lemma_member_set_unique(self@, key@, value@);
        }
        set_member(&mut self.entries, key, value);
    }

    /// Removes what is stored under `key`.
    pub fn remove(&mut self, key: &str)
        requires
            old(self).wf(),
        ensures
            final(self)@ == member_remove(old(self)@, key@),
            final(self).wf(),
    {
        proof {
            lemma_member_remove(self@, key@);
        }
        remove_member(&mut self.entries, key);
    }

    /// Removes everything.
    pub fn clear(&mut self)
        ensures
            final(self)@ == Seq::<(Seq<char>, JsonV)>::empty(),
            final(self).wf(),
    {
        self.entries.clear();
        assert(pairs_view(self.entries@) =~= Seq::<(Seq<char>, JsonV)>::empty());
    }

    /// The entries as a JSON object.
    pub fn to_object(&self) -> (r: Json)
        ensures
            r@ == JsonV::Object(self@),
    {
        let mut out: Vec<(String, Json)> = Vec::new();
        let n = self.entries.len();
        for i in 0..n
            invariant
                n == self.entries@.len(),
                pairs_view(out@) == pairs_view(self.entries@).take(i as int),
        {
            let k = self.entries[i].0.clone();
            let v = self.entries[i].1.copy();
            let ghost before = out@;
            out.push((k, v));
            assert(pairs_view(out@) =~= pairs_view(before).push((k@, v@)));
            assert(pairs_view(self.entries@).take(i + 1) =~= pairs_view(self.entries@).take(i as int).push((k@, v@)));
        }
        assert(pairs_view(self.entries@).take(n as int) =~= pairs_view(self.entries@));
        Json::Object(out)
    }

    /// The stored keys and values, in order.
    pub fn entries(&self) -> (r: &Vec<(String, Json)>)
        ensures
            pairs_view(r@) == self@,
    {
        &self.entries
    }
}

/// A store reads back what was last written under a key, keeps every other
/// key as it was, and after a removal has nothing under the removed key.
pub proof fn law_store_read_after_write(
    s: Seq<(Seq<char>, JsonV)>,
    k: Seq<char>,
    v: JsonV,
    other: Seq<char>,
)
    requires
        unique_keys(s),
        other != k,
    ensures
        member(member_set(s, k, v), k) == Some(v),
        member(member_set(s, k, v), other) == member(s, other),
        member(member_remove(s, k), k) is None,
        member(member_remove(s, k), other) == member(s, other),
{
    lemma_member_set_get(s, k, v);
    lemma_member_set_other(s, k, v, other);
    lemma_member_remove(s, k);
    lemma_member_remove_other(s, k, other);
}

} // verus!
