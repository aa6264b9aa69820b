use vstd::prelude::*;
use vstd::string::StrSliceExecFns;

verus! {

broadcast use vstd::std_specs::vec::group_vec_axioms;

/// Code points order characters.
pub open spec fn char_lt(a: char, b: char) -> bool {
    (a as int) < (b as int)
}

/// Lexicographic order of strings by code point, which is the order of their
/// UTF-8 bytes and so the order of `String`.
pub open spec fn str_lt(a: Seq<char>, b: Seq<char>) -> bool
    decreases a.len(),
{
    if a.len() == 0 {
        b.len() > 0
    } else if b.len() == 0 {
        false
    } else if a[0] != b[0] {
        char_lt(a[0], b[0])
    } else {
        str_lt(a.drop_first(), b.drop_first())
    }
}

/// Keys in strictly ascending order.
pub open spec fn sorted_keys(ks: Seq<Seq<char>>) -> bool {
    forall|i: int, j: int| 0 <= i < j < ks.len() ==> str_lt(#[trigger] ks[i], #[trigger] ks[j])
}

pub proof fn lemma_str_lt_irreflexive(a: Seq<char>)
    ensures
        !str_lt(a, a),
    decreases a.len(),
{
    if a.len() > 0 {
        lemma_str_lt_irreflexive(a.drop_first());
    }
}

pub proof fn lemma_str_lt_asymmetric(a: Seq<char>, b: Seq<char>)
    requires
        str_lt(a, b),
    ensures
        !str_lt(b, a),
    decreases a.len(),
{
    if a.len() > 0 && b.len() > 0 && a[0] == b[0] {
        lemma_str_lt_asymmetric(a.drop_first(), b.drop_first());
    }
}

pub proof fn lemma_str_lt_transitive(a: Seq<char>, b: Seq<char>, c: Seq<char>)
    requires
        str_lt(a, b),
        str_lt(b, c),
    ensures
        str_lt(a, c),
    decreases a.len(),
{
    if a.len() > 0 && b.len() > 0 && c.len() > 0 {
        if a[0] == b[0] && b[0] == c[0] {
            lemma_str_lt_transitive(a.drop_first(), b.drop_first(), c.drop_first());
        }
    }
}

pub proof fn lemma_str_lt_total(a: Seq<char>, b: Seq<char>)
    requires
        a != b,
    ensures
        str_lt(a, b) || str_lt(b, a),
    decreases a.len(),
{
    if a.len() > 0 && b.len() > 0 && a[0] == b[0] {
        if a.drop_first() == b.drop_first() {
            assert(a =~= seq![a[0]] + a.drop_first());
            assert(b =~= seq![b[0]] + b.drop_first());
        }
        lemma_str_lt_total(a.drop_first(), b.drop_first());
    } else if a.len() == 0 && b.len() == 0 {
        assert(a =~= b);
    } else if a.len() > 0 && b.len() > 0 {
        assert((a[0] as int) != (b[0] as int));
    }
}

/// Whether `a` comes before `b`.
pub fn str_less(a: &str, b: &str) -> (r: bool)
    ensures
        r == str_lt(a@, b@),
{
    let na = a.unicode_len();
    let nb = b.unicode_len();
    let mut i: usize = 0;
    proof {
        assert(a@.skip(0) =~= a@);
        assert(b@.skip(0) =~= b@);
    }
    while i < na && i < nb
        invariant
            na == a@.len(),
            nb == b@.len(),
            i <= na,
            i <= nb,
            str_lt(a@, b@) == str_lt(a@.skip(i as int), b@.skip(i as int)),
        decreases na - i,
    {
        let ca = a.get_char(i);
        let cb = b.get_char(i);
        if ca != cb {
            return (ca as u32) < (cb as u32);
        }
        proof {
            assert(a@.skip(i as int).drop_first() =~= a@.skip(i + 1));
            assert(b@.skip(i as int).drop_first() =~= b@.skip(i + 1));
        }
        i = i + 1;
    }
    i == na && i < nb
}

/// Whether two strings are equal.
pub fn str_equal(a: &str, b: &str) -> (r: bool)
    ensures
        r == (a@ == b@),
{
    let n = a.unicode_len();
    if n != b.unicode_len() {
        return false;
    }
    let mut i: usize = 0;
    while i < n
        invariant
            n == a@.len() == b@.len(),
            i <= n,
            forall|k: int| 0 <= k < i ==> a@[k] == b@[k],
        decreases n - i,
    {
        if a.get_char(i) != b.get_char(i) {
            return false;
        }
        i = i + 1;
    }
    assert(a@ =~= b@);
    true
}

/// A map from strings to values that keeps its keys in ascending order,
/// each key once.
#[derive(Debug)]
pub struct StrMap<V> {
    entries: Vec<(String, V)>,
}

/// A position that holds `k`.
pub open spec fn key_index(keys: Seq<Seq<char>>, k: Seq<char>) -> int {
    choose|i: int| 0 <= i < keys.len() && keys[i] == k
}

/// The value at a position that holds `k`.
pub open spec fn lookup<V>(keys: Seq<Seq<char>>, vals: Seq<V>, k: Seq<char>) -> V {
    vals[key_index(keys, k)]
}

impl<V> StrMap<V> {
    /// The keys are in ascending order.
    pub open spec fn wf(&self) -> bool {
        sorted_keys(self.key_seq())
    }

    /// The keys in ascending order.
    pub closed spec fn key_seq(&self) -> Seq<Seq<char>> {
        self.entries@.map_values(|e: (String, V)| e.0@)
    }

    /// The values, in the order of their keys.
    pub closed spec fn val_seq(&self) -> Seq<V> {
        self.entries@.map_values(|e: (String, V)| e.1)
    }

    /// The map from keys to values.
    pub open spec fn as_map(&self) -> Map<Seq<char>, V> {
        Map::new(
            |k: Seq<char>| self.key_seq().contains(k),
            |k: Seq<char>| lookup(self.key_seq(), self.val_seq(), k),
        )
    }

    /// There are as many keys as values.
    pub proof fn lemma_len(&self)
        ensures
            self.key_seq().len() == self.val_seq().len(),
    {
    }

    /// An empty map.
    pub fn new() -> (r: Self)
        ensures
            r.wf(),
            r.key_seq() == Seq::<Seq<char>>::empty(),
            r.val_seq() == Seq::<V>::empty(),
    {
        let r = StrMap { entries: Vec::new() };
        proof {
            assert(r.key_seq() =~= Seq::<Seq<char>>::empty());
            assert(r.val_seq() =~= Seq::<V>::empty());
        }
        r
    }

    /// The number of entries.
    pub fn len(&self) -> (r: usize)
        ensures
            r == self.key_seq().len(),
            r == self.val_seq().len(),
    {
        self.entries.len()
    }

    /// The key at position `i`.
    pub fn key_at(&self, i: usize) -> (r: &String)
        requires
            i < self.key_seq().len(),
        ensures
            r@ == self.key_seq()[i as int],
    {
        &self.entries[i].0
    }

    /// The value at position `i`.
    pub fn value_at(&self, i: usize) -> (r: &V)
        requires
            i < self.key_seq().len(),
        ensures
            *r == self.val_seq()[i as int],
    {
        &self.entries[i].1
    }

    /// The position of `key`, if it is a key.
    pub fn find(&self, key: &str) -> (r: Option<usize>)
        ensures
            r matches Some(i) ==> i < self.key_seq().len() && self.key_seq()[i as int] == key@,
            r is None ==> !self.key_seq().contains(key@),
    {
        let mut i: usize = 0;
        while i < self.entries.len()
            invariant
                i <= self.entries@.len(),
                forall|k: int| 0 <= k < i ==> self.entries@[k].0@ != key@,
            decreases self.entries.len() - i,
        {
            if str_equal(self.entries[i].0.as_str(), key) {
                return Some(i);
            }
            i = i + 1;
        }
        proof {
            if self.key_seq().contains(key@) {
                let k = choose|k: int| 0 <= k < self.key_seq().len() && self.key_seq()[k] == key@;
                assert(self.entries@[k].0@ == key@);
            }
        }
        None
    }

    /// The value of `key`, if it is a key.
    pub fn get(&self, key: &str) -> (r: Option<&V>)
        requires
            self.wf(),
        ensures
            r is Some <==> self.as_map().contains_key(key@),
            r matches Some(v) ==> *v == self.as_map()[key@],
    {
        match self.find(key) {
            Some(i) => {
                proof {
                    self.lemma_index(i as int);
                }
                Some(&self.entries[i].1)
            },
            None => None,
        }
    }

    /// The key at a position maps to the value at the same position.
    pub proof fn lemma_index(&self, i: int)
        requires
            self.wf(),
            0 <= i < self.key_seq().len(),
        ensures
            self.as_map().contains_key(self.key_seq()[i]),
            self.as_map()[self.key_seq()[i]] == self.val_seq()[i],
    {
        let k = self.key_seq()[i];
        assert(self.key_seq().contains(k));
        let j = key_index(self.key_seq(), k);
        if j != i {
            if j < i {
                assert(str_lt(self.key_seq()[j], self.key_seq()[i]));
            } else {
                assert(str_lt(self.key_seq()[i], self.key_seq()[j]));
            }
            lemma_str_lt_irreflexive(k);
        }
        assert(j == i);
    }

    /// A copy of the keys, in ascending order.
    pub fn keys(&self) -> (r: Vec<String>)
        ensures
            r@.map_values(|s: String| s@) == self.key_seq(),
    {
        let mut r: Vec<String> = Vec::new();
        for i in 0..self.entries.len()
            invariant
                r@.len() == i,
                i <= self.entries@.len(),
                forall|k: int| 0 <= k < i ==> (#[trigger] r@[k])@ == self.entries@[k].0@,
        {
            r.push(self.entries[i].0.clone());
        }
        assert(r@.map_values(|s: String| s@) =~= self.key_seq());
        r
    }

    /// Replaces the value at position `i`.
    pub fn set_value_at(&mut self, i: usize, value: V)
        requires
            i < old(self).key_seq().len(),
        ensures
            final(self).key_seq() == old(self).key_seq(),
            final(self).val_seq() == old(self).val_seq().update(i as int, value),
            old(self).wf() ==> final(self).wf(),
    {
        let (key, _) = self.entries.remove(i);
        self.entries.insert(i, (key, value));
        proof {
            assert(self.key_seq() =~= old(self).key_seq());
            assert(self.val_seq() =~= old(self).val_seq().update(i as int, value));
        }
    }

    /// The entries, in ascending key order.
    pub fn into_entries(self) -> (r: Vec<(String, V)>)
        ensures
            r@.map_values(|e: (String, V)| e.0@) == self.key_seq(),
            r@.map_values(|e: (String, V)| e.1) == self.val_seq(),
    {
        self.entries
    }

    /// Inserts `value` under `key`, replacing the value that was there.
    pub fn insert(&mut self, key: String, value: V)
        requires
            old(self).wf(),
        ensures
            final(self).wf(),
            final(self).as_map() == old(self).as_map().insert(key@, value),
    {
        let mut p: usize = 0;
        while p < self.entries.len() && str_less(self.entries[p].0.as_str(), key.as_str())
            invariant
                p <= self.entries@.len(),
                sorted_keys(self.key_seq()),
                forall|k: int| 0 <= k < p ==> str_lt(#[trigger] self.key_seq()[k], key@),
            decreases self.entries.len() - p,
        {
            p = p + 1;
        }
        if p < self.entries.len() && self.entries[p].0.eq(&key) {
            let ghost old_self = *self;
            self.set_value_at(p, value);
            proof {
                assert(old_self.key_seq()[p as int] == key@);
                assert forall|k: Seq<char>| #[trigger]
                    self.as_map().contains_key(k) == old_self.as_map().insert(
                        key@,
                        value,
                    ).contains_key(k) by {
                    if k == key@ {
                        assert(self.key_seq()[p as int] == k);
                    }
                }
                assert forall|k: Seq<char>| #[trigger] self.as_map().contains_key(k) implies self.as_map()[k]
                    == old_self.as_map().insert(key@, value)[k] by {
                    let j = key_index(self.key_seq(), k);
                    self.lemma_index(j);
                    old_self.lemma_index(j);
                    if j != p {
                        if j < p {
                            assert(str_lt(self.key_seq()[j], self.key_seq()[p as int]));
                        } else {
                            assert(str_lt(self.key_seq()[p as int], self.key_seq()[j]));
                        }
                        lemma_str_lt_irreflexive(k);
                    }
                }
                assert(self.as_map() =~= old_self.as_map().insert(key@, value));
            }
        } else {
            let ghost old_keys = self.key_seq();
            let ghost old_self = *self;
            proof {
                if p < self.entries@.len() {
                    assert(self.key_seq()[p as int] != key@);
                    lemma_str_lt_total(self.key_seq()[p as int], key@);
                }
                assert forall|j: int| p <= j < old_keys.len() implies str_lt(
                    key@,
                    #[trigger] old_keys[j],
                ) by {
                    if j > p {
                        lemma_str_lt_transitive(key@, old_keys[p as int], old_keys[j]);
                    }
                }
            }
            let ghost kv = key@;
            self.entries.insert(p, (key, value));
            proof {
                assert(self.key_seq() =~= old_keys.insert(p as int, kv));
                assert(sorted_keys(self.key_seq())) by {
                    assert forall|i: int, j: int|
                        0 <= i < j < self.key_seq().len() implies str_lt(
                        #[trigger] self.key_seq()[i],
                        #[trigger] self.key_seq()[j],
                    ) by {
                        if j < p {
                            assert(old_keys[i] == self.key_seq()[i]);
                        } else if j == p {
                        } else if i < p {
                            assert(str_lt(old_keys[i], kv));
                            assert(str_lt(kv, old_keys[j - 1]));
                            lemma_str_lt_transitive(old_keys[i], kv, old_keys[j - 1]);
                        } else if i == p {
                        } else {
                            assert(str_lt(old_keys[i - 1], old_keys[j - 1]));
                        }
                    }
                }
            }
            proof {
                assert(self.val_seq() =~= old_self.val_seq().insert(p as int, value));
                assert forall|k: Seq<char>| #[trigger]
                    self.as_map().contains_key(k) == old_self.as_map().insert(
                        kv,
                        value,
                    ).contains_key(k) by {
                    if old_keys.contains(k) {
                        let j = choose|j: int| 0 <= j < old_keys.len() && old_keys[j] == k;
                        if j < p {
                            assert(self.key_seq()[j] == k);
                        } else {
                            assert(self.key_seq()[j + 1] == k);
                        }
                    }
                    if self.key_seq().contains(k) && k != kv {
                        let j = choose|j: int| 0 <= j < self.key_seq().len() && self.key_seq()[j] == k;
                        if j < p {
                            assert(old_keys[j] == k);
                        } else {
                            assert(old_keys[j - 1] == k);
                        }
                    }
                    assert(self.key_seq()[p as int] == kv);
                }
                assert forall|k: Seq<char>| #[trigger] self.as_map().contains_key(k) implies self.as_map()[k]
                    == old_self.as_map().insert(kv, value)[k] by {
                    let j = key_index(self.key_seq(), k);
                    self.lemma_index(j);
                    if j < p {
                        old_self.lemma_index(j);
                        lemma_str_lt_irreflexive(k);
                    } else if j > p {
                        old_self.lemma_index(j - 1);
                        lemma_str_lt_irreflexive(k);
                    }
                }
                assert(self.as_map() =~= old_self.as_map().insert(kv, value));
            }
        }
    }
}

} // verus!
