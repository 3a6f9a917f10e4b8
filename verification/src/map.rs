//! A string-keyed map kept in ascending key order, as `BTreeMap<String, V>`
//! iterates.
use vstd::prelude::*;
use crate::text::chars_of;

verus! {

/// Lexicographic order on texts (the order of `String`'s `Ord`).
pub open spec fn text_lt(a: Seq<char>, b: Seq<char>) -> bool
    decreases a.len(),
{
    if a.len() == 0 {
        b.len() > 0
    } else if b.len() == 0 {
        false
    } else if a[0] != b[0] {
        a[0] < b[0]
    } else {
        text_lt(a.drop_first(), b.drop_first())
    }
}

pub proof fn lemma_text_lt_irreflexive(a: Seq<char>)
    ensures
        !text_lt(a, a),
    decreases a.len(),
{
    if a.len() > 0 {
        lemma_text_lt_irreflexive(a.drop_first());
    }
}

pub proof fn lemma_text_lt_trichotomy(a: Seq<char>, b: Seq<char>)
    ensures
        text_lt(a, b) || text_lt(b, a) || a == b,
    decreases a.len(),
{
    if a.len() > 0 && b.len() > 0 && a[0] == b[0] {
        lemma_text_lt_trichotomy(a.drop_first(), b.drop_first());
        if a.drop_first() == b.drop_first() {
            assert(a =~= seq![a[0]] + a.drop_first());
            assert(b =~= seq![b[0]] + b.drop_first());
        }
    } else if a.len() == 0 && b.len() == 0 {
        assert(a =~= b);
    }
}

pub proof fn lemma_text_lt_asymmetric(a: Seq<char>, b: Seq<char>)
    requires
        text_lt(a, b),
    ensures
        !text_lt(b, a),
    decreases a.len(),
{
    if a.len() > 0 && b.len() > 0 && a[0] == b[0] {
        lemma_text_lt_asymmetric(a.drop_first(), b.drop_first());
    }
}

pub proof fn lemma_text_lt_transitive(a: Seq<char>, b: Seq<char>, c: Seq<char>)
    requires
        text_lt(a, b),
        text_lt(b, c),
    ensures
        text_lt(a, c),
    decreases a.len(),
{
    if a.len() > 0 && b.len() > 0 && c.len() > 0 && a[0] == b[0] && b[0] == c[0] {
        lemma_text_lt_transitive(a.drop_first(), b.drop_first(), c.drop_first());
    }
}

pub fn text_lt_exec(a: &Vec<char>, b: &Vec<char>) -> (r: bool)
    ensures
        r == text_lt(a@, b@),
{
    let mut i: usize = 0;
    assert(a@.skip(0) =~= a@);
    assert(b@.skip(0) =~= b@);
    while i < a.len() && i < b.len() && a[i] == b[i]
        invariant
            i <= a.len(),
            i <= b.len(),
            text_lt(a@, b@) == text_lt(a@.skip(i as int), b@.skip(i as int)),
        decreases a.len() - i,
    {
        assert(a@.skip(i as int).drop_first() =~= a@.skip(i + 1));
        assert(b@.skip(i as int).drop_first() =~= b@.skip(i + 1));
        i = i + 1;
    }
    if i == a.len() {
        i < b.len()
    } else if i == b.len() {
        false
    } else {
        a[i] < b[i]
    }
}

pub fn text_eq(a: &Vec<char>, b: &Vec<char>) -> (r: bool)
    ensures
        r == (a@ == b@),
{
    if a.len() != b.len() {
        return false;
    }
    let mut i: usize = 0;
    while i < a.len()
        invariant
            i <= a.len() == b.len(),
            forall|k: int| 0 <= k < i ==> a@[k] == b@[k],
        decreases a.len() - i,
    {
        if a[i] != b[i] {
            return false;
        }
        i = i + 1;
    }
    assert(a@ =~= b@);
    true
}

/// A map from names to values whose entries are kept in ascending,
/// duplicate-free key order.
#[derive(Debug)]
pub struct NamedMap<V> {
    pub entries: Vec<(String, V)>,
}

impl<V> NamedMap<V> {
    /// The keys, in order.
    pub open spec fn keys(&self) -> Seq<Seq<char>> {
        self.entries@.map_values(|e: (String, V)| e.0@)
    }

    /// Keys strictly ascend.
    pub open spec fn wf(&self) -> bool {
        forall|i: int, j: int|
            0 <= i < j < self.entries@.len() ==> text_lt(
                #[trigger] self.entries@[i].0@,
                #[trigger] self.entries@[j].0@,
            )
    }

    /// The value stored under `key`.
    pub open spec fn lookup(&self, key: Seq<char>) -> Option<V> {
        lookup_in(self.entries@, key)
    }

    pub open spec fn len(&self) -> nat {
        self.entries@.len()
    }

    pub fn new() -> (r: Self)
        ensures
            r.wf(),
            r.entries@.len() == 0,
    {
        NamedMap { entries: Vec::new() }
    }

    /// The index of `key`, if present.
    pub fn index_of(&self, key: &str) -> (r: Option<usize>)
        requires
            self.wf(),
        ensures
            match r {
                Some(i) => i < self.entries@.len() && self.entries@[i as int].0@ == key@,
                None => forall|i: int| 0 <= i < self.entries@.len() ==> self.entries@[i].0@ != key@,
            },
    {
        let k = chars_of(key);
        let mut i: usize = 0;
        while i < self.entries.len()
            invariant
                i <= self.entries@.len(),
                k@ == key@,
                forall|j: int| 0 <= j < i ==> self.entries@[j].0@ != key@,
            decreases self.entries.len() - i,
        {
            let name = chars_of(self.entries[i].0.as_str());
            if text_eq(&name, &k) {
                return Some(i);
            }
            i = i + 1;
        }
        None
    }

    /// The value stored under `key`.
    pub fn get(&self, key: &str) -> (r: Option<&V>)
        requires
            self.wf(),
        ensures
            match r {
                Some(v) => self.lookup(key@) == Some(*v),
                None => self.lookup(key@) is None,
            },
    {
        match self.index_of(key) {
            Some(i) => {
                proof {
                    self.lemma_lookup_at(i as int);
                }
                Some(&self.entries[i].1)
            },
            None => {
                proof {
                    lemma_lookup_none(self.entries@, key@);
                }
                None
            },
        }
    }

    pub proof fn lemma_lookup_at(&self, i: int)
        requires
            self.wf(),
            0 <= i < self.entries@.len(),
        ensures
            self.lookup(self.entries@[i].0@) == Some(self.entries@[i].1),
    {
        let key = self.entries@[i].0@;
        assert forall|j: int| 0 <= j < self.entries@.len() && j != i implies #[trigger] self.entries@[j].0@ != key by {
            lemma_text_lt_irreflexive(key);
            if j < i {
                assert(text_lt(self.entries@[j].0@, self.entries@[i].0@));
            } else {
                assert(text_lt(self.entries@[i].0@, self.entries@[j].0@));
            }
        }
        lemma_lookup_unique(self.entries@, i, key);
    }

    /// Stores `value` under `key`, replacing any value stored there.
    pub fn insert(&mut self, key: String, value: V)
        requires
            old(self).wf(),
        ensures
            final(self).wf(),
            final(self).lookup(key@) == Some(value),
            forall|k: Seq<char>| k != key@ ==> final(self).lookup(k) == old(self).lookup(k),
    {
        let k = chars_of(key.as_str());
        let mut i: usize = 0;
        while i < self.entries.len() && text_lt_exec(&chars_of(self.entries[i].0.as_str()), &k)
            invariant
                i <= self.entries@.len(),
                k@ == key@,
                forall|j: int| 0 <= j < i ==> text_lt(#[trigger] self.entries@[j].0@, key@),
            decreases self.entries.len() - i,
        {
            i = i + 1;
        }
        let ghost before = *self;
        let ghost pos = i as int;
        if i < self.entries.len() && text_eq(&chars_of(self.entries[i].0.as_str()), &k) {
            self.entries.set(i, (key, value));
            proof {
                assert forall|a: int, b: int|
                    0 <= a < b < self.entries@.len() implies text_lt(
                    #[trigger] self.entries@[a].0@,
                    #[trigger] self.entries@[b].0@,
                ) by {
                    assert(before.entries@[pos].0@ == key@);
                    assert(text_lt(before.entries@[a].0@, before.entries@[b].0@));
                }
                self.lemma_lookup_at(pos);
                assert forall|kk: Seq<char>| kk != key@ implies self.lookup(kk) == before.lookup(kk) by {
                    self.lemma_lookup_same(before, pos, kk);
                }
            }
        } else {
            proof {
                if i < self.entries.len() {
                    let n = self.entries@[pos].0@;
                    lemma_text_lt_trichotomy(key@, n);
                    assert(text_lt(key@, n));
                }
            }
            self.entries.insert(i, (key, value));
            proof {
                assert forall|a: int, b: int|
                    0 <= a < b < self.entries@.len() implies text_lt(
                    #[trigger] self.entries@[a].0@,
                    #[trigger] self.entries@[b].0@,
                ) by {
                    if b < pos {
                        assert(self.entries@[a] == before.entries@[a]);
                        assert(self.entries@[b] == before.entries@[b]);
                    } else if a < pos && b == pos {
                    } else if a < pos && b > pos {
                        assert(self.entries@[b] == before.entries@[b - 1]);
                        assert(text_lt(before.entries@[a].0@, before.entries@[b - 1].0@));
                    } else if a == pos {
                        assert(self.entries@[b] == before.entries@[b - 1]);
                        if b - 1 > pos {
                            assert(text_lt(before.entries@[pos].0@, before.entries@[b - 1].0@));
                            lemma_text_lt_transitive(key@, before.entries@[pos].0@, before.entries@[b - 1].0@);
                        }
                    } else {
                        assert(self.entries@[a] == before.entries@[a - 1]);
                        assert(self.entries@[b] == before.entries@[b - 1]);
                        assert(text_lt(before.entries@[a - 1].0@, before.entries@[b - 1].0@));
                    }
                }
                self.lemma_lookup_at(pos);
                assert forall|kk: Seq<char>| kk != key@ implies self.lookup(kk) == before.lookup(kk) by {
                    if exists|j: int| 0 <= j < before.entries@.len() && #[trigger] before.entries@[j].0@ == kk {
                        let j = choose|j: int| 0 <= j < before.entries@.len() && #[trigger] before.entries@[j].0@ == kk;
                        before.lemma_lookup_at(j);
                        let jj = if j < pos { j } else { j + 1 };
                        assert(self.entries@[jj] == before.entries@[j]);
                        self.lemma_lookup_at(jj);
                    } else {
                        assert forall|j: int| 0 <= j < self.entries@.len() implies #[trigger] self.entries@[j].0@ != kk by {
                            if j < pos {
                                assert(self.entries@[j] == before.entries@[j]);
                            } else if j > pos {
                                assert(self.entries@[j] == before.entries@[j - 1]);
                            }
                        }
                        lemma_lookup_none(self.entries@, kk);
                        lemma_lookup_none(before.entries@, kk);
                    }
                }
            }
        }
    }

    proof fn lemma_lookup_same(&self, before: Self, pos: int, kk: Seq<char>)
        requires
            self.wf(),
            before.wf(),
            self.entries@.len() == before.entries@.len(),
            0 <= pos < self.entries@.len(),
            self.entries@[pos].0@ == before.entries@[pos].0@,
            forall|j: int| 0 <= j < self.entries@.len() && j != pos ==> self.entries@[j] == before.entries@[j],
            kk != self.entries@[pos].0@,
        ensures
            self.lookup(kk) == before.lookup(kk),
    {
        if exists|j: int| 0 <= j < before.entries@.len() && #[trigger] before.entries@[j].0@ == kk {
            let j = choose|j: int| 0 <= j < before.entries@.len() && #[trigger] before.entries@[j].0@ == kk;
            before.lemma_lookup_at(j);
            self.lemma_lookup_at(j);
        } else {
            lemma_lookup_none(before.entries@, kk);
            assert forall|j: int| 0 <= j < self.entries@.len() implies #[trigger] self.entries@[j].0@ != kk by {
                if j != pos {
                    assert(self.entries@[j] == before.entries@[j]);
                }
            }
            lemma_lookup_none(self.entries@, kk);
        }
    }
}

/// The value of the last entry under `key`.
pub open spec fn lookup_in<V>(s: Seq<(String, V)>, key: Seq<char>) -> Option<V>
    decreases s.len(),
{
    if s.len() == 0 {
        None
    } else if s.last().0@ == key {
        Some(s.last().1)
    } else {
        lookup_in(s.drop_last(), key)
    }
}

pub proof fn lemma_lookup_none<V>(s: Seq<(String, V)>, key: Seq<char>)
    requires
        forall|j: int| 0 <= j < s.len() ==> #[trigger] s[j].0@ != key,
    ensures
        lookup_in(s, key) is None,
    decreases s.len(),
{
    if s.len() > 0 {
        assert(s.last() == s[s.len() - 1]);
        assert forall|j: int| 0 <= j < s.drop_last().len() implies #[trigger] s.drop_last()[j].0@ != key by {
            assert(s.drop_last()[j] == s[j]);
        }
        lemma_lookup_none(s.drop_last(), key);
    }
}

pub proof fn lemma_lookup_unique<V>(s: Seq<(String, V)>, i: int, key: Seq<char>)
    requires
        0 <= i < s.len(),
        s[i].0@ == key,
        forall|j: int| 0 <= j < s.len() && j != i ==> #[trigger] s[j].0@ != key,
    ensures
        lookup_in(s, key) == Some(s[i].1),
    decreases s.len(),
{
    if i < s.len() - 1 {
        assert(s.last() == s[s.len() - 1]);
        assert forall|j: int| 0 <= j < s.drop_last().len() && j != i implies #[trigger] s.drop_last()[j].0@ != key by {
            assert(s.drop_last()[j] == s[j]);
        }
        lemma_lookup_unique(s.drop_last(), i, key);
    }
}

/// Texts in strictly ascending order (so without repeats).
pub open spec fn ascending(s: Seq<Seq<char>>) -> bool {
    forall|i: int, j: int| 0 <= i < j < s.len() ==> text_lt(#[trigger] s[i], #[trigger] s[j])
}

pub open spec fn string_texts(v: Seq<String>) -> Seq<Seq<char>> {
    v.map_values(|s: String| s@)
}

impl<V> NamedMap<V> {
    /// A key is stored exactly when it is one of the entries' keys.
    pub proof fn lemma_lookup_some_iff(&self, k: Seq<char>)
        requires
            self.wf(),
        ensures
            self.lookup(k) is Some <==> self.keys().contains(k),
    {
        if self.keys().contains(k) {
            let j = choose|j: int| 0 <= j < self.keys().len() && self.keys()[j] == k;
            self.lemma_lookup_at(j);
        } else {
            assert forall|j: int| 0 <= j < self.entries@.len() implies #[trigger] self.entries@[j].0@ != k by {
                assert(self.keys()[j] == self.entries@[j].0@);
            }
            lemma_lookup_none(self.entries@, k);
        }
    }
}

/// The texts in ascending order, each once (`sort` then `dedup`).
pub fn sorted_unique(items: &Vec<String>) -> (r: Vec<String>)
    ensures
        ascending(string_texts(r@)),
        forall|x: Seq<char>| string_texts(r@).contains(x) <==> string_texts(items@).contains(x),
{
    let ghost iv = string_texts(items@);
    let mut m: NamedMap<bool> = NamedMap::new();
    let mut i: usize = 0;
    while i < items.len()
        invariant
            i <= items@.len(),
            iv == string_texts(items@),
            m.wf(),
            forall|x: Seq<char>| (#[trigger] m.lookup(x)) is Some <==> iv.take(i as int).contains(x),
        decreases items.len() - i,
    {
        let ghost before = m;
        m.insert(items[i].clone(), true);
        proof {
            assert forall|x: Seq<char>| (#[trigger] m.lookup(x)) is Some <==> iv.take(i + 1).contains(x) by {
                assert(iv.take(i + 1) =~= iv.take(i as int).push(iv[i as int]));
                if x != iv[i as int] {
                    assert(before.lookup(x) is Some <==> iv.take(i as int).contains(x));
                } else {
                    assert(iv.take(i + 1)[i as int] == x);
                }
            }
        }
        i = i + 1;
    }
    assert(iv.take(items@.len() as int) =~= iv);
    let mut r: Vec<String> = Vec::new();
    let mut k: usize = 0;
    while k < m.entries.len()
        invariant
            k <= m.entries@.len(),
            m.wf(),
            string_texts(r@) == m.keys().take(k as int),
        decreases m.entries.len() - k,
    {
        let ghost before = string_texts(r@);
        r.push(m.entries[k].0.clone());
        assert(string_texts(r@) =~= before.push(m.entries@[k as int].0@));
        assert(m.keys().take(k + 1) =~= m.keys().take(k as int).push(m.keys()[k as int]));
        k = k + 1;
    }
    proof {
        assert(m.keys().take(m.entries@.len() as int) =~= m.keys());
        assert forall|x: Seq<char>| string_texts(r@).contains(x) <==> string_texts(items@).contains(x) by {
            m.lemma_lookup_some_iff(x);
        }
        assert forall|a: int, b: int| 0 <= a < b < string_texts(r@).len() implies text_lt(
            #[trigger] string_texts(r@)[a],
            #[trigger] string_texts(r@)[b],
        ) by {
            assert(string_texts(r@)[a] == m.entries@[a].0@);
            assert(string_texts(r@)[b] == m.entries@[b].0@);
        }
    }
    r
}

} // verus!
