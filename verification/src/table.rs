//! A table of values under string keys, each key at most once.
use crate::text::same_text;
use vstd::prelude::*;

verus! {

/// Values under string keys. The model of a table is a map from the keys'
/// characters to the values; `keys` lists the keys in the order in which they
/// were first put in.
#[derive(Debug)]
pub struct Table<V> {
    entries: Vec<(String, V)>,
}

/// Whether the entry `i` stands under the key `k`.
pub open spec fn key_at<V>(e: Seq<(String, V)>, k: Seq<char>, i: int) -> bool {
    0 <= i < e.len() && e[i].0@ == k
}

/// No two entries stand under one key.
pub open spec fn distinct_keys<V>(e: Seq<(String, V)>) -> bool {
    forall|i: int, j: int| 0 <= i < j < e.len() ==> #[trigger] e[i].0@ != #[trigger] e[j].0@
}

/// The map that a list of entries stands for.
pub open spec fn entry_map<V>(e: Seq<(String, V)>) -> Map<Seq<char>, V> {
    Map::new(
        |k: Seq<char>| exists|i: int| key_at(e, k, i),
        |k: Seq<char>| e[choose|i: int| key_at(e, k, i)].1,
    )
}

proof fn lemma_entry<V>(e: Seq<(String, V)>, i: int)
    requires
        distinct_keys(e),
        0 <= i < e.len(),
    ensures
        entry_map(e).contains_key(e[i].0@),
        entry_map(e)[e[i].0@] == e[i].1,
{
    let k = e[i].0@;
    assert(key_at(e, k, i));
    let c = choose|j: int| key_at(e, k, j);
    assert(key_at(e, k, c));
    if c < i {
        assert(e[c].0@ != e[i].0@);
    } else if i < c {
        assert(e[i].0@ != e[c].0@);
    }
}

proof fn lemma_entry_count<V>(e: Seq<(String, V)>)
    requires
        distinct_keys(e),
    ensures
        entry_map(e).dom().finite(),
        entry_map(e).dom().len() == e.len(),
    decreases e.len(),
{
    if e.len() == 0 {
        assert(entry_map(e).dom() =~= Set::<Seq<char>>::empty());
    } else {
        let f = e.drop_last();
        let k = e.last().0@;
        lemma_entry_count(f);
        assert forall|x: Seq<char>| #[trigger] entry_map(e).dom().contains(x) implies entry_map(
            f,
        ).dom().insert(k).contains(x) by {
            let i = choose|i: int| key_at(e, x, i);
            if i < f.len() {
                assert(key_at(f, x, i));
            }
        }
        assert forall|x: Seq<char>| #[trigger]
            entry_map(f).dom().insert(k).contains(x) implies entry_map(e).dom().contains(x) by {
            if x == k {
                assert(key_at(e, x, e.len() - 1));
            } else {
                let i = choose|i: int| key_at(f, x, i);
                assert(key_at(e, x, i));
            }
        }
        assert(entry_map(e).dom() =~= entry_map(f).dom().insert(k));
        if entry_map(f).dom().contains(k) {
            let i = choose|i: int| key_at(f, k, i);
            assert(e[i].0@ != e[e.len() - 1].0@);
        }
    }
}

impl<V> View for Table<V> {
    type V = Map<Seq<char>, V>;

    closed spec fn view(&self) -> Map<Seq<char>, V> {
        entry_map(self.entries@)
    }
}

impl<V> Table<V> {
    #[verifier::type_invariant]
    spec fn wf(self) -> bool {
        distinct_keys(self.entries@)
    }

    /// The keys, in the order in which they were first put in.
    pub closed spec fn keys(self) -> Seq<Seq<char>> {
        self.entries@.map_values(|e: (String, V)| e.0@)
    }

    /// A table without entries.
    pub fn new() -> (r: Self)
        ensures
            r@ == Map::<Seq<char>, V>::empty(),
            r.keys().len() == 0,
    {
        let r = Table { entries: Vec::new() };
        assert(r@ =~= Map::<Seq<char>, V>::empty());
        r
    }

    fn position(&self, key: &str) -> (r: Option<usize>)
        ensures
            match r {
                Some(i) => i < self.entries@.len() && self.entries@[i as int].0@ == key@
                    && self@.contains_key(key@) && self@[key@] == self.entries@[i as int].1,
                None => !self@.contains_key(key@),
            },
    {
        proof {
            use_type_invariant(self);
        }
        let mut i: usize = 0;
        while i < self.entries.len()
            invariant
                i <= self.entries@.len(),
                distinct_keys(self.entries@),
                forall|j: int| 0 <= j < i ==> self.entries@[j].0@ != key@,
            decreases self.entries@.len() - i,
        {
            if same_text(self.entries[i].0.as_str(), key) {
                proof {
                    lemma_entry(self.entries@, i as int);
                }
                return Some(i);
            }
            i = i + 1;
        }
        None
    }

    /// The value under `key`.
    pub fn get(&self, key: &str) -> (r: Option<&V>)
        ensures
            match r {
                Some(v) => self@.contains_key(key@) && *v == self@[key@],
                None => !self@.contains_key(key@),
            },
    {
        match self.position(key) {
            Some(i) => Some(&self.entries[i].1),
            None => None,
        }
    }

    /// Whether a value stands under `key`.
    pub fn contains_key(&self, key: &str) -> (r: bool)
        ensures
            r == self@.contains_key(key@),
    {
        self.position(key).is_some()
    }

    /// The number of entries. Each key is listed exactly once.
    pub fn len(&self) -> (n: usize)
        ensures
            n == self.keys().len(),
            self.keys().no_duplicates(),
            forall|k: Seq<char>| self@.contains_key(k) <==> #[trigger] self.keys().contains(k),
            self@.dom().finite(),
            n == self@.dom().len(),
    {
        proof {
            use_type_invariant(self);
            lemma_entry_count(self.entries@);
            assert forall|k: Seq<char>| self@.contains_key(k) <==> #[trigger] self.keys().contains(
                k,
            ) by {
                if self@.contains_key(k) {
                    let i = choose|i: int| key_at(self.entries@, k, i);
                    assert(self.keys()[i] == k);
                }
                if self.keys().contains(k) {
                    let i = choose|i: int| 0 <= i < self.keys().len() && self.keys()[i] == k;
                    assert(key_at(self.entries@, k, i));
                }
            }
            assert(self.keys().no_duplicates());
        }
        self.entries.len()
    }

    /// The key at place `i`.
    pub fn key(&self, i: usize) -> (r: &String)
        requires
            i < self.keys().len(),
        ensures
            r@ == self.keys()[i as int],
            self@.contains_key(r@),
    {
        proof {
            use_type_invariant(self);
            lemma_entry(self.entries@, i as int);
        }
        &self.entries[i].0
    }

    /// The value at place `i`.
    pub fn value(&self, i: usize) -> (r: &V)
        requires
            i < self.keys().len(),
        ensures
            self@.contains_key(self.keys()[i as int]),
            *r == self@[self.keys()[i as int]],
    {
        proof {
            use_type_invariant(self);
            lemma_entry(self.entries@, i as int);
        }
        &self.entries[i].1
    }

    /// Puts `value` under `key`; hands back the value that stood there.
    pub fn insert(&mut self, key: String, value: V) -> (r: Option<V>)
        ensures
            final(self)@ == old(self)@.insert(key@, value),
            match r {
                Some(v) => old(self)@.contains_key(key@) && v == old(self)@[key@],
                None => !old(self)@.contains_key(key@),
            },
            old(self)@.contains_key(key@) ==> final(self).keys() == old(self).keys(),
            !old(self)@.contains_key(key@) ==> final(self).keys() == old(self).keys().push(key@),
    {
        proof {
            use_type_invariant(&*self);
        }
        let found = self.position(key.as_str());
        let ghost before = self.entries@;
        let ghost k = key@;
        let mut entries: Vec<(String, V)> = Vec::new();
        std::mem::swap(&mut entries, &mut self.entries);
        match found {
            Some(i) => {
                let mut entry = (key, value);
                std::mem::swap(&mut entry, &mut entries[i]);
                assert(entries@ =~= before.update(i as int, (key, value)));
                proof {
                    assert(distinct_keys(entries@));
                    assert forall|x: Seq<char>| entry_map(entries@).contains_key(x) <==> entry_map(
                        before,
                    ).insert(k, value).contains_key(x) by {
                        if entry_map(entries@).contains_key(x) {
                            let j = choose|j: int| key_at(entries@, x, j);
                            assert(key_at(before, x, j));
                        }
                        if entry_map(before).contains_key(x) {
                            let j = choose|j: int| key_at(before, x, j);
                            assert(key_at(entries@, x, j));
                        }
                        if x == k {
                            assert(key_at(entries@, x, i as int));
                        }
                    }
                    assert forall|x: Seq<char>| #[trigger]
                        entry_map(entries@).contains_key(x) implies entry_map(entries@)[x]
                        == entry_map(before).insert(k, value)[x] by {
                        let j = choose|j: int| key_at(entries@, x, j);
                        lemma_entry(entries@, j);
                        lemma_entry(before, j);
                        if x == k {
                            if j < i {
                                assert(before[j].0@ != before[i as int].0@);
                            } else if i < j {
                                assert(before[i as int].0@ != before[j].0@);
                            }
                        } else {
                            assert(j != i);
                        }
                    }
                    assert(entry_map(entries@) =~= entry_map(before).insert(k, value));
                    assert(entries@.map_values(|e: (String, V)| e.0@) =~= before.map_values(
                        |e: (String, V)| e.0@,
                    ));
                }
                self.entries = entries;
                Some(entry.1)
            },
            None => {
                entries.push((key, value));
                proof {
                    assert(entries@ =~= before.push((key, value)));
                    assert forall|i: int, j: int| 0 <= i < j < entries@.len() implies #[trigger]
                        entries@[i].0@ != #[trigger] entries@[j].0@ by {
                        if j == before.len() {
                            assert(key_at(before, before[i].0@, i));
                        }
                    }
                    assert forall|x: Seq<char>| entry_map(entries@).contains_key(x) <==> entry_map(
                        before,
                    ).insert(k, value).contains_key(x) by {
                        if entry_map(entries@).contains_key(x) {
                            let j = choose|j: int| key_at(entries@, x, j);
                            if j < before.len() {
                                assert(key_at(before, x, j));
                            }
                        }
                        if entry_map(before).contains_key(x) {
                            let j = choose|j: int| key_at(before, x, j);
                            assert(key_at(entries@, x, j));
                        }
                        if x == k {
                            assert(key_at(entries@, x, before.len() as int));
                        }
                    }
                    assert forall|x: Seq<char>| #[trigger]
                        entry_map(entries@).contains_key(x) implies entry_map(entries@)[x]
                        == entry_map(before).insert(k, value)[x] by {
                        let j = choose|j: int| key_at(entries@, x, j);
                        lemma_entry(entries@, j);
                        if j < before.len() {
                            lemma_entry(before, j);
                        }
                    }
                    assert(entry_map(entries@) =~= entry_map(before).insert(k, value));
                    assert(entries@.map_values(|e: (String, V)| e.0@) =~= before.map_values(
                        |e: (String, V)| e.0@,
                    ).push(k));
                }
                self.entries = entries;
                None
            },
        }
    }

    /// Takes the value under `key` out.
    pub fn remove(&mut self, key: &str) -> (r: Option<V>)
        ensures
            final(self)@ == old(self)@.remove(key@),
            match r {
                Some(v) => old(self)@.contains_key(key@) && v == old(self)@[key@],
                None => !old(self)@.contains_key(key@),
            },
    {
        proof {
            use_type_invariant(&*self);
        }
        let found = self.position(key);
        let ghost before = self.entries@;
        match found {
            Some(i) => {
                let mut entries: Vec<(String, V)> = Vec::new();
                std::mem::swap(&mut entries, &mut self.entries);
                let entry = entries.remove(i);
                proof {
                    assert(entries@ =~= before.remove(i as int));
                    let back = |j: int| if j < i { j } else { j + 1 };
                    assert forall|j: int| 0 <= j < entries@.len() implies #[trigger] entries@[j]
                        == before[back(j)] by {}
                    assert forall|a: int, b: int| 0 <= a < b < entries@.len() implies #[trigger]
                        entries@[a].0@ != #[trigger] entries@[b].0@ by {
                        assert(before[back(a)].0@ != before[back(b)].0@);
                    }
                    assert forall|x: Seq<char>| entry_map(entries@).contains_key(x) <==> entry_map(
                        before,
                    ).remove(key@).contains_key(x) by {
                        if entry_map(entries@).contains_key(x) {
                            let j = choose|j: int| key_at(entries@, x, j);
                            assert(key_at(before, x, back(j)));
                            if back(j) < i {
                                assert(before[back(j)].0@ != before[i as int].0@);
                            } else {
                                assert(before[i as int].0@ != before[back(j)].0@);
                            }
                        }
                        if entry_map(before).contains_key(x) && x != key@ {
                            let j = choose|j: int| key_at(before, x, j);
                            if j < i {
                                assert(key_at(entries@, x, j));
                            } else {
                                assert(entries@[j - 1] == before[back(j - 1)]);
                                assert(key_at(entries@, x, j - 1));
                            }
                        }
                    }
                    assert forall|x: Seq<char>| #[trigger]
                        entry_map(entries@).contains_key(x) implies entry_map(entries@)[x]
                        == entry_map(before).remove(key@)[x] by {
                        let j = choose|j: int| key_at(entries@, x, j);
                        lemma_entry(entries@, j);
                        lemma_entry(before, back(j));
                    }
                    assert(entry_map(entries@) =~= entry_map(before).remove(key@));
                }
                self.entries = entries;
                Some(entry.1)
            },
            None => {
                assert(old(self)@ =~= old(self)@.remove(key@));
                None
            },
        }
    }
}

impl<V: Clone> Clone for Table<V> {
    fn clone(&self) -> (r: Table<V>)
        ensures
            r.keys() == self.keys(),
            r@.dom() == self@.dom(),
            forall|k: Seq<char>| #[trigger]
                self@.contains_key(k) ==> cloned(self@[k], r@[k]),
    {
        proof {
            use_type_invariant(self);
        }
        let mut entries: Vec<(String, V)> = Vec::new();
        let mut i: usize = 0;
        while i < self.entries.len()
            invariant
                i <= self.entries@.len(),
                entries@.len() == i,
                forall|j: int|
                    0 <= j < i ==> (#[trigger] entries@[j]).0@ == self.entries@[j].0@ && cloned(
                        self.entries@[j].1,
                        entries@[j].1,
                    ),
            decreases self.entries@.len() - i,
        {
            entries.push((self.entries[i].0.clone(), self.entries[i].1.clone()));
            i = i + 1;
        }
        proof {
            let a = self.entries@;
            let b = entries@;
            assert forall|i: int, j: int| 0 <= i < j < b.len() implies #[trigger] b[i].0@
                != #[trigger] b[j].0@ by {
                assert(a[i].0@ != a[j].0@);
            }
            assert forall|k: Seq<char>| #[trigger] entry_map(a).contains_key(k) implies entry_map(
                b,
            ).contains_key(k) && cloned(entry_map(a)[k], entry_map(b)[k]) by {
                let i = choose|i: int| key_at(a, k, i);
                lemma_entry(a, i);
                lemma_entry(b, i);
            }
            assert forall|k: Seq<char>| #[trigger] entry_map(b).contains_key(k) implies entry_map(
                a,
            ).contains_key(k) by {
                let i = choose|i: int| key_at(b, k, i);
                assert(key_at(a, k, i));
            }
            assert(entry_map(a).dom() =~= entry_map(b).dom());
        }
        let r = Table { entries };
        assert(r.keys() =~= self.keys());
        r
    }
}

/// A value that can be copied without changing its model.
pub trait Copied: Sized {
    type Model;

    spec fn model(&self) -> Self::Model;

    fn duplicate(&self) -> (r: Self)
        ensures
            r.model() == self.model(),
    ;
}

/// A copy of a table.
pub fn copy_table<V: Copied>(t: &Table<V>) -> (r: Table<V>)
    ensures
        r@.dom() == t@.dom(),
        forall|k: Seq<char>| #[trigger]
            t@.contains_key(k) ==> r@[k].model() == t@[k].model(),
{
    let mut out: Table<V> = Table::new();
    let n: usize = t.len();
    let ghost ids = t.keys();
    let mut i: usize = 0;
    while i < n
        invariant
            ids == t.keys(),
            n == ids.len(),
            i <= n,
            forall|k: Seq<char>| t@.contains_key(k) <==> #[trigger] ids.contains(k),
            forall|k: Seq<char>| #[trigger]
                out@.contains_key(k) <==> ids.take(i as int).contains(k),
            forall|k: Seq<char>| #[trigger]
                out@.contains_key(k) ==> out@[k].model() == t@[k].model(),
        decreases n - i,
    {
        let ghost done = ids.take(i as int);
        let ghost k0 = ids[i as int];
        proof {
            assert(ids.take(i + 1) =~= done.push(k0));
            lemma_push_contains(done, k0);
        }
        let value = t.value(i).duplicate();
        out.insert(t.key(i).clone(), value);
        i = i + 1;
    }
    proof {
        assert(ids.take(n as int) =~= ids);
        assert forall|k: Seq<char>| out@.dom().contains(k) <==> #[trigger] t@.dom().contains(k) by {
            assert(t@.contains_key(k) <==> ids.contains(k));
            assert(out@.contains_key(k) <==> ids.contains(k));
        }
        assert(out@.dom() =~= t@.dom());
    }
    out
}

/// What is pushed behind a sequence is in it, beside what was.
pub proof fn lemma_push_contains<A>(s: Seq<A>, a: A)
    ensures
        forall|x: A| #[trigger] s.push(a).contains(x) <==> s.contains(x) || x == a,
{
    assert forall|x: A| #[trigger] s.push(a).contains(x) <==> s.contains(x) || x == a by {
        if s.contains(x) {
            let i = choose|i: int| 0 <= i < s.len() && s[i] == x;
            assert(s.push(a)[i] == x);
        }
        if x == a {
            assert(s.push(a)[s.len() as int] == x);
        }
    }
}

} // verus!
