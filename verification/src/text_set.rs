//! Sets of texts, kept in order.
use crate::text::{
    clone_texts, is_less, lemma_text_less_irreflexive, lemma_text_less_total,
    lemma_text_less_transitive, same_text, text_less, texts,
};
use vstd::prelude::*;

verus! {

/// A set of texts, in ascending order.
#[derive(Debug, Eq, PartialEq)]
pub struct TextSet {
    items: Vec<String>,
}

/// Whether each text is less than those behind it.
pub open spec fn ascending(s: Seq<Seq<char>>) -> bool {
    forall|i: int, j: int| 0 <= i < j < s.len() ==> text_less(#[trigger] s[i], #[trigger] s[j])
}

impl View for TextSet {
    type V = Seq<Seq<char>>;

    closed spec fn view(&self) -> Seq<Seq<char>> {
        texts(self.items@)
    }
}

/// The ascending texts with `t` among them.
pub open spec fn with_text(s: Seq<Seq<char>>, t: Seq<char>) -> Seq<Seq<char>> {
    if s.contains(t) {
        s
    } else {
        s.insert(place(s, t), t)
    }
}

/// The number of texts at the start that are less than `t`.
pub open spec fn place(s: Seq<Seq<char>>, t: Seq<char>) -> int
    decreases s.len(),
{
    if s.len() == 0 || !text_less(s[0], t) {
        0
    } else {
        1 + place(s.skip(1), t)
    }
}

proof fn lemma_place(s: Seq<Seq<char>>, t: Seq<char>)
    ensures
        0 <= place(s, t) <= s.len(),
        forall|i: int| 0 <= i < place(s, t) ==> text_less(#[trigger] s[i], t),
        place(s, t) < s.len() ==> !text_less(s[place(s, t)], t),
    decreases s.len(),
{
    if s.len() > 0 && text_less(s[0], t) {
        lemma_place(s.skip(1), t);
        assert forall|i: int| 0 <= i < place(s, t) implies text_less(#[trigger] s[i], t) by {
            if i > 0 {
                assert(s.skip(1)[i - 1] == s[i]);
            }
        }
    }
}

/// The place of a text is the only one of its kind.
proof fn lemma_place_is(s: Seq<Seq<char>>, t: Seq<char>, i: int)
    requires
        0 <= i <= s.len(),
        forall|j: int| 0 <= j < i ==> text_less(#[trigger] s[j], t),
        i < s.len() ==> !text_less(s[i], t),
    ensures
        place(s, t) == i,
{
    lemma_place(s, t);
    let k = place(s, t);
    if k < i {
        assert(text_less(s[k], t));
    }
    if i < k {
        assert(text_less(s[i], t));
    }
}

/// In ascending texts, `t` stands at its place or nowhere.
proof fn lemma_contains_at_place(s: Seq<Seq<char>>, t: Seq<char>)
    requires
        ascending(s),
    ensures
        s.contains(t) <==> place(s, t) < s.len() && s[place(s, t)] == t,
{
    lemma_place(s, t);
    let k = place(s, t);
    if s.contains(t) {
        let q = choose|q: int| 0 <= q < s.len() && s[q] == t;
        lemma_text_less_irreflexive(t);
        if q < k {
            assert(text_less(s[q], t));
        } else if q > k {
            assert(text_less(s[k], s[q]));
        }
    }
}

/// Ascending texts stay ascending.
pub proof fn lemma_with_text(s: Seq<Seq<char>>, t: Seq<char>)
    requires
        ascending(s),
    ensures
        ascending(with_text(s, t)),
        with_text(s, t).contains(t),
        forall|x: Seq<char>| #[trigger]
            with_text(s, t).contains(x) <==> s.contains(x) || x == t,
{
    lemma_place(s, t);
    let k = place(s, t);
    let w = with_text(s, t);
    if !s.contains(t) {
        assert(w[k] == t);
        assert forall|i: int, j: int| 0 <= i < j < w.len() implies text_less(
            #[trigger] w[i],
            #[trigger] w[j],
        ) by {
            if j < k {
                assert(w[i] == s[i] && w[j] == s[j]);
            } else if j == k {
                assert(w[i] == s[i]);
            } else if i < k {
                assert(w[i] == s[i] && w[j] == s[j - 1]);
            } else if i == k {
                assert(w[j] == s[j - 1]);
                lemma_text_less_total(s[k], t);
                if s[k] == t {
                    assert(s.contains(t));
                }
                if j - 1 > k {
                    lemma_text_less_transitive(t, s[k], s[j - 1]);
                }
            } else {
                assert(w[i] == s[i - 1] && w[j] == s[j - 1]);
            }
        }
        assert forall|x: Seq<char>| #[trigger] w.contains(x) <==> s.contains(x) || x == t by {
            if s.contains(x) {
                let q = choose|q: int| 0 <= q < s.len() && s[q] == x;
                if q < k {
                    assert(w[q] == x);
                } else {
                    assert(w[q + 1] == x);
                }
            }
            if w.contains(x) {
                let q = choose|q: int| 0 <= q < w.len() && w[q] == x;
                if q < k {
                    assert(s[q] == x);
                } else if q > k {
                    assert(s[q - 1] == x);
                }
            }
        }
    }
}

impl TextSet {
    #[verifier::type_invariant]
    spec fn wf(self) -> bool {
        ascending(texts(self.items@))
    }

    pub fn new() -> (r: TextSet)
        ensures
            r@ == Seq::<Seq<char>>::empty(),
    {
        let items: Vec<String> = Vec::new();
        assert(texts(items@) =~= Seq::<Seq<char>>::empty());
        TextSet { items }
    }

    fn place_of(&self, text: &str) -> (r: usize)
        ensures
            r == place(self@, text@),
            r <= self.items@.len(),
    {
        let mut i: usize = 0;
        while i < self.items.len() && is_less(self.items[i].as_str(), text)
            invariant
                i <= self.items@.len(),
                forall|j: int| 0 <= j < i ==> text_less(#[trigger] self@[j], text@),
            decreases self.items@.len() - i,
        {
            assert(self@[i as int] == self.items@[i as int]@);
            i = i + 1;
        }
        proof {
            if i < self.items@.len() {
                assert(self@[i as int] == self.items@[i as int]@);
            }
            lemma_place_is(self@, text@, i as int);
        }
        i
    }

    pub fn contains(&self, text: &str) -> (r: bool)
        ensures
            r == self@.contains(text@),
    {
        proof {
            use_type_invariant(self);
            lemma_contains_at_place(self@, text@);
        }
        let k: usize = self.place_of(text);
        if k < self.items.len() {
            assert(self@[k as int] == self.items@[k as int]@);
        }
        k < self.items.len() && same_text(self.items[k].as_str(), text)
    }

    /// Puts a text into the set.
    pub fn insert(&mut self, text: &str)
        ensures
            final(self)@ == with_text(old(self)@, text@),
    {
        proof {
            use_type_invariant(&*self);
            lemma_with_text(self@, text@);
        }
        if self.contains(text) {
            return ;
        }
        let k: usize = self.place_of(text);
        let ghost before = self@;
        let mut items = clone_texts(&self.items);
        assert(texts(items@) == before);
        items.insert(k, text.to_string());
        assert(texts(items@) =~= before.insert(k as int, text@));
        self.items = items;
    }

    /// The texts, in ascending order.
    pub fn to_vec(&self) -> (r: Vec<String>)
        ensures
            texts(r@) == self@,
            ascending(self@),
    {
        proof {
            use_type_invariant(self);
        }
        clone_texts(&self.items)
    }
}

impl Clone for TextSet {
    fn clone(&self) -> (r: TextSet)
        ensures
            r@ == self@,
    {
        proof {
            use_type_invariant(self);
        }
        TextSet { items: clone_texts(&self.items) }
    }
}

/// A text that is put into a set is in it, and nothing else comes in or leaves; the
/// order stays, and a text that is in it already changes nothing.
pub proof fn law_sets_hold_what_was_put_in(s: Seq<Seq<char>>, t: Seq<char>, x: Seq<char>)
    requires
        ascending(s),
    ensures
        with_text(s, t).contains(x) <==> s.contains(x) || x == t,
        ascending(with_text(s, t)),
        s.contains(t) ==> with_text(s, t) == s,
        !s.contains(t) ==> with_text(s, t).len() == s.len() + 1,
{
    lemma_with_text(s, t);
    lemma_place(s, t);
}

} // verus!
