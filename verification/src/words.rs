//! Collections of words, kept in the order of words and searched by halving.

use vstd::prelude::*;

use crate::order::{self, place, Placement};

verus! {

/// The words stand in strictly increasing order.
pub open spec fn increasing(words: Seq<String>) -> bool {
    forall|i: int, j: int|
        0 <= i < j < words.len() ==> order::precedes(
            #[trigger] words[i]@,
            #[trigger] words[j]@,
        )
}

/// Where `w` stands in `words`.
pub open spec fn holds_word(words: Seq<String>, w: Seq<char>) -> bool {
    exists|i: int| 0 <= i < words.len() && #[trigger] words[i]@ == w
}

/// Finds the position of a word, or where it would have to be inserted.
fn find(words: &Vec<String>, w: &str) -> (r: Result<usize, usize>)
    requires
        increasing(words@),
    ensures
        match r {
            Ok(i) => i < words@.len() && words@[i as int]@ == w@,
            Err(i) => {
                &&& i <= words@.len()
                &&& !holds_word(words@, w@)
                &&& forall|j: int|
                    0 <= j < i ==> order::precedes(#[trigger] words@[j]@, w@)
                &&& forall|j: int|
                    i <= j < words@.len() ==> order::precedes(w@, #[trigger] words@[j]@)
            },
        },
{
    let mut low: usize = 0;
    let mut high: usize = words.len();
    while low < high
        invariant
            low <= high <= words@.len(),
            increasing(words@),
            forall|j: int| 0 <= j < low ==> order::precedes(#[trigger] words@[j]@, w@),
            forall|j: int|
                high <= j < words@.len() ==> order::precedes(w@, #[trigger] words@[j]@),
        decreases high - low,
    {
        let mid: usize = low + (high - low) / 2;
        match place(words[mid].as_str(), w) {
            Placement::Same => {
                return Ok(mid);
            },
            Placement::Before => {
                proof {
                    assert forall|j: int| 0 <= j < mid + 1 implies order::precedes(
                        #[trigger] words@[j]@,
                        w@,
                    ) by {
                        if j < mid {
                            order::lemma_precedes_transitive(
                                words@[j]@,
                                words@[mid as int]@,
                                w@,
                            );
                        }
                    }
                }
                low = mid + 1;
            },
            Placement::After => {
                proof {
                    assert forall|j: int| mid <= j < words@.len() implies order::precedes(
                        w@,
                        #[trigger] words@[j]@,
                    ) by {
                        if mid < j {
                            order::lemma_precedes_transitive(
                                w@,
                                words@[mid as int]@,
                                words@[j]@,
                            );
                        }
                    }
                }
                high = mid;
            },
        }
    }
    proof {
        if holds_word(words@, w@) {
            let i = choose|i: int| 0 <= i < words@.len() && #[trigger] words@[i]@ == w@;
            order::lemma_precedes_asymmetric(w@, words@[i]@);
            order::lemma_precedes_asymmetric(words@[i]@, w@);
        }
    }
    Err(low)
}

/// Putting a new word where `find` points keeps the order.
proof fn lemma_insert_keeps_order(words: Seq<String>, at: int, w: String)
    requires
        increasing(words),
        0 <= at <= words.len(),
        forall|j: int| 0 <= j < at ==> order::precedes(#[trigger] words[j]@, w@),
        forall|j: int|
            at <= j < words.len() ==> order::precedes(w@, #[trigger] words[j]@),
    ensures
        increasing(words.insert(at, w)),
        forall|v: Seq<char>| #[trigger]
            holds_word(words.insert(at, w), v) <==> holds_word(words, v) || v == w@,
{
    let after = words.insert(at, w);
    assert forall|v: Seq<char>| #[trigger] holds_word(after, v) <==> holds_word(words, v) || v
        == w@ by {
        if holds_word(words, v) {
            let i = choose|i: int| 0 <= i < words.len() && #[trigger] words[i]@ == v;
            if i < at {
                assert(after[i]@ == v);
            } else {
                assert(after[i + 1]@ == v);
            }
        }
        if v == w@ {
            assert(after[at]@ == v);
        }
        if holds_word(after, v) {
            let i = choose|i: int| 0 <= i < after.len() && #[trigger] after[i]@ == v;
            if i < at {
                assert(words[i]@ == v);
            } else if i > at {
                assert(words[i - 1]@ == v);
            }
        }
    }
}

/// Taking a word out keeps the order and takes out just that word.
proof fn lemma_remove_keeps_order(words: Seq<String>, at: int)
    requires
        increasing(words),
        0 <= at < words.len(),
    ensures
        increasing(words.remove(at)),
        forall|v: Seq<char>| #[trigger]
            holds_word(words.remove(at), v) <==> holds_word(words, v) && v != words[at]@,
{
    let after = words.remove(at);
    assert forall|v: Seq<char>| #[trigger] holds_word(after, v) <==> holds_word(words, v) && v
        != words[at]@ by {
        if holds_word(words, v) && v != words[at]@ {
            let i = choose|i: int| 0 <= i < words.len() && #[trigger] words[i]@ == v;
            if i < at {
                assert(after[i]@ == v);
            } else {
                assert(after[i - 1]@ == v);
            }
        }
        if holds_word(after, v) {
            let i = choose|i: int| 0 <= i < after.len() && #[trigger] after[i]@ == v;
            if i < at {
                assert(words[i]@ == v);
                order::lemma_precedes_asymmetric(words[i]@, words[at]@);
            } else {
                assert(words[i + 1]@ == v);
                order::lemma_precedes_asymmetric(words[at]@, words[i + 1]@);
            }
        }
    }
}

/// A set of words.
#[derive(Debug)]
pub struct WordSet {
    words: Vec<String>,
}

impl View for WordSet {
    type V = Set<Seq<char>>;

    closed spec fn view(&self) -> Set<Seq<char>> {
        Set::new(|w: Seq<char>| holds_word(self.words@, w))
    }
}

impl WordSet {
    #[verifier::type_invariant]
    spec fn in_order(&self) -> bool {
        increasing(self.words@)
    }

    /// The empty set.
    pub fn new() -> (r: WordSet)
        ensures
            r@ == Set::<Seq<char>>::empty(),
    {
        let r = WordSet { words: Vec::new() };
        assert(r@ =~= Set::<Seq<char>>::empty());
        r
    }

    /// The set of the words in a list.
    pub fn from_words(words: &Vec<String>) -> (r: WordSet)
        ensures
            forall|w: Seq<char>| #[trigger] r@.contains(w) <==> holds_word(words@, w),
    {
        let mut r = WordSet::new();
        let mut i: usize = 0;
        while i < words.len()
            invariant
                i <= words@.len(),
                forall|w: Seq<char>| #[trigger]
                    r@.contains(w) <==> holds_word(words@.take(i as int), w),
            decreases words.len() - i,
        {
            let ghost before = words@.take(i as int);
            let ghost after = words@.take(i + 1);
            proof {
                assert forall|w: Seq<char>| #[trigger] holds_word(after, w) <==> holds_word(
                    before,
                    w,
                ) || w == words@[i as int]@ by {
                    if holds_word(before, w) {
                        let j = choose|j: int| 0 <= j < before.len() && #[trigger] before[j]@ == w;
                        assert(after[j]@ == w);
                    }
                    if w == words@[i as int]@ {
                        assert(after[i as int]@ == w);
                    }
                    if holds_word(after, w) {
                        let j = choose|j: int| 0 <= j < after.len() && #[trigger] after[j]@ == w;
                        if j < i {
                            assert(before[j]@ == w);
                        }
                    }
                }
            }
            r.insert(words[i].clone());
            i += 1;
        }
        assert(words@.take(words@.len() as int) =~= words@);
        r
    }

    /// Whether a word belongs to the set.
    pub fn contains(&self, w: &str) -> (r: bool)
        ensures
            r == self@.contains(w@),
    {
        proof {
            use_type_invariant(self);
        }
        match find(&self.words, w) {
            Ok(_) => true,
            Err(_) => false,
        }
    }

    /// Adds a word; tells whether it was new.
    pub fn insert(&mut self, w: String) -> (r: bool)
        ensures
            final(self)@ == old(self)@.insert(w@),
            r == !old(self)@.contains(w@),
    {
        proof {
            use_type_invariant(&*self);
        }
        match find(&self.words, w.as_str()) {
            Ok(_) => {
                assert(self@ =~= old(self)@.insert(w@));
                false
            },
            Err(at) => {
                let ghost before = self.words@;
                let mut words: Vec<String> = Vec::new();
                std::mem::swap(&mut words, &mut self.words);
                proof {
                    lemma_insert_keeps_order(before, at as int, w);
                }
                words.insert(at, w);
                std::mem::swap(&mut words, &mut self.words);
                assert(self@ =~= old(self)@.insert(w@));
                true
            },
        }
    }

    /// Takes a word out of the set.
    pub fn remove(&mut self, w: &str)
        ensures
            final(self)@ == old(self)@.remove(w@),
    {
        proof {
            use_type_invariant(&*self);
        }
        match find(&self.words, w) {
            Ok(at) => {
                let ghost before = self.words@;
                let mut words: Vec<String> = Vec::new();
                std::mem::swap(&mut words, &mut self.words);
                proof {
                    lemma_remove_keeps_order(before, at as int);
                }
                let _ = words.remove(at);
                std::mem::swap(&mut words, &mut self.words);
                assert(self@ =~= old(self)@.remove(w@));
            },
            Err(_) => {
                assert(self@ =~= old(self)@.remove(w@));
            },
        }
    }

    /// The words of the set, in order.
    pub fn to_words(&self) -> (r: Vec<String>)
        ensures
            increasing(r@),
            forall|w: Seq<char>| #[trigger] self@.contains(w) <==> holds_word(r@, w),
    {
        proof {
            use_type_invariant(self);
        }
        let r = self.words.clone();
        assert(r@ =~= self.words@);
        r
    }
}

impl Clone for WordSet {
    fn clone(&self) -> (r: WordSet)
        ensures
            r@ == self@,
    {
        proof {
            use_type_invariant(self);
        }
        let words = self.words.clone();
        assert(words@ =~= self.words@);
        WordSet { words }
    }
}

impl Default for WordSet {
    fn default() -> (r: WordSet)
        ensures
            r@ == Set::<Seq<char>>::empty(),
    {
        WordSet::new()
    }
}

/// The position of a word in an increasing list that holds it.
spec fn position(words: Seq<String>, w: Seq<char>) -> int {
    choose|i: int| 0 <= i < words.len() && #[trigger] words[i]@ == w
}

proof fn lemma_position(words: Seq<String>, i: int)
    requires
        increasing(words),
        0 <= i < words.len(),
    ensures
        holds_word(words, words[i]@),
        position(words, words[i]@) == i,
{
    let p = position(words, words[i]@);
    assert(words[i]@ == words[i]@);
    if p < i {
        order::lemma_precedes_asymmetric(words[p]@, words[i]@);
    } else if i < p {
        order::lemma_precedes_asymmetric(words[i]@, words[p]@);
    }
}

/// A map from words to values.
#[derive(Debug)]
pub struct WordMap<V> {
    words: Vec<String>,
    values: Vec<V>,
}

impl<V> View for WordMap<V> {
    type V = Map<Seq<char>, V>;

    closed spec fn view(&self) -> Map<Seq<char>, V> {
        Map::new(
            |w: Seq<char>| holds_word(self.words@, w),
            |w: Seq<char>| self.values@[position(self.words@, w)],
        )
    }
}

impl<V> WordMap<V> {
    #[verifier::type_invariant]
    spec fn in_order(&self) -> bool {
        increasing(self.words@) && self.words@.len() == self.values@.len()
    }
}

impl<V: Copy> WordMap<V> {
    /// The empty map.
    pub fn new() -> (r: WordMap<V>)
        ensures
            r@ == Map::<Seq<char>, V>::empty(),
    {
        let r = WordMap { words: Vec::new(), values: Vec::new() };
        assert(r@ =~= Map::<Seq<char>, V>::empty());
        r
    }

    /// The value of a word.
    pub fn get(&self, w: &str) -> (r: Option<V>)
        ensures
            r == (if self@.contains_key(w@) {
                Some(self@[w@])
            } else {
                None
            }),
    {
        proof {
            use_type_invariant(self);
        }
        match find(&self.words, w) {
            Ok(i) => {
                proof {
                    lemma_position(self.words@, i as int);
                }
                Some(self.values[i])
            },
            Err(_) => None,
        }
    }

    /// Gives a word a value, in place of any that it had.
    pub fn insert(&mut self, w: String, v: V)
        ensures
            final(self)@ == old(self)@.insert(w@, v),
    {
        proof {
            use_type_invariant(&*self);
        }
        let ghost before = self.words@;
        let ghost values_before = self.values@;
        let mut whole = WordMap { words: Vec::new(), values: Vec::new() };
        std::mem::swap(&mut whole, self);
        let WordMap { mut words, mut values } = whole;
        match find(&words, w.as_str()) {
            Ok(at) => {
                values.set(at, v);
                *self = WordMap { words, values };
                proof {
                    lemma_position(before, at as int);
                    assert forall|u: Seq<char>| holds_word(before, u) implies (#[trigger] self@[u])
                        == old(self)@.insert(w@, v)[u] by {
                        lemma_position(before, position(before, u));
                    }
                    assert(self@ =~= old(self)@.insert(w@, v));
                }
            },
            Err(at) => {
                proof {
                    lemma_insert_keeps_order(before, at as int, w);
                }
                words.insert(at, w);
                values.insert(at, v);
                *self = WordMap { words, values };
                proof {
                    let after = self.words@;
                    assert(after[at as int]@ == w@);
                    lemma_position(after, at as int);
                    assert forall|u: Seq<char>| holds_word(before, u) implies (#[trigger] self@[u])
                        == old(self)@[u] by {
                        let i = position(before, u);
                        let j = if i < at { i } else { i + 1 };
                        assert(after[j] == before[i]);
                        lemma_position(after, j);
                    }
                    assert(self@ =~= old(self)@.insert(w@, v));
                }
            },
        }
    }

    /// Takes a word and its value out of the map.
    pub fn remove(&mut self, w: &str)
        ensures
            final(self)@ == old(self)@.remove(w@),
    {
        proof {
            use_type_invariant(&*self);
        }
        let ghost before = self.words@;
        let mut whole = WordMap { words: Vec::new(), values: Vec::new() };
        std::mem::swap(&mut whole, self);
        let WordMap { mut words, mut values } = whole;
        match find(&words, w) {
            Ok(at) => {
                proof {
                    lemma_remove_keeps_order(before, at as int);
                }
                let _ = words.remove(at);
                let _ = values.remove(at);
                *self = WordMap { words, values };
                proof {
                    let after = self.words@;
                    assert forall|u: Seq<char>| holds_word(after, u) implies (#[trigger] self@[u])
                        == old(self)@[u] by {
                        let i = position(after, u);
                        let j = if i < at { i } else { i + 1 };
                        assert(after[i] == before[j]);
                        lemma_position(before, j);
                    }
                    assert(self@ =~= old(self)@.remove(w@));
                }
            },
            Err(_) => {
                *self = WordMap { words, values };
                assert(self@ =~= old(self)@.remove(w@));
            },
        }
    }

    /// The words that have a value, in order.
    pub fn to_words(&self) -> (r: Vec<String>)
        ensures
            increasing(r@),
            forall|w: Seq<char>| #[trigger] self@.contains_key(w) <==> holds_word(r@, w),
    {
        proof {
            use_type_invariant(self);
        }
        let r = self.words.clone();
        assert(r@ =~= self.words@);
        r
    }
}

impl<V: Copy> Clone for WordMap<V> {
    fn clone(&self) -> (r: WordMap<V>)
        ensures
            r@ == self@,
    {
        proof {
            use_type_invariant(self);
        }
        let words = self.words.clone();
        assert(words@ =~= self.words@);
        let mut values: Vec<V> = Vec::new();
        let mut i: usize = 0;
        while i < self.values.len()
            invariant
                i <= self.values@.len(),
                values@ == self.values@.take(i as int),
            decreases self.values.len() - i,
        {
            values.push(self.values[i]);
            i += 1;
            assert(values@ =~= self.values@.take(i as int));
        }
        assert(values@ =~= self.values@);
        WordMap { words, values }
    }
}

impl<V: Copy> Default for WordMap<V> {
    fn default() -> (r: WordMap<V>)
        ensures
            r@ == Map::<Seq<char>, V>::empty(),
    {
        WordMap::new()
    }
}

} // verus!
