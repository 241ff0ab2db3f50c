//! The letter-pair model: how well a word fits a language.
//!
//! The model knows, for each pair of letters, the surprisal of the pair: the
//! negative natural logarithm of its probability. Surprisals and scores are
//! whole numbers of nano-nats, so 1_000_000_000 stands for one nat.

use vstd::prelude::*;

use crate::text::{chars_of, text_between};
use crate::unicode::{self, first_lowercase};
use crate::words::WordSet;

verus! {

/// Code point of the first letter of the English alphabet.
pub const EN_BASE: u32 = 0x61;

/// Letters of the English alphabet.
pub const EN_N: u32 = 26;

/// Code point of the first letter of the Russian alphabet.
pub const RU_BASE: u32 = 0x430;

/// Letters of the Russian alphabet, with yo taken as ye.
pub const RU_N: u32 = 32;

/// Code point of the first letter of the Ukrainian alphabet.
pub const UA_BASE: u32 = 0x430;

/// Code points from the first Ukrainian letter to the last one of the block.
pub const UA_N: u32 = 40;

/// A switch is proposed only where the other language scores this much better
/// per pair of letters.
pub const THRESHOLD_PER_BIGRAM: i64 = 1_500_000_000;

/// The surprisal of a pair that is not a pair of letters.
pub const PENALTY: u64 = 10_000_000_000;

/// The largest surprisal that a table may hold.
pub const MAX_SURPRISAL: u64 = 1_000_000_000_000;

/// The place of a character in an alphabet of `n` letters that starts at
/// `base`; case does not matter, and yo counts as ye.
pub open spec fn letter_index(c: char, base: u32, n: u32) -> Option<u32> {
    let lower = unicode::lowercase_of(c)[0];
    let letter = if lower == 'ё' {
        'е'
    } else {
        lower
    };
    if base <= letter as u32 && (letter as u32) - base < n {
        Some(((letter as u32) - base) as u32)
    } else {
        None
    }
}

/// The places of all characters of a word.
pub open spec fn letters_of(word: Seq<char>, base: u32, n: u32) -> Seq<Option<u32>> {
    word.map_values(|c: char| letter_index(c, base, n))
}

/// How many places of a sequence are filled.
pub open spec fn filled(letters: Seq<Option<u32>>) -> nat {
    letters.filter(|l: Option<u32>| l is Some).len()
}

/// The surprisal of two neighbours: from the table where both are letters.
pub open spec fn pair_surprisal(a: Option<u32>, b: Option<u32>, table: Seq<u64>, n: u32) -> int {
    if a is Some && b is Some {
        table[a->0 * n + b->0] as int
    } else {
        PENALTY as int
    }
}

/// The surprisal of all neighbours together.
pub open spec fn total_surprisal(letters: Seq<Option<u32>>, table: Seq<u64>, n: u32) -> int
    decreases letters.len(),
{
    if letters.len() < 2 {
        0
    } else {
        total_surprisal(letters.drop_last(), table, n) + pair_surprisal(
            letters[letters.len() - 2],
            letters.last(),
            table,
            n,
        )
    }
}

/// The score of a word: the mean surprisal of its pairs of neighbours, counted
/// as a loss. A word with fewer than two letters has no score.
pub open spec fn score_of(word: Seq<char>, table: Seq<u64>, base: u32, n: u32) -> Option<i64> {
    let letters = letters_of(word, base, n);
    if filled(letters) < 2 {
        None
    } else {
        Some((-(total_surprisal(letters, table, n) / (letters.len() - 1))) as i64)
    }
}

/// A table has one entry per pair of letters, none of them too large.
pub open spec fn is_table(table: Seq<u64>, n: u32) -> bool {
    &&& table.len() == n * n
    &&& forall|i: int| 0 <= i < table.len() ==> #[trigger] table[i] <= MAX_SURPRISAL
}

proof fn lemma_pair_index(a: u32, b: u32, n: u32)
    requires
        a < n,
        b < n,
    ensures
        0 <= a * n + b < n * n,
        0 <= a * n,
{
    assert(0 <= a * n && a * n + b < n * n) by (nonlinear_arith)
        requires
            0 <= a < n,
            0 <= b < n,
    ;
}

proof fn lemma_total_bounds(letters: Seq<Option<u32>>, table: Seq<u64>, n: u32)
    requires
        is_table(table, n),
        forall|i: int| 0 <= i < letters.len() && #[trigger] letters[i] is Some ==> letters[i]->0 < n,
    ensures
        0 <= total_surprisal(letters, table, n),
        letters.len() >= 1 ==> total_surprisal(letters, table, n) <= (letters.len() - 1)
            * MAX_SURPRISAL,
    decreases letters.len(),
{
    if letters.len() >= 2 {
        lemma_total_bounds(letters.drop_last(), table, n);
        let a = letters[letters.len() - 2];
        let b = letters.last();
        if a is Some && b is Some {
            lemma_pair_index(a->0, b->0, n);
        }
    }
}

/// A sequence without an empty place is filled throughout.
pub proof fn lemma_all_filled(letters: Seq<Option<u32>>)
    requires
        forall|i: int| 0 <= i < letters.len() ==> #[trigger] letters[i] is Some,
    ensures
        filled(letters) == letters.len(),
    decreases letters.len(),
{
    reveal(Seq::filter);
    if letters.len() > 0 {
        assert(letters[letters.len() - 1] is Some);
        lemma_all_filled(letters.drop_last());
    }
}

/// The place of a character in an alphabet.
fn index_in(c: char, base: u32, n: u32) -> (r: Option<u32>)
    ensures
        r == letter_index(c, base, n),
        r matches Some(i) ==> i < n,
{
    let lower: char = first_lowercase(c);
    let letter: char = if lower == 'ё' {
        'е'
    } else {
        lower
    };
    let code: u32 = letter as u32;
    if base <= code && code - base < n {
        Some(code - base)
    } else {
        None
    }
}

/// The score of a word under a table of pairs.
pub fn score(word: &str, table: &Vec<u64>, base: u32, n: u32) -> (r: Option<i64>)
    requires
        is_table(table@, n),
    ensures
        r == score_of(word@, table@, base, n),
        r matches Some(s) ==> -MAX_SURPRISAL <= s <= 0,
{
    let ghost whole = letters_of(word@, base, n);
    let mut letters: Vec<Option<u32>> = Vec::new();
    let mut count: usize = 0;
    for c in it: word.chars()
        invariant
            it.seq() == word@,
            whole == letters_of(word@, base, n),
            letters@ == whole.take(it.index() as int),
            count == filled(letters@),
            count <= letters@.len(),
            forall|i: int|
                0 <= i < letters@.len() && #[trigger] letters@[i] is Some ==> letters@[i]->0 < n,
    {
        let l = index_in(c, base, n);
        let ghost before = letters@;
        letters.push(l);
        proof {
            assert(letters@ =~= whole.take(it.index() + 1));
            assert(letters@.drop_last() =~= before);
            reveal(Seq::filter);
        }
        assert(count < letters.len());
        if l.is_some() {
            count = count + 1;
        }
    }
    assert(letters@ =~= whole);
    if count < 2 {
        return None;
    }
    proof {
        assert(filled(whole) >= 2);
    }
    let mut sum: u128 = 0;
    let mut i: usize = 1;
    proof {
        assert(letters@.take(1).len() == 1);
    }
    while i < letters.len()
        invariant
            1 <= i <= letters@.len(),
            letters@ == whole,
            is_table(table@, n),
            sum == total_surprisal(letters@.take(i as int), table@, n),
            sum <= (i - 1) * MAX_SURPRISAL,
            forall|k: int|
                0 <= k < letters@.len() && #[trigger] letters@[k] is Some ==> letters@[k]->0 < n,
        decreases letters.len() - i,
    {
        let cost: u64 = match (letters[i - 1], letters[i]) {
            (Some(a), Some(b)) => {
                proof {
                    lemma_pair_index(a, b, n);
                    assert(a * n + b < table.len());
                }
                table[(a as u64 * n as u64 + b as u64) as usize]
            },
            _ => PENALTY,
        };
        proof {
            let next = letters@.take(i + 1);
            assert(next.drop_last() =~= letters@.take(i as int));
            assert(next[next.len() - 2] == letters@[i - 1]);
            assert(next.last() == letters@[i as int]);
        }
        sum = sum + cost as u128;
        i += 1;
    }
    proof {
        assert(letters@.take(letters@.len() as int) =~= letters@);
        let pairs = letters@.len() - 1;
        vstd::arithmetic::div_mod::lemma_div_is_ordered(
            sum as int,
            pairs * MAX_SURPRISAL,
            pairs,
        );
        vstd::arithmetic::div_mod::lemma_div_multiples_vanish(MAX_SURPRISAL as int, pairs);
        vstd::arithmetic::div_mod::lemma_div_pos_is_pos(sum as int, pairs);
        assert(pairs * MAX_SURPRISAL == MAX_SURPRISAL * pairs) by (nonlinear_arith);
    }
    let mean: u128 = sum / ((letters.len() - 1) as u128);
    Some(-(mean as i64))
}

/// The tables and dictionaries of the three languages.
#[derive(Debug)]
pub struct LanguageModel {
    en_table: Vec<u64>,
    ru_table: Vec<u64>,
    ua_table: Vec<u64>,
    en_words: WordSet,
    ru_words: WordSet,
    ua_words: WordSet,
}

impl LanguageModel {
    #[verifier::type_invariant]
    spec fn fits(&self) -> bool {
        &&& is_table(self.en_table@, EN_N)
        &&& is_table(self.ru_table@, RU_N)
        &&& is_table(self.ua_table@, UA_N)
    }

    pub closed spec fn en_pairs(&self) -> Seq<u64> {
        self.en_table@
    }

    pub closed spec fn ru_pairs(&self) -> Seq<u64> {
        self.ru_table@
    }

    pub closed spec fn ua_pairs(&self) -> Seq<u64> {
        self.ua_table@
    }

    /// The common English words.
    pub closed spec fn en_dictionary(&self) -> Set<Seq<char>> {
        self.en_words@
    }

    /// The common Russian words.
    pub closed spec fn ru_dictionary(&self) -> Set<Seq<char>> {
        self.ru_words@
    }

    /// The common Ukrainian words.
    pub closed spec fn ua_dictionary(&self) -> Set<Seq<char>> {
        self.ua_words@
    }

    /// Puts a model together; refuses tables of a wrong size or with an entry
    /// beyond `MAX_SURPRISAL`.
    pub fn new(
        en_table: Vec<u64>,
        ru_table: Vec<u64>,
        ua_table: Vec<u64>,
        en_words: WordSet,
        ru_words: WordSet,
        ua_words: WordSet,
    ) -> (r: Option<LanguageModel>)
        ensures
            r is Some <==> is_table(en_table@, EN_N) && is_table(ru_table@, RU_N) && is_table(
                ua_table@,
                UA_N,
            ),
            r matches Some(m) ==> {
                &&& m.en_pairs() == en_table@
                &&& m.ru_pairs() == ru_table@
                &&& m.ua_pairs() == ua_table@
                &&& m.en_dictionary() == en_words@
                &&& m.ru_dictionary() == ru_words@
                &&& m.ua_dictionary() == ua_words@
            },
    {
        if check_table(&en_table, EN_N) && check_table(&ru_table, RU_N) && check_table(
            &ua_table,
            UA_N,
        ) {
            Some(LanguageModel { en_table, ru_table, ua_table, en_words, ru_words, ua_words })
        } else {
            None
        }
    }

    /// Whether a word is among the common English words.
    pub fn is_common_en(&self, word: &str) -> (r: bool)
        ensures
            r == self.en_dictionary().contains(word@),
    {
        self.en_words.contains(word)
    }

    /// Whether a word is among the common Russian words.
    pub fn is_common_ru(&self, word: &str) -> (r: bool)
        ensures
            r == self.ru_dictionary().contains(word@),
    {
        self.ru_words.contains(word)
    }

    /// Whether a word is among the common Ukrainian words.
    pub fn is_common_ua(&self, word: &str) -> (r: bool)
        ensures
            r == self.ua_dictionary().contains(word@),
    {
        self.ua_words.contains(word)
    }
}

fn check_table(table: &Vec<u64>, n: u32) -> (r: bool)
    ensures
        r == is_table(table@, n),
{
    assert(n as u64 * n as u64 == n * n && n * n <= u64::MAX) by (nonlinear_arith)
        requires
            0 <= n <= u32::MAX,
    ;
    if table.len() as u64 != n as u64 * n as u64 {
        return false;
    }
    let mut i: usize = 0;
    while i < table.len()
        invariant
            i <= table@.len(),
            forall|j: int| 0 <= j < i ==> #[trigger] table@[j] <= MAX_SURPRISAL,
        decreases table.len() - i,
    {
        if table[i] > MAX_SURPRISAL {
            return false;
        }
        i += 1;
    }
    true
}

/// A word without the punctuation at its end.
pub open spec fn without_tail(word: Seq<char>) -> Seq<char>
    decreases word.len(),
{
    if word.len() > 0 && !unicode::is_letter(word.last()) {
        without_tail(word.drop_last())
    } else {
        word
    }
}

/// The end of a word does not count where it is punctuation.
pub proof fn lemma_without_tail(word: Seq<char>, len: int)
    requires
        0 <= len <= word.len(),
        forall|i: int| len <= i < word.len() ==> !unicode::is_letter(#[trigger] word[i]),
    ensures
        without_tail(word) == without_tail(word.take(len)),
        without_tail(word).len() <= len,
        without_tail(word) == word.take(without_tail(word).len() as int),
    decreases word.len(),
{
    if len < word.len() {
        let rest = word.drop_last();
        assert(!unicode::is_letter(word[word.len() - 1]));
        assert forall|i: int| len <= i < rest.len() implies !unicode::is_letter(
            #[trigger] rest[i],
        ) by {
            assert(rest[i] == word[i]);
        }
        lemma_without_tail(rest, len);
        assert(rest.take(len) =~= word.take(len));
        assert(rest.take(without_tail(word).len() as int) =~= word.take(
            without_tail(word).len() as int,
        ));
    } else if word.len() > 0 && !unicode::is_letter(word.last()) {
        let rest = word.drop_last();
        lemma_without_tail(rest, rest.len() as int);
        assert(word.take(len) =~= word);
        assert(rest.take(without_tail(word).len() as int) =~= word.take(
            without_tail(word).len() as int,
        ));
    } else {
        assert(word.take(len) =~= word);
    }
}

/// Takes the punctuation at the end of a word away.
fn cut_tail(word: &str) -> (r: String)
    ensures
        r@ == without_tail(word@),
{
    let chars: Vec<char> = chars_of(word);
    let mut len: usize = chars.len();
    while len > 0 && !chars[len - 1].is_alphabetic()
        invariant
            len <= chars@.len(),
            forall|i: int| len <= i < chars@.len() ==> !unicode::is_letter(#[trigger] chars@[i]),
        decreases len,
    {
        len -= 1;
    }
    proof {
        lemma_without_tail(word@, len as int);
        assert(chars@.subrange(0, len as int) =~= word@.take(len as int));
    }
    text_between(&chars, 0, len)
}

/// The score of a word as an English one. Punctuation at its end does not
/// count; within the word it does.
pub open spec fn en_score(word: Seq<char>, model: &LanguageModel) -> Option<i64> {
    score_of(without_tail(word), model.en_pairs(), EN_BASE, EN_N)
}

/// The score of a word as a Russian one.
pub open spec fn ru_score(word: Seq<char>, model: &LanguageModel) -> Option<i64> {
    score_of(without_tail(word), model.ru_pairs(), RU_BASE, RU_N)
}

/// The score of a word as a Ukrainian one.
pub open spec fn ua_score(word: Seq<char>, model: &LanguageModel) -> Option<i64> {
    score_of(without_tail(word), model.ua_pairs(), UA_BASE, UA_N)
}

/// Scores a word as an English one; `None` for fewer than two letters.
pub fn score_en(word: &str, model: &LanguageModel) -> (r: Option<i64>)
    ensures
        r == en_score(word@, model),
{
    proof {
        use_type_invariant(model);
    }
    score(cut_tail(word).as_str(), &model.en_table, EN_BASE, EN_N)
}

/// Scores a word as a Russian one; `None` for fewer than two letters.
pub fn score_ru(word: &str, model: &LanguageModel) -> (r: Option<i64>)
    ensures
        r == ru_score(word@, model),
{
    proof {
        use_type_invariant(model);
    }
    score(cut_tail(word).as_str(), &model.ru_table, RU_BASE, RU_N)
}

/// Scores a word as a Ukrainian one; `None` for fewer than two letters.
pub fn score_ua(word: &str, model: &LanguageModel) -> (r: Option<i64>)
    ensures
        r == ua_score(word@, model),
{
    proof {
        use_type_invariant(model);
    }
    score(cut_tail(word).as_str(), &model.ua_table, UA_BASE, UA_N)
}

/// Punctuation after a word makes no difference to its scores.
pub proof fn law_punctuation_at_the_end_does_not_count(
    word: Seq<char>,
    tail: Seq<char>,
    model: &LanguageModel,
)
    requires
        forall|i: int| 0 <= i < tail.len() ==> !unicode::is_letter(#[trigger] tail[i]),
    ensures
        en_score(word + tail, model) == en_score(word, model),
        ru_score(word + tail, model) == ru_score(word, model),
        ua_score(word + tail, model) == ua_score(word, model),
{
    let whole = word + tail;
    assert forall|i: int| word.len() <= i < whole.len() implies !unicode::is_letter(
        #[trigger] whole[i],
    ) by {
        assert(whole[i] == tail[i - word.len()]);
    }
    lemma_without_tail(whole, word.len() as int);
    assert(whole.take(word.len() as int) =~= word);
}

// -- Counting pairs -------------------------------------------------------------------

/// The letters of a text, one after the other, whatever lies between them.
pub open spec fn letters_in(text: Seq<char>, base: u32, n: u32) -> Seq<u32>
    decreases text.len(),
{
    if text.len() == 0 {
        Seq::empty()
    } else {
        let before = letters_in(text.drop_last(), base, n);
        match letter_index(text.last(), base, n) {
            Some(l) => before.push(l),
            None => before,
        }
    }
}

/// How often two letters follow one another.
pub open spec fn times_paired(letters: Seq<u32>, a: u32, b: u32) -> nat
    decreases letters.len(),
{
    if letters.len() < 2 {
        0
    } else {
        times_paired(letters.drop_last(), a, b) + (if letters[letters.len() - 2] == a
            && letters.last() == b {
            1nat
        } else {
            0nat
        })
    }
}

/// How often each pair of letters occurs in a text. Every pair is counted once
/// more than it occurs, so that none is impossible.
#[derive(Debug)]
pub struct PairCounts {
    pub counts: Vec<u64>,
    pub total: u128,
}

/// The counts of all pairs of letters, each of them one more than it occurs.
pub open spec fn are_counts(counts: Seq<u64>, letters: Seq<u32>, n: u32) -> bool {
    &&& counts.len() == n * n
    &&& forall|a: u32, b: u32|
        a < n && b < n ==> #[trigger] counts[a * n + b] == times_paired(letters, a, b) + 1
}

/// The number of pairs that some letters make up.
pub open spec fn pairs_in(letters: Seq<u32>) -> int {
    if letters.len() < 2 {
        0
    } else {
        letters.len() - 1
    }
}

proof fn lemma_times_paired(letters: Seq<u32>, a: u32, b: u32)
    ensures
        times_paired(letters, a, b) <= pairs_in(letters),
    decreases letters.len(),
{
    if letters.len() >= 2 {
        lemma_times_paired(letters.drop_last(), a, b);
    }
}

proof fn lemma_distinct_pairs(a: u32, b: u32, c: u32, d: u32, n: u32)
    requires
        a < n,
        b < n,
        c < n,
        d < n,
        a * n + b == c * n + d,
    ensures
        a == c,
        b == d,
{
    assert(a == c) by (nonlinear_arith)
        requires
            0 <= b < n,
            0 <= d < n,
            a * n + b == c * n + d,
    ;
}

/// Counts how often each pair of letters occurs in a text.
pub fn build_table(text: &str, base: u32, n: u32) -> (r: PairCounts)
    requires
        n * n <= usize::MAX,
    ensures
        are_counts(r.counts@, letters_in(text@, base, n), n),
        r.total == n * n + pairs_in(letters_in(text@, base, n)),
{
    assert(0 <= n * n) by (nonlinear_arith)
        requires
            0 <= n,
    ;
    let size: usize = n as usize * n as usize;
    let mut counts: Vec<u64> = Vec::new();
    let mut k: usize = 0;
    while k < size
        invariant
            k <= size,
            counts@.len() == k,
            forall|i: int| 0 <= i < k ==> #[trigger] counts@[i] == 1,
        decreases size - k,
    {
        counts.push(1);
        k += 1;
    }
    let mut total: u128 = size as u128;
    let mut last: Option<u32> = None;
    let len: usize = text.unicode_len();
    proof {
        assert(text@.take(0) =~= Seq::<char>::empty());
        assert forall|a: u32, b: u32| a < n && b < n implies #[trigger] counts@[a * n + b]
            == times_paired(Seq::<u32>::empty(), a, b) + 1 by {
            lemma_pair_index(a, b, n);
        }
    }
    for c in it: text.chars()
        invariant
            it.seq() == text@,
            size == n * n,
            len == text@.len(),
            are_counts(counts@, letters_in(text@.take(it.index() as int), base, n), n),
            letters_in(text@.take(it.index() as int), base, n).len() <= it.index(),
            total == n * n + pairs_in(letters_in(text@.take(it.index() as int), base, n)),
            last == (if letters_in(text@.take(it.index() as int), base, n).len() == 0 {
                None
            } else {
                Some(letters_in(text@.take(it.index() as int), base, n).last())
            }),
            last matches Some(l) ==> l < n,
    {
        let ghost before = letters_in(text@.take(it.index() as int), base, n);
        proof {
            let next = text@.take(it.index() + 1);
            assert(next.drop_last() =~= text@.take(it.index() as int));
            assert(next.last() == c);
        }
        match index_in(c, base, n) {
            Some(b) => {
                let ghost after = before.push(b);
                proof {
                    assert(after.drop_last() =~= before);
                }
                match last {
                    Some(a) => {
                        proof {
                            lemma_pair_index(a, b, n);
                            lemma_times_paired(before, a, b);
                            assert(counts@[a * n + b] == times_paired(before, a, b) + 1);
                            assert(it.index() < len);
                        }
                        let at: usize = a as usize * n as usize + b as usize;
                        let ghost old_counts = counts@;
                        let count: u64 = counts[at];
                        counts.set(at, count + 1);
                        total = total + 1;
                        proof {
                            assert forall|x: u32, y: u32| x < n && y < n implies #[trigger] counts@[x
                                * n + y] == times_paired(after, x, y) + 1 by {
                                lemma_pair_index(x, y, n);
                                assert(old_counts[x * n + y] == times_paired(before, x, y) + 1);
                                if x * n + y == a * n + b {
                                    lemma_distinct_pairs(x, y, a, b, n);
                                }
                                assert(after[after.len() - 2] == a);
                            }
                        }
                    },
                    None => {
                        proof {
                            assert forall|x: u32, y: u32| x < n && y < n implies #[trigger] counts@[x
                                * n + y] == times_paired(after, x, y) + 1 by {
                                assert(counts@[x * n + y] == times_paired(before, x, y) + 1);
                            }
                        }
                    },
                }
                last = Some(b);
            },
            None => {},
        }
    }
    assert(text@.take(text@.len() as int) =~= text@);
    PairCounts { counts, total }
}

/// No pair of letters is impossible: each counts for one at least.
pub proof fn law_no_pair_is_impossible(counts: Seq<u64>, letters: Seq<u32>, n: u32, a: u32, b: u32)
    requires
        are_counts(counts, letters, n),
        a < n,
        b < n,
    ensures
        1 <= counts[a * n + b],
{
}

} // verus!
