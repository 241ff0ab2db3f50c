//! What the scores of words and the counts of pairs are.

use vstd::prelude::*;

use crate::bigrams::{self, LanguageModel};
use crate::unicode;

verus! {

// -- Letters ---------------------------------------------------------------------------

/// English letters count from a to z, Cyrillic ones from a to ya in Russian and on
/// to the end of the block in Ukrainian; capitals count as small letters, and yo
/// counts as ye. Nothing else has a place.
pub proof fn law_places_of_letters(c: char)
    ensures
        'a' <= c <= 'z' ==> bigrams::letter_index(c, bigrams::EN_BASE, bigrams::EN_N) == Some(
            (c as u32 - 0x61) as u32,
        ),
        'а' <= c <= 'я' ==> bigrams::letter_index(c, bigrams::RU_BASE, bigrams::RU_N) == Some(
            (c as u32 - 0x430) as u32,
        ),
        '\u{430}' <= c <= '\u{457}' && c != 'ё' ==> bigrams::letter_index(
            c,
            bigrams::UA_BASE,
            bigrams::UA_N,
        ) == Some((c as u32 - 0x430) as u32),
        c == 'ё' ==> bigrams::letter_index(c, bigrams::RU_BASE, bigrams::RU_N) == Some(5u32),
        c == 'ё' ==> bigrams::letter_index(c, bigrams::UA_BASE, bigrams::UA_N) == Some(5u32),
        unicode::keyboard_char(c) && !('a' <= unicode::keyboard_lower(c) <= 'z')
            ==> bigrams::letter_index(c, bigrams::EN_BASE, bigrams::EN_N) is None,
        unicode::keyboard_char(c) && !('а' <= unicode::keyboard_lower(c) <= 'я')
            && unicode::keyboard_lower(c) != 'ё' ==> bigrams::letter_index(
            c,
            bigrams::RU_BASE,
            bigrams::RU_N,
        ) is None,
        unicode::keyboard_char(c) && !('\u{430}' <= unicode::keyboard_lower(c) <= '\u{457}')
            ==> bigrams::letter_index(c, bigrams::UA_BASE, bigrams::UA_N) is None,
{
}

/// A capital has the place of its small letter, in every alphabet.
pub proof fn law_capitals_have_the_same_place(c: char, base: u32, n: u32)
    requires
        unicode::keyboard_char(c),
    ensures
        bigrams::letter_index(c, base, n) == bigrams::letter_index(
            unicode::keyboard_lower(c),
            base,
            n,
        ),
{
}

// -- Scores ----------------------------------------------------------------------------

/// What a pair of neighbours costs: what the table says of the two letters, and
/// ten nats where one of them is none.
pub open spec fn cost(word: Seq<char>, i: int, table: Seq<u64>, base: u32, n: u32) -> int {
    match (bigrams::letter_index(word[i], base, n), bigrams::letter_index(word[i + 1], base, n)) {
        (Some(a), Some(b)) => table[a * n + b] as int,
        _ => 10_000_000_000,
    }
}

/// What the pairs from one on cost together.
pub open spec fn costs_from(word: Seq<char>, i: int, table: Seq<u64>, base: u32, n: u32) -> int
    decreases word.len() - i,
{
    if i + 1 >= word.len() {
        0
    } else {
        cost(word, i, table, base, n) + costs_from(word, i + 1, table, base, n)
    }
}

/// Two characters at least are letters.
pub open spec fn has_two_letters(word: Seq<char>, base: u32, n: u32) -> bool {
    exists|i: int, j: int|
        #![trigger word[i], word[j]]
        0 <= i < j < word.len() && bigrams::letter_index(word[i], base, n) is Some
            && bigrams::letter_index(word[j], base, n) is Some
}

proof fn lemma_filled(letters: Seq<Option<u32>>)
    ensures
        bigrams::filled(letters) >= 1 <==> exists|i: int|
            0 <= i < letters.len() && #[trigger] letters[i] is Some,
        bigrams::filled(letters) >= 2 <==> exists|i: int, j: int|
            0 <= i < j < letters.len() && #[trigger] letters[i] is Some
                && #[trigger] letters[j] is Some,
    decreases letters.len(),
{
    reveal(Seq::filter);
    if letters.len() > 0 {
        let rest = letters.drop_last();
        let last = letters.len() - 1;
        lemma_filled(rest);
        if exists|i: int| 0 <= i < rest.len() && #[trigger] rest[i] is Some {
            let i = choose|i: int| 0 <= i < rest.len() && #[trigger] rest[i] is Some;
            assert(letters[i] is Some);
            if letters[last] is Some {
                assert(letters[i] is Some && letters[last] is Some);
            }
        }
        if exists|i: int| 0 <= i < letters.len() && #[trigger] letters[i] is Some {
            let i = choose|i: int| 0 <= i < letters.len() && #[trigger] letters[i] is Some;
            if i < last {
                assert(rest[i] is Some);
            }
        }
        if exists|i: int, j: int|
            0 <= i < j < rest.len() && #[trigger] rest[i] is Some && #[trigger] rest[j] is Some {
            let (i, j) = choose|i: int, j: int|
                0 <= i < j < rest.len() && #[trigger] rest[i] is Some && #[trigger] rest[j] is Some;
            assert(letters[i] is Some && letters[j] is Some);
        }
        if exists|i: int, j: int|
            0 <= i < j < letters.len() && #[trigger] letters[i] is Some
                && #[trigger] letters[j] is Some {
            let (i, j) = choose|i: int, j: int|
                0 <= i < j < letters.len() && #[trigger] letters[i] is Some
                    && #[trigger] letters[j] is Some;
            assert(rest[i] is Some);
            if j < last {
                assert(rest[i] is Some && rest[j] is Some);
            }
        }
    }
}

proof fn lemma_costs(word: Seq<char>, k: int, table: Seq<u64>, base: u32, n: u32)
    requires
        0 <= k < word.len(),
    ensures
        bigrams::total_surprisal(
            bigrams::letters_of(word, base, n).take(k + 1),
            table,
            n,
        ) + costs_from(word, k, table, base, n) == costs_from(word, 0, table, base, n),
    decreases k,
{
    let letters = bigrams::letters_of(word, base, n);
    if k > 0 {
        lemma_costs(word, k - 1, table, base, n);
        let some = letters.take(k + 1);
        assert(some.drop_last() =~= letters.take(k));
        assert(some[some.len() - 2] == letters[k - 1]);
        assert(some.last() == letters[k]);
    }
}

/// A word with two letters at least has a score: what its pairs of neighbours cost
/// on the average, without the fraction, as a loss. Any other word has none.
pub proof fn law_scores_are_means(word: Seq<char>, table: Seq<u64>, base: u32, n: u32)
    ensures
        ({
            let score = bigrams::score_of(word, table, base, n);
            &&& score is Some <==> has_two_letters(word, base, n)
            &&& score is Some ==> score == Some(
                (-(costs_from(word, 0, table, base, n) / (word.len() - 1))) as i64,
            )
        }),
{
    let letters = bigrams::letters_of(word, base, n);
    lemma_filled(letters);
    if word.len() > 0 {
        lemma_costs(word, word.len() - 1, table, base, n);
        assert(letters.take(word.len() as int) =~= letters);
    }
    if has_two_letters(word, base, n) {
        let (i, j) = choose|i: int, j: int|
            #![trigger word[i], word[j]]
            0 <= i < j < word.len() && bigrams::letter_index(word[i], base, n) is Some
                && bigrams::letter_index(word[j], base, n) is Some;
        assert(letters[i] is Some && letters[j] is Some);
    }
    if bigrams::filled(letters) >= 2 {
        let (i, j) = choose|i: int, j: int|
            0 <= i < j < letters.len() && #[trigger] letters[i] is Some
                && #[trigger] letters[j] is Some;
        assert(bigrams::letter_index(word[i], base, n) is Some);
        assert(bigrams::letter_index(word[j], base, n) is Some);
    }
}

/// Two letters in a row score what the table of their language says of them.
pub proof fn law_pairs_score_by_their_table(
    a: char,
    b: char,
    model: &LanguageModel,
)
    ensures
        'a' <= a <= 'z' && 'a' <= b <= 'z' ==> bigrams::en_score(seq![a, b], model) == Some(
            (-(model.en_pairs()[(a as int - 0x61) * 26 + (b as int - 0x61)] as int)) as i64,
        ),
        'а' <= a <= 'я' && 'а' <= b <= 'я' ==> bigrams::ru_score(seq![a, b], model) == Some(
            (-(model.ru_pairs()[(a as int - 0x430) * 32 + (b as int - 0x430)] as int)) as i64,
        ),
        'а' <= a <= 'я' && 'а' <= b <= 'я' ==> bigrams::ua_score(seq![a, b], model) == Some(
            (-(model.ua_pairs()[(a as int - 0x430) * 40 + (b as int - 0x430)] as int)) as i64,
        ),
{
    let w = seq![a, b];
    if ('a' <= a <= 'z' && 'a' <= b <= 'z') || ('а' <= a <= 'я' && 'а' <= b <= 'я') {
        law_words_keep_their_letters(w);
        lemma_pair(a, b, model.en_pairs(), bigrams::EN_BASE, bigrams::EN_N);
        lemma_pair(a, b, model.ru_pairs(), bigrams::RU_BASE, bigrams::RU_N);
        lemma_pair(a, b, model.ua_pairs(), bigrams::UA_BASE, bigrams::UA_N);
    }
}

proof fn lemma_pair(a: char, b: char, table: Seq<u64>, base: u32, n: u32)
    ensures
        bigrams::letter_index(a, base, n) is Some && bigrams::letter_index(b, base, n) is Some
            ==> bigrams::score_of(seq![a, b], table, base, n) == Some(
            (-(table[bigrams::letter_index(a, base, n)->0 * n + bigrams::letter_index(
                b,
                base,
                n,
            )->0] as int)) as i64,
        ),
{
    let w = seq![a, b];
    law_scores_are_means(w, table, base, n);
    reveal_with_fuel(costs_from, 3);
    if bigrams::letter_index(a, base, n) is Some && bigrams::letter_index(b, base, n) is Some {
        assert(bigrams::letter_index(w[0], base, n) is Some);
        assert(bigrams::letter_index(w[1], base, n) is Some);
    }
}

/// A word that ends with a letter is scored whole; and the word without its tail
/// ends with a letter, or nothing is left of it.
pub proof fn law_words_keep_their_letters(word: Seq<char>)
    ensures
        word.len() > 0 && unicode::is_letter(word.last()) ==> bigrams::without_tail(word) == word,
        bigrams::without_tail(word).is_prefix_of(word),
        bigrams::without_tail(word).len() > 0 ==> unicode::is_letter(
            bigrams::without_tail(word).last(),
        ),
        forall|i: int|
            bigrams::without_tail(word).len() <= i < word.len() ==> !unicode::is_letter(
                #[trigger] word[i],
            ),
    decreases word.len(),
{
    if word.len() > 0 && !unicode::is_letter(word.last()) {
        let rest = word.drop_last();
        law_words_keep_their_letters(rest);
        let kept = bigrams::without_tail(word);
        assert forall|i: int| kept.len() <= i < word.len() implies !unicode::is_letter(
            #[trigger] word[i],
        ) by {
            if i < rest.len() {
                assert(rest[i] == word[i]);
            }
        }
        assert(kept =~= word.take(kept.len() as int));
    } else {
        assert(word =~= word.take(word.len() as int));
    }
}

// -- Counting pairs -----------------------------------------------------------------------

/// The letters of a text are those of its parts, one after the other; a character
/// that is no letter adds none.
pub proof fn law_letters_of_a_text(a: Seq<char>, b: Seq<char>, base: u32, n: u32)
    ensures
        bigrams::letters_in(a + b, base, n) == bigrams::letters_in(a, base, n)
            + bigrams::letters_in(b, base, n),
        b.len() == 1 ==> bigrams::letters_in(b, base, n) == (match bigrams::letter_index(
            b[0],
            base,
            n,
        ) {
            Some(l) => seq![l],
            None => Seq::empty(),
        }),
    decreases b.len(),
{
    if b.len() == 0 {
        assert(a + b =~= a);
        assert(bigrams::letters_in(a, base, n) + bigrams::letters_in(b, base, n)
            =~= bigrams::letters_in(a, base, n));
    } else {
        let rest = b.drop_last();
        law_letters_of_a_text(a, rest, base, n);
        assert((a + b).drop_last() =~= a + rest);
        assert(bigrams::letters_in(a + b, base, n) =~= bigrams::letters_in(a, base, n)
            + bigrams::letters_in(b, base, n));
        if b.len() == 1 {
            assert(bigrams::letters_in(rest, base, n).len() == 0);
            assert(bigrams::letters_in(b, base, n) =~= (match bigrams::letter_index(b[0], base, n) {
                Some(l) => seq![l],
                None => Seq::empty(),
            }));
        }
    }
}

/// The places at which two letters follow one another.
pub open spec fn places_of_pair(letters: Seq<u32>, a: u32, b: u32) -> Set<int> {
    Set::new(|i: int| 0 <= i < letters.len() - 1 && letters[i] == a && letters[i + 1] == b)
}

/// A pair is counted as often as there are places at which it stands.
pub proof fn law_pairs_are_counted(letters: Seq<u32>, a: u32, b: u32)
    ensures
        places_of_pair(letters, a, b).finite(),
        bigrams::times_paired(letters, a, b) == places_of_pair(letters, a, b).len(),
    decreases letters.len(),
{
    let all = places_of_pair(letters, a, b);
    if letters.len() < 2 {
        assert(all =~= Set::empty());
    } else {
        let rest = letters.drop_last();
        law_pairs_are_counted(rest, a, b);
        let fewer = places_of_pair(rest, a, b);
        let at = letters.len() - 2;
        assert(!fewer.contains(at));
        assert forall|i: int| 0 <= i < rest.len() implies rest[i] == letters[i] by {}
        if letters[at] == a && letters[at + 1] == b {
            assert(all =~= fewer.insert(at));
        } else {
            assert(all =~= fewer);
        }
    }
}

/// A table without a text holds one for each pair; one more letter adds one to the
/// pair that it makes up with the letter before, and to no other.
pub proof fn law_tables_grow(
    before: Seq<u64>,
    after: Seq<u64>,
    letters: Seq<u32>,
    next: u32,
    n: u32,
    a: u32,
    b: u32,
)
    requires
        bigrams::are_counts(before, letters, n),
        bigrams::are_counts(after, letters.push(next), n),
        a < n,
        b < n,
    ensures
        letters.len() == 0 ==> before[a * n + b] == 1,
        after[a * n + b] == before[a * n + b] + (if letters.len() > 0 && letters.last() == a && next
            == b {
            1int
        } else {
            0int
        }),
        bigrams::pairs_in(letters.push(next)) == letters.len(),
{
    assert(letters.push(next).drop_last() =~= letters);
    assert(before[a * n + b] == bigrams::times_paired(letters, a, b) + 1);
    assert(after[a * n + b] == bigrams::times_paired(letters.push(next), a, b) + 1);
}

/// A table is one just where it has an entry for each pair of letters and none of them is
/// more than a thousand nats.
pub proof fn law_tables(table: Seq<u64>, n: u32)
    ensures
        bigrams::is_table(table, n) <==> table.len() == n * n && forall|i: int|
            0 <= i < table.len() ==> #[trigger] table[i] <= 1_000_000_000_000,
{
}

} // verus!
