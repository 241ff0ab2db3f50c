//! What the words of a text are, how they are typed, and what is counted of them.

use vstd::prelude::*;

use crate::benchmark::{self, Count};
use crate::bigrams::LanguageModel;
use crate::buffer::{self, Replacement, Typed};
use crate::layout::{self, Layout};
use crate::typing::{self, Entry};
use crate::unicode;

verus! {

// -- Words -------------------------------------------------------------------------------

/// A text has the words before some white space and those after it.
pub proof fn law_white_space_parts_words(before: Seq<char>, space: char, after: Seq<char>)
    requires
        unicode::is_space(space),
    ensures
        benchmark::words_of(before.push(space) + after) == benchmark::words_of(before)
            + benchmark::words_of(after),
{
    lemma_scan_parts(before, space, after);
    let whole = benchmark::words_of(before.push(space) + after);
    assert(whole =~= benchmark::words_of(before) + benchmark::words_of(after));
}

proof fn lemma_scan_parts(before: Seq<char>, space: char, after: Seq<char>)
    requires
        unicode::is_space(space),
    ensures
        ({
            let s = benchmark::scan(before.push(space) + after);
            &&& s.words == benchmark::words_of(before) + benchmark::scan(after).words
            &&& s.letters == benchmark::scan(after).letters
        }),
    decreases after.len(),
{
    let whole = before.push(space) + after;
    if after.len() == 0 {
        assert(whole =~= before.push(space));
        assert(whole.drop_last() =~= before);
        assert(benchmark::scan(whole).words =~= benchmark::words_of(before)
            + benchmark::scan(after).words);
    } else {
        let rest = after.drop_last();
        lemma_scan_parts(before, space, rest);
        assert(whole.drop_last() =~= before.push(space) + rest);
        assert(whole.last() == after.last());
        assert(benchmark::scan(whole).words =~= benchmark::words_of(before)
            + benchmark::scan(after).words);
    }
}

/// A text without white space is one word at most: its letters, where there are two
/// at least; what is no letter falls away.
pub proof fn law_words_are_letters(text: Seq<char>)
    requires
        forall|i: int| 0 <= i < text.len() ==> !unicode::is_space(#[trigger] text[i]),
    ensures
        ({
            let letters = text.filter(|c: char| unicode::is_letter(c));
            benchmark::words_of(text) == (if letters.len() >= 2 {
                seq![letters]
            } else {
                Seq::<Seq<char>>::empty()
            })
        }),
{
    lemma_one_word(text);
    let letters = text.filter(|c: char| unicode::is_letter(c));
    assert(benchmark::words_of(text) =~= (if letters.len() >= 2 {
        seq![letters]
    } else {
        Seq::<Seq<char>>::empty()
    }));
}

proof fn lemma_one_word(text: Seq<char>)
    requires
        forall|i: int| 0 <= i < text.len() ==> !unicode::is_space(#[trigger] text[i]),
    ensures
        benchmark::scan(text).words.len() == 0,
        benchmark::scan(text).letters == text.filter(|c: char| unicode::is_letter(c)),
    decreases text.len(),
{
    reveal(Seq::filter);
    if text.len() > 0 {
        let rest = text.drop_last();
        assert forall|i: int| 0 <= i < rest.len() implies !unicode::is_space(
            #[trigger] rest[i],
        ) by {
            assert(rest[i] == text[i]);
        }
        lemma_one_word(rest);
        assert(!unicode::is_space(text[text.len() - 1]));
    }
}

/// Of the words of a text the first ones are taken, as many as are wanted, but one
/// at least; where there are fewer, all of them.
pub proof fn law_first_words_come_first(text: Seq<char>, limit: int)
    ensures
        ({
            let some = benchmark::first_words(text, limit);
            let all = benchmark::words_of(text);
            &&& some.is_prefix_of(all)
            &&& 1 <= limit <= all.len() ==> some.len() == limit
            &&& limit <= 1 <= all.len() ==> some.len() == 1
            &&& all.len() <= limit ==> some == all
        }),
{
    let some = benchmark::first_words(text, limit);
    let all = benchmark::words_of(text);
    assert(some =~= all.take(some.len() as int));
}

// -- Keys ----------------------------------------------------------------------------------

/// No key gives a character in a layout.
pub open spec fn on_no_key(l: Layout, c: char) -> bool {
    forall|vk: u16, upper: bool| #[trigger] layout::key_char(l, vk, upper) != Some(c)
}

/// The keys that are found for a word type it, letter by letter; none are found
/// just where some letter is on no key.
pub proof fn law_found_keys_type_the_word(l: Layout, w: Seq<char>)
    ensures
        benchmark::keys_for(l, w) matches Some(keys) ==> keys.len() == w.len() && typing::spelled(
            keys,
            l,
            true,
        ) == w,
        benchmark::keys_for(l, w) is None ==> exists|i: int|
            0 <= i < w.len() && on_no_key(l, #[trigger] w[i]),
    decreases w.len(),
{
    if w.len() > 0 {
        let rest = w.drop_last();
        law_found_keys_type_the_word(l, rest);
        benchmark::law_keys_are_found(l, w.last(), 0, false);
        match (benchmark::keys_for(l, rest), benchmark::key_for(l, w.last())) {
            (Some(before), Some(e)) => {
                let keys = before.push(e);
                assert(keys.drop_last() =~= before);
                assert(typing::spelled(keys, l, true) =~= w);
            },
            (None, _) => {
                let i = choose|i: int| 0 <= i < rest.len() && on_no_key(l, #[trigger] rest[i]);
                assert(w[i] == rest[i]);
            },
            (Some(_), None) => {
                let i = w.len() - 1;
                assert forall|vk: u16, upper: bool| #[trigger]
                    layout::key_char(l, vk, upper) != Some(w[i]) by {
                    benchmark::law_keys_are_found(l, w[i], vk, upper);
                }
                assert(w[i] == w.last());
            },
        }
    }
}

// -- Typing a word -----------------------------------------------------------------------------

/// What detection says of the first keys of a word, under the English layout and
/// without any preferences.
pub open spec fn judged(
    keys: Seq<Entry>,
    n: int,
    on_the_fly: bool,
    model: &LanguageModel,
) -> Option<Replacement> {
    buffer::detection_of(
        Typed { keys: keys.take(n), has_switched: false, entry_lang: 0, in_snake_case: false },
        0x0409,
        1_000_000,
        on_the_fly,
        buffer::no_preferences(),
        model,
    )
}

/// A word that is typed is switched at the first key after which detection says so,
/// else as it is judged at its end.
pub proof fn law_first_switch_counts(keys: Seq<Entry>, k: int, model: &LanguageModel)
    requires
        0 <= k <= keys.len(),
        forall|i: int| 1 <= i <= k ==> #[trigger] judged(keys, i, true, model) is None,
    ensures
        k < keys.len() && judged(keys, k + 1, true, model) is Some ==> benchmark::typed_from(
            keys,
            0,
            model,
        ) == judged(keys, k + 1, true, model),
        k == keys.len() ==> benchmark::typed_from(keys, 0, model) == judged(
            keys,
            k,
            false,
            model,
        ),
{
    lemma_typed_until(keys, k, model);
    assert(keys.take(keys.len() as int) =~= keys);
}

proof fn lemma_typed_until(keys: Seq<Entry>, k: int, model: &LanguageModel)
    requires
        0 <= k <= keys.len(),
        forall|i: int| 1 <= i <= k ==> #[trigger] judged(keys, i, true, model) is None,
    ensures
        benchmark::typed_from(keys, 0, model) == benchmark::typed_from(keys, k, model),
    decreases k,
{
    if k > 0 {
        lemma_typed_until(keys, k - 1, model);
        assert(judged(keys, k, true, model) is None);
    }
}

// -- Results -------------------------------------------------------------------------------------

/// The results for two lists of words are those for the one and for the other
/// together; a word that the layout cannot type adds nothing, any other adds one to
/// the whole and one to what came of it.
pub proof fn law_results_are_added(
    a: Seq<Seq<char>>,
    b: Seq<Seq<char>>,
    l: Layout,
    model: &LanguageModel,
)
    ensures
        ({
            let x = benchmark::tally_of(a, l, model);
            let y = benchmark::tally_of(b, l, model);
            benchmark::tally_of(a + b, l, model) == (Count {
                total: x.total + y.total,
                to_ru: x.to_ru + y.to_ru,
                to_ua: x.to_ua + y.to_ua,
                kept: x.kept + y.kept,
            })
        }),
    decreases b.len(),
{
    if b.len() == 0 {
        assert(a + b =~= a);
    } else {
        law_results_are_added(a, b.drop_last(), l, model);
        assert((a + b).drop_last() =~= a + b.drop_last());
    }
}

/// What one word adds to the results.
pub proof fn law_results_of_one_word(w: Seq<char>, l: Layout, model: &LanguageModel)
    ensures
        ({
            let t = benchmark::tally_of(seq![w], l, model);
            let none = Count { total: 0, to_ru: 0, to_ua: 0, kept: 0 };
            match benchmark::keys_for(l, w) {
                None => t == none,
                Some(keys) => match benchmark::typed_from(keys, 0, model) {
                    None => t == (Count { total: 1, kept: 1, ..none }),
                    Some(r) => {
                        &&& r.target_lang == 0x0419 ==> t == (Count { total: 1, to_ru: 1, ..none })
                        &&& r.target_lang == 0x0422 ==> t == (Count { total: 1, to_ua: 1, ..none })
                    },
                },
            }
        }),
{
    let one = seq![w];
    assert(one.drop_last().len() == 0);
    assert(one.last() == w);
    reveal_with_fuel(benchmark::tally_of, 2);
}

/// Where a key gives a character in either case, it is taken with a capital.
pub proof fn law_capitals_are_taken(l: Layout, c: char, vk: u16)
    requires
        layout::key_char(l, vk, true) == Some(c),
        layout::key_char(l, vk, false) == Some(c),
    ensures
        benchmark::key_for(l, c) == Some(Entry { vk, is_upper: true }),
{
    layout::law_translatable(vk, true);
    lemma_capital(l, c, vk, 0x100);
}

proof fn lemma_capital(l: Layout, c: char, vk: u16, n: int)
    requires
        layout::key_char(l, vk, true) == Some(c),
        layout::key_char(l, vk, false) == Some(c),
        0 <= vk < n <= 0x1_0000,
    ensures
        benchmark::last_key(l, c, n) == Some(Entry { vk, is_upper: true }),
    decreases n,
{
    layout::law_translatable(vk, true);
    let other = (n - 1) as u16;
    if vk != other {
        lemma_capital(l, c, vk, n - 1);
        layout::law_translatable(other, true);
        if layout::translatable(other) {
            layout::law_keys_are_distinct(vk, other);
            layout::law_keys_and_capitals(l, vk);
            layout::law_keys_and_capitals(l, other);
        }
    }
}

} // verus!
