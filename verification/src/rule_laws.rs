//! What each rule of detection promises, in terms of the keys that were typed,
//! the words that they spell and the scores of these words.

use vstd::prelude::*;

use crate::bigrams::{self, LanguageModel};
use crate::buffer::{self, Preferences, Replacement, Typed};
use crate::detection::{self, Reading};
use crate::laws;
use crate::layout::{self, Layout, LANG_EN_US, LANG_RU, LANG_UA};
use crate::lexicon::{
    self, COMMON_EN_SHORT, COMMON_EN_SINGLE, COMMON_RU_SHORT, COMMON_RU_SINGLE, COMMON_UA_SHORT,
    COMMON_UA_SINGLE,
};
use crate::scoring::{self, Bar};
use crate::settings::PreferredCyrillic;
use crate::typing::{self, Entry, Shape};
use crate::unicode;

verus! {

// -- Words and keys ---------------------------------------------------------------------

/// Every key has a place in the layouts.
pub open spec fn legible(keys: Seq<Entry>) -> bool {
    forall|i: int| 0 <= i < keys.len() ==> layout::translatable((#[trigger] keys[i]).vk)
}

/// What the keys spell in a layout, in lower case.
pub open spec fn word(keys: Seq<Entry>, l: Layout) -> Seq<char> {
    typing::spelled(keys, l, false)
}

/// A language identifier is one of a layout.
pub open spec fn of_layout(lang: u16, l: Layout) -> bool {
    match l {
        Layout::English => lang % 0x400 == 0x09,
        Layout::Russian => lang % 0x400 == 0x19,
        Layout::Ukrainian => lang % 0x400 == 0x22,
    }
}

/// The word has not been switched before, and it is no key held down.
pub open spec fn fresh(b: Typed) -> bool {
    &&& !b.has_switched
    &&& legible(b.keys)
    &&& 1 <= b.keys.len() <= usize::MAX
    &&& b.keys.len() == 1 || exists|i: int|
        1 <= i < b.keys.len() && (#[trigger] b.keys[i]).vk != b.keys[0].vk
}

/// The word is no identifier: it belongs to no name with underscores, and no
/// capital follows a lower-case letter, unless all letters but the first are
/// capitals.
pub open spec fn ordinary(b: Typed) -> bool {
    &&& !b.in_snake_case
    &&& {
        ||| forall|i: int|
            1 <= i < b.keys.len() && (#[trigger] b.keys[i]).is_upper ==> b.keys[i - 1].is_upper
        ||| forall|i: int| 1 <= i < b.keys.len() ==> (#[trigger] b.keys[i]).is_upper
    }
}

/// The user has neither asked for the word to be left alone nor corrected it.
pub open spec fn unclaimed(keys: Seq<Entry>, l: Layout, config: Preferences) -> bool {
    &&& !config.ignored_words.contains(word(keys, l))
    &&& !config.word_corrections.contains_key(word(keys, Layout::English))
}

/// The keys spell a common word of a language.
pub open spec fn common(keys: Seq<Entry>, l: Layout, model: &LanguageModel) -> bool {
    match l {
        Layout::English => model.en_dictionary().contains(word(keys, l)),
        Layout::Russian => model.ru_dictionary().contains(word(keys, l)),
        Layout::Ukrainian => model.ua_dictionary().contains(word(keys, l)),
    }
}

/// How well the word that the keys spell fits a language.
pub open spec fn fit(keys: Seq<Entry>, l: Layout, model: &LanguageModel) -> Option<i64> {
    match l {
        Layout::English => bigrams::en_score(word(keys, l), model),
        Layout::Russian => bigrams::ru_score(word(keys, l), model),
        Layout::Ukrainian => bigrams::ua_score(word(keys, l), model),
    }
}

/// The keys tell Russian and Ukrainian apart: one of them gives a letter that
/// the other language lacks. These are the keys of S, of the closing bracket and
/// of the apostrophe.
pub open spec fn telling(keys: Seq<Entry>) -> bool {
    exists|i: int|
        0 <= i < keys.len() && ((#[trigger] keys[i]).vk == 0x53 || keys[i].vk == 0xDD || keys[i].vk
            == 0xDE)
}

/// One of the keys gives punctuation in the English layout.
pub open spec fn punctuating(keys: Seq<Entry>) -> bool {
    exists|i: int| 0 <= i < keys.len() && (#[trigger] keys[i]).vk > 0x5A
}

/// A word is in a list.
pub open spec fn among(list: Seq<&'static str>, w: Seq<char>) -> bool {
    exists|i: int| 0 <= i < list.len() && #[trigger] list[i]@ == w
}

/// A soft sign stands right after a vowel or another soft sign.
pub open spec fn unsounded(w: Seq<char>) -> bool {
    exists|i: int|
        1 <= i < w.len() && #[trigger] w[i] == 'ь' && {
            let c = w[i - 1];
            ||| c == 'ь' || c == 'а' || c == 'е' || c == 'ё' || c == 'и' || c == 'о' || c == 'у'
            ||| c == 'ы' || c == 'э' || c == 'ю' || c == 'я' || c == 'і' || c == 'ї' || c == 'є'
        }
}

/// How much better, in nano-nats, a word of so many keys must fit another
/// language.
pub open spec fn lead(len: int) -> int {
    if len >= 8 {
        800_000_000
    } else if len == 7 {
        900_000_000
    } else if len == 6 {
        1_000_000_000
    } else if len == 5 {
        1_200_000_000
    } else {
        1_500_000_000
    }
}

/// One word fits better than another by more than so many tenths of the lead,
/// divided by the sensitivity (in millionths), and three tenths more where the
/// recent words speak for the active layout. A word without a score is worse
/// than any other.
pub open spec fn outdoes(
    a: Option<i64>,
    b: Option<i64>,
    len: int,
    sensitivity: i32,
    in_context: bool,
    tenths: int,
) -> bool {
    match (a, b) {
        (Some(x), Some(y)) => (x - y) * sensitivity * 100 > lead(len) * 1_000_000 * (if in_context {
            13int
        } else {
            10int
        }) * tenths,
        (Some(_), None) => true,
        _ => false,
    }
}

/// The layout of the language that a switch goes to.
pub open spec fn layout_to(target: u16) -> Layout {
    if target == 0x0419 {
        Layout::Russian
    } else if target == 0x0422 {
        Layout::Ukrainian
    } else {
        Layout::English
    }
}

/// There is a switch, and it goes to a language.
pub open spec fn goes_to(found: Option<Replacement>, lang: u16) -> bool {
    found is Some && found->0.target_lang == lang
}

/// The telling keys are those that give a letter of one language alone, and
/// where there is none, the two words are the same.
pub proof fn law_telling_keys(keys: Seq<Entry>)
    requires
        legible(keys),
    ensures
        detection::marked_ua(word(keys, Layout::Ukrainian)) <==> telling(keys),
        detection::marked_ru(word(keys, Layout::Russian)) <==> telling(keys),
        word(keys, Layout::Russian) == word(keys, Layout::Ukrainian) <==> !telling(keys),
        detection::punctuated(word(keys, Layout::English)) <==> punctuating(keys),
{
    let en = word(keys, Layout::English);
    let ru = word(keys, Layout::Russian);
    let ua = word(keys, Layout::Ukrainian);
    typing::lemma_spelled_len(keys, Layout::English, false);
    typing::lemma_spelled_len(keys, Layout::Russian, false);
    typing::lemma_spelled_len(keys, Layout::Ukrainian, false);
    assert forall|i: int| 0 <= i < keys.len() implies {
        let vk = (#[trigger] keys[i]).vk;
        let tells = vk == 0x53 || vk == 0xDD || vk == 0xDE;
        &&& detection::ua_marker(ua[i]) <==> tells
        &&& detection::ru_marker(ru[i]) <==> tells
        &&& ru[i] == ua[i] <==> !tells
        &&& unicode::is_letter(en[i]) <==> vk <= 0x5A
    } by {
        typing::lemma_spelled_index(keys, Layout::English, false, i);
        typing::lemma_spelled_index(keys, Layout::Russian, false, i);
        typing::lemma_spelled_index(keys, Layout::Ukrainian, false, i);
    }
    if telling(keys) {
        let i = choose|i: int|
            0 <= i < keys.len() && ((#[trigger] keys[i]).vk == 0x53 || keys[i].vk == 0xDD
                || keys[i].vk == 0xDE);
        assert(detection::ua_marker(ua[i]));
        assert(detection::ru_marker(ru[i]));
        assert(ru[i] != ua[i]);
    } else {
        assert forall|i: int| 0 <= i < keys.len() implies ru[i] == ua[i] by {
            let vk = keys[i].vk;
            assert(vk != 0x53 && vk != 0xDD && vk != 0xDE);
        }
        assert(ru =~= ua);
    }
    if detection::marked_ua(ua) {
        let i = choose|i: int| 0 <= i < ua.len() && detection::ua_marker(#[trigger] ua[i]);
        assert(keys[i].vk == 0x53 || keys[i].vk == 0xDD || keys[i].vk == 0xDE);
    }
    if detection::marked_ru(ru) {
        let i = choose|i: int| 0 <= i < ru.len() && detection::ru_marker(#[trigger] ru[i]);
        assert(keys[i].vk == 0x53 || keys[i].vk == 0xDD || keys[i].vk == 0xDE);
    }
    if punctuating(keys) {
        let i = choose|i: int| 0 <= i < keys.len() && (#[trigger] keys[i]).vk > 0x5A;
        assert(!unicode::is_letter(en[i]));
    }
    if detection::punctuated(en) {
        let i = choose|i: int| 0 <= i < en.len() && !unicode::is_letter(#[trigger] en[i]);
        assert(keys[i].vk > 0x5A);
    }
}

/// The reading of legible keys, in the terms of this file.
proof fn lemma_reading(b: Typed, model: &LanguageModel)
    requires
        fresh(b),
    ensures
        ({
            let keys = b.keys;
            let s = buffer::reading_of(keys, model);
            &&& s.en == word(keys, Layout::English)
            &&& s.ru == word(keys, Layout::Russian)
            &&& s.ua == word(keys, Layout::Ukrainian)
            &&& s.en_score == fit(keys, Layout::English, model)
            &&& s.ru_score == fit(keys, Layout::Russian, model)
            &&& s.ua_score == fit(keys, Layout::Ukrainian, model)
            &&& s.len == keys.len()
            &&& s.en_ok() && s.ru_ok() && s.ua_ok() && s.ru_valid() && s.ua_valid()
            &&& detection::marked_ua(s.ua) == telling(keys)
            &&& detection::marked_ru(s.ru) == telling(keys)
            &&& (s.ru == s.ua) == !telling(keys)
            &&& detection::punctuated(s.en) == punctuating(keys)
            &&& detection::impossible(s.ru) == unsounded(s.ru)
            &&& detection::impossible(s.ua) == unsounded(s.ua)
            &&& buffer::detectable(b, false)
            &&& keys.len() >= 4 ==> buffer::detectable(b, true)
            &&& ordinary(b) == (buffer::shape_of(b) == Shape::Plain)
        }),
{
    let s = buffer::reading_of(b.keys, model);
    laws::law_readings_agree(b.keys, model);
    typing::lemma_spelled_len(b.keys, Layout::English, false);
    law_telling_keys(b.keys);
    lemma_unsounded(s.ru);
    lemma_unsounded(s.ua);
}

proof fn lemma_unsounded(w: Seq<char>)
    ensures
        detection::impossible(w) == unsounded(w),
{
    if detection::impossible(w) {
        let i = choose|i: int|
            1 <= i < w.len() && detection::impossible_pair(w[i - 1], #[trigger] w[i]);
        assert(w[i] == 'ь');
    }
    if unsounded(w) {
        let i = choose|i: int|
            1 <= i < w.len() && #[trigger] w[i] == 'ь' && {
                let c = w[i - 1];
                ||| c == 'ь' || c == 'а' || c == 'е' || c == 'ё' || c == 'и' || c == 'о' || c
                    == 'у'
                ||| c == 'ы' || c == 'э' || c == 'ю' || c == 'я' || c == 'і' || c == 'ї' || c
                    == 'є'
            };
        assert(detection::impossible_pair(w[i - 1], w[i]));
    }
}

/// What a switch has to overcome, in the terms of this file.
proof fn lemma_outdoes(
    a: Option<i64>,
    b: Option<i64>,
    len: int,
    sensitivity: i32,
    in_context: bool,
    tenths: int,
)
    requires
        0 < sensitivity,
        0 <= len <= usize::MAX,
    ensures
        scoring::clears(a, b, (Bar { len: len as usize, sensitivity, in_context }), tenths)
            == outdoes(a, b, len, sensitivity, in_context, tenths),
{
}

// -- The statistics -----------------------------------------------------------------------

/// Under the English layout a finished word of four keys or more is switched
/// just where one of the Cyrillic languages knows it or one of the Cyrillic words
/// leads it clearly enough, at every length; a word with a letter of one language
/// alone needs seven tenths of the lead. The exceptions are identifiers, common
/// words, and words that the user has claimed.
#[verifier::rlimit(50)]
pub proof fn law_better_words_leave_english(
    b: Typed,
    active: u16,
    sensitivity: i32,
    config: Preferences,
    model: &LanguageModel,
)
    requires
        fresh(b),
        ordinary(b),
        b.keys.len() >= 4,
        of_layout(active, Layout::English),
        unclaimed(b.keys, Layout::English, config),
        !common(b.keys, Layout::English, model),
        0 < sensitivity,
    ensures
        buffer::detection_of(b, active, sensitivity, false, config, model) is Some <==> {
            let keys = b.keys;
            let len = keys.len() as int;
            let in_context = config.context_lang == Some(active);
            let tenths = if telling(keys) {
                7int
            } else {
                10int
            };
            ||| common(keys, Layout::Russian, model)
            ||| common(keys, Layout::Ukrainian, model)
            ||| outdoes(
                fit(keys, Layout::Russian, model),
                fit(keys, Layout::English, model),
                len,
                sensitivity,
                in_context,
                tenths,
            )
            ||| outdoes(
                fit(keys, Layout::Ukrainian, model),
                fit(keys, Layout::English, model),
                len,
                sensitivity,
                in_context,
                tenths,
            )
        },
{
    let keys = b.keys;
    let s = buffer::reading_of(keys, model);
    let in_context = config.context_lang == Some(active);
    lemma_reading(b, model);
    layout::law_one_language(active);
    lemma_outdoes(s.ru_score, s.en_score, s.len, sensitivity, in_context, 7);
    lemma_outdoes(s.ua_score, s.en_score, s.len, sensitivity, in_context, 7);
    lemma_outdoes(s.ru_score, s.en_score, s.len, sensitivity, in_context, 10);
    lemma_outdoes(s.ua_score, s.en_score, s.len, sensitivity, in_context, 10);
}

/// A finished word of four keys or more that fits Russian or Ukrainian better than English
/// by more than the whole lead is switched, at every length; to Russian where that is
/// preferred, or where nothing is and the keys do not tell it from Ukrainian.
#[verifier::rlimit(50)]
pub proof fn law_clear_leads_are_enough(
    b: Typed,
    active: u16,
    sensitivity: i32,
    config: Preferences,
    model: &LanguageModel,
)
    requires
        fresh(b),
        ordinary(b),
        b.keys.len() >= 4,
        of_layout(active, Layout::English),
        unclaimed(b.keys, Layout::English, config),
        !common(b.keys, Layout::English, model),
        0 < sensitivity,
        ({
            let other = fit(b.keys, Layout::Russian, model);
            let english = fit(b.keys, Layout::English, model);
            let len = b.keys.len() as int;
            let in_context = config.context_lang == Some(active);
            ||| outdoes(other, english, len, sensitivity, in_context, 10)
            ||| outdoes(
                fit(b.keys, Layout::Ukrainian, model),
                english,
                len,
                sensitivity,
                in_context,
                10,
            )
        }),
    ensures
        ({
            let found = buffer::detection_of(b, active, sensitivity, false, config, model);
            let pref = config.preferred_cyrillic;
            &&& found is Some
            &&& pref == PreferredCyrillic::Ru || (pref == PreferredCyrillic::Auto && !telling(
                b.keys,
            )) ==> goes_to(found, LANG_RU)
            &&& pref == PreferredCyrillic::Ua ==> goes_to(found, LANG_UA)
        }),
{
    let len = b.keys.len() as int;
    let context = if config.context_lang == Some(active) {
        13int
    } else {
        10int
    };
    assert(lead(len) * 1_000_000 * context * 7 <= lead(len) * 1_000_000 * context * 10)
        by (nonlinear_arith)
        requires
            0 < lead(len),
            0 < context,
    ;
    law_better_words_leave_english(b, active, sensitivity, config, model);
    law_detection_chooses_well(b, active, sensitivity, false, config, model);
}

/// While it is being typed, a word is switched from the English layout only
/// where its keys tell Russian and Ukrainian apart or hold punctuation; then it
/// takes two and a half times the lead, or 1.3 times with a letter of one
/// language alone. A common word of up to six keys with punctuation needs none.
#[verifier::rlimit(50)]
pub proof fn law_better_words_leave_english_on_the_fly(
    b: Typed,
    active: u16,
    sensitivity: i32,
    config: Preferences,
    model: &LanguageModel,
)
    requires
        fresh(b),
        ordinary(b),
        b.keys.len() >= 4,
        of_layout(active, Layout::English),
        unclaimed(b.keys, Layout::English, config),
        !common(b.keys, Layout::English, model),
        0 < sensitivity,
    ensures
        buffer::detection_of(b, active, sensitivity, true, config, model) is Some <==> {
            let keys = b.keys;
            let len = keys.len() as int;
            let in_context = config.context_lang == Some(active);
            let tenths = if telling(keys) {
                13int
            } else {
                25int
            };
            &&& telling(keys) || punctuating(keys)
            &&& {
                ||| len <= 6 && punctuating(keys) && (common(keys, Layout::Russian, model)
                    || common(keys, Layout::Ukrainian, model))
                ||| outdoes(
                    fit(keys, Layout::Russian, model),
                    fit(keys, Layout::English, model),
                    len,
                    sensitivity,
                    in_context,
                    tenths,
                )
                ||| outdoes(
                    fit(keys, Layout::Ukrainian, model),
                    fit(keys, Layout::English, model),
                    len,
                    sensitivity,
                    in_context,
                    tenths,
                )
            }
        },
{
    let keys = b.keys;
    let s = buffer::reading_of(keys, model);
    let in_context = config.context_lang == Some(active);
    lemma_reading(b, model);
    layout::law_one_language(active);
    lemma_outdoes(s.ru_score, s.en_score, s.len, sensitivity, in_context, 13);
    lemma_outdoes(s.ua_score, s.en_score, s.len, sensitivity, in_context, 13);
    lemma_outdoes(s.ru_score, s.en_score, s.len, sensitivity, in_context, 25);
    lemma_outdoes(s.ua_score, s.en_score, s.len, sensitivity, in_context, 25);
}

/// Two words of the same scores, both of them telling or neither: where the
/// shorter is switched by statistics, so is the longer.
#[verifier::rlimit(50)]
pub proof fn law_longer_words_are_switched_sooner(
    short: Typed,
    long: Typed,
    active: u16,
    sensitivity: i32,
    config: Preferences,
    model: &LanguageModel,
)
    requires
        fresh(short),
        fresh(long),
        ordinary(short),
        ordinary(long),
        4 <= short.keys.len() <= long.keys.len(),
        of_layout(active, Layout::English),
        unclaimed(short.keys, Layout::English, config),
        unclaimed(long.keys, Layout::English, config),
        !common(short.keys, Layout::English, model),
        !common(long.keys, Layout::English, model),
        !common(short.keys, Layout::Russian, model),
        !common(short.keys, Layout::Ukrainian, model),
        telling(short.keys) == telling(long.keys),
        fit(short.keys, Layout::English, model) == fit(long.keys, Layout::English, model),
        fit(short.keys, Layout::Russian, model) == fit(long.keys, Layout::Russian, model),
        fit(short.keys, Layout::Ukrainian, model) == fit(long.keys, Layout::Ukrainian, model),
        0 < sensitivity,
        buffer::detection_of(short, active, sensitivity, false, config, model) is Some,
    ensures
        buffer::detection_of(long, active, sensitivity, false, config, model) is Some,
{
    law_better_words_leave_english(short, active, sensitivity, config, model);
    law_better_words_leave_english(long, active, sensitivity, config, model);
}

/// Without any sensitivity, statistics switch nothing.
#[verifier::rlimit(50)]
pub proof fn law_no_sensitivity_no_statistics(
    b: Typed,
    active: u16,
    config: Preferences,
    model: &LanguageModel,
)
    requires
        fresh(b),
        ordinary(b),
        b.keys.len() >= 4,
        of_layout(active, Layout::English),
        unclaimed(b.keys, Layout::English, config),
        !common(b.keys, Layout::Russian, model),
        !common(b.keys, Layout::Ukrainian, model),
    ensures
        buffer::detection_of(b, active, 0, false, config, model) is None,
        buffer::detection_of(b, active, 0, true, config, model) is None,
{
    lemma_reading(b, model);
    layout::law_one_language(active);
}

/// The part of the lead, in tenths, that English needs against a Cyrillic word.
pub open spec fn leave_tenths(keys: Seq<Entry>, on_the_fly: bool) -> int {
    if !on_the_fly {
        if telling(keys) {
            15
        } else {
            10
        }
    } else if keys.len() >= 8 {
        if telling(keys) {
            15
        } else {
            12
        }
    } else if telling(keys) {
        25
    } else {
        20
    }
}

/// Under the Russian layout a word of four keys or more is switched to English
/// just where English knows it at its end, or leads clearly enough; else to
/// Ukrainian just where the preference allows it and Ukrainian leads clearly
/// enough; else it stays. A common English word of four keys stays where the
/// recent words were Russian.
#[verifier::rlimit(50)]
pub proof fn law_better_words_leave_russian(
    b: Typed,
    active: u16,
    sensitivity: i32,
    on_the_fly: bool,
    config: Preferences,
    model: &LanguageModel,
)
    requires
        fresh(b),
        ordinary(b),
        b.keys.len() >= 4,
        of_layout(active, Layout::Russian),
        unclaimed(b.keys, Layout::Russian, config),
        !common(b.keys, Layout::Russian, model),
        !unsounded(word(b.keys, Layout::Russian)),
        0 < sensitivity,
    ensures
        ({
            let keys = b.keys;
            let len = keys.len() as int;
            let in_context = config.context_lang == Some(active);
            let found = buffer::detection_of(b, active, sensitivity, on_the_fly, config, model);
            let to_english = (common(keys, Layout::English, model) && !on_the_fly && !(len == 4
                && in_context)) || outdoes(
                fit(keys, Layout::English, model),
                fit(keys, Layout::Russian, model),
                len,
                sensitivity,
                in_context,
                leave_tenths(keys, on_the_fly),
            );
            let allowed = config.preferred_cyrillic == PreferredCyrillic::Ua || (
            config.preferred_cyrillic == PreferredCyrillic::Auto && telling(keys));
            let to_ukrainian = allowed && outdoes(
                fit(keys, Layout::Ukrainian, model),
                fit(keys, Layout::Russian, model),
                len,
                sensitivity,
                in_context,
                (if telling(keys) {
                    15int
                } else {
                    20int
                }),
            );
            &&& to_english ==> goes_to(found, LANG_EN_US)
            &&& !to_english && to_ukrainian ==> goes_to(found, LANG_UA)
            &&& !to_english && !to_ukrainian ==> found is None
        }),
{
    let keys = b.keys;
    let s = buffer::reading_of(keys, model);
    let in_context = config.context_lang == Some(active);
    lemma_reading(b, model);
    layout::law_one_language(active);
    let leave = leave_tenths(keys, on_the_fly);
    lemma_outdoes(s.en_score, s.ru_score, s.len, sensitivity, in_context, leave);
    lemma_outdoes(s.ua_score, s.ru_score, s.len, sensitivity, in_context, 15);
    lemma_outdoes(s.ua_score, s.ru_score, s.len, sensitivity, in_context, 20);
}

/// The same under the Ukrainian layout, where Russian needs no leave.
#[verifier::rlimit(50)]
pub proof fn law_better_words_leave_ukrainian(
    b: Typed,
    active: u16,
    sensitivity: i32,
    on_the_fly: bool,
    config: Preferences,
    model: &LanguageModel,
)
    requires
        fresh(b),
        ordinary(b),
        b.keys.len() >= 4,
        of_layout(active, Layout::Ukrainian),
        unclaimed(b.keys, Layout::Ukrainian, config),
        !common(b.keys, Layout::Ukrainian, model),
        !unsounded(word(b.keys, Layout::Ukrainian)),
        0 < sensitivity,
    ensures
        ({
            let keys = b.keys;
            let len = keys.len() as int;
            let in_context = config.context_lang == Some(active);
            let found = buffer::detection_of(b, active, sensitivity, on_the_fly, config, model);
            let to_english = (common(keys, Layout::English, model) && !on_the_fly && !(len == 4
                && in_context)) || outdoes(
                fit(keys, Layout::English, model),
                fit(keys, Layout::Ukrainian, model),
                len,
                sensitivity,
                in_context,
                leave_tenths(keys, on_the_fly),
            );
            let to_russian = outdoes(
                fit(keys, Layout::Russian, model),
                fit(keys, Layout::Ukrainian, model),
                len,
                sensitivity,
                in_context,
                (if telling(keys) {
                    15int
                } else {
                    20int
                }),
            );
            &&& to_english ==> goes_to(found, LANG_EN_US)
            &&& !to_english && to_russian ==> goes_to(found, LANG_RU)
            &&& !to_english && !to_russian ==> found is None
        }),
{
    let keys = b.keys;
    let s = buffer::reading_of(keys, model);
    let in_context = config.context_lang == Some(active);
    lemma_reading(b, model);
    layout::law_one_language(active);
    let leave = leave_tenths(keys, on_the_fly);
    lemma_outdoes(s.en_score, s.ua_score, s.len, sensitivity, in_context, leave);
    lemma_outdoes(s.ru_score, s.ua_score, s.len, sensitivity, in_context, 15);
    lemma_outdoes(s.ru_score, s.ua_score, s.len, sensitivity, in_context, 20);
}

// -- Russian or Ukrainian ------------------------------------------------------------------

/// A choice between Russian and Ukrainian keeps to the rule. A preference
/// decides. Else it is Russian unless the keys tell the two apart; then the
/// language that alone knows the word; and where both or neither knows it, it is
/// Ukrainian just where it leads by a quarter of a nat.
pub open spec fn well_chosen(
    keys: Seq<Entry>,
    target: u16,
    pref: PreferredCyrillic,
    model: &LanguageModel,
) -> bool {
    let in_ru = common(keys, Layout::Russian, model);
    let in_ua = common(keys, Layout::Ukrainian, model);
    let open = pref == PreferredCyrillic::Auto && telling(keys);
    &&& target == LANG_RU || target == LANG_UA
    &&& pref == PreferredCyrillic::Ru ==> target == LANG_RU
    &&& pref == PreferredCyrillic::Ua ==> target == LANG_UA
    &&& pref == PreferredCyrillic::Auto && !telling(keys) ==> target == LANG_RU
    &&& open && in_ru && !in_ua ==> target == LANG_RU
    &&& open && in_ua && !in_ru ==> target == LANG_UA
    &&& open && in_ru == in_ua ==> match (
        fit(keys, Layout::Ukrainian, model),
        fit(keys, Layout::Russian, model),
    ) {
        (Some(ua), Some(ru)) => (target == LANG_UA <==> ua - ru >= 250_000_000),
        (None, Some(_)) => target == LANG_RU,
        (_, None) => target == LANG_UA,
    }
}

/// A word of four keys or more that detection takes from the English layout goes
/// to the language that the rule chooses, unless the user has corrected it.
#[verifier::rlimit(50)]
pub proof fn law_detection_chooses_well(
    b: Typed,
    active: u16,
    sensitivity: i32,
    on_the_fly: bool,
    config: Preferences,
    model: &LanguageModel,
)
    requires
        fresh(b),
        b.keys.len() >= 4,
        of_layout(active, Layout::English),
        !config.word_corrections.contains_key(word(b.keys, Layout::English)),
    ensures
        buffer::detection_of(b, active, sensitivity, on_the_fly, config, model) matches Some(r)
            ==> well_chosen(b.keys, r.target_lang, config.preferred_cyrillic, model),
{
    lemma_reading(b, model);
    layout::law_one_language(active);
}

/// A forced switch from the English layout succeeds and goes to the language
/// that the rule chooses; one from a Cyrillic layout goes to English. The layout
/// is the one under which the word was begun, where that is known.
#[verifier::rlimit(50)]
pub proof fn law_force_chooses_well(
    b: Typed,
    active: u16,
    config: Preferences,
    model: &LanguageModel,
)
    requires
        legible(b.keys),
        b.keys.len() > 0,
    ensures
        ({
            let from = if b.entry_lang != 0 {
                b.entry_lang
            } else {
                active
            };
            let forced = buffer::forced_of(b, active, config, model);
            &&& of_layout(from, Layout::English) ==> forced is Some && well_chosen(
                b.keys,
                forced->0.target_lang,
                config.preferred_cyrillic,
                model,
            )
            &&& of_layout(from, Layout::Russian) || of_layout(from, Layout::Ukrainian)
                ==> goes_to(forced, LANG_EN_US)
        }),
{
    let s = buffer::reading_of(b.keys, model);
    laws::law_readings_agree(b.keys, model);
    typing::lemma_spelled_len(b.keys, Layout::English, false);
    law_telling_keys(b.keys);
    layout::law_one_language(buffer::typed_under(b, active));
}

// -- Short words ------------------------------------------------------------------------------

/// Under a Cyrillic layout a finished word of two or three keys that is a short
/// word of English and none of the active language is switched to English, unless
/// the user has claimed it or it is a common word.
#[verifier::rlimit(50)]
pub proof fn law_short_english_words_leave_cyrillic(
    b: Typed,
    active: u16,
    sensitivity: i32,
    config: Preferences,
    model: &LanguageModel,
)
    requires
        fresh(b),
        b.keys.len() == 2 || b.keys.len() == 3,
        among(COMMON_EN_SHORT@, word(b.keys, Layout::English)),
        ({
            ||| {
                &&& of_layout(active, Layout::Russian)
                &&& !among(COMMON_RU_SHORT@, word(b.keys, Layout::Russian))
                &&& unclaimed(b.keys, Layout::Russian, config)
                &&& !common(b.keys, Layout::Russian, model)
            }
            ||| {
                &&& of_layout(active, Layout::Ukrainian)
                &&& !among(COMMON_UA_SHORT@, word(b.keys, Layout::Ukrainian))
                &&& unclaimed(b.keys, Layout::Ukrainian, config)
                &&& !common(b.keys, Layout::Ukrainian, model)
            }
        }),
    ensures
        goes_to(
            buffer::detection_of(b, active, sensitivity, false, config, model),
            LANG_EN_US,
        ),
{
    lemma_reading(b, model);
    layout::law_one_language(active);
}

/// What else becomes of a finished word of two or three keys under the Russian
/// layout: a short word of Russian stays, a telling one of Ukrainian is switched
/// to it, and everything else stays. The exceptions are names with underscores,
/// impossible words, and common English words out of context.
#[verifier::rlimit(50)]
pub proof fn law_short_words_under_russian(
    b: Typed,
    active: u16,
    sensitivity: i32,
    config: Preferences,
    model: &LanguageModel,
)
    requires
        fresh(b),
        b.keys.len() == 2 || b.keys.len() == 3,
        of_layout(active, Layout::Russian),
        unclaimed(b.keys, Layout::Russian, config),
        !b.in_snake_case,
        !unsounded(word(b.keys, Layout::Russian)),
        !common(b.keys, Layout::English, model) || config.context_lang == Some(active),
        !common(b.keys, Layout::Russian, model),
    ensures
        ({
            let found = buffer::detection_of(b, active, sensitivity, false, config, model);
            let in_en = among(COMMON_EN_SHORT@, word(b.keys, Layout::English));
            let in_ru = among(COMMON_RU_SHORT@, word(b.keys, Layout::Russian));
            let in_ua = among(COMMON_UA_SHORT@, word(b.keys, Layout::Ukrainian));
            &&& in_ru ==> found is None
            &&& !in_ru && !in_en && in_ua && telling(b.keys) ==> goes_to(found, LANG_UA)
            &&& !in_en && !(in_ua && telling(b.keys)) ==> found is None
        }),
{
    lemma_reading(b, model);
    layout::law_one_language(active);
}

/// The same under the Ukrainian layout.
#[verifier::rlimit(50)]
pub proof fn law_short_words_under_ukrainian(
    b: Typed,
    active: u16,
    sensitivity: i32,
    config: Preferences,
    model: &LanguageModel,
)
    requires
        fresh(b),
        b.keys.len() == 2 || b.keys.len() == 3,
        of_layout(active, Layout::Ukrainian),
        unclaimed(b.keys, Layout::Ukrainian, config),
        !b.in_snake_case,
        !unsounded(word(b.keys, Layout::Ukrainian)),
        !common(b.keys, Layout::English, model) || config.context_lang == Some(active),
        !common(b.keys, Layout::Ukrainian, model),
    ensures
        ({
            let found = buffer::detection_of(b, active, sensitivity, false, config, model);
            let in_en = among(COMMON_EN_SHORT@, word(b.keys, Layout::English));
            let in_ru = among(COMMON_RU_SHORT@, word(b.keys, Layout::Russian));
            let in_ua = among(COMMON_UA_SHORT@, word(b.keys, Layout::Ukrainian));
            &&& in_ua ==> found is None
            &&& !in_ua && !in_en && in_ru && telling(b.keys) ==> goes_to(found, LANG_RU)
            &&& !in_en && !(in_ru && telling(b.keys)) ==> found is None
        }),
{
    lemma_reading(b, model);
    layout::law_one_language(active);
}

/// What becomes of a finished word of two or three keys under the English
/// layout: a short word of English stays, and so does what is a short word of
/// neither Cyrillic language. A short word of Russian alone goes to Russian, and
/// one of Ukrainian alone to Ukrainian where that is preferred or the keys tell
/// it. A short word of both goes where the preference says; else to Ukrainian just
/// where the keys tell the two apart and Ukrainian has the better score.
#[verifier::rlimit(50)]
pub proof fn law_short_words_under_english(
    b: Typed,
    active: u16,
    sensitivity: i32,
    config: Preferences,
    model: &LanguageModel,
)
    requires
        fresh(b),
        ordinary(b),
        b.keys.len() == 2 || b.keys.len() == 3,
        of_layout(active, Layout::English),
        unclaimed(b.keys, Layout::English, config),
        !common(b.keys, Layout::English, model),
    ensures
        ({
            let found = buffer::detection_of(b, active, sensitivity, false, config, model);
            let in_en = among(COMMON_EN_SHORT@, word(b.keys, Layout::English));
            let in_ru = among(COMMON_RU_SHORT@, word(b.keys, Layout::Russian));
            let in_ua = among(COMMON_UA_SHORT@, word(b.keys, Layout::Ukrainian));
            let pref = config.preferred_cyrillic;
            let ukrainian_wanted = pref == PreferredCyrillic::Ua || (pref == PreferredCyrillic::Auto
                && telling(b.keys));
            let ukrainian_fits = match (
                fit(b.keys, Layout::Ukrainian, model),
                fit(b.keys, Layout::Russian, model),
            ) {
                (Some(ua), Some(ru)) => ua > ru,
                (Some(_), None) => true,
                _ => false,
            };
            &&& in_en || (!in_ru && !in_ua) ==> found is None
            &&& !in_en && in_ru && !in_ua ==> goes_to(found, LANG_RU)
            &&& !in_en && in_ua && !in_ru && ukrainian_wanted ==> goes_to(found, LANG_UA)
            &&& !in_en && in_ua && !in_ru && !ukrainian_wanted ==> found is None
            &&& !in_en && in_ru && in_ua && pref == PreferredCyrillic::Ru ==> goes_to(
                found,
                LANG_RU,
            )
            &&& !in_en && in_ru && in_ua && pref == PreferredCyrillic::Ua ==> goes_to(
                found,
                LANG_UA,
            )
            &&& !in_en && in_ru && in_ua && pref == PreferredCyrillic::Auto ==> goes_to(
                found,
                (if telling(b.keys) && ukrainian_fits {
                    LANG_UA
                } else {
                    LANG_RU
                }),
            )
        }),
{
    lemma_reading(b, model);
    layout::law_one_language(active);
}

// -- Single letters -----------------------------------------------------------------------------

proof fn lemma_en_single(c: char)
    ensures
        lexicon::listed(COMMON_EN_SINGLE@, seq![c]) <==> c == 'a' || c == 'i',
{
    let list = COMMON_EN_SINGLE@;
    assert(list.len() == 2);
    reveal_strlit("a");
    reveal_strlit("i");
    assert(list[0]@ =~= seq!['a']);
    assert(list[1]@ =~= seq!['i']);
    if lexicon::listed(list, seq![c]) {
        let i = choose|i: int| 0 <= i < list.len() && #[trigger] list[i]@ == seq![c];
        assert(i == 0 || i == 1);
        assert(list[i]@[0] == c);
    }
}

proof fn lemma_ru_single(c: char)
    ensures
        lexicon::listed(COMMON_RU_SINGLE@, seq![c]) <==> c == 'в' || c == 'и' || c == 'а' || c == 'о' || c == 'с' || c == 'у' || c == 'я' || c == 'к',
{
    let list = COMMON_RU_SINGLE@;
    assert(list.len() == 8);
    reveal_strlit("в");
    reveal_strlit("и");
    reveal_strlit("а");
    reveal_strlit("о");
    reveal_strlit("с");
    reveal_strlit("у");
    reveal_strlit("я");
    reveal_strlit("к");
    assert(list[0]@ =~= seq!['в']);
    assert(list[1]@ =~= seq!['и']);
    assert(list[2]@ =~= seq!['а']);
    assert(list[3]@ =~= seq!['о']);
    assert(list[4]@ =~= seq!['с']);
    assert(list[5]@ =~= seq!['у']);
    assert(list[6]@ =~= seq!['я']);
    assert(list[7]@ =~= seq!['к']);
    if lexicon::listed(list, seq![c]) {
        let i = choose|i: int| 0 <= i < list.len() && #[trigger] list[i]@ == seq![c];
        assert(i == 0 || i == 1 || i == 2 || i == 3 || i == 4 || i == 5 || i == 6 || i == 7);
        assert(list[i]@[0] == c);
    }
}

proof fn lemma_ua_single(c: char)
    ensures
        lexicon::listed(COMMON_UA_SINGLE@, seq![c]) <==> c == 'в' || c == 'і' || c == 'а' || c == 'о' || c == 'у' || c == 'я' || c == 'є' || c == 'з',
{
    let list = COMMON_UA_SINGLE@;
    assert(list.len() == 8);
    reveal_strlit("в");
    reveal_strlit("і");
    reveal_strlit("а");
    reveal_strlit("о");
    reveal_strlit("у");
    reveal_strlit("я");
    reveal_strlit("є");
    reveal_strlit("з");
    assert(list[0]@ =~= seq!['в']);
    assert(list[1]@ =~= seq!['і']);
    assert(list[2]@ =~= seq!['а']);
    assert(list[3]@ =~= seq!['о']);
    assert(list[4]@ =~= seq!['у']);
    assert(list[5]@ =~= seq!['я']);
    assert(list[6]@ =~= seq!['є']);
    assert(list[7]@ =~= seq!['з']);
    if lexicon::listed(list, seq![c]) {
        let i = choose|i: int| 0 <= i < list.len() && #[trigger] list[i]@ == seq![c];
        assert(i == 0 || i == 1 || i == 2 || i == 3 || i == 4 || i == 5 || i == 6 || i == 7);
        assert(list[i]@[0] == c);
    }
}

/// A single key gives a word of one letter.
proof fn lemma_single(keys: Seq<Entry>, l: Layout)
    requires
        legible(keys),
        keys.len() == 1,
    ensures
        word(keys, l).len() == 1,
        Some(word(keys, l)[0]) == layout::key_char(l, keys[0].vk, false),
        word(keys, l) == seq![word(keys, l)[0]],
{
    typing::lemma_spelled_index(keys, l, false, 0);
    assert(word(keys, l) =~= seq![word(keys, l)[0]]);
}

/// Under a Cyrillic layout a single letter is switched to English just where it
/// was typed with the key of A or of I, the two English words of one letter, or is a
/// common English word out of context.
#[verifier::rlimit(50)]
pub proof fn law_single_letters_leave_cyrillic(
    b: Typed,
    active: u16,
    sensitivity: i32,
    config: Preferences,
    model: &LanguageModel,
)
    requires
        fresh(b),
        b.keys.len() == 1,
        !b.in_snake_case,
        !common(b.keys, Layout::English, model) || config.context_lang == Some(active),
        ({
            ||| {
                &&& of_layout(active, Layout::Russian)
                &&& unclaimed(b.keys, Layout::Russian, config)
                &&& !common(b.keys, Layout::Russian, model)
            }
            ||| {
                &&& of_layout(active, Layout::Ukrainian)
                &&& unclaimed(b.keys, Layout::Ukrainian, config)
                &&& !common(b.keys, Layout::Ukrainian, model)
            }
        }),
    ensures
        ({
            let found = buffer::detection_of(b, active, sensitivity, false, config, model);
            if b.keys[0].vk == 0x41 || b.keys[0].vk == 0x49 {
                goes_to(found, LANG_EN_US)
            } else {
                found is None
            }
        }),
{
    let keys = b.keys;
    lemma_reading(b, model);
    layout::law_one_language(active);
    lemma_single(keys, Layout::English);
    lemma_single(keys, Layout::Russian);
    lemma_single(keys, Layout::Ukrainian);
    lemma_en_single(word(keys, Layout::English)[0]);
    lemma_ru_single(word(keys, Layout::Russian)[0]);
    lemma_ua_single(word(keys, Layout::Ukrainian)[0]);
}

/// The keys of the Russian words of one letter.
pub open spec fn russian_single(vk: u16) -> bool {
    vk == 0x44 || vk == 0x42 || vk == 0x46 || vk == 0x4A || vk == 0x43 || vk == 0x45 || vk == 0x5A
        || vk == 0x52
}

/// The keys of the Ukrainian words of one letter.
pub open spec fn ukrainian_single(vk: u16) -> bool {
    vk == 0x44 || vk == 0x53 || vk == 0x46 || vk == 0x4A || vk == 0x45 || vk == 0x5A || vk == 0xDE
        || vk == 0x50
}

/// Under the English layout a single letter is switched where its key gives a
/// word of one letter: to Ukrainian where that is preferred; to Russian where
/// Russian has the word; to Ukrainian where only Ukrainian has it and, without a
/// preference, the key tells it. A and I are English words.
#[verifier::rlimit(50)]
pub proof fn law_single_letters_leave_english(
    b: Typed,
    active: u16,
    sensitivity: i32,
    config: Preferences,
    model: &LanguageModel,
)
    requires
        fresh(b),
        b.keys.len() == 1,
        !b.in_snake_case,
        of_layout(active, Layout::English),
        unclaimed(b.keys, Layout::English, config),
        !common(b.keys, Layout::English, model),
    ensures
        ({
            let found = buffer::detection_of(b, active, sensitivity, false, config, model);
            let vk = b.keys[0].vk;
            let pref = config.preferred_cyrillic;
            let tells = vk == 0x53 || vk == 0xDE;
            &&& !russian_single(vk) && !ukrainian_single(vk) ==> found is None
            &&& pref == PreferredCyrillic::Ua && (russian_single(vk) || ukrainian_single(vk))
                ==> goes_to(found, LANG_UA)
            &&& pref != PreferredCyrillic::Ua && russian_single(vk) ==> goes_to(found, LANG_RU)
            &&& pref == PreferredCyrillic::Ru && !russian_single(vk) ==> found is None
            &&& pref == PreferredCyrillic::Auto && !russian_single(vk) && ukrainian_single(vk) ==> (
            if tells {
                goes_to(found, LANG_UA)
            } else {
                found is None
            })
        }),
{
    let keys = b.keys;
    lemma_reading(b, model);
    layout::law_one_language(active);
    lemma_single(keys, Layout::English);
    lemma_single(keys, Layout::Russian);
    lemma_single(keys, Layout::Ukrainian);
    lemma_en_single(word(keys, Layout::English)[0]);
    lemma_ru_single(word(keys, Layout::Russian)[0]);
    lemma_ua_single(word(keys, Layout::Ukrainian)[0]);
    assert(telling(keys) <==> keys[0].vk == 0x53 || keys[0].vk == 0xDD || keys[0].vk == 0xDE);
}

// -- What comes before the rules -------------------------------------------------------------------

/// A word that the user wants left alone in the layout of the screen stays,
/// whatever else is known of it.
#[verifier::rlimit(50)]
pub proof fn law_claimed_words_stay(
    b: Typed,
    active: u16,
    l: Layout,
    sensitivity: i32,
    on_the_fly: bool,
    config: Preferences,
    model: &LanguageModel,
)
    requires
        of_layout(active, l),
        config.ignored_words.contains(word(b.keys, l)),
    ensures
        buffer::detection_of(b, active, sensitivity, on_the_fly, config, model) is None,
{
    layout::law_one_language(active);
}

/// A word that the user has corrected goes where they have put it; a correction to
/// the active layout, or to no language of the three, counts for nothing.
#[verifier::rlimit(50)]
pub proof fn law_corrections_are_followed(
    b: Typed,
    active: u16,
    l: Layout,
    sensitivity: i32,
    on_the_fly: bool,
    config: Preferences,
    model: &LanguageModel,
)
    requires
        fresh(b),
        on_the_fly ==> b.keys.len() >= 4,
        of_layout(active, l),
        !config.ignored_words.contains(word(b.keys, l)),
        config.word_corrections.contains_key(word(b.keys, Layout::English)),
    ensures
        ({
            let found = buffer::detection_of(b, active, sensitivity, on_the_fly, config, model);
            let to = config.word_corrections[word(b.keys, Layout::English)];
            let without = Preferences {
                word_corrections: config.word_corrections.remove(word(b.keys, Layout::English)),
                ..config
            };
            &&& to != active && (to == LANG_EN_US || to == LANG_RU || to == LANG_UA)
                ==> goes_to(found, to)
            &&& to == active || (to != LANG_EN_US && to != LANG_RU && to != LANG_UA) ==> found
                == buffer::detection_of(
                b,
                active,
                sensitivity,
                on_the_fly,
                without,
                model,
            )
        }),
{
    lemma_reading(b, model);
    layout::law_one_language(active);
}

/// A common word of the active language stays, unless the user has corrected it.
#[verifier::rlimit(50)]
pub proof fn law_common_words_stay(
    b: Typed,
    active: u16,
    l: Layout,
    sensitivity: i32,
    on_the_fly: bool,
    config: Preferences,
    model: &LanguageModel,
)
    requires
        fresh(b),
        of_layout(active, l),
        common(b.keys, l, model),
        !config.word_corrections.contains_key(word(b.keys, Layout::English)),
    ensures
        buffer::detection_of(b, active, sensitivity, on_the_fly, config, model) is None,
{
    lemma_reading(b, model);
    layout::law_one_language(active);
}

/// Under the English layout an identifier stays, unless the user has corrected
/// it. Under a Cyrillic one it is switched to English, and so is a word with a
/// soft sign where none can stand, unless it is a common word or one that the user
/// has claimed; capitals alone make an identifier of four keys or more.
#[verifier::rlimit(50)]
pub proof fn law_identifiers_are_english(
    b: Typed,
    active: u16,
    l: Layout,
    sensitivity: i32,
    on_the_fly: bool,
    config: Preferences,
    model: &LanguageModel,
)
    requires
        fresh(b),
        on_the_fly ==> b.keys.len() >= 4,
        of_layout(active, l),
        unclaimed(b.keys, l, config),
    ensures
        ({
            let found = buffer::detection_of(b, active, sensitivity, on_the_fly, config, model);
            let named = b.in_snake_case || (!ordinary(b) && b.keys.len() >= 4);
            &&& l == Layout::English && !ordinary(b) ==> found is None
            &&& l != Layout::English && !common(b.keys, l, model) && (named || unsounded(
                word(b.keys, l),
            )) ==> goes_to(found, LANG_EN_US)
        }),
{
    lemma_reading(b, model);
    layout::law_one_language(active);
}

// -- What is put in the place of the word -------------------------------------------------------------

/// The first key was typed in lower case and all others, two at least, in upper
/// case.
pub open spec fn caps_lock_was_on(keys: Seq<Entry>) -> bool {
    &&& keys.len() >= 3
    &&& !keys[0].is_upper
    &&& forall|i: int| 1 <= i < keys.len() ==> (#[trigger] keys[i]).is_upper
}

/// A word holds for each key the character that it gives in a layout, in the
/// case in which it was typed; where Caps Lock was on by mistake, a capital and
/// lower-case letters.
pub open spec fn retyped(keys: Seq<Entry>, l: Layout, w: Seq<char>) -> bool {
    &&& w.len() == keys.len()
    &&& forall|i: int|
        0 <= i < keys.len() ==> Some(#[trigger] w[i]) == layout::key_char(
            l,
            keys[i].vk,
            (if caps_lock_was_on(keys) {
                i == 0
            } else {
                keys[i].is_upper
            }),
        )
}

proof fn lemma_retyped(keys: Seq<Entry>, l: Layout)
    requires
        legible(keys),
        keys.len() > 0,
    ensures
        retyped(keys, l, typing::in_case_of(keys, word(keys, l))),
        !caps_lock_was_on(keys) ==> typing::in_case_of(keys, word(keys, l)) == typing::spelled(
            keys,
            l,
            true,
        ),
{
    let plain = word(keys, l);
    let put = typing::in_case_of(keys, plain);
    typing::lemma_spelled_len(keys, l, false);
    if caps_lock_was_on(keys) {
        assert forall|i: int| 0 <= i < plain.len() implies unicode::keyboard_char(
            #[trigger] plain[i],
        ) by {
            typing::lemma_spelled_index(keys, l, false, i);
        }
        typing::law_caps_lock_is_mended(keys, plain);
        let rest = plain.drop_first();
        assert forall|i: int| 0 <= i < keys.len() implies Some(#[trigger] put[i])
            == layout::key_char(l, keys[i].vk, i == 0) by {
            typing::lemma_spelled_index(keys, l, false, i);
            if i > 0 {
                assert(rest[i - 1] == plain[i]);
            }
        }
    } else {
        typing::law_case_is_restored(keys, l);
        assert forall|i: int| 0 <= i < keys.len() implies Some(#[trigger] put[i])
            == layout::key_char(l, keys[i].vk, keys[i].is_upper) by {
            typing::lemma_spelled_index(keys, l, true, i);
        }
        typing::lemma_spelled_len(keys, l, true);
    }
}

/// Whenever a word is switched, at its end, while it is being typed or by the
/// hotkey, the new word is what the same keys give in the new layout, in the case
/// in which they were typed. Only Caps Lock that was on by mistake is made up for.
#[verifier::rlimit(50)]
pub proof fn law_switches_retype_the_keys(
    b: Typed,
    active: u16,
    sensitivity: i32,
    on_the_fly: bool,
    config: Preferences,
    model: &LanguageModel,
)
    ensures
        buffer::detection_of(b, active, sensitivity, on_the_fly, config, model) matches Some(r) ==> {
            &&& retyped(b.keys, layout_to(r.target_lang), r.new_word)
            &&& !caps_lock_was_on(b.keys) ==> r.new_word == typing::spelled(
                b.keys,
                layout_to(r.target_lang),
                true,
            )
        },
        buffer::forced_of(b, active, config, model) matches Some(r) ==> {
            &&& retyped(b.keys, layout_to(r.target_lang), r.new_word)
            &&& !caps_lock_was_on(b.keys) ==> r.new_word == typing::spelled(
                b.keys,
                layout_to(r.target_lang),
                true,
            )
        },
{
    let s = buffer::reading_of(b.keys, model);
    laws::law_readings_agree(b.keys, model);
    detection::lemma_target(s, buffer::shape_of(b), active, sensitivity, on_the_fly, config, model);
    typing::lemma_spelled_len(b.keys, Layout::English, false);
    if s.en_ok() && b.keys.len() > 0 {
        lemma_retyped(b.keys, Layout::English);
        lemma_retyped(b.keys, Layout::Russian);
        lemma_retyped(b.keys, Layout::Ukrainian);
    }
}

/// The word that a switch to another language takes from the screen, and that an
/// undo brings back, is what the keys give in the old layout: in lower case where
/// detection has switched it, in the case in which it was typed where the hotkey
/// has.
#[verifier::rlimit(50)]
pub proof fn law_switches_keep_the_old_word(
    b: Typed,
    active: u16,
    l: Layout,
    sensitivity: i32,
    on_the_fly: bool,
    config: Preferences,
    model: &LanguageModel,
)
    ensures
        buffer::detection_of(b, active, sensitivity, on_the_fly, config, model) matches Some(r) ==> (
        of_layout(active, l) && layout_to(r.target_lang) != l ==> r.original_word == word(
            b.keys,
            l,
        )),
        buffer::forced_of(b, active, config, model) matches Some(r) ==> (of_layout(
            (if b.entry_lang != 0 {
                b.entry_lang
            } else {
                active
            }),
            l,
        ) ==> r.original_word == typing::spelled(b.keys, l, true)),
{
    let s = buffer::reading_of(b.keys, model);
    detection::lemma_target(s, buffer::shape_of(b), active, sensitivity, on_the_fly, config, model);
    layout::law_one_language(active);
    layout::law_one_language(buffer::typed_under(b, active));
}

/// Keys of which one has no place in the layouts make up no word, and nothing is
/// switched.
#[verifier::rlimit(50)]
pub proof fn law_illegible_words_stay(
    b: Typed,
    active: u16,
    sensitivity: i32,
    on_the_fly: bool,
    config: Preferences,
    model: &LanguageModel,
)
    requires
        !legible(b.keys),
    ensures
        buffer::detection_of(b, active, sensitivity, on_the_fly, config, model) is None,
        buffer::forced_of(b, active, config, model) is None,
{
    laws::law_readings_agree(b.keys, model);
    typing::lemma_spelled_len(b.keys, Layout::English, false);
}

/// What is read off the keys are the three words, their scores and the number of the
/// keys.
pub proof fn law_readings_hold_the_words(keys: Seq<Entry>, model: &LanguageModel)
    ensures
        ({
            let s = buffer::reading_of(keys, model);
            &&& s.en == word(keys, Layout::English)
            &&& s.ru == word(keys, Layout::Russian)
            &&& s.ua == word(keys, Layout::Ukrainian)
            &&& s.en_score == fit(keys, Layout::English, model)
            &&& s.ru_score == fit(keys, Layout::Russian, model)
            &&& s.ua_score == fit(keys, Layout::Ukrainian, model)
            &&& s.len == keys.len()
        }),
{
}

/// Each character of a word is what its key gives in the layout, in lower case; keys
/// without a place in the layouts give none.
pub proof fn law_words_are_spelled(a: Seq<Entry>, b: Seq<Entry>, l: Layout, cased: bool)
    ensures
        typing::spelled(a + b, l, cased) == typing::spelled(a, l, cased) + typing::spelled(
            b,
            l,
            cased,
        ),
        b.len() == 1 ==> typing::spelled(b, l, cased) == (match layout::key_char(
            l,
            b[0].vk,
            cased && b[0].is_upper,
        ) {
            Some(c) => seq![c],
            None => Seq::empty(),
        }),
        b.len() == 0 ==> typing::spelled(b, l, cased).len() == 0,
    decreases b.len(),
{
    if b.len() == 0 {
        assert(a + b =~= a);
        assert(typing::spelled(a, l, cased) + typing::spelled(b, l, cased) =~= typing::spelled(
            a,
            l,
            cased,
        ));
    } else {
        let rest = b.drop_last();
        law_words_are_spelled(a, rest, l, cased);
        assert((a + b).drop_last() =~= a + rest);
        assert(typing::spelled(a + b, l, cased) =~= typing::spelled(a, l, cased)
            + typing::spelled(b, l, cased));
        if b.len() == 1 {
            assert(typing::spelled(rest, l, cased).len() == 0);
            assert(typing::spelled(b, l, cased) =~= (match layout::key_char(
                l,
                b[0].vk,
                cased && b[0].is_upper,
            ) {
                Some(c) => seq![c],
                None => Seq::empty(),
            }));
        }
    }
}

// -- The measures of the rules -----------------------------------------------------------------------

/// The threshold for a word is the lead that its length calls for.
pub proof fn law_thresholds_are_leads(len: int)
    ensures
        scoring::threshold_for(len) == lead(len),
{
}

/// A score clears a part of the bar just where it outdoes the other by that part of the
/// lead. Without sensitivity nothing does; a sensitivity below zero turns the comparison
/// round.
pub proof fn law_bars_are_cleared(
    a: Option<i64>,
    b: Option<i64>,
    len: usize,
    sensitivity: i32,
    in_context: bool,
    tenths: int,
)
    ensures
        ({
            let bar = Bar { len, sensitivity, in_context };
            let needed = lead(len as int) * 1_000_000 * (if in_context {
                13int
            } else {
                10int
            }) * tenths;
            &&& sensitivity > 0 ==> (scoring::clears(a, b, bar, tenths) <==> outdoes(
                a,
                b,
                len as int,
                sensitivity,
                in_context,
                tenths,
            ))
            &&& sensitivity == 0 ==> !scoring::clears(a, b, bar, tenths)
            &&& sensitivity < 0 && a is Some && b is Some ==> (scoring::clears(a, b, bar, tenths)
                <==> (a->0 - b->0) * sensitivity * 100 < needed)
            &&& a is None ==> !scoring::clears(a, b, bar, tenths)
        }),
{
}

/// Comparing scores: a missing one is worse than any; of two that are there the
/// difference counts.
pub proof fn law_scores_are_compared(a: Option<i64>, b: Option<i64>, delta: i64)
    ensures
        a is Some && b is Some ==> (scoring::better(a, b) <==> a->0 > b->0),
        a is Some && b is None ==> scoring::better(a, b),
        a is None ==> !scoring::better(a, b),
        a is Some && b is Some ==> (scoring::within(a, b, delta) <==> a->0 < b->0 + delta),
        a is None && b is Some ==> scoring::within(a, b, delta),
        b is None ==> !scoring::within(a, b, delta),
        !(scoring::better(a, b) && scoring::better(b, a)),
{
}

/// The letters that tell the languages apart, in either case: i, yi, ye and ghe with
/// upturn are Ukrainian alone; yery, e, the hard sign and yo are Russian alone. The
/// Cyrillic letters are those from a to ya and these.
pub proof fn law_letters_of_the_alphabets(c: char)
    requires
        unicode::keyboard_char(c),
    ensures
        ({
            let low = unicode::keyboard_lower(c);
            &&& detection::ua_marker(c) <==> low == 'і' || low == 'ї' || low == 'є' || low == 'ґ'
            &&& detection::ru_marker(c) <==> low == 'ы' || low == 'э' || low == 'ъ' || low == 'ё'
            &&& detection::cyrillic(c) <==> 'а' <= low <= 'я' || low == 'ё'
                || detection::ua_marker(c)
            &&& detection::ru_marker(c) || detection::ua_marker(c) ==> detection::cyrillic(c)
                && unicode::is_letter(c)
        }),
{
}

/// A word is marked, Cyrillic throughout or punctuated where one of its characters, or
/// all of them, are such.
pub proof fn law_words_are_what_their_letters_are(a: Seq<char>, b: Seq<char>, c: char)
    ensures
        detection::marked_ua(a + b) <==> detection::marked_ua(a) || detection::marked_ua(b),
        detection::marked_ru(a + b) <==> detection::marked_ru(a) || detection::marked_ru(b),
        detection::punctuated(a + b) <==> detection::punctuated(a) || detection::punctuated(b),
        detection::all_cyrillic(a + b) <==> detection::all_cyrillic(a) && detection::all_cyrillic(b),
        detection::marked_ua(seq![c]) <==> detection::ua_marker(c),
        detection::marked_ru(seq![c]) <==> detection::ru_marker(c),
        detection::punctuated(seq![c]) <==> !unicode::is_letter(c),
        detection::all_cyrillic(seq![c]) <==> detection::cyrillic(c),
{
    let whole = a + b;
    let n = a.len();
    assert forall|i: int| 0 <= i < a.len() implies whole[i] == #[trigger] a[i] by {}
    assert forall|i: int| 0 <= i < b.len() implies whole[n + i] == #[trigger] b[i] by {}
    let one = seq![c];
    assert(one[0] == c);
    if detection::marked_ua(whole) {
        let i = choose|i: int| 0 <= i < whole.len() && detection::ua_marker(#[trigger] whole[i]);
        if i < n {
            assert(detection::ua_marker(a[i]));
        } else {
            assert(detection::ua_marker(b[i - n]));
        }
    }
    if detection::marked_ua(b) {
        let i = choose|i: int| 0 <= i < b.len() && detection::ua_marker(#[trigger] b[i]);
        assert(detection::ua_marker(whole[n + i]));
    }
    if detection::marked_ua(a) {
        let i = choose|i: int| 0 <= i < a.len() && detection::ua_marker(#[trigger] a[i]);
        assert(detection::ua_marker(whole[i]));
    }
    if detection::marked_ru(whole) {
        let i = choose|i: int| 0 <= i < whole.len() && detection::ru_marker(#[trigger] whole[i]);
        if i < n {
            assert(detection::ru_marker(a[i]));
        } else {
            assert(detection::ru_marker(b[i - n]));
        }
    }
    if detection::marked_ru(b) {
        let i = choose|i: int| 0 <= i < b.len() && detection::ru_marker(#[trigger] b[i]);
        assert(detection::ru_marker(whole[n + i]));
    }
    if detection::marked_ru(a) {
        let i = choose|i: int| 0 <= i < a.len() && detection::ru_marker(#[trigger] a[i]);
        assert(detection::ru_marker(whole[i]));
    }
    if detection::punctuated(whole) {
        let i = choose|i: int| 0 <= i < whole.len() && !unicode::is_letter(#[trigger] whole[i]);
        if i < n {
            assert(!unicode::is_letter(a[i]));
        } else {
            assert(!unicode::is_letter(b[i - n]));
        }
    }
    if detection::punctuated(b) {
        let i = choose|i: int| 0 <= i < b.len() && !unicode::is_letter(#[trigger] b[i]);
        assert(!unicode::is_letter(whole[n + i]));
    }
    if detection::punctuated(a) {
        let i = choose|i: int| 0 <= i < a.len() && !unicode::is_letter(#[trigger] a[i]);
        assert(!unicode::is_letter(whole[i]));
    }
    if detection::all_cyrillic(a) && detection::all_cyrillic(b) {
        assert forall|i: int| 0 <= i < whole.len() implies detection::cyrillic(
            #[trigger] whole[i],
        ) by {
            if i < n {
                assert(detection::cyrillic(a[i]));
            } else {
                assert(detection::cyrillic(b[i - n]));
            }
        }
    }
    if detection::all_cyrillic(whole) {
        assert forall|i: int| 0 <= i < a.len() implies detection::cyrillic(#[trigger] a[i]) by {
            assert(detection::cyrillic(whole[i]));
        }
        assert forall|i: int| 0 <= i < b.len() implies detection::cyrillic(#[trigger] b[i]) by {
            assert(detection::cyrillic(whole[n + i]));
        }
    }
}

/// A word is impossible just where a soft sign stands after a vowel or another soft
/// sign.
pub proof fn law_impossible_words(w: Seq<char>)
    ensures
        detection::impossible(w) <==> unsounded(w),
{
    lemma_unsounded(w);
}

/// The choice between Russian and Ukrainian: a preference for Ukrainian always decides,
/// one for Russian where the word can be Russian. Without one a telling word goes by what
/// is known of it, any other to Russian where it can be.
pub proof fn law_preferences_decide(
    pref: PreferredCyrillic,
    ru_candidate: bool,
    ua_word: Seq<char>,
    auto: bool,
)
    ensures
        ({
            let choice = detection::cyrillic_choice(pref, ru_candidate, ua_word, auto);
            let marked = detection::marked_ua(ua_word);
            &&& pref == PreferredCyrillic::Ua ==> choice == Some(false)
            &&& pref != PreferredCyrillic::Ua && !(pref == PreferredCyrillic::Auto && marked) ==> (
            choice is Some <==> ru_candidate) && choice != Some(false)
            &&& pref == PreferredCyrillic::Auto && marked ==> choice == Some(auto)
        }),
{
}

/// Where the keys make up a word of one of the Cyrillic languages alone, a forced switch
/// from English goes to that one; where of neither, there is none.
pub proof fn law_forced_switches_need_a_word(
    s: Reading,
    active: u16,
    config: Preferences,
    model: &LanguageModel,
)
    requires
        of_layout(active, Layout::English),
    ensures
        ({
            let target = detection::forced_target(s, active, config, model);
            let ru = s.ru.len() == s.len && detection::all_cyrillic(s.ru);
            let ua = s.ua.len() == s.len && detection::all_cyrillic(s.ua);
            &&& ru && !ua ==> target == Some(LANG_RU)
            &&& ua && !ru ==> target == Some(LANG_UA)
            &&& !ru && !ua ==> target is None
            &&& ru && ua ==> target is Some
        }),
{
    layout::law_one_language(active);
}

/// A word in the case of its keys: each character has the case of its key, and what is
/// beyond the keys falls away; without any key, and under Caps Lock by mistake, it is
/// otherwise.
pub proof fn law_words_take_the_case_of_their_keys(keys: Seq<Entry>, w: Seq<char>, i: int)
    requires
        !caps_lock_was_on(keys),
        keys.len() > 0,
    ensures
        ({
            let put = typing::in_case_of(keys, w);
            &&& put.len() == (if w.len() < keys.len() {
                w.len()
            } else {
                keys.len()
            })
            &&& 0 <= i < put.len() && keys[i].is_upper ==> put[i] == unicode::uppercase_of(w[i])[0]
            &&& 0 <= i < put.len() && !keys[i].is_upper ==> put[i] == w[i]
        }),
        typing::in_case_of(Seq::empty(), w) == w,
{
}

/// A finished word that English knows and the active Cyrillic language does not is
/// switched to English, however short, unless the user has claimed it; up to four keys it
/// stays to the other rules where the recent words speak for the active layout.
#[verifier::rlimit(50)]
pub proof fn law_common_english_words_leave_cyrillic(
    b: Typed,
    active: u16,
    l: Layout,
    sensitivity: i32,
    config: Preferences,
    model: &LanguageModel,
)
    requires
        fresh(b),
        l != Layout::English,
        of_layout(active, l),
        unclaimed(b.keys, l, config),
        !common(b.keys, l, model),
        common(b.keys, Layout::English, model),
        b.keys.len() > 4 || config.context_lang != Some(active),
    ensures
        goes_to(
            buffer::detection_of(b, active, sensitivity, false, config, model),
            LANG_EN_US,
        ),
{
    lemma_reading(b, model);
    layout::law_one_language(active);
}

/// Without any sensitivity, statistics switch nothing under a Cyrillic layout either.
#[verifier::rlimit(50)]
pub proof fn law_no_sensitivity_no_cyrillic_statistics(
    b: Typed,
    active: u16,
    l: Layout,
    on_the_fly: bool,
    config: Preferences,
    model: &LanguageModel,
)
    requires
        fresh(b),
        ordinary(b),
        b.keys.len() >= 4,
        l != Layout::English,
        of_layout(active, l),
        unclaimed(b.keys, l, config),
        !unsounded(word(b.keys, l)),
        !common(b.keys, Layout::English, model),
    ensures
        buffer::detection_of(b, active, 0, on_the_fly, config, model) is None,
{
    lemma_reading(b, model);
    layout::law_one_language(active);
}

/// A key that is held down makes up no word: two keys or more that are all the same one
/// are left alone, whatever the user has corrected. So is a word under a layout of no
/// language of the three, unless it was corrected.
#[verifier::rlimit(50)]
pub proof fn law_no_words_no_switches(
    b: Typed,
    active: u16,
    sensitivity: i32,
    on_the_fly: bool,
    config: Preferences,
    model: &LanguageModel,
)
    ensures
        ({
            let found = buffer::detection_of(b, active, sensitivity, on_the_fly, config, model);
            &&& b.keys.len() >= 2 && (forall|i: int|
                1 <= i < b.keys.len() ==> (#[trigger] b.keys[i]).vk == b.keys[0].vk) ==> found is None
            &&& b.keys.len() == 0 || b.has_switched ==> found is None
            &&& on_the_fly && b.keys.len() < 4 ==> found is None
            &&& !of_layout(active, Layout::English) && !of_layout(active, Layout::Russian)
                && !of_layout(active, Layout::Ukrainian) && !config.word_corrections.contains_key(
                word(b.keys, Layout::English),
            ) ==> found is None
        }),
{
}

/// What the user wants of other words makes no difference: neither a word that is left
/// alone and does not stand on the screen nor a correction of other keys.
#[verifier::rlimit(50)]
pub proof fn law_other_words_do_not_matter(
    b: Typed,
    active: u16,
    l: Layout,
    sensitivity: i32,
    on_the_fly: bool,
    config: Preferences,
    model: &LanguageModel,
    other: Seq<char>,
    target: u16,
)
    requires
        of_layout(active, l),
    ensures
        ({
            let found = buffer::detection_of(b, active, sensitivity, on_the_fly, config, model);
            let ignoring = Preferences {
                ignored_words: config.ignored_words.insert(other),
                ..config
            };
            let correcting = Preferences {
                word_corrections: config.word_corrections.insert(other, target),
                ..config
            };
            &&& other != word(b.keys, l) ==> buffer::detection_of(
                b,
                active,
                sensitivity,
                on_the_fly,
                ignoring,
                model,
            ) == found
            &&& other != word(b.keys, Layout::English) ==> buffer::detection_of(
                b,
                active,
                sensitivity,
                on_the_fly,
                correcting,
                model,
            ) == found
        }),
{
    layout::law_one_language(active);
    let s = buffer::reading_of(b.keys, model);
    let shape = buffer::shape_of(b);
    let ignoring = Preferences { ignored_words: config.ignored_words.insert(other), ..config };
    let correcting = Preferences {
        word_corrections: config.word_corrections.insert(other, target),
        ..config
    };
    if other != word(b.keys, l) {
        assert(detection::ignored(s, active, ignoring) == detection::ignored(s, active, config));
        lemma_same_target(s, shape, active, sensitivity, on_the_fly, config, ignoring, model);
    }
    if other != word(b.keys, Layout::English) {
        assert(detection::correction(s, active, correcting) == detection::correction(
            s,
            active,
            config,
        ));
        lemma_same_target(s, shape, active, sensitivity, on_the_fly, config, correcting, model);
    }
}

/// Preferences that differ in nothing that concerns a word lead to the same language.
proof fn lemma_same_target(
    s: Reading,
    shape: Shape,
    active: u16,
    sensitivity: i32,
    on_the_fly: bool,
    one: Preferences,
    other: Preferences,
    model: &LanguageModel,
)
    requires
        one.preferred_cyrillic == other.preferred_cyrillic,
        one.context_lang == other.context_lang,
        detection::ignored(s, active, one) == detection::ignored(s, active, other),
        detection::correction(s, active, one) == detection::correction(s, active, other),
    ensures
        detection::target_of(s, shape, active, sensitivity, on_the_fly, one, model)
            == detection::target_of(s, shape, active, sensitivity, on_the_fly, other, model),
{
    assert(detection::english_by_dictionary(s, active, on_the_fly, one, model)
        == detection::english_by_dictionary(s, active, on_the_fly, other, model));
    assert(detection::single_letter_target(s, active, one) == detection::single_letter_target(
        s,
        active,
        other,
    ));
    assert(detection::short_word_target(s, active, one) == detection::short_word_target(
        s,
        active,
        other,
    ));
    assert(detection::model_target(s, active, sensitivity, on_the_fly, one, model)
        == detection::model_target(s, active, sensitivity, on_the_fly, other, model));
}

/// Under Caps Lock by mistake a word of keyboard characters takes a capital and lower-case
/// letters, however long it is.
pub proof fn law_mistaken_capitals_are_mended(keys: Seq<Entry>, w: Seq<char>, i: int)
    requires
        caps_lock_was_on(keys),
        forall|j: int| 0 <= j < w.len() ==> unicode::keyboard_char(#[trigger] w[j]),
        0 <= i < w.len(),
    ensures
        ({
            let put = typing::in_case_of(keys, w);
            &&& put.len() == w.len()
            &&& put[i] == (if i == 0 {
                unicode::keyboard_upper(w[0])
            } else {
                unicode::keyboard_lower(w[i])
            })
        }),
{
    typing::law_caps_lock_is_mended(keys, w);
    let rest = w.drop_first();
    if i > 0 {
        assert(rest[i - 1] == w[i]);
    }
}

} // verus!
