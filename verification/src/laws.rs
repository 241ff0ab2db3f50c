//! What holds of detection and of forced switches as a whole.

use vstd::prelude::*;

use crate::bigrams::{self, LanguageModel};
use crate::buffer::{self, Preferences, Replacement, Typed};
use crate::detection::{self, Reading};
use crate::layout::{self, Layout, LANG_EN_US, LANG_RU, LANG_UA};
use crate::scoring::{self, Bar};
use crate::settings::PreferredCyrillic;
use crate::typing::{self, Entry, Shape};
use crate::unicode;

verus! {

/// The letters on the keys of the two Cyrillic layouts are all Cyrillic, and
/// each is one character in either case.
proof fn lemma_key_letters(keys: Seq<Entry>, l: Layout)
    requires
        l != Layout::English,
    ensures
        detection::all_cyrillic(typing::spelled(keys, l, false)),
    decreases keys.len(),
{
    let word = typing::spelled(keys, l, false);
    if keys.len() > 0 {
        lemma_key_letters(keys.drop_last(), l);
        let before = typing::spelled(keys.drop_last(), l, false);
        assert forall|i: int| 0 <= i < word.len() implies detection::cyrillic(#[trigger] word[i]) by {
            if i < before.len() {
                assert(word[i] == before[i]);
            }
        }
    }
}

/// Typed keys read in all three layouts or in none, and what they read as in
/// the Cyrillic ones is always made up of letters.
pub proof fn law_readings_agree(keys: Seq<Entry>, model: &LanguageModel)
    ensures
        ({
            let s = buffer::reading_of(keys, model);
            &&& s.en_ok() == s.ru_ok()
            &&& s.en_ok() == s.ua_ok()
            &&& s.ru_ok() == s.ru_valid()
            &&& s.ua_ok() == s.ua_valid()
        }),
{
    typing::lemma_spelled_len(keys, Layout::English, false);
    typing::lemma_spelled_len(keys, Layout::Russian, false);
    typing::lemma_spelled_len(keys, Layout::Ukrainian, false);
    lemma_key_letters(keys, Layout::Russian);
    lemma_key_letters(keys, Layout::Ukrainian);
}

/// A word that has been switched already, that is one key held down, or that
/// is too short, is left alone; while it is being typed a word takes four keys.
pub proof fn law_left_alone(
    b: Typed,
    active: u16,
    sensitivity: i32,
    on_the_fly: bool,
    config: Preferences,
    model: &LanguageModel,
)
    requires
        b.has_switched || b.keys.len() == 0 || (b.keys.len() >= 2 && buffer::one_key_repeated(
            b.keys,
        )) || (on_the_fly && b.keys.len() < 4),
    ensures
        buffer::detection_of(b, active, sensitivity, on_the_fly, config, model) is None,
{
}

/// A word that the user wants left alone is never switched, not even where a
/// correction is known for it.
pub proof fn law_ignored_words_stay(
    b: Typed,
    active: u16,
    sensitivity: i32,
    on_the_fly: bool,
    config: Preferences,
    model: &LanguageModel,
)
    requires
        config.ignored_words.contains(buffer::reading_of(b.keys, model).on_screen(active)),
    ensures
        buffer::detection_of(b, active, sensitivity, on_the_fly, config, model) is None,
{
}

/// What the user has once chosen for some keys overrides dictionaries and
/// statistics, at every sensitivity.
pub proof fn law_corrections_win(
    b: Typed,
    active: u16,
    sensitivity: i32,
    on_the_fly: bool,
    config: Preferences,
    model: &LanguageModel,
)
    requires
        buffer::detectable(b, on_the_fly),
        !config.ignored_words.contains(buffer::reading_of(b.keys, model).on_screen(active)),
        config.word_corrections.contains_key(buffer::reading_of(b.keys, model).en),
        ({
            let target = config.word_corrections[buffer::reading_of(b.keys, model).en];
            target != active && (target == LANG_EN_US || target == LANG_RU || target == LANG_UA)
        }),
        buffer::reading_of(b.keys, model).en_ok(),
    ensures
        buffer::detection_of(b, active, sensitivity, on_the_fly, config, model) matches Some(r)
            && r.target_lang == config.word_corrections[buffer::reading_of(b.keys, model).en],
{
    law_readings_agree(b.keys, model);
}

/// A common word of the active language is never switched, unless the user has
/// corrected it before.
pub proof fn law_known_words_stay(
    b: Typed,
    active: u16,
    sensitivity: i32,
    on_the_fly: bool,
    config: Preferences,
    model: &LanguageModel,
)
    requires
        !config.word_corrections.contains_key(buffer::reading_of(b.keys, model).en),
        detection::known_on_screen(buffer::reading_of(b.keys, model), active, model),
    ensures
        buffer::detection_of(b, active, sensitivity, on_the_fly, config, model) is None,
{
}

/// An identifier typed under the English layout is never switched, unless the
/// user has corrected it before.
pub proof fn law_identifiers_stay(
    b: Typed,
    active: u16,
    sensitivity: i32,
    on_the_fly: bool,
    config: Preferences,
    model: &LanguageModel,
)
    requires
        layout::english(active),
        buffer::shape_of(b) != Shape::Plain,
        !config.word_corrections.contains_key(buffer::reading_of(b.keys, model).en),
    ensures
        buffer::detection_of(b, active, sensitivity, on_the_fly, config, model) is None,
{
}

/// What no language but English can be is switched to English from a Cyrillic
/// layout at once, at every sensitivity: a part of a name with underscores, four
/// keys or more with the capitals of an identifier, or a word with a pair of
/// letters that no word holds. The exceptions are words that the user wants left
/// alone or has corrected, and common words.
pub proof fn law_misfits_are_switched(
    b: Typed,
    active: u16,
    sensitivity: i32,
    on_the_fly: bool,
    config: Preferences,
    model: &LanguageModel,
)
    requires
        buffer::detectable(b, on_the_fly),
        layout::russian(active) || layout::ukrainian(active),
        forall|i: int| 0 <= i < b.keys.len() ==> layout::translatable((#[trigger] b.keys[i]).vk),
        detection::identifier(buffer::reading_of(b.keys, model), buffer::shape_of(b))
            || detection::impossible(buffer::reading_of(b.keys, model).on_screen(active)),
        !config.ignored_words.contains(buffer::reading_of(b.keys, model).on_screen(active)),
        !config.word_corrections.contains_key(buffer::reading_of(b.keys, model).en),
        !detection::known_on_screen(buffer::reading_of(b.keys, model), active, model),
    ensures
        buffer::detection_of(b, active, sensitivity, on_the_fly, config, model) matches Some(r)
            && r.target_lang == LANG_EN_US,
{
    layout::law_one_language(active);
    law_readings_agree(b.keys, model);
    typing::lemma_spelled_len(b.keys, Layout::English, false);
}

/// A finished word of four keys or more that English does not know but Russian
/// or Ukrainian does is switched from the English layout at every sensitivity,
/// whatever the scores. With an automatic choice, and where Ukrainian does not
/// know it, it goes to Russian. The exceptions are words that the user wants
/// left alone or has corrected, and identifiers.
pub proof fn law_words_known_elsewhere_are_switched(
    b: Typed,
    active: u16,
    sensitivity: i32,
    config: Preferences,
    model: &LanguageModel,
)
    requires
        buffer::detectable(b, false),
        b.keys.len() >= 4,
        layout::english(active),
        forall|i: int| 0 <= i < b.keys.len() ==> layout::translatable((#[trigger] b.keys[i]).vk),
        buffer::shape_of(b) == Shape::Plain,
        !model.en_dictionary().contains(buffer::reading_of(b.keys, model).en),
        model.ru_dictionary().contains(buffer::reading_of(b.keys, model).ru)
            || model.ua_dictionary().contains(buffer::reading_of(b.keys, model).ua),
        !config.ignored_words.contains(buffer::reading_of(b.keys, model).en),
        !config.word_corrections.contains_key(buffer::reading_of(b.keys, model).en),
    ensures
        buffer::detection_of(b, active, sensitivity, false, config, model) matches Some(r) && {
            let s = buffer::reading_of(b.keys, model);
            &&& r.target_lang == LANG_RU || r.target_lang == LANG_UA
            &&& r.backspaces == b.keys.len()
            &&& r.new_word == typing::in_case_of(b.keys, buffer::word_in(s, r.target_lang))
            &&& config.preferred_cyrillic == PreferredCyrillic::Auto && !model.ua_dictionary().contains(s.ua)
                ==> r.target_lang == LANG_RU
        },
{
    layout::law_one_language(active);
    law_readings_agree(b.keys, model);
    typing::lemma_spelled_len(b.keys, Layout::English, false);
}

/// Under any other layout than the three, nothing is switched but what the
/// user has corrected before.
pub proof fn law_other_layouts_stay(
    b: Typed,
    active: u16,
    sensitivity: i32,
    on_the_fly: bool,
    config: Preferences,
    model: &LanguageModel,
)
    requires
        !layout::english(active),
        !layout::russian(active),
        !layout::ukrainian(active),
        !config.word_corrections.contains_key(buffer::reading_of(b.keys, model).en),
    ensures
        buffer::detection_of(b, active, sensitivity, on_the_fly, config, model) is None,
{
}

/// A switch always goes to one of the three languages, and away from the
/// active layout; without a correction it goes to another language.
pub proof fn law_switch_changes_the_layout(
    b: Typed,
    active: u16,
    sensitivity: i32,
    on_the_fly: bool,
    config: Preferences,
    model: &LanguageModel,
)
    ensures
        buffer::detection_of(b, active, sensitivity, on_the_fly, config, model) matches Some(r) ==> {
            &&& r.target_lang == LANG_EN_US || r.target_lang == LANG_RU || r.target_lang == LANG_UA
            &&& r.target_lang != active
            &&& !config.word_corrections.contains_key(buffer::reading_of(b.keys, model).en)
                ==> layout::primary(r.target_lang) != layout::primary(active)
        },
{
    detection::lemma_target(
        buffer::reading_of(b.keys, model),
        buffer::shape_of(b),
        active,
        sensitivity,
        on_the_fly,
        config,
        model,
    );
}

/// The characters on the keys have one lower-case and one upper-case form each.
proof fn lemma_all_lower_len(s: Seq<char>)
    requires
        forall|i: int| 0 <= i < s.len() ==> unicode::keyboard_char(#[trigger] s[i]),
    ensures
        typing::all_lower(s).len() == s.len(),
    decreases s.len(),
{
    if s.len() > 0 {
        let rest = s.drop_last();
        assert forall|i: int| 0 <= i < rest.len() implies unicode::keyboard_char(
            #[trigger] rest[i],
        ) by {
            assert(rest[i] == s[i]);
        }
        lemma_all_lower_len(rest);
        assert(unicode::keyboard_char(s[s.len() - 1]));
    }
}

/// A word that was spelled by keys keeps its length when it takes their case.
proof fn lemma_cased_len(keys: Seq<Entry>, l: Layout)
    requires
        typing::spelled(keys, l, false).len() == keys.len(),
    ensures
        typing::in_case_of(keys, typing::spelled(keys, l, false)).len() == keys.len(),
{
    typing::lemma_spelled_len(keys, l, false);
    let word = typing::spelled(keys, l, false);
    if typing::caps_inverted(keys) {
        assert forall|i: int| 0 <= i < word.len() implies unicode::keyboard_char(
            #[trigger] word[i],
        ) by {
            typing::lemma_spelled_index(keys, l, false, i);
        }
        let rest = word.drop_first();
        assert forall|i: int| 0 <= i < rest.len() implies unicode::keyboard_char(
            #[trigger] rest[i],
        ) by {
            assert(rest[i] == word[i + 1]);
        }
        lemma_all_lower_len(rest);
        assert(unicode::keyboard_char(word[0]));
    }
}

/// The new word has one character per typed key. A finished word is erased
/// whole; while it is being typed, the last key has not reached the screen.
pub proof fn law_one_character_per_key(
    b: Typed,
    active: u16,
    sensitivity: i32,
    on_the_fly: bool,
    config: Preferences,
    model: &LanguageModel,
)
    ensures
        buffer::detection_of(b, active, sensitivity, on_the_fly, config, model) matches Some(r) ==> {
            &&& r.new_word.len() == b.keys.len()
            &&& r.backspaces == r.new_word.len() - (if on_the_fly {
                1int
            } else {
                0int
            })
            &&& r.backspaces >= 1
        },
        buffer::forced_of(b, active, config, model) matches Some(r) ==> r.new_word.len()
            == b.keys.len() && r.backspaces == r.new_word.len() && r.original_word.len()
            == b.keys.len(),
{
    let s = buffer::reading_of(b.keys, model);
    law_readings_agree(b.keys, model);
    detection::lemma_target(s, buffer::shape_of(b), active, sensitivity, on_the_fly, config, model);
    if s.en_ok() {
        lemma_cased_len(b.keys, Layout::English);
        lemma_cased_len(b.keys, Layout::Russian);
        lemma_cased_len(b.keys, Layout::Ukrainian);
        typing::lemma_spelled_len(b.keys, Layout::English, false);
        typing::lemma_spelled_len(
            b.keys,
            buffer::layout_of(buffer::typed_under(b, active)),
            true,
        );
    }
}

/// With an automatic choice, nothing is ever taken for Ukrainian without a
/// letter that Russian lacks, but what the user has corrected before.
pub proof fn law_ukrainian_needs_a_mark(
    b: Typed,
    active: u16,
    sensitivity: i32,
    on_the_fly: bool,
    config: Preferences,
    model: &LanguageModel,
)
    requires
        config.preferred_cyrillic == PreferredCyrillic::Auto,
        !detection::marked_ua(buffer::reading_of(b.keys, model).ua),
    ensures
        buffer::detection_of(b, active, sensitivity, on_the_fly, config, model) matches Some(r) ==> (
        !config.word_corrections.contains_key(buffer::reading_of(b.keys, model).en) ==> r.target_lang != LANG_UA),
        buffer::forced_of(b, active, config, model) matches Some(r) ==> r.target_lang != LANG_UA,
{
    law_readings_agree(b.keys, model);
}

/// Under the English layout, who prefers Russian never gets Ukrainian, but for
/// what they have corrected before.
pub proof fn law_russian_preference(
    b: Typed,
    active: u16,
    sensitivity: i32,
    on_the_fly: bool,
    config: Preferences,
    model: &LanguageModel,
)
    requires
        config.preferred_cyrillic == PreferredCyrillic::Ru,
        layout::english(active),
        layout::english(buffer::typed_under(b, active)),
    ensures
        buffer::detection_of(b, active, sensitivity, on_the_fly, config, model) matches Some(r) ==> (
        !config.word_corrections.contains_key(buffer::reading_of(b.keys, model).en) ==> r.target_lang == LANG_RU),
        buffer::forced_of(b, active, config, model) matches Some(r) ==> r.target_lang == LANG_RU,
{
    law_readings_agree(b.keys, model);
    detection::lemma_target(
        buffer::reading_of(b.keys, model),
        buffer::shape_of(b),
        active,
        sensitivity,
        on_the_fly,
        config,
        model,
    );
}

/// Under the English layout, who prefers Ukrainian never gets Russian, but for
/// what they have corrected before and for short words that only Russian has.
pub proof fn law_ukrainian_preference(
    b: Typed,
    active: u16,
    sensitivity: i32,
    on_the_fly: bool,
    config: Preferences,
    model: &LanguageModel,
)
    requires
        config.preferred_cyrillic == PreferredCyrillic::Ua,
        layout::english(active),
        layout::english(buffer::typed_under(b, active)),
        on_the_fly || (b.keys.len() != 2 && b.keys.len() != 3),
    ensures
        buffer::detection_of(b, active, sensitivity, on_the_fly, config, model) matches Some(r) ==> (
        !config.word_corrections.contains_key(buffer::reading_of(b.keys, model).en) ==> r.target_lang == LANG_UA),
        buffer::forced_of(b, active, config, model) matches Some(r) ==> r.target_lang == LANG_UA,
{
    law_readings_agree(b.keys, model);
    detection::lemma_target(
        buffer::reading_of(b.keys, model),
        buffer::shape_of(b),
        active,
        sensitivity,
        on_the_fly,
        config,
        model,
    );
}

/// What is switched at some sensitivity is switched at every higher one.
pub proof fn law_sensitivity_adds_switches(
    b: Typed,
    active: u16,
    sensitivity: i32,
    higher: i32,
    on_the_fly: bool,
    config: Preferences,
    model: &LanguageModel,
)
    requires
        0 < sensitivity <= higher,
        buffer::detection_of(b, active, sensitivity, on_the_fly, config, model) is Some,
    ensures
        buffer::detection_of(b, active, higher, on_the_fly, config, model) is Some,
{
    let s = buffer::reading_of(b.keys, model);
    let low = Bar {
        len: s.len as usize,
        sensitivity,
        in_context: config.context_lang == Some(active),
    };
    let high = Bar { sensitivity: higher, ..low };
    lemma_higher(s.en_score, s.ru_score, low, higher);
    lemma_higher(s.en_score, s.ua_score, low, higher);
    lemma_higher(s.ua_score, s.ru_score, low, higher);
    lemma_higher(s.ru_score, s.ua_score, low, higher);
    lemma_higher(s.ru_score, s.en_score, low, higher);
    lemma_higher(s.ua_score, s.en_score, low, higher);
    let shape = buffer::shape_of(b);
    assert(detection::target_of(s, shape, active, sensitivity, on_the_fly, config, model) is Some
        ==> detection::target_of(s, shape, active, higher, on_the_fly, config, model) is Some) by {
        let pref = config.preferred_cyrillic;
        if detection::model_target_en(s, low, on_the_fly, pref, model) is Some {
            detection::lemma_english_choice(s, low, high, on_the_fly, pref, model);
        }
    }
}

proof fn lemma_higher(a: Option<i64>, b: Option<i64>, bar: Bar, higher: i32)
    requires
        0 < bar.sensitivity <= higher,
    ensures
        forall|tenths: int|
            0 <= tenths && scoring::clears(a, b, bar, tenths) ==> #[trigger] scoring::clears(
                a,
                b,
                (Bar { sensitivity: higher, ..bar }),
                tenths,
            ),
{
    assert forall|tenths: int|
        0 <= tenths && scoring::clears(a, b, bar, tenths) implies #[trigger] scoring::clears(
        a,
        b,
        (Bar { sensitivity: higher, ..bar }),
        tenths,
    ) by {
        scoring::law_sensitivity_is_monotone(a, b, bar, higher, tenths);
    }
}

/// What is switched although the recent words speak for the active layout is
/// switched without them too.
pub proof fn law_context_holds_back(
    b: Typed,
    active: u16,
    sensitivity: i32,
    on_the_fly: bool,
    config: Preferences,
    model: &LanguageModel,
)
    requires
        0 < sensitivity,
        config.context_lang == Some(active),
        buffer::detection_of(b, active, sensitivity, on_the_fly, config, model) is Some,
    ensures
        buffer::detection_of(
            b,
            active,
            sensitivity,
            on_the_fly,
            (Preferences { context_lang: None, ..config }),
            model,
        ) is Some,
{
    let s = buffer::reading_of(b.keys, model);
    let within = Bar { len: s.len as usize, sensitivity, in_context: true };
    let without = Bar { in_context: false, ..within };
    lemma_out_of_context(s.en_score, s.ru_score, within);
    lemma_out_of_context(s.en_score, s.ua_score, within);
    lemma_out_of_context(s.ua_score, s.ru_score, within);
    lemma_out_of_context(s.ru_score, s.ua_score, within);
    lemma_out_of_context(s.ru_score, s.en_score, within);
    lemma_out_of_context(s.ua_score, s.en_score, within);
    let alone = Preferences { context_lang: None, ..config };
    let shape = buffer::shape_of(b);
    assert(detection::target_of(s, shape, active, sensitivity, on_the_fly, config, model) is Some
        ==> detection::target_of(s, shape, active, sensitivity, on_the_fly, alone, model) is Some) by {
        let pref = config.preferred_cyrillic;
        if detection::model_target_en(s, within, on_the_fly, pref, model) is Some {
            detection::lemma_english_choice(s, within, without, on_the_fly, pref, model);
        }
    }
}

proof fn lemma_out_of_context(a: Option<i64>, b: Option<i64>, bar: Bar)
    requires
        0 < bar.sensitivity,
        bar.in_context,
    ensures
        forall|tenths: int|
            0 <= tenths && scoring::clears(a, b, bar, tenths) ==> #[trigger] scoring::clears(
                a,
                b,
                (Bar { in_context: false, ..bar }),
                tenths,
            ),
{
    assert forall|tenths: int|
        0 <= tenths && scoring::clears(a, b, bar, tenths) implies #[trigger] scoring::clears(
        a,
        b,
        (Bar { in_context: false, ..bar }),
        tenths,
    ) by {
        scoring::law_context_raises_the_bar(a, b, bar, tenths);
    }
}

/// A forced switch fails only where nothing has been typed, a key has no place
/// in the layouts, or the word was typed under none of the three layouts.
pub proof fn law_force_succeeds(
    b: Typed,
    active: u16,
    config: Preferences,
    model: &LanguageModel,
)
    ensures
        buffer::forced_of(b, active, config, model) is Some <==> {
            let from = buffer::typed_under(b, active);
            &&& b.keys.len() > 0
            &&& forall|i: int| 0 <= i < b.keys.len() ==> layout::translatable((#[trigger] b.keys[i]).vk)
            &&& layout::english(from) || layout::russian(from) || layout::ukrainian(from)
        },
{
    law_readings_agree(b.keys, model);
    typing::lemma_spelled_len(b.keys, Layout::English, false);
}

/// Once the layout under which a word was begun is known, the direction of a
/// forced switch does not depend on the layout that is active meanwhile.
pub proof fn law_force_keeps_its_direction(
    b: Typed,
    active1: u16,
    active2: u16,
    config: Preferences,
    model: &LanguageModel,
)
    requires
        b.entry_lang != 0,
    ensures
        buffer::forced_of(b, active1, config, model) == buffer::forced_of(
            b,
            active2,
            config,
            model,
        ),
{
}

/// A word that is forced from English to a Cyrillic language and then forced
/// from there comes back as it was, capitals included, unless Caps Lock was
/// inverted when it was typed.
pub proof fn law_force_round_trip(
    keys: Seq<Entry>,
    active: u16,
    config: Preferences,
    model: &LanguageModel,
)
    requires
        layout::english(active),
        !typing::caps_inverted(keys),
        buffer::forced_of(
            (Typed { keys, ..buffer::nothing_typed() }),
            active,
            config,
            model,
        ) is Some,
    ensures
        ({
            let b = Typed { keys, ..buffer::nothing_typed() };
            let there = buffer::forced_of(b, active, config, model)->0;
            buffer::forced_of(b, there.target_lang, config, model) matches Some(back) && {
                &&& back.new_word == there.original_word
                &&& back.original_word == there.new_word
                &&& back.target_lang == LANG_EN_US
            }
        }),
{
    law_readings_agree(keys, model);
    typing::law_case_is_restored(keys, Layout::English);
    typing::law_case_is_restored(keys, Layout::Russian);
    typing::law_case_is_restored(keys, Layout::Ukrainian);
}

/// Capitals make no difference to a score.
pub proof fn law_case_does_not_matter(keys: Seq<Entry>, l: Layout, model: &LanguageModel)
    ensures
        ({
            let cased = typing::spelled(keys, l, true);
            let plain = typing::spelled(keys, l, false);
            &&& bigrams::en_score(cased, model) == bigrams::en_score(plain, model)
            &&& bigrams::ru_score(cased, model) == bigrams::ru_score(plain, model)
            &&& bigrams::ua_score(cased, model) == bigrams::ua_score(plain, model)
        }),
{
    lemma_case_does_not_matter(keys, l, bigrams::EN_BASE, bigrams::EN_N);
    lemma_case_does_not_matter(keys, l, bigrams::RU_BASE, bigrams::RU_N);
    lemma_case_does_not_matter(keys, l, bigrams::UA_BASE, bigrams::UA_N);
    lemma_tail_in_any_case(keys, l);
    lemma_letters_kept(keys, l, true, bigrams::EN_BASE, bigrams::EN_N);
    lemma_letters_kept(keys, l, false, bigrams::EN_BASE, bigrams::EN_N);
    lemma_letters_kept(keys, l, true, bigrams::RU_BASE, bigrams::RU_N);
    lemma_letters_kept(keys, l, false, bigrams::RU_BASE, bigrams::RU_N);
    lemma_letters_kept(keys, l, true, bigrams::UA_BASE, bigrams::UA_N);
    lemma_letters_kept(keys, l, false, bigrams::UA_BASE, bigrams::UA_N);
}

/// The letters of a word without its tail are the first letters of the word.
proof fn lemma_letters_kept(keys: Seq<Entry>, l: Layout, cased: bool, base: u32, n: u32)
    ensures
        ({
            let word = typing::spelled(keys, l, cased);
            let kept = bigrams::without_tail(word);
            &&& kept.len() <= word.len()
            &&& bigrams::letters_of(kept, base, n) == bigrams::letters_of(word, base, n).take(
                kept.len() as int,
            )
        }),
{
    let word = typing::spelled(keys, l, cased);
    let kept = bigrams::without_tail(word);
    bigrams::lemma_without_tail(word, word.len() as int);
    assert(bigrams::letters_of(kept, base, n) =~= bigrams::letters_of(word, base, n).take(
        kept.len() as int,
    ));
}

/// A word has the same tail whether or not it has capitals.
proof fn lemma_tail_in_any_case(keys: Seq<Entry>, l: Layout)
    ensures
        typing::spelled(keys, l, true).len() == typing::spelled(keys, l, false).len(),
        bigrams::without_tail(typing::spelled(keys, l, true)).len() == bigrams::without_tail(
            typing::spelled(keys, l, false),
        ).len(),
    decreases keys.len(),
{
    if keys.len() > 0 {
        let rest = keys.drop_last();
        let last = keys.last();
        lemma_tail_in_any_case(rest, l);
        layout::law_translatable(last.vk, true);
        layout::law_translatable(last.vk, false);
        if layout::translatable(last.vk) {
            let a = layout::key_char(l, last.vk, last.is_upper)->0;
            let b = layout::key_char(l, last.vk, false)->0;
            assert(unicode::is_letter(a) == unicode::is_letter(b));
            assert(typing::spelled(keys, l, true).drop_last() =~= typing::spelled(rest, l, true));
            assert(typing::spelled(keys, l, false).drop_last() =~= typing::spelled(rest, l, false));
        }
    }
}

proof fn lemma_case_does_not_matter(keys: Seq<Entry>, l: Layout, base: u32, n: u32)
    ensures
        bigrams::letters_of(typing::spelled(keys, l, true), base, n) == bigrams::letters_of(
            typing::spelled(keys, l, false),
            base,
            n,
        ),
    decreases keys.len(),
{
    let cased = bigrams::letters_of(typing::spelled(keys, l, true), base, n);
    let plain = bigrams::letters_of(typing::spelled(keys, l, false), base, n);
    if keys.len() == 0 {
        assert(cased =~= plain);
    } else {
        let rest = keys.drop_last();
        let last = keys.last();
        lemma_case_does_not_matter(rest, l, base, n);
        let cased_rest = bigrams::letters_of(typing::spelled(rest, l, true), base, n);
        let plain_rest = bigrams::letters_of(typing::spelled(rest, l, false), base, n);
        layout::law_translatable(last.vk, true);
        layout::law_translatable(last.vk, false);
        if layout::translatable(last.vk) {
            let a = layout::key_char(l, last.vk, last.is_upper)->0;
            let b = layout::key_char(l, last.vk, false)->0;
            assert(unicode::lowercase_of(a)[0] == unicode::lowercase_of(b)[0]);
            assert(cased =~= cased_rest.push(bigrams::letter_index(a, base, n)));
            assert(plain =~= plain_rest.push(bigrams::letter_index(b, base, n)));
        } else {
            assert(cased =~= cased_rest);
            assert(plain =~= plain_rest);
        }
    }
}

/// The English model knows nothing of Cyrillic letters.
pub proof fn law_english_model_ignores_cyrillic(word: Seq<char>, model: &LanguageModel)
    requires
        detection::all_cyrillic(word),
    ensures
        bigrams::en_score(word, model) is None,
{
    bigrams::lemma_without_tail(word, word.len() as int);
    let kept = bigrams::without_tail(word);
    let letters = bigrams::letters_of(kept, bigrams::EN_BASE, bigrams::EN_N);
    assert forall|i: int| 0 <= i < letters.len() implies #[trigger] letters[i] is None by {
        assert(detection::cyrillic(word[i]));
    }
    lemma_nothing_filled(letters);
}

/// The Russian and the Ukrainian model know nothing of ASCII.
pub proof fn law_cyrillic_models_ignore_ascii(word: Seq<char>, model: &LanguageModel)
    requires
        forall|i: int| 0 <= i < word.len() ==> #[trigger] word[i] <= '\u{7F}',
    ensures
        bigrams::ru_score(word, model) is None,
        bigrams::ua_score(word, model) is None,
{
    bigrams::lemma_without_tail(word, word.len() as int);
    let kept = bigrams::without_tail(word);
    let ru = bigrams::letters_of(kept, bigrams::RU_BASE, bigrams::RU_N);
    let ua = bigrams::letters_of(kept, bigrams::UA_BASE, bigrams::UA_N);
    assert forall|i: int| 0 <= i < ru.len() implies #[trigger] ru[i] is None by {
        assert(word[i] <= '\u{7F}');
    }
    assert forall|i: int| 0 <= i < ua.len() implies #[trigger] ua[i] is None by {
        assert(word[i] <= '\u{7F}');
    }
    lemma_nothing_filled(ru);
    lemma_nothing_filled(ua);
}

proof fn lemma_nothing_filled(letters: Seq<Option<u32>>)
    requires
        forall|i: int| 0 <= i < letters.len() ==> #[trigger] letters[i] is None,
    ensures
        bigrams::filled(letters) == 0,
    decreases letters.len(),
{
    reveal(Seq::filter);
    if letters.len() > 0 {
        assert(letters[letters.len() - 1] is None);
        lemma_nothing_filled(letters.drop_last());
    }
}

} // verus!
