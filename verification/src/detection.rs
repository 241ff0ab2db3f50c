//! The rules that tell whether a word was typed in the wrong layout.

use vstd::prelude::*;

use crate::bigrams::LanguageModel;
use crate::buffer::{DetectionConfig, DetectionSnapshot, Preferences};
use crate::layout::{
    self, hkl_is_english, hkl_is_russian, hkl_is_ukrainian, LANG_EN_US, LANG_RU, LANG_UA,
};
use crate::lexicon::{
    self, is_listed, COMMON_EN_SHORT, COMMON_EN_SINGLE, COMMON_RU_SHORT, COMMON_RU_SINGLE,
    COMMON_UA_SHORT, COMMON_UA_SINGLE,
};
use crate::order::same_text;
use crate::scoring::{self, gap_clears, gap_within, is_better, Bar};
use crate::settings::PreferredCyrillic;
use crate::typing::Shape;
use crate::unicode;

verus! {

/// The lead that Ukrainian must have over Russian, in nano-nats, for a word
/// with letters of its own.
pub const RU_UA_SCORE_MIN_DELTA: i64 = 250_000_000;

/// The lead that Ukrainian must have over Russian, in nano-nats, for a word
/// without letters of its own.
pub const RU_UA_SCORE_STRONG_DELTA: i64 = 400_000_000;

/// What some typed keys spell in the three layouts, and how well each of the
/// three words fits its language.
pub struct Reading {
    pub en: Seq<char>,
    pub ru: Seq<char>,
    pub ua: Seq<char>,
    pub en_score: Option<i64>,
    pub ru_score: Option<i64>,
    pub ua_score: Option<i64>,
    pub len: int,
}

// -- Letters -----------------------------------------------------------------

/// A letter of the Russian or the Ukrainian alphabet.
pub open spec fn cyrillic(c: char) -> bool {
    ||| '\u{410}' <= c <= '\u{44F}'
    ||| c == '\u{401}' || c == '\u{451}'
    ||| c == '\u{404}' || c == '\u{454}'
    ||| c == '\u{406}' || c == '\u{456}'
    ||| c == '\u{407}' || c == '\u{457}'
    ||| c == '\u{490}' || c == '\u{491}'
}

/// A letter that Ukrainian has and Russian lacks.
pub open spec fn ua_marker(c: char) -> bool {
    c == 'і' || c == 'І' || c == 'ї' || c == 'Ї' || c == 'є' || c == 'Є' || c == 'ґ' || c == 'Ґ'
}

/// A letter that Russian has and Ukrainian lacks.
pub open spec fn ru_marker(c: char) -> bool {
    c == 'ы' || c == 'Ы' || c == 'э' || c == 'Э' || c == 'ъ' || c == 'Ъ' || c == 'ё' || c == 'Ё'
}

pub open spec fn all_cyrillic(w: Seq<char>) -> bool {
    forall|i: int| 0 <= i < w.len() ==> cyrillic(#[trigger] w[i])
}

pub open spec fn marked_ua(w: Seq<char>) -> bool {
    exists|i: int| 0 <= i < w.len() && ua_marker(#[trigger] w[i])
}

pub open spec fn marked_ru(w: Seq<char>) -> bool {
    exists|i: int| 0 <= i < w.len() && ru_marker(#[trigger] w[i])
}

/// Some character of the word is no letter.
pub open spec fn punctuated(w: Seq<char>) -> bool {
    exists|i: int| 0 <= i < w.len() && !unicode::is_letter(#[trigger] w[i])
}

/// Whether a character is a letter of the Russian or the Ukrainian alphabet.
pub fn is_cyrillic_or_ua(c: char) -> (r: bool)
    ensures
        r == cyrillic(c),
{
    matches!(
        c,
        '\u{0410}'..='\u{044F}' | '\u{0401}' | '\u{0451}' | '\u{0404}' | '\u{0454}' | '\u{0406}' | '\u{0456}' | '\u{0407}' | '\u{0457}' | '\u{0490}' | '\u{0491}'
    )
}

/// Whether all characters are letters of the Russian or the Ukrainian alphabet.
pub fn is_all_cyrillic(word: &str) -> (r: bool)
    ensures
        r == all_cyrillic(word@),
{
    for c in it: word.chars()
        invariant
            it.seq() == word@,
            forall|i: int| 0 <= i < it.index() ==> cyrillic(#[trigger] word@[i]),
    {
        if !is_cyrillic_or_ua(c) {
            assert(!cyrillic(word@[it.index() as int]));
            return false;
        }
    }
    true
}

/// Whether a word holds a letter that Russian lacks.
pub fn has_ua_markers(word: &str) -> (r: bool)
    ensures
        r == marked_ua(word@),
{
    for c in it: word.chars()
        invariant
            it.seq() == word@,
            forall|i: int| 0 <= i < it.index() ==> !ua_marker(#[trigger] word@[i]),
    {
        if matches!(c, 'і' | 'І' | 'ї' | 'Ї' | 'є' | 'Є' | 'ґ' | 'Ґ') {
            assert(ua_marker(word@[it.index() as int]));
            return true;
        }
    }
    false
}

/// Whether a word holds a letter that Ukrainian lacks.
pub fn has_ru_markers(word: &str) -> (r: bool)
    ensures
        r == marked_ru(word@),
{
    for c in it: word.chars()
        invariant
            it.seq() == word@,
            forall|i: int| 0 <= i < it.index() ==> !ru_marker(#[trigger] word@[i]),
    {
        if matches!(c, 'ы' | 'Ы' | 'э' | 'Э' | 'ъ' | 'Ъ' | 'ё' | 'Ё') {
            assert(ru_marker(word@[it.index() as int]));
            return true;
        }
    }
    false
}

/// Whether a word holds a character that is no letter.
pub fn has_punctuation(word: &str) -> (r: bool)
    ensures
        r == punctuated(word@),
{
    for c in it: word.chars()
        invariant
            it.seq() == word@,
            forall|i: int| 0 <= i < it.index() ==> unicode::is_letter(#[trigger] word@[i]),
    {
        if !c.is_alphabetic() {
            assert(!unicode::is_letter(word@[it.index() as int]));
            return true;
        }
    }
    false
}

/// A vowel of the Russian or the Ukrainian alphabet, in lower case.
pub open spec fn vowel(c: char) -> bool {
    ||| c == 'а' || c == 'е' || c == 'ё' || c == 'и' || c == 'о' || c == 'у' || c == 'ы'
    ||| c == 'э' || c == 'ю' || c == 'я' || c == 'і' || c == 'ї' || c == 'є'
}

/// No word of the two languages holds the letter right after the other: a soft
/// sign has nothing to soften after a vowel or another soft sign.
pub open spec fn impossible_pair(a: char, b: char) -> bool {
    b == 'ь' && (a == 'ь' || vowel(a))
}

/// A word holds a pair of letters that no word holds.
pub open spec fn impossible(w: Seq<char>) -> bool {
    exists|i: int| 1 <= i < w.len() && impossible_pair(w[i - 1], #[trigger] w[i])
}

/// Whether a word holds a pair of letters that no word holds.
pub fn has_impossible_pair(word: &str) -> (r: bool)
    ensures
        r == impossible(word@),
{
    let mut last: Option<char> = None;
    for c in it: word.chars()
        invariant
            it.seq() == word@,
            last == (if it.index() == 0 {
                None
            } else {
                Some(word@[it.index() - 1])
            }),
            forall|i: int|
                1 <= i < it.index() ==> !impossible_pair(word@[i - 1], #[trigger] word@[i]),
    {
        if c == 'ь' {
            match last {
                Some(a) => {
                    if matches!(
                        a,
                        'ь' | 'а' | 'е' | 'ё' | 'и' | 'о' | 'у' | 'ы' | 'э' | 'ю' | 'я' | 'і' | 'ї' | 'є'
                    ) {
                        assert(impossible_pair(word@[it.index() - 1], word@[it.index() as int]));
                        return true;
                    }
                },
                None => {},
            }
        }
        last = Some(c);
    }
    false
}

// -- Russian or Ukrainian ------------------------------------------------------

/// The choice between Russian (`Some(true)`) and Ukrainian (`Some(false)`);
/// `None` where the preference allows neither. `auto` is what dictionaries and
/// scores say, and counts only where the Ukrainian word is marked as such.
pub open spec fn cyrillic_choice(
    pref: PreferredCyrillic,
    ru_candidate: bool,
    ua_word: Seq<char>,
    auto: bool,
) -> Option<bool> {
    match pref {
        PreferredCyrillic::Ru => if ru_candidate {
            Some(true)
        } else {
            None
        },
        PreferredCyrillic::Ua => Some(false),
        PreferredCyrillic::Auto => if marked_ua(ua_word) {
            Some(auto)
        } else if ru_candidate {
            Some(true)
        } else {
            None
        },
    }
}

/// Chooses between Russian and Ukrainian.
pub fn resolve_cyrillic_preference(
    pref: PreferredCyrillic,
    ru_candidate: bool,
    ua_word: &str,
    auto: bool,
) -> (r: Option<bool>)
    ensures
        r == cyrillic_choice(pref, ru_candidate, ua_word@, auto),
{
    match pref {
        PreferredCyrillic::Ru => if ru_candidate {
            Some(true)
        } else {
            None
        },
        PreferredCyrillic::Ua => Some(false),
        PreferredCyrillic::Auto => if !has_ua_markers(ua_word) {
            if ru_candidate {
                Some(true)
            } else {
                None
            }
        } else {
            Some(auto)
        },
    }
}

/// The language identifier of a choice.
pub open spec fn chosen_lang(choice: Option<bool>) -> Option<u16> {
    match choice {
        Some(true) => Some(LANG_RU),
        Some(false) => Some(LANG_UA),
        None => None,
    }
}

fn lang_of_choice(choice: Option<bool>) -> (r: Option<u16>)
    ensures
        r == chosen_lang(choice),
{
    match choice {
        Some(true) => Some(LANG_RU),
        Some(false) => Some(LANG_UA),
        None => None,
    }
}

/// The lead that Ukrainian must have over Russian for a word.
pub open spec fn required_delta(ua_word: Seq<char>) -> i64 {
    if marked_ua(ua_word) {
        RU_UA_SCORE_MIN_DELTA
    } else {
        RU_UA_SCORE_STRONG_DELTA
    }
}

/// What dictionaries and scores say where both Cyrillic words are possible:
/// the only one in a dictionary, else Russian unless Ukrainian leads clearly.
pub open spec fn dictionary_choice(
    ru_known: bool,
    ua_known: bool,
    ua_word: Seq<char>,
    ru_score: Option<i64>,
    ua_score: Option<i64>,
) -> bool {
    if ru_known != ua_known {
        ru_known
    } else {
        scoring::within(ua_score, ru_score, required_delta(ua_word))
    }
}

fn choose_by_dictionary(
    ru_known: bool,
    ua_known: bool,
    ua_word: &str,
    ru_score: Option<i64>,
    ua_score: Option<i64>,
) -> (r: bool)
    ensures
        r == dictionary_choice(ru_known, ua_known, ua_word@, ru_score, ua_score),
{
    if ru_known && !ua_known {
        true
    } else if ua_known && !ru_known {
        false
    } else {
        let delta: i64 = if has_ua_markers(ua_word) {
            RU_UA_SCORE_MIN_DELTA
        } else {
            RU_UA_SCORE_STRONG_DELTA
        };
        gap_within(ua_score, ru_score, delta)
    }
}

// -- The readings ----------------------------------------------------------------

impl Reading {
    /// Every key gives a character of the English layout.
    pub open spec fn en_ok(self) -> bool {
        self.en.len() == self.len
    }

    /// Every key gives a character of the Russian layout.
    pub open spec fn ru_ok(self) -> bool {
        self.ru.len() == self.len
    }

    /// Every key gives a character of the Ukrainian layout.
    pub open spec fn ua_ok(self) -> bool {
        self.ua.len() == self.len
    }

    /// The keys make up a Russian word.
    pub open spec fn ru_valid(self) -> bool {
        self.ru_ok() && all_cyrillic(self.ru)
    }

    /// The keys make up a Ukrainian word.
    pub open spec fn ua_valid(self) -> bool {
        self.ua_ok() && all_cyrillic(self.ua)
    }

    /// The word that stands on the screen under the active layout.
    pub open spec fn on_screen(self, active: u16) -> Seq<char> {
        if layout::russian(active) {
            self.ru
        } else if layout::ukrainian(active) {
            self.ua
        } else {
            self.en
        }
    }
}

impl DetectionSnapshot {
    fn en_ok(&self) -> (r: bool)
        ensures
            r == self@.en_ok(),
    {
        self.en_word.as_str().unicode_len() == self.len
    }

    fn ru_ok(&self) -> (r: bool)
        ensures
            r == self@.ru_ok(),
    {
        self.ru_word.as_str().unicode_len() == self.len
    }

    fn ua_ok(&self) -> (r: bool)
        ensures
            r == self@.ua_ok(),
    {
        self.ua_word.as_str().unicode_len() == self.len
    }

    fn ru_valid(&self) -> (r: bool)
        ensures
            r == self@.ru_valid(),
    {
        self.ru_ok() && is_all_cyrillic(self.ru_word.as_str())
    }

    fn ua_valid(&self) -> (r: bool)
        ensures
            r == self@.ua_valid(),
    {
        self.ua_ok() && is_all_cyrillic(self.ua_word.as_str())
    }
}

// -- The rules -------------------------------------------------------------------

/// The word on the screen is one that the user wants left alone.
pub open spec fn ignored(s: Reading, active: u16, config: Preferences) -> bool {
    config.ignored_words.contains(s.on_screen(active))
}

fn is_ignored(s: &DetectionSnapshot, active: u16, config: &DetectionConfig) -> (r: bool)
    ensures
        r == ignored(s@, active, config@),
{
    let word: &str = if hkl_is_russian(active) {
        s.ru_word.as_str()
    } else if hkl_is_ukrainian(active) {
        s.ua_word.as_str()
    } else {
        s.en_word.as_str()
    };
    config.ignored_words.contains(word)
}

/// The language that the user has once chosen for these keys, where it is not
/// the active one and the keys make up a word of it.
pub open spec fn correction(s: Reading, active: u16, config: Preferences) -> Option<u16> {
    if config.word_corrections.contains_key(s.en) {
        let target = config.word_corrections[s.en];
        if target != active && ((target == LANG_RU && s.ru_valid()) || (target == LANG_UA
            && s.ua_valid()) || (target == LANG_EN_US && s.en_ok())) {
            Some(target)
        } else {
            None
        }
    } else {
        None
    }
}

fn find_correction(s: &DetectionSnapshot, active: u16, config: &DetectionConfig) -> (r: Option<u16>)
    ensures
        r == correction(s@, active, config@),
{
    match config.word_corrections.get(s.en_word.as_str()) {
        Some(target) => {
            if target == active {
                None
            } else if target == LANG_RU {
                if s.ru_valid() {
                    Some(target)
                } else {
                    None
                }
            } else if target == LANG_UA {
                if s.ua_valid() {
                    Some(target)
                } else {
                    None
                }
            } else if target == LANG_EN_US && s.en_ok() {
                Some(target)
            } else {
                None
            }
        },
        None => None,
    }
}

/// The word on the screen is a common word of the active language.
pub open spec fn known_on_screen(s: Reading, active: u16, model: &LanguageModel) -> bool {
    ||| layout::russian(active) && s.ru_ok() && model.ru_dictionary().contains(s.ru)
    ||| layout::ukrainian(active) && s.ua_ok() && model.ua_dictionary().contains(s.ua)
    ||| layout::english(active) && s.en_ok() && model.en_dictionary().contains(s.en)
}

fn is_known_on_screen(s: &DetectionSnapshot, active: u16, model: &LanguageModel) -> (r: bool)
    ensures
        r == known_on_screen(s@, active, model),
{
    if hkl_is_russian(active) {
        s.ru_ok() && model.is_common_ru(s.ru_word.as_str())
    } else if hkl_is_ukrainian(active) {
        s.ua_ok() && model.is_common_ua(s.ua_word.as_str())
    } else if hkl_is_english(active) {
        s.en_ok() && model.is_common_en(s.en_word.as_str())
    } else {
        false
    }
}

/// Under a Cyrillic layout the keys spell a common English word. A word of up
/// to four keys does not count where the recent words speak for the layout:
/// it may be a foreign word in the running text.
pub open spec fn english_by_dictionary(
    s: Reading,
    active: u16,
    on_the_fly: bool,
    config: Preferences,
    model: &LanguageModel,
) -> bool {
    &&& !on_the_fly
    &&& !(s.len <= 4 && config.context_lang == Some(active))
    &&& s.en_ok() && model.en_dictionary().contains(s.en)
    &&& (layout::russian(active) && s.ru_valid() || layout::ukrainian(active) && s.ua_valid())
}

fn is_english_by_dictionary(
    s: &DetectionSnapshot,
    active: u16,
    on_the_fly: bool,
    config: &DetectionConfig,
    model: &LanguageModel,
) -> (r: bool)
    ensures
        r == english_by_dictionary(s@, active, on_the_fly, config@, model),
{
    if on_the_fly || (s.len <= 4 && config.context_is(active)) {
        return false;
    }
    s.en_ok() && model.is_common_en(s.en_word.as_str()) && ((hkl_is_russian(active)
        && s.ru_valid()) || (hkl_is_ukrainian(active) && s.ua_valid()))
}

/// Under a Cyrillic layout a word shows at first sight that it is none of the
/// language: it is an identifier or holds a pair of letters that no word holds.
pub open spec fn misfit(s: Reading, shape: Shape, active: u16) -> bool {
    &&& s.en_ok()
    &&& {
        ||| layout::russian(active) && s.ru_valid() && (identifier(s, shape) || impossible(s.ru))
        ||| layout::ukrainian(active) && s.ua_valid() && (identifier(s, shape) || impossible(s.ua))
    }
}

/// A word has the shape of an identifier; capitals alone take four keys.
pub open spec fn identifier(s: Reading, shape: Shape) -> bool {
    shape == Shape::SnakeCase || (shape == Shape::CamelCase && s.len >= 4)
}

fn is_misfit(s: &DetectionSnapshot, shape: Shape, active: u16) -> (r: bool)
    ensures
        r == misfit(s@, shape, active),
{
    proof {
        layout::law_one_language(active);
    }
    let named: bool = shape == Shape::SnakeCase || (shape == Shape::CamelCase && s.len >= 4);
    if !s.en_ok() {
        false
    } else if hkl_is_russian(active) {
        s.ru_valid() && (named || has_impossible_pair(s.ru_word.as_str()))
    } else if hkl_is_ukrainian(active) {
        s.ua_valid() && (named || has_impossible_pair(s.ua_word.as_str()))
    } else {
        false
    }
}

/// The rule for a single letter: it is replaced where it is no word of the
/// active language and the key gives a word of another.
pub open spec fn single_letter_target(
    s: Reading,
    active: u16,
    config: Preferences,
) -> Option<u16> {
    let en_word = lexicon::listed(COMMON_EN_SINGLE@, s.en);
    let ru_word = lexicon::listed(COMMON_RU_SINGLE@, s.ru);
    let ua_word = lexicon::listed(COMMON_UA_SINGLE@, s.ua);
    if layout::russian(active) {
        if s.ru_ok() && s.en_ok() && !ru_word && en_word {
            Some(LANG_EN_US)
        } else {
            None
        }
    } else if layout::ukrainian(active) {
        if s.ua_ok() && s.en_ok() && !ua_word && en_word {
            Some(LANG_EN_US)
        } else {
            None
        }
    } else if layout::english(active) {
        if s.ru_ok() && s.en_ok() && !en_word && (ru_word || ua_word) {
            chosen_lang(cyrillic_choice(config.preferred_cyrillic, ru_word, s.ua, ru_word))
        } else {
            None
        }
    } else {
        None
    }
}

fn decide_single_letter(s: &DetectionSnapshot, active: u16, config: &DetectionConfig) -> (r: Option<
    u16,
>)
    ensures
        r == single_letter_target(s@, active, config@),
{
    let en_word: bool = is_listed(COMMON_EN_SINGLE.as_slice(), s.en_word.as_str());
    let ru_word: bool = is_listed(COMMON_RU_SINGLE.as_slice(), s.ru_word.as_str());
    let ua_word: bool = is_listed(COMMON_UA_SINGLE.as_slice(), s.ua_word.as_str());
    if hkl_is_russian(active) {
        if s.ru_ok() && s.en_ok() && !ru_word && en_word {
            return Some(LANG_EN_US);
        }
    } else if hkl_is_ukrainian(active) {
        if s.ua_ok() && s.en_ok() && !ua_word && en_word {
            return Some(LANG_EN_US);
        }
    } else if hkl_is_english(active) {
        if s.ru_ok() && s.en_ok() && !en_word && (ru_word || ua_word) {
            return lang_of_choice(
                resolve_cyrillic_preference(
                    config.preferred_cyrillic,
                    ru_word,
                    s.ua_word.as_str(),
                    ru_word,
                ),
            );
        }
    }
    None
}

/// The rule for two and three letters: the lists of short words decide.
pub open spec fn short_word_target(
    s: Reading,
    active: u16,
    config: Preferences,
) -> Option<u16> {
    let en_word = lexicon::listed(COMMON_EN_SHORT@, s.en);
    let ru_word = lexicon::listed(COMMON_RU_SHORT@, s.ru);
    let ua_word = lexicon::listed(COMMON_UA_SHORT@, s.ua);
    if layout::russian(active) {
        if !s.ru_ok() || !s.en_ok() || ru_word {
            None
        } else if en_word {
            Some(LANG_EN_US)
        } else if ua_word && marked_ua(s.ua) {
            Some(LANG_UA)
        } else {
            None
        }
    } else if layout::ukrainian(active) {
        if !s.ua_ok() || !s.en_ok() || ua_word {
            None
        } else if en_word {
            Some(LANG_EN_US)
        } else if ru_word && marked_ru(s.ru) {
            Some(LANG_RU)
        } else {
            None
        }
    } else if layout::english(active) {
        let to_ru = s.ru_ok() && ru_word;
        let to_ua = s.ua_ok() && ua_word;
        if !s.en_ok() || en_word {
            None
        } else if to_ru && to_ua {
            let auto = if s.ru == s.ua {
                scoring::within(s.ua_score, s.ru_score, RU_UA_SCORE_MIN_DELTA)
            } else {
                !scoring::better(s.ua_score, s.ru_score)
            };
            chosen_lang(cyrillic_choice(config.preferred_cyrillic, true, s.ua, auto))
        } else if to_ru {
            Some(LANG_RU)
        } else if to_ua && (config.preferred_cyrillic == PreferredCyrillic::Ua || (
        config.preferred_cyrillic == PreferredCyrillic::Auto && marked_ua(s.ua))) {
            Some(LANG_UA)
        } else {
            None
        }
    } else {
        None
    }
}

fn decide_short_word(s: &DetectionSnapshot, active: u16, config: &DetectionConfig) -> (r: Option<
    u16,
>)
    ensures
        r == short_word_target(s@, active, config@),
{
    let en_word: bool = is_listed(COMMON_EN_SHORT.as_slice(), s.en_word.as_str());
    let ru_word: bool = is_listed(COMMON_RU_SHORT.as_slice(), s.ru_word.as_str());
    let ua_word: bool = is_listed(COMMON_UA_SHORT.as_slice(), s.ua_word.as_str());
    if hkl_is_russian(active) {
        if s.ru_ok() && s.en_ok() {
            if en_word && !ru_word {
                return Some(LANG_EN_US);
            }
            if ua_word && !ru_word && has_ua_markers(s.ua_word.as_str()) {
                return Some(LANG_UA);
            }
        }
    } else if hkl_is_ukrainian(active) {
        if s.ua_ok() && s.en_ok() {
            if en_word && !ua_word {
                return Some(LANG_EN_US);
            }
            if ru_word && !ua_word && has_ru_markers(s.ru_word.as_str()) {
                return Some(LANG_RU);
            }
        }
    } else if hkl_is_english(active) {
        let to_ru: bool = s.ru_ok() && ru_word;
        let to_ua: bool = s.ua_ok() && ua_word;
        if s.en_ok() && !en_word {
            if to_ru && to_ua {
                let auto: bool = if same_text(s.ru_word.as_str(), s.ua_word.as_str()) {
                    gap_within(s.score_ua, s.score_ru, RU_UA_SCORE_MIN_DELTA)
                } else {
                    !is_better(s.score_ua, s.score_ru)
                };
                return lang_of_choice(
                    resolve_cyrillic_preference(
                        config.preferred_cyrillic,
                        true,
                        s.ua_word.as_str(),
                        auto,
                    ),
                );
            } else if to_ru {
                return Some(LANG_RU);
            } else if to_ua {
                let allowed: bool = match config.preferred_cyrillic {
                    PreferredCyrillic::Ua => true,
                    PreferredCyrillic::Ru => false,
                    PreferredCyrillic::Auto => has_ua_markers(s.ua_word.as_str()),
                };
                if allowed {
                    return Some(LANG_UA);
                }
            }
        }
    }
    None
}

/// The part of the bar, in tenths, that English must clear against a Cyrillic
/// word. `marked` tells whether that word holds a letter of its language alone.
pub open spec fn leave_cyrillic_tenths(marked: bool, on_the_fly: bool, len: int) -> int {
    if marked {
        if on_the_fly && len < 8 {
            25
        } else {
            15
        }
    } else if on_the_fly {
        if len >= 8 {
            12
        } else {
            20
        }
    } else {
        10
    }
}

fn leave_cyrillic_factor(marked: bool, on_the_fly: bool, len: usize) -> (r: u8)
    ensures
        r == leave_cyrillic_tenths(marked, on_the_fly, len as int),
{
    if marked {
        if on_the_fly && len < 8 {
            25
        } else {
            15
        }
    } else if on_the_fly {
        if len >= 8 {
            12
        } else {
            20
        }
    } else {
        10
    }
}

/// The part of the bar, in tenths, that one Cyrillic language must clear
/// against the other.
pub open spec fn cross_tenths(marked: bool) -> int {
    if marked {
        15
    } else {
        20
    }
}

fn cross_factor(marked: bool) -> (r: u8)
    ensures
        r == cross_tenths(marked),
{
    if marked {
        15
    } else {
        20
    }
}

/// The part of the bar, in tenths, that a Cyrillic word must clear against the
/// English one.
pub open spec fn leave_english_tenths(marked: bool, on_the_fly: bool) -> int {
    if marked {
        if on_the_fly {
            13
        } else {
            7
        }
    } else if on_the_fly {
        25
    } else {
        10
    }
}

fn leave_english_factor(marked: bool, on_the_fly: bool) -> (r: u8)
    ensures
        r == leave_english_tenths(marked, on_the_fly),
{
    if marked {
        if on_the_fly {
            13
        } else {
            7
        }
    } else if on_the_fly {
        25
    } else {
        10
    }
}

/// The statistical rule under the Russian layout.
pub open spec fn model_target_ru(
    s: Reading,
    bar: Bar,
    on_the_fly: bool,
    pref: PreferredCyrillic,
) -> Option<u16> {
    let cross_allowed = match pref {
        PreferredCyrillic::Ru => false,
        PreferredCyrillic::Auto => marked_ua(s.ua),
        PreferredCyrillic::Ua => true,
    };
    if !s.ru_valid() || !s.en_ok() {
        None
    } else if scoring::clears(
        s.en_score,
        s.ru_score,
        bar,
        leave_cyrillic_tenths(marked_ru(s.ru), on_the_fly, s.len),
    ) {
        Some(LANG_EN_US)
    } else if cross_allowed && s.ua_valid() && scoring::clears(
        s.ua_score,
        s.ru_score,
        bar,
        cross_tenths(marked_ua(s.ua)),
    ) {
        Some(LANG_UA)
    } else {
        None
    }
}

fn decide_ru(s: &DetectionSnapshot, bar: Bar, on_the_fly: bool, pref: PreferredCyrillic) -> (r:
    Option<u16>)
    ensures
        r == model_target_ru(s@, bar, on_the_fly, pref),
{
    if !s.ru_valid() || !s.en_ok() {
        return None;
    }
    let leave: u8 = leave_cyrillic_factor(has_ru_markers(s.ru_word.as_str()), on_the_fly, s.len);
    if gap_clears(s.score_en, s.score_ru, bar, leave) {
        return Some(LANG_EN_US);
    }
    let marked: bool = has_ua_markers(s.ua_word.as_str());
    let cross_allowed: bool = match pref {
        PreferredCyrillic::Ru => false,
        PreferredCyrillic::Auto => marked,
        PreferredCyrillic::Ua => true,
    };
    if cross_allowed && s.ua_valid() && gap_clears(
        s.score_ua,
        s.score_ru,
        bar,
        cross_factor(marked),
    ) {
        return Some(LANG_UA);
    }
    None
}

/// The statistical rule under the Ukrainian layout.
pub open spec fn model_target_ua(s: Reading, bar: Bar, on_the_fly: bool) -> Option<u16> {
    if !s.ua_valid() || !s.en_ok() {
        None
    } else if scoring::clears(
        s.en_score,
        s.ua_score,
        bar,
        leave_cyrillic_tenths(marked_ua(s.ua), on_the_fly, s.len),
    ) {
        Some(LANG_EN_US)
    } else if s.ru_valid() && scoring::clears(
        s.ru_score,
        s.ua_score,
        bar,
        cross_tenths(marked_ru(s.ru)),
    ) {
        Some(LANG_RU)
    } else {
        None
    }
}

fn decide_ua(s: &DetectionSnapshot, bar: Bar, on_the_fly: bool) -> (r: Option<u16>)
    ensures
        r == model_target_ua(s@, bar, on_the_fly),
{
    if !s.ua_valid() || !s.en_ok() {
        return None;
    }
    let leave: u8 = leave_cyrillic_factor(has_ua_markers(s.ua_word.as_str()), on_the_fly, s.len);
    if gap_clears(s.score_en, s.score_ua, bar, leave) {
        return Some(LANG_EN_US);
    }
    let marked: bool = has_ru_markers(s.ru_word.as_str());
    if s.ru_valid() && gap_clears(s.score_ru, s.score_ua, bar, cross_factor(marked)) {
        return Some(LANG_RU);
    }
    None
}

/// The rule for longer words under the English layout. A finished word that
/// spells a dictionary word needs no statistics; while it is being typed, only a
/// short one with punctuation in it does not.
pub open spec fn model_target_en(
    s: Reading,
    bar: Bar,
    on_the_fly: bool,
    pref: PreferredCyrillic,
    model: &LanguageModel,
) -> Option<u16> {
    let ru_known = model.ru_dictionary().contains(s.ru);
    let ua_known = model.ua_dictionary().contains(s.ua);
    let ru_score = if s.ru_valid() {
        s.ru_score
    } else {
        None
    };
    let ua_score = if s.ua_valid() {
        s.ua_score
    } else {
        None
    };
    let ru_clears = scoring::clears(
        ru_score,
        s.en_score,
        bar,
        leave_english_tenths(marked_ru(s.ru), on_the_fly),
    );
    let ua_clears = scoring::clears(
        ua_score,
        s.en_score,
        bar,
        leave_english_tenths(marked_ua(s.ua), on_the_fly),
    );
    if !s.en_ok() || (!s.ru_valid() && !s.ua_valid()) {
        None
    } else if on_the_fly && s.ru == s.ua && !punctuated(s.en) {
        None
    } else if (!on_the_fly || (s.len <= 6 && punctuated(s.en))) && ((s.ru_valid() && ru_known) || (
    s.ua_valid() && ua_known)) {
        chosen_lang(
            cyrillic_choice(
                pref,
                s.ru_valid(),
                s.ua,
                dictionary_choice(
                    s.ru_valid() && ru_known,
                    s.ua_valid() && ua_known,
                    s.ua,
                    s.ru_score,
                    s.ua_score,
                ),
            ),
        )
    } else if ru_clears || ua_clears {
        chosen_lang(
            cyrillic_choice(
                pref,
                s.ru_valid(),
                s.ua,
                if ru_known == ua_known && !s.ru_valid() {
                    false
                } else {
                    dictionary_choice(ru_known, ua_known, s.ua, ru_score, ua_score)
                },
            ),
        )
    } else {
        None
    }
}

fn decide_en(
    s: &DetectionSnapshot,
    bar: Bar,
    on_the_fly: bool,
    pref: PreferredCyrillic,
    model: &LanguageModel,
) -> (r: Option<u16>)
    ensures
        r == model_target_en(s@, bar, on_the_fly, pref, model),
{
    if !s.en_ok() {
        return None;
    }
    let ru_valid: bool = s.ru_valid();
    let ua_valid: bool = s.ua_valid();
    if !ru_valid && !ua_valid {
        return None;
    }
    let en_punctuated: bool = has_punctuation(s.en_word.as_str());
    if on_the_fly && !en_punctuated && same_text(s.ru_word.as_str(), s.ua_word.as_str()) {
        return None;
    }
    let ru_known: bool = model.is_common_ru(s.ru_word.as_str());
    let ua_known: bool = model.is_common_ua(s.ua_word.as_str());
    if (!on_the_fly || (s.len <= 6 && en_punctuated)) && ((ru_valid && ru_known) || (ua_valid
        && ua_known)) {
        let auto: bool = choose_by_dictionary(
            ru_valid && ru_known,
            ua_valid && ua_known,
            s.ua_word.as_str(),
            s.score_ru,
            s.score_ua,
        );
        return lang_of_choice(
            resolve_cyrillic_preference(pref, ru_valid, s.ua_word.as_str(), auto),
        );
    }
    let ru_score: Option<i64> = if ru_valid {
        s.score_ru
    } else {
        None
    };
    let ua_score: Option<i64> = if ua_valid {
        s.score_ua
    } else {
        None
    };
    let ru_factor: u8 = leave_english_factor(has_ru_markers(s.ru_word.as_str()), on_the_fly);
    let ua_factor: u8 = leave_english_factor(has_ua_markers(s.ua_word.as_str()), on_the_fly);
    if gap_clears(ru_score, s.score_en, bar, ru_factor) || gap_clears(
        ua_score,
        s.score_en,
        bar,
        ua_factor,
    ) {
        let auto: bool = if ru_known == ua_known && !ru_valid {
            false
        } else {
            choose_by_dictionary(ru_known, ua_known, s.ua_word.as_str(), ru_score, ua_score)
        };
        return lang_of_choice(
            resolve_cyrillic_preference(pref, ru_valid, s.ua_word.as_str(), auto),
        );
    }
    None
}

/// The rule for longer words: it judges words of four keys and more.
pub open spec fn model_target(
    s: Reading,
    active: u16,
    sensitivity: i32,
    on_the_fly: bool,
    config: Preferences,
    model: &LanguageModel,
) -> Option<u16> {
    let bar = Bar {
        len: s.len as usize,
        sensitivity,
        in_context: config.context_lang == Some(active),
    };
    if s.len < 4 {
        None
    } else if layout::russian(active) {
        model_target_ru(s, bar, on_the_fly, config.preferred_cyrillic)
    } else if layout::ukrainian(active) {
        model_target_ua(s, bar, on_the_fly)
    } else if layout::english(active) {
        model_target_en(s, bar, on_the_fly, config.preferred_cyrillic, model)
    } else {
        None
    }
}

fn decide_by_model(
    s: &DetectionSnapshot,
    active: u16,
    sensitivity: i32,
    on_the_fly: bool,
    config: &DetectionConfig,
    model: &LanguageModel,
) -> (r: Option<u16>)
    ensures
        r == model_target(s@, active, sensitivity, on_the_fly, config@, model),
{
    if s.len < 4 {
        return None;
    }
    let bar = Bar { len: s.len, sensitivity, in_context: config.context_is(active) };
    if hkl_is_russian(active) {
        decide_ru(s, bar, on_the_fly, config.preferred_cyrillic)
    } else if hkl_is_ukrainian(active) {
        decide_ua(s, bar, on_the_fly)
    } else if hkl_is_english(active) {
        decide_en(s, bar, on_the_fly, config.preferred_cyrillic, model)
    } else {
        None
    }
}

/// The language that a word belongs to, where that is not the active one. The
/// user's own choices come first, then the dictionaries, then the statistics.
/// An identifier is left alone under the English layout and switched to it under
/// the others.
pub open spec fn target_of(
    s: Reading,
    shape: Shape,
    active: u16,
    sensitivity: i32,
    on_the_fly: bool,
    config: Preferences,
    model: &LanguageModel,
) -> Option<u16> {
    if ignored(s, active, config) {
        None
    } else if correction(s, active, config) is Some {
        correction(s, active, config)
    } else if known_on_screen(s, active, model) {
        None
    } else if shape != Shape::Plain && layout::english(active) {
        None
    } else if misfit(s, shape, active) {
        Some(LANG_EN_US)
    } else if english_by_dictionary(s, active, on_the_fly, config, model) {
        Some(LANG_EN_US)
    } else if !on_the_fly && s.len == 1 {
        single_letter_target(s, active, config)
    } else if !on_the_fly && (s.len == 2 || s.len == 3) {
        short_word_target(s, active, config)
    } else {
        model_target(s, active, sensitivity, on_the_fly, config, model)
    }
}

/// Finds the language that a word belongs to, where that is not the active
/// one. `sensitivity` is in millionths.
pub fn decide(
    s: &DetectionSnapshot,
    shape: Shape,
    active: u16,
    sensitivity: i32,
    on_the_fly: bool,
    config: &DetectionConfig,
    model: &LanguageModel,
) -> (r: Option<u16>)
    ensures
        r == target_of(s@, shape, active, sensitivity, on_the_fly, config@, model),
{
    if is_ignored(s, active, config) {
        return None;
    }
    match find_correction(s, active, config) {
        Some(target) => {
            return Some(target);
        },
        None => {},
    }
    if is_known_on_screen(s, active, model) {
        return None;
    }
    if shape != Shape::Plain && hkl_is_english(active) {
        return None;
    }
    if is_misfit(s, shape, active) || is_english_by_dictionary(
        s,
        active,
        on_the_fly,
        config,
        model,
    ) {
        return Some(LANG_EN_US);
    }
    if !on_the_fly && s.len == 1 {
        return decide_single_letter(s, active, config);
    }
    if !on_the_fly && (s.len == 2 || s.len == 3) {
        return decide_short_word(s, active, config);
    }
    decide_by_model(s, active, sensitivity, on_the_fly, config, model)
}

/// The language that a forced switch takes a word to. Thresholds play no
/// part: the user has asked for it.
pub open spec fn forced_target(
    s: Reading,
    active: u16,
    config: Preferences,
    model: &LanguageModel,
) -> Option<u16> {
    if layout::russian(active) || layout::ukrainian(active) {
        if s.en_ok() {
            Some(LANG_EN_US)
        } else {
            None
        }
    } else if layout::english(active) {
        if s.ru_valid() && s.ua_valid() {
            chosen_lang(
                cyrillic_choice(
                    config.preferred_cyrillic,
                    true,
                    s.ua,
                    dictionary_choice(
                        model.ru_dictionary().contains(s.ru),
                        model.ua_dictionary().contains(s.ua),
                        s.ua,
                        s.ru_score,
                        s.ua_score,
                    ),
                ),
            )
        } else if s.ru_valid() {
            Some(LANG_RU)
        } else if s.ua_valid() {
            Some(LANG_UA)
        } else {
            None
        }
    } else {
        None
    }
}

/// Finds the language that a forced switch takes a word to.
pub fn decide_forced(
    s: &DetectionSnapshot,
    active: u16,
    config: &DetectionConfig,
    model: &LanguageModel,
) -> (r: Option<u16>)
    ensures
        r == forced_target(s@, active, config@, model),
{
    if hkl_is_russian(active) || hkl_is_ukrainian(active) {
        if s.en_ok() {
            Some(LANG_EN_US)
        } else {
            None
        }
    } else if hkl_is_english(active) {
        let ru_valid: bool = s.ru_valid();
        let ua_valid: bool = s.ua_valid();
        if ru_valid && ua_valid {
            let auto: bool = choose_by_dictionary(
                model.is_common_ru(s.ru_word.as_str()),
                model.is_common_ua(s.ua_word.as_str()),
                s.ua_word.as_str(),
                s.score_ru,
                s.score_ua,
            );
            lang_of_choice(
                resolve_cyrillic_preference(
                    config.preferred_cyrillic,
                    true,
                    s.ua_word.as_str(),
                    auto,
                ),
            )
        } else if ru_valid {
            Some(LANG_RU)
        } else if ua_valid {
            Some(LANG_UA)
        } else {
            None
        }
    } else {
        None
    }
}

/// A target is one of the three languages, and not the active layout; some
/// layout translates all keys. Only a correction can stay within a language.
pub proof fn lemma_target(
    s: Reading,
    shape: Shape,
    active: u16,
    sensitivity: i32,
    on_the_fly: bool,
    config: Preferences,
    model: &LanguageModel,
)
    ensures
        target_of(s, shape, active, sensitivity, on_the_fly, config, model) matches Some(target) ==> {
            &&& target == LANG_EN_US || target == LANG_RU || target == LANG_UA
            &&& target != active
            &&& s.en_ok() || s.ru_ok() || s.ua_ok()
            &&& !config.word_corrections.contains_key(s.en) ==> layout::primary(target)
                != layout::primary(active)
        },
{
    layout::law_one_language(active);
}

/// Where what clears one bar clears another, the statistical rule under the
/// English layout finds the same language for both.
pub proof fn lemma_english_choice(
    s: Reading,
    bar: Bar,
    lower: Bar,
    on_the_fly: bool,
    pref: PreferredCyrillic,
    model: &LanguageModel,
)
    requires
        forall|tenths: int|
            0 <= tenths && scoring::clears(s.ru_score, s.en_score, bar, tenths)
                ==> #[trigger] scoring::clears(s.ru_score, s.en_score, lower, tenths),
        forall|tenths: int|
            0 <= tenths && scoring::clears(s.ua_score, s.en_score, bar, tenths)
                ==> #[trigger] scoring::clears(s.ua_score, s.en_score, lower, tenths),
        model_target_en(s, bar, on_the_fly, pref, model) is Some,
    ensures
        model_target_en(s, lower, on_the_fly, pref, model) == model_target_en(
            s,
            bar,
            on_the_fly,
            pref,
            model,
        ),
{
}

} // verus!
