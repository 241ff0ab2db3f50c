//! The word that is being typed, in English or Russian.

use vstd::prelude::*;

use crate::bigrams::{self, score_en, score_ru, LanguageModel, THRESHOLD_PER_BIGRAM};
use crate::layout::{self, hkl_is_english, hkl_is_russian, Layout};
use crate::typing::{self, spell, Entry};
use crate::unicode;

verus! {

/// The replacement of a mistyped word.
#[derive(Debug)]
pub struct SwitchAction {
    /// How many characters to erase first.
    pub backspaces: usize,
    /// The word to put in their place.
    pub new_word: String,
    /// Whether to change to the Russian layout, else to the English one.
    pub to_ru: bool,
    /// The mistyped word, kept for an undo.
    pub original_word: String,
}

/// The replacement of a mistyped word, as a value.
pub struct Replacement {
    pub backspaces: int,
    pub new_word: Seq<char>,
    pub to_ru: bool,
    pub original_word: Seq<char>,
}

impl View for SwitchAction {
    type V = Replacement;

    open spec fn view(&self) -> Replacement {
        Replacement {
            backspaces: self.backspaces as int,
            new_word: self.new_word@,
            to_ru: self.to_ru,
            original_word: self.original_word@,
        }
    }
}

impl Clone for SwitchAction {
    fn clone(&self) -> (r: SwitchAction)
        ensures
            r@ == self@,
    {
        SwitchAction {
            backspaces: self.backspaces,
            new_word: self.new_word.clone(),
            to_ru: self.to_ru,
            original_word: self.original_word.clone(),
        }
    }
}

/// The optional replacement behind an optional action.
pub open spec fn replacement(a: Option<SwitchAction>) -> Option<Replacement> {
    match a {
        Some(x) => Some(x@),
        None => None,
    }
}

/// What the typed keys spell in the two layouts, and the scores of the words.
#[derive(Debug)]
pub struct DetectionSnapshot {
    /// The word in the English layout, in lower case.
    pub en_word: String,
    /// The word in the Russian layout, in lower case.
    pub ru_word: String,
    /// The score of the English word, in nano-nats per pair of letters.
    pub score_en: Option<i64>,
    /// The score of the Russian word.
    pub score_ru: Option<i64>,
    /// The number of typed keys.
    pub len: usize,
}

/// How typed keys read in the two layouts.
pub struct Reading {
    pub en: Seq<char>,
    pub ru: Seq<char>,
    pub en_score: Option<i64>,
    pub ru_score: Option<i64>,
    pub len: int,
}

impl View for DetectionSnapshot {
    type V = Reading;

    open spec fn view(&self) -> Reading {
        Reading {
            en: self.en_word@,
            ru: self.ru_word@,
            en_score: self.score_en,
            ru_score: self.score_ru,
            len: self.len as int,
        }
    }
}

/// The optional reading behind an optional snapshot.
pub open spec fn reading(s: Option<DetectionSnapshot>) -> Option<Reading> {
    match s {
        Some(x) => Some(x@),
        None => None,
    }
}

/// How typed keys read in the two layouts.
pub open spec fn reading_of(keys: Seq<Entry>, model: &LanguageModel) -> Reading {
    let en = typing::spelled(keys, Layout::English, false);
    let ru = typing::spelled(keys, Layout::Russian, false);
    Reading {
        en,
        ru,
        en_score: bigrams::en_score(en, model),
        ru_score: bigrams::ru_score(ru, model),
        len: keys.len() as int,
    }
}

/// A letter of the Russian alphabet.
pub open spec fn cyrillic(c: char) -> bool {
    '\u{410}' <= c <= '\u{44F}' || c == '\u{401}' || c == '\u{451}'
}

/// A letter of the English alphabet.
pub open spec fn latin(c: char) -> bool {
    'a' <= c <= 'z' || 'A' <= c <= 'Z'
}

pub open spec fn all_cyrillic(w: Seq<char>) -> bool {
    forall|i: int| 0 <= i < w.len() ==> cyrillic(#[trigger] w[i])
}

pub open spec fn all_latin(w: Seq<char>) -> bool {
    forall|i: int| 0 <= i < w.len() ==> latin(#[trigger] w[i])
}

/// Whether a character is a letter of the Russian alphabet.
pub fn is_cyrillic(c: char) -> (r: bool)
    ensures
        r == cyrillic(c),
{
    matches!(c, '\u{0410}'..='\u{044F}' | '\u{0401}' | '\u{0451}')
}

fn is_all_cyrillic(word: &str) -> (r: bool)
    ensures
        r == all_cyrillic(word@),
{
    for c in it: word.chars()
        invariant
            it.seq() == word@,
            forall|i: int| 0 <= i < it.index() ==> cyrillic(#[trigger] word@[i]),
    {
        if !is_cyrillic(c) {
            assert(!cyrillic(word@[it.index() as int]));
            return false;
        }
    }
    true
}

fn is_all_latin(word: &str) -> (r: bool)
    ensures
        r == all_latin(word@),
{
    for c in it: word.chars()
        invariant
            it.seq() == word@,
            forall|i: int| 0 <= i < it.index() ==> latin(#[trigger] word@[i]),
    {
        if !matches!(c, 'a'..='z' | 'A'..='Z') {
            assert(!latin(word@[it.index() as int]));
            return false;
        }
    }
    true
}

/// Score `a` is better than score `b` by more than the threshold. A missing
/// score is worse than any score, and no worse than another missing one.
pub open spec fn well_above(a: Option<i64>, b: Option<i64>) -> bool {
    match (a, b) {
        (Some(x), Some(y)) => x - y > THRESHOLD_PER_BIGRAM,
        (Some(_), None) => true,
        _ => false,
    }
}

fn is_well_above(a: Option<i64>, b: Option<i64>) -> (r: bool)
    ensures
        r == well_above(a, b),
{
    match (a, b) {
        (Some(x), Some(y)) => (x as i128) - (y as i128) > THRESHOLD_PER_BIGRAM as i128,
        (Some(_), None) => true,
        _ => false,
    }
}

/// Whether a word should be switched, and to Russian (`Some(true)`) or to
/// English (`Some(false)`). Where neither word has a score, which is so for
/// a single key, the kind of its letter decides.
pub open spec fn target_of(keys: Seq<Entry>, active: u16, model: &LanguageModel) -> Option<bool> {
    let s = reading_of(keys, model);
    let en = typing::spelled(keys, Layout::English, true);
    let ru = typing::spelled(keys, Layout::Russian, true);
    let unscored = s.en_score is None && s.ru_score is None;
    if en.len() != keys.len() || ru.len() != keys.len() {
        None
    } else if layout::russian(active) {
        if all_cyrillic(ru) && (unscored || well_above(s.en_score, s.ru_score)) {
            Some(false)
        } else {
            None
        }
    } else if layout::english(active) {
        if all_latin(en) && (unscored || well_above(s.ru_score, s.en_score)) {
            Some(true)
        } else {
            None
        }
    } else {
        None
    }
}

/// What is done with keys of which there must be `min_len` at least.
pub open spec fn switch_of(
    keys: Seq<Entry>,
    min_len: int,
    active: u16,
    model: &LanguageModel,
) -> Option<Replacement> {
    let en = typing::spelled(keys, Layout::English, true);
    let ru = typing::spelled(keys, Layout::Russian, true);
    if keys.len() < min_len {
        None
    } else {
        match target_of(keys, active, model) {
            Some(true) => Some(
                Replacement {
                    backspaces: keys.len() as int,
                    new_word: ru,
                    to_ru: true,
                    original_word: en,
                },
            ),
            Some(false) => Some(
                Replacement {
                    backspaces: keys.len() as int,
                    new_word: en,
                    to_ru: false,
                    original_word: ru,
                },
            ),
            None => None,
        }
    }
}

/// The keys of the word that is being typed.
#[derive(Debug)]
pub struct WordBuffer {
    /// The typed keys.
    pub entries: Vec<Entry>,
}

impl View for WordBuffer {
    type V = Seq<Entry>;

    open spec fn view(&self) -> Seq<Entry> {
        self.entries@
    }
}

impl Default for WordBuffer {
    fn default() -> (r: WordBuffer)
        ensures
            r@ == Seq::<Entry>::empty(),
    {
        WordBuffer::new()
    }
}

impl WordBuffer {
    /// An empty buffer.
    pub fn new() -> (r: WordBuffer)
        ensures
            r@ == Seq::<Entry>::empty(),
    {
        WordBuffer { entries: Vec::new() }
    }

    /// Adds a key.
    pub fn push(&mut self, vk: u16, is_upper: bool)
        ensures
            final(self)@ == old(self)@.push(Entry { vk, is_upper }),
    {
        self.entries.push(Entry { vk, is_upper });
    }

    /// Takes the last key back, if there is one.
    pub fn pop(&mut self)
        ensures
            final(self)@ == (if old(self)@.len() == 0 {
                old(self)@
            } else {
                old(self)@.drop_last()
            }),
    {
        let _ = self.entries.pop();
        proof {
            if old(self)@.len() > 0 {
                assert(self@ =~= old(self)@.drop_last());
            } else {
                assert(self@ =~= old(self)@);
            }
        }
    }

    /// Forgets all keys.
    pub fn clear(&mut self)
        ensures
            final(self)@ == Seq::<Entry>::empty(),
    {
        self.entries.clear();
    }

    /// Whether no key has been typed.
    pub fn is_empty(&self) -> (r: bool)
        ensures
            r == (self@.len() == 0),
    {
        self.entries.len() == 0
    }

    /// The number of typed keys.
    pub fn len(&self) -> (r: usize)
        ensures
            r == self@.len(),
    {
        self.entries.len()
    }

    /// How the typed keys read in the two layouts; `None` without a key.
    pub fn detection_snapshot(&self, model: &LanguageModel) -> (r: Option<DetectionSnapshot>)
        ensures
            reading(r) == (if self@.len() == 0 {
                None
            } else {
                Some(reading_of(self@, model))
            }),
    {
        if self.entries.len() == 0 {
            return None;
        }
        let en_word = spell(&self.entries, Layout::English, false);
        let ru_word = spell(&self.entries, Layout::Russian, false);
        let en = score_en(en_word.as_str(), model);
        let ru = score_ru(ru_word.as_str(), model);
        Some(
            DetectionSnapshot {
                en_word,
                ru_word,
                score_en: en,
                score_ru: ru,
                len: self.entries.len(),
            },
        )
    }

    /// The replacement of a finished word of two keys or more, where it belongs
    /// to the other layout.
    pub fn detect_mismatch(&self, active_lang: u16, model: &LanguageModel) -> (r: Option<
        SwitchAction,
    >)
        ensures
            replacement(r) == switch_of(self@, 2, active_lang, model),
    {
        self.detect_impl(2, active_lang, model)
    }

    /// The replacement of a word of one key or more that the user has asked
    /// for by the hotkey.
    pub fn force_switch(&self, active_lang: u16, model: &LanguageModel) -> (r: Option<SwitchAction>)
        ensures
            replacement(r) == switch_of(self@, 1, active_lang, model),
    {
        self.detect_impl(1, active_lang, model)
    }

    fn detect_impl(&self, min_len: usize, active_lang: u16, model: &LanguageModel) -> (r: Option<
        SwitchAction,
    >)
        ensures
            replacement(r) == switch_of(self@, min_len as int, active_lang, model),
    {
        let len: usize = self.entries.len();
        if len < min_len {
            return None;
        }
        let en: String = spell(&self.entries, Layout::English, true);
        let ru: String = spell(&self.entries, Layout::Russian, true);
        if en.as_str().unicode_len() != len || ru.as_str().unicode_len() != len {
            return None;
        }
        let en_lower: String = spell(&self.entries, Layout::English, false);
        let ru_lower: String = spell(&self.entries, Layout::Russian, false);
        let en_score: Option<i64> = score_en(en_lower.as_str(), model);
        let ru_score: Option<i64> = score_ru(ru_lower.as_str(), model);
        let unscored: bool = en_score.is_none() && ru_score.is_none();
        if hkl_is_russian(active_lang) {
            if is_all_cyrillic(ru.as_str()) && (unscored || is_well_above(en_score, ru_score)) {
                return Some(
                    SwitchAction {
                        backspaces: len,
                        new_word: en,
                        to_ru: false,
                        original_word: ru,
                    },
                );
            }
        } else if hkl_is_english(active_lang) {
            if is_all_latin(en.as_str()) && (unscored || is_well_above(ru_score, en_score)) {
                return Some(
                    SwitchAction { backspaces: len, new_word: ru, to_ru: true, original_word: en },
                );
            }
        }
        None
    }
}

/// A switch replaces a word by one of the same length, and goes to the
/// language that is not the active one.
pub proof fn law_switch_keeps_the_length(
    keys: Seq<Entry>,
    min_len: int,
    active: u16,
    model: &LanguageModel,
)
    ensures
        switch_of(keys, min_len, active, model) matches Some(r) ==> {
            &&& r.new_word.len() == r.original_word.len() == r.backspaces == keys.len()
            &&& r.to_ru ==> layout::english(active)
            &&& !r.to_ru ==> layout::russian(active)
        },
{
}

/// Every word that is switched at its end can be switched by the hotkey too,
/// and to the same effect.
pub proof fn law_force_does_what_detection_does(
    keys: Seq<Entry>,
    active: u16,
    model: &LanguageModel,
)
    requires
        switch_of(keys, 2, active, model) is Some,
    ensures
        switch_of(keys, 1, active, model) == switch_of(keys, 2, active, model),
{
}

/// Two keys or more that all have a place in the layouts make up a Russian
/// word that has a score.
proof fn lemma_russian_word_is_scored(keys: Seq<Entry>, model: &LanguageModel)
    requires
        keys.len() >= 2,
        forall|i: int| 0 <= i < keys.len() ==> layout::translatable((#[trigger] keys[i]).vk),
    ensures
        reading_of(keys, model).ru_score is Some,
{
    let ru = typing::spelled(keys, Layout::Russian, false);
    let letters = bigrams::letters_of(ru, bigrams::RU_BASE, bigrams::RU_N);
    typing::lemma_spelled_len(keys, Layout::Russian, false);
    assert forall|i: int| 0 <= i < letters.len() implies #[trigger] letters[i] is Some by {
        typing::lemma_spelled_index(keys, Layout::Russian, false, i);
    }
    bigrams::lemma_all_filled(letters);
}

/// No word of two keys or more is switched both ways.
pub proof fn law_no_word_is_switched_both_ways(
    keys: Seq<Entry>,
    en_lang: u16,
    ru_lang: u16,
    model: &LanguageModel,
)
    requires
        keys.len() >= 2,
        layout::english(en_lang),
        layout::russian(ru_lang),
    ensures
        target_of(keys, en_lang, model) is None || target_of(keys, ru_lang, model) is None,
{
    let s = reading_of(keys, model);
    typing::lemma_spelled_len(keys, Layout::Russian, true);
    if typing::spelled(keys, Layout::Russian, true).len() == keys.len() {
        lemma_russian_word_is_scored(keys, model);
    }
}

} // verus!
