//! The word that is being typed.

use vstd::prelude::*;

use crate::bigrams::{self, score_en, score_ru, score_ua, LanguageModel};
use crate::detection::{self, Reading};
use crate::layout::{self, hkl_is_english, hkl_is_russian, hkl_is_ukrainian, Layout};
use crate::settings::PreferredCyrillic;
use crate::typing::{self, apply_case_correction, is_camel_cased, spell, Entry, Shape};
use crate::words::{WordMap, WordSet};

verus! {

/// What the user's settings and the recent words contribute to detection.
#[derive(Debug)]
pub struct DetectionConfig {
    /// Words that are never switched.
    pub ignored_words: WordSet,
    /// Languages that the user has chosen, by the English spelling of the keys.
    pub word_corrections: WordMap<u16>,
    /// How a word that could be Russian as well as Ukrainian is taken.
    pub preferred_cyrillic: PreferredCyrillic,
    /// The layout that the recent words speak for, if any.
    pub context_lang: Option<u16>,
}

impl DetectionConfig {
    /// Whether the recent words speak for a layout.
    pub fn context_is(&self, lang: u16) -> (r: bool)
        ensures
            r == (self.context_lang == Some(lang)),
    {
        match self.context_lang {
            Some(l) => l == lang,
            None => false,
        }
    }
}

/// What a configuration holds.
#[verifier::ext_equal]
pub struct Preferences {
    pub ignored_words: Set<Seq<char>>,
    pub word_corrections: Map<Seq<char>, u16>,
    pub preferred_cyrillic: PreferredCyrillic,
    pub context_lang: Option<u16>,
}

impl View for DetectionConfig {
    type V = Preferences;

    open spec fn view(&self) -> Preferences {
        Preferences {
            ignored_words: self.ignored_words@,
            word_corrections: self.word_corrections@,
            preferred_cyrillic: self.preferred_cyrillic,
            context_lang: self.context_lang,
        }
    }
}

/// No ignored words, no corrections, no context, and an automatic choice
/// between Russian and Ukrainian.
pub open spec fn no_preferences() -> Preferences {
    Preferences {
        ignored_words: Set::empty(),
        word_corrections: Map::empty(),
        preferred_cyrillic: PreferredCyrillic::Auto,
        context_lang: None,
    }
}

impl Default for DetectionConfig {
    fn default() -> (r: DetectionConfig)
        ensures
            r@ == no_preferences(),
    {
        DetectionConfig {
            ignored_words: WordSet::new(),
            word_corrections: WordMap::new(),
            preferred_cyrillic: PreferredCyrillic::Auto,
            context_lang: None,
        }
    }
}

/// The replacement of a mistyped word.
#[derive(Debug)]
pub struct SwitchAction {
    /// How many characters to erase first.
    pub backspaces: usize,
    /// The word to put in their place.
    pub new_word: String,
    /// The layout to change to.
    pub target_lang: u16,
    /// The mistyped word, kept for an undo.
    pub original_word: String,
}

/// The replacement of a mistyped word, as a value.
pub struct Replacement {
    pub backspaces: int,
    pub new_word: Seq<char>,
    pub target_lang: u16,
    pub original_word: Seq<char>,
}

impl View for SwitchAction {
    type V = Replacement;

    open spec fn view(&self) -> Replacement {
        Replacement {
            backspaces: self.backspaces as int,
            new_word: self.new_word@,
            target_lang: self.target_lang,
            original_word: self.original_word@,
        }
    }
}

impl Clone for SwitchAction {
    fn clone(&self) -> (r: SwitchAction)
        ensures
            r@ == self@,
    {
        SwitchAction {
            backspaces: self.backspaces,
            new_word: self.new_word.clone(),
            target_lang: self.target_lang,
            original_word: self.original_word.clone(),
        }
    }
}

/// What the typed keys spell in the three layouts, and the scores of the three
/// words.
#[derive(Debug)]
pub struct DetectionSnapshot {
    /// The word in the English layout, in lower case.
    pub en_word: String,
    /// The word in the Russian layout, in lower case.
    pub ru_word: String,
    /// The word in the Ukrainian layout, in lower case.
    pub ua_word: String,
    /// The score of the English word, in nano-nats per pair of letters.
    pub score_en: Option<i64>,
    /// The score of the Russian word.
    pub score_ru: Option<i64>,
    /// The score of the Ukrainian word.
    pub score_ua: Option<i64>,
    /// The number of typed keys.
    pub len: usize,
}

impl View for DetectionSnapshot {
    type V = Reading;

    open spec fn view(&self) -> Reading {
        Reading {
            en: self.en_word@,
            ru: self.ru_word@,
            ua: self.ua_word@,
            en_score: self.score_en,
            ru_score: self.score_ru,
            ua_score: self.score_ua,
            len: self.len as int,
        }
    }
}

/// How typed keys read in the three layouts.
pub open spec fn reading_of(keys: Seq<Entry>, model: &LanguageModel) -> Reading {
    let en = typing::spelled(keys, Layout::English, false);
    let ru = typing::spelled(keys, Layout::Russian, false);
    let ua = typing::spelled(keys, Layout::Ukrainian, false);
    Reading {
        en,
        ru,
        ua,
        en_score: bigrams::en_score(en, model),
        ru_score: bigrams::ru_score(ru, model),
        ua_score: bigrams::ua_score(ua, model),
        len: keys.len() as int,
    }
}

/// The optional replacement behind an optional action.
pub open spec fn replacement(a: Option<SwitchAction>) -> Option<Replacement> {
    match a {
        Some(x) => Some(x@),
        None => None,
    }
}

/// The optional reading behind an optional snapshot.
pub open spec fn reading(s: Option<DetectionSnapshot>) -> Option<Reading> {
    match s {
        Some(x) => Some(x@),
        None => None,
    }
}

/// The keys of the word that is being typed.
#[derive(Debug)]
pub struct WordBuffer {
    /// The typed keys.
    pub entries: Vec<Entry>,
    /// The word has been switched while it was being typed.
    pub has_switched: bool,
    /// The layout under which the first key was typed; 0 where it is not known.
    pub entry_lang: u16,
    /// The word is part of a name with underscores.
    pub in_snake_case: bool,
}

/// The state of a word buffer.
pub struct Typed {
    pub keys: Seq<Entry>,
    pub has_switched: bool,
    pub entry_lang: u16,
    pub in_snake_case: bool,
}

impl View for WordBuffer {
    type V = Typed;

    open spec fn view(&self) -> Typed {
        Typed {
            keys: self.entries@,
            has_switched: self.has_switched,
            entry_lang: self.entry_lang,
            in_snake_case: self.in_snake_case,
        }
    }
}

/// A buffer into which nothing has been typed.
pub open spec fn nothing_typed() -> Typed {
    Typed { keys: Seq::empty(), has_switched: false, entry_lang: 0, in_snake_case: false }
}

/// All keys are the same one.
pub open spec fn one_key_repeated(keys: Seq<Entry>) -> bool {
    forall|i: int| 0 <= i < keys.len() ==> (#[trigger] keys[i]).vk == keys[0].vk
}

/// How the word in a buffer looks.
pub open spec fn shape_of(b: Typed) -> Shape {
    if b.in_snake_case {
        Shape::SnakeCase
    } else if typing::camel_cased(b.keys) {
        Shape::CamelCase
    } else {
        Shape::Plain
    }
}

/// The buffer is open to detection: not switched already, long enough, and not
/// one key held down.
pub open spec fn detectable(b: Typed, on_the_fly: bool) -> bool {
    &&& !b.has_switched
    &&& b.keys.len() >= (if on_the_fly {
        4int
    } else {
        1int
    })
    &&& !(b.keys.len() >= 2 && one_key_repeated(b.keys))
}

/// The word of a reading in the language that a switch goes to.
pub open spec fn word_in(s: Reading, target: u16) -> Seq<char> {
    if target == layout::LANG_RU {
        s.ru
    } else if target == layout::LANG_UA {
        s.ua
    } else {
        s.en
    }
}

/// The word that a switch takes from the screen.
pub open spec fn word_replaced(s: Reading, active: u16, target: u16) -> Seq<char> {
    if layout::english(active) && target != layout::LANG_EN_US {
        s.en
    } else if layout::russian(active) {
        s.ru
    } else {
        s.ua
    }
}

/// What detection does with a buffer. While the word is being typed, the key
/// just pressed is not on the screen yet, and is not erased.
pub open spec fn detection_of(
    b: Typed,
    active: u16,
    sensitivity: i32,
    on_the_fly: bool,
    config: Preferences,
    model: &LanguageModel,
) -> Option<Replacement> {
    let s = reading_of(b.keys, model);
    if !detectable(b, on_the_fly) {
        None
    } else {
        match detection::target_of(
            s,
            shape_of(b),
            active,
            sensitivity,
            on_the_fly,
            config,
            model,
        ) {
            Some(target) => Some(
                Replacement {
                    backspaces: if on_the_fly {
                        b.keys.len() - 1
                    } else {
                        b.keys.len() as int
                    },
                    new_word: typing::in_case_of(b.keys, word_in(s, target)),
                    target_lang: target,
                    original_word: word_replaced(s, active, target),
                },
            ),
            None => None,
        }
    }
}

/// The layout that a forced switch takes as the active one: that under which
/// the word was begun, where it is known.
pub open spec fn typed_under(b: Typed, active: u16) -> u16 {
    if b.entry_lang != 0 {
        b.entry_lang
    } else {
        active
    }
}

/// The layout that a language identifier stands for; English where it is none
/// of the three.
pub open spec fn layout_of(lang: u16) -> Layout {
    if layout::russian(lang) {
        Layout::Russian
    } else if layout::ukrainian(lang) {
        Layout::Ukrainian
    } else {
        Layout::English
    }
}

/// What a forced switch does with a buffer.
pub open spec fn forced_of(
    b: Typed,
    active: u16,
    config: Preferences,
    model: &LanguageModel,
) -> Option<Replacement> {
    let s = reading_of(b.keys, model);
    let from = typed_under(b, active);
    if b.keys.len() == 0 {
        None
    } else {
        match detection::forced_target(s, from, config, model) {
            Some(target) => Some(
                Replacement {
                    backspaces: b.keys.len() as int,
                    new_word: typing::in_case_of(b.keys, word_in(s, target)),
                    target_lang: target,
                    original_word: typing::spelled(b.keys, layout_of(from), true),
                },
            ),
            None => None,
        }
    }
}

impl Default for WordBuffer {
    fn default() -> (r: WordBuffer)
        ensures
            r@ == nothing_typed(),
    {
        WordBuffer::new()
    }
}

impl Clone for WordBuffer {
    fn clone(&self) -> (r: WordBuffer)
        ensures
            r@ == self@,
    {
        let r = WordBuffer {
            entries: self.entries.clone(),
            has_switched: self.has_switched,
            entry_lang: self.entry_lang,
            in_snake_case: self.in_snake_case,
        };
        assert(r@.keys =~= self@.keys);
        r
    }
}

impl WordBuffer {
    /// An empty buffer.
    pub fn new() -> (r: WordBuffer)
        ensures
            r@ == nothing_typed(),
            !r.has_switched,
    {
        let r = WordBuffer {
            entries: Vec::new(),
            has_switched: false,
            entry_lang: 0,
            in_snake_case: false,
        };
        assert(r@.keys =~= Seq::<Entry>::empty());
        r
    }

    /// Notes the layout under which the word is begun; once a key has been
    /// typed the note stays as it is.
    pub fn set_entry_lang(&mut self, lang: u16)
        ensures
            final(self)@ == (if old(self)@.keys.len() == 0 {
                Typed { entry_lang: lang, ..old(self)@ }
            } else {
                old(self)@
            }),
    {
        if self.entries.len() == 0 {
            self.entry_lang = lang;
        }
    }

    /// Adds a key.
    pub fn push(&mut self, vk: u16, is_upper: bool)
        ensures
            final(self)@ == (Typed {
                keys: old(self)@.keys.push(Entry { vk, is_upper }),
                ..old(self)@
            }),
    {
        self.entries.push(Entry { vk, is_upper });
    }

    /// Takes the last key back, if there is one.
    pub fn pop(&mut self)
        ensures
            final(self)@ == (if old(self)@.keys.len() == 0 {
                old(self)@
            } else {
                Typed { keys: old(self)@.keys.drop_last(), ..old(self)@ }
            }),
    {
        let _ = self.entries.pop();
        proof {
            if old(self)@.keys.len() > 0 {
                assert(self@.keys =~= old(self)@.keys.drop_last());
            } else {
                assert(self@.keys =~= old(self)@.keys);
            }
        }
    }

    /// Forgets everything.
    pub fn clear(&mut self)
        ensures
            final(self)@ == nothing_typed(),
    {
        self.entries.clear();
        self.has_switched = false;
        self.entry_lang = 0;
        self.in_snake_case = false;
        assert(self@.keys =~= Seq::<Entry>::empty());
    }

    /// Whether no key has been typed.
    pub fn is_empty(&self) -> (r: bool)
        ensures
            r == (self@.keys.len() == 0),
    {
        self.entries.len() == 0
    }

    /// The number of typed keys.
    pub fn len(&self) -> (r: usize)
        ensures
            r == self@.keys.len(),
    {
        self.entries.len()
    }

    fn read(&self, model: &LanguageModel) -> (r: DetectionSnapshot)
        ensures
            r@ == reading_of(self@.keys, model),
    {
        let en_word = spell(&self.entries, Layout::English, false);
        let ru_word = spell(&self.entries, Layout::Russian, false);
        let ua_word = spell(&self.entries, Layout::Ukrainian, false);
        let en = score_en(en_word.as_str(), model);
        let ru = score_ru(ru_word.as_str(), model);
        let ua = score_ua(ua_word.as_str(), model);
        DetectionSnapshot {
            en_word,
            ru_word,
            ua_word,
            score_en: en,
            score_ru: ru,
            score_ua: ua,
            len: self.entries.len(),
        }
    }

    /// How the typed keys read in the three layouts; `None` without a key.
    pub fn detection_snapshot(&self, model: &LanguageModel) -> (r: Option<DetectionSnapshot>)
        ensures
            reading(r) == (if self@.keys.len() == 0 {
                None
            } else {
                Some(reading_of(self@.keys, model))
            }),
    {
        if self.entries.len() == 0 {
            None
        } else {
            Some(self.read(model))
        }
    }

    fn repeats_one_key(&self) -> (r: bool)
        ensures
            r == one_key_repeated(self@.keys),
    {
        let mut i: usize = 1;
        while i < self.entries.len()
            invariant
                1 <= i,
                forall|j: int|
                    0 <= j < i && j < self.entries@.len() ==> (#[trigger] self.entries@[j]).vk
                        == self.entries@[0].vk,
            decreases self.entries.len() - i,
        {
            if self.entries[i].vk != self.entries[0].vk {
                assert(self@.keys[i as int].vk != self@.keys[0].vk);
                return false;
            }
            i += 1;
        }
        true
    }

    fn shape(&self) -> (r: Shape)
        ensures
            r == shape_of(self@),
    {
        if self.in_snake_case {
            Shape::SnakeCase
        } else if is_camel_cased(&self.entries) {
            Shape::CamelCase
        } else {
            Shape::Plain
        }
    }

    /// The replacement that the user has asked for by the hotkey, under the
    /// default configuration.
    pub fn force_switch(&self, active_lang: u16, model: &LanguageModel) -> (r: Option<SwitchAction>)
        ensures
            replacement(r) == forced_of(
                    self@,
                    active_lang,
                    no_preferences(),
                    model,
                ),
    {
        let config = DetectionConfig::default();
        self.force_switch_with_config(active_lang, &config, model)
    }

    /// The replacement that the user has asked for by the hotkey. `None` where
    /// nothing has been typed, the keys make up no word of the other language
    /// or the configuration allows no switch.
    pub fn force_switch_with_config(
        &self,
        active_lang: u16,
        config: &DetectionConfig,
        model: &LanguageModel,
    ) -> (r: Option<SwitchAction>)
        ensures
            replacement(r) == forced_of(self@, active_lang, config@, model),
    {
        if self.entries.len() == 0 {
            return None;
        }
        let from: u16 = if self.entry_lang != 0 {
            self.entry_lang
        } else {
            active_lang
        };
        let snap = self.read(model);
        let target: u16 = match detection::decide_forced(&snap, from, config, model) {
            Some(t) => t,
            None => {
                return None;
            },
        };
        let typed_in: Layout = if hkl_is_russian(from) {
            Layout::Russian
        } else if hkl_is_ukrainian(from) {
            Layout::Ukrainian
        } else {
            Layout::English
        };
        Some(
            SwitchAction {
                backspaces: self.entries.len(),
                new_word: self.corrected(&snap, target),
                target_lang: target,
                original_word: spell(&self.entries, typed_in, true),
            },
        )
    }

    /// The word of a snapshot in the target language, in the case of the keys.
    fn corrected(&self, snap: &DetectionSnapshot, target: u16) -> (r: String)
        ensures
            r@ == typing::in_case_of(self@.keys, word_in(snap@, target)),
    {
        if target == layout::LANG_RU {
            apply_case_correction(&self.entries, snap.ru_word.as_str())
        } else if target == layout::LANG_UA {
            apply_case_correction(&self.entries, snap.ua_word.as_str())
        } else {
            apply_case_correction(&self.entries, snap.en_word.as_str())
        }
    }

    /// Looks at a finished word: the replacement, if the word belongs to
    /// another layout, and how the word reads.
    pub fn detect_with_snapshot(
        &self,
        active_lang: u16,
        sensitivity: i32,
        config: &DetectionConfig,
        model: &LanguageModel,
    ) -> (r: (Option<SwitchAction>, Option<DetectionSnapshot>))
        ensures
            replacement(r.0) == detection_of(self@, active_lang, sensitivity, false, config@, model),
            reading(r.1) == (if detectable(self@, false) {
                Some(reading_of(self@.keys, model))
            } else {
                None
            }),
    {
        self.detect_impl_opt(active_lang, sensitivity, false, config, model)
    }

    /// Looks at a word that is still being typed.
    pub fn detect_on_the_fly_with_snapshot(
        &self,
        active_lang: u16,
        sensitivity: i32,
        config: &DetectionConfig,
        model: &LanguageModel,
    ) -> (r: (Option<SwitchAction>, Option<DetectionSnapshot>))
        ensures
            replacement(r.0) == detection_of(self@, active_lang, sensitivity, true, config@, model),
            reading(r.1) == (if detectable(self@, true) {
                Some(reading_of(self@.keys, model))
            } else {
                None
            }),
    {
        self.detect_impl_opt(active_lang, sensitivity, true, config, model)
    }

    /// The replacement of a finished word, at sensitivity one.
    pub fn detect_mismatch(&self, active_lang: u16, model: &LanguageModel) -> (r: Option<
        SwitchAction,
    >)
        ensures
            replacement(r) == detection_of(
                    self@,
                    active_lang,
                    1_000_000,
                    false,
                    no_preferences(),
                    model,
                ),
    {
        self.detect_mismatch_with_sensitivity(active_lang, 1_000_000, model)
    }

    /// The replacement of a finished word.
    pub fn detect_mismatch_with_sensitivity(
        &self,
        active_lang: u16,
        sensitivity: i32,
        model: &LanguageModel,
    ) -> (r: Option<SwitchAction>)
        ensures
            replacement(r) == detection_of(
                    self@,
                    active_lang,
                    sensitivity,
                    false,
                    no_preferences(),
                    model,
                ),
    {
        let config = DetectionConfig::default();
        self.detect_impl_opt(active_lang, sensitivity, false, &config, model).0
    }

    /// The replacement of a word that is still being typed.
    pub fn detect_mismatch_on_the_fly(
        &self,
        active_lang: u16,
        sensitivity: i32,
        model: &LanguageModel,
    ) -> (r: Option<SwitchAction>)
        ensures
            replacement(r) == detection_of(
                    self@,
                    active_lang,
                    sensitivity,
                    true,
                    no_preferences(),
                    model,
                ),
    {
        let config = DetectionConfig::default();
        self.detect_impl_opt(active_lang, sensitivity, true, &config, model).0
    }

    fn detect_impl_opt(
        &self,
        active_lang: u16,
        sensitivity: i32,
        on_the_fly: bool,
        config: &DetectionConfig,
        model: &LanguageModel,
    ) -> (r: (Option<SwitchAction>, Option<DetectionSnapshot>))
        ensures
            replacement(r.0) == detection_of(
                self@,
                active_lang,
                sensitivity,
                on_the_fly,
                config@,
                model,
            ),
            reading(r.1) == (if detectable(self@, on_the_fly) {
                Some(reading_of(self@.keys, model))
            } else {
                None
            }),
    {
        if self.has_switched {
            return (None, None);
        }
        let len: usize = self.entries.len();
        let min_len: usize = if on_the_fly {
            4
        } else {
            1
        };
        if len < min_len || (len >= 2 && self.repeats_one_key()) {
            return (None, None);
        }
        let snap = self.read(model);
        let target: u16 = match detection::decide(
            &snap,
            self.shape(),
            active_lang,
            sensitivity,
            on_the_fly,
            config,
            model,
        ) {
            Some(t) => t,
            None => {
                return (None, Some(snap));
            },
        };
        let new_word: String = self.corrected(&snap, target);
        let original_word: String = if hkl_is_english(active_lang) && target != layout::LANG_EN_US {
            snap.en_word.clone()
        } else if hkl_is_russian(active_lang) {
            snap.ru_word.clone()
        } else {
            snap.ua_word.clone()
        };
        let backspaces: usize = if on_the_fly {
            len - 1
        } else {
            len
        };
        (
            Some(SwitchAction { backspaces, new_word, target_lang: target, original_word }),
            Some(snap),
        )
    }
}

} // verus!
