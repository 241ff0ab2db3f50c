//! How the keys that are pressed turn into switches.

use vstd::prelude::*;

use crate::bigrams::LanguageModel;
use crate::buffer::{
    self, DetectionConfig, DetectionSnapshot, Preferences, Replacement, SwitchAction, Typed,
    WordBuffer,
};
use crate::detection::{self, Reading};
use crate::keys::{
    self, hotkey_fires, is_boundary_vk, is_down, is_modifier_vk, is_navigation_vk, HookHotkey,
    VK_BACK, VK_LCONTROL, VK_OEM_MINUS, VK_RCONTROL,
};
use crate::laws;
use crate::layout::{
    self, hkl_is_english, hkl_is_russian, hkl_is_ukrainian, is_translatable_vk, LANG_EN_US, LANG_RU,
};
use crate::scoring::{self, is_better};
use crate::settings::{self, Configuration, Settings};
use crate::text;
use crate::unicode;
use crate::words::WordMap;

verus! {

/// How often a word must be typed before it is left alone for good.
pub const ADAPTIVE_LIMIT: u32 = 3;

/// How many words the context reaches back.
pub const CONTEXT_LEN: usize = 4;

/// The mark that injected key events carry, so that they are told apart.
pub const INJECTED_MARK: usize = 0x5357_4954;

/// The messages that a key press comes with.
pub const WM_KEYDOWN: u32 = 0x0100;

pub const WM_SYSKEYDOWN: u32 = 0x0104;

/// The messages that a mouse click comes with.
pub const WM_LBUTTONDOWN: u32 = 0x0201;

pub const WM_RBUTTONDOWN: u32 = 0x0204;

pub const WM_MBUTTONDOWN: u32 = 0x0207;

pub const WM_NCLBUTTONDOWN: u32 = 0x00A1;

pub const WM_NCRBUTTONDOWN: u32 = 0x00A4;

// -- What is remembered ----------------------------------------------------------

/// What it takes to take a switch back.
#[derive(Debug)]
pub struct UndoState {
    /// The word that was replaced.
    pub original_word: String,
    /// How many characters to erase first.
    pub erase_len: usize,
    /// The layout to change back to.
    pub restore_lang: u16,
    /// The key that ended the word and has to be typed again.
    pub boundary_vk: Option<u16>,
}

/// What it takes to take a switch back, as a value.
pub struct Undo {
    pub original_word: Seq<char>,
    pub erase_len: int,
    pub restore_lang: u16,
    pub boundary_vk: Option<u16>,
}

impl View for UndoState {
    type V = Undo;

    open spec fn view(&self) -> Undo {
        Undo {
            original_word: self.original_word@,
            erase_len: self.erase_len as int,
            restore_lang: self.restore_lang,
            boundary_vk: self.boundary_vk,
        }
    }
}

/// What is remembered from key to key.
#[derive(Debug)]
pub struct HookState {
    /// The word that is being typed.
    pub buf: WordBuffer,
    /// The word before it, left as it was, and the key that ended it.
    pub prev: Option<(WordBuffer, u16)>,
    /// How to take the last switch back.
    pub undo: Option<UndoState>,
    /// The window that had the last key.
    pub last_window: usize,
    /// How often words were typed that almost had been switched.
    pub success_counts: WordMap<u32>,
    /// The layouts that the last words ended up in, the latest last.
    pub context_langs: Vec<u16>,
}

/// What is remembered from key to key, as a value.
pub struct Memory {
    pub buf: Typed,
    pub prev: Option<(Typed, u16)>,
    pub undo: Option<Undo>,
    pub last_window: usize,
    pub success_counts: Map<Seq<char>, u32>,
    pub context_langs: Seq<u16>,
}

pub open spec fn prev_view(p: Option<(WordBuffer, u16)>) -> Option<(Typed, u16)> {
    match p {
        Some(x) => Some((x.0@, x.1)),
        None => None,
    }
}

pub open spec fn undo_view(u: Option<UndoState>) -> Option<Undo> {
    match u {
        Some(x) => Some(x@),
        None => None,
    }
}

impl View for HookState {
    type V = Memory;

    open spec fn view(&self) -> Memory {
        Memory {
            buf: self.buf@,
            prev: prev_view(self.prev),
            undo: undo_view(self.undo),
            last_window: self.last_window,
            success_counts: self.success_counts@,
            context_langs: self.context_langs@,
        }
    }
}

/// Nothing is remembered yet.
pub open spec fn blank_memory() -> Memory {
    Memory {
        buf: buffer::nothing_typed(),
        prev: None,
        undo: None,
        last_window: 0,
        success_counts: Map::empty(),
        context_langs: Seq::empty(),
    }
}

impl Memory {
    /// The words are short enough for one more key to be counted.
    pub open spec fn has_room(self) -> bool {
        &&& self.buf.keys.len() < usize::MAX
        &&& self.prev matches Some(p) ==> p.0.keys.len() < usize::MAX
    }
}

impl HookState {
    /// Nothing is remembered yet.
    pub fn new() -> (r: HookState)
        ensures
            r@ == blank_memory(),
    {
        let r = HookState {
            buf: WordBuffer::new(),
            prev: None,
            undo: None,
            last_window: 0,
            success_counts: WordMap::new(),
            context_langs: Vec::new(),
        };
        assert(r@.context_langs =~= Seq::<u16>::empty());
        r
    }

    /// Whether the words are short enough for one more key to be counted.
    pub fn has_room(&self) -> (r: bool)
        ensures
            r == self@.has_room(),
    {
        self.buf.len() < usize::MAX && match &self.prev {
            Some(p) => p.0.len() < usize::MAX,
            None => true,
        }
    }
}

impl Default for HookState {
    fn default() -> (r: HookState)
        ensures
            r@ == blank_memory(),
    {
        HookState::new()
    }
}

// -- Context -----------------------------------------------------------------------

/// The layout that two at least of the last three words ended up in.
pub open spec fn dominant(langs: Seq<u16>) -> Option<u16> {
    let n = langs.len();
    if n < 2 {
        None
    } else if n == 2 {
        if langs[1] == langs[0] {
            Some(langs[1])
        } else {
            None
        }
    } else if langs[n - 1] == langs[n - 2] || langs[n - 1] == langs[n - 3] {
        Some(langs[n - 1])
    } else if langs[n - 2] == langs[n - 3] {
        Some(langs[n - 2])
    } else {
        None
    }
}

/// Finds the layout that two at least of the last three words ended up in.
pub fn context_dominant_lang(langs: &Vec<u16>) -> (r: Option<u16>)
    ensures
        r == dominant(langs@),
{
    let n: usize = langs.len();
    if n < 2 {
        return None;
    }
    let last: u16 = langs[n - 1];
    let second: u16 = langs[n - 2];
    if last == second {
        return Some(last);
    }
    if n >= 3 {
        let third: u16 = langs[n - 3];
        if last == third {
            return Some(last);
        }
        if second == third {
            return Some(second);
        }
    }
    None
}

/// The layouts of the last words, with one more; the oldest falls away.
pub open spec fn recorded(langs: Seq<u16>, lang: u16) -> Seq<u16> {
    if langs.len() >= CONTEXT_LEN {
        langs.drop_first().push(lang)
    } else {
        langs.push(lang)
    }
}

/// Notes the layout that a word ended up in.
pub fn record_context_lang(langs: &mut Vec<u16>, lang: u16)
    ensures
        final(langs)@ == recorded(old(langs)@, lang),
{
    if langs.len() >= CONTEXT_LEN {
        let _ = langs.remove(0);
        assert(langs@ =~= old(langs)@.drop_first());
    }
    langs.push(lang);
}

// -- What a key does -----------------------------------------------------------------

/// A key that is pressed, and the state of the keyboard around it.
#[derive(Debug)]
pub struct KeyPress {
    /// The key.
    pub vk: u16,
    /// The layout of the foreground window.
    pub lang: u16,
    /// The keys that are physically held down.
    pub held: Vec<u16>,
    /// Shift is down.
    pub shift: bool,
    /// Caps Lock is on.
    pub caps: bool,
}

/// What has come of a key.
#[derive(Debug, Clone, Copy, PartialEq, Eq, Structural)]
pub enum KeyEvent {
    /// Nothing to speak of.
    Plain,
    /// The undo hotkey was pressed; where there is a replacement, a switch was
    /// taken back.
    Undo,
    /// The switching hotkey was pressed; where there is a replacement, the
    /// current word was switched.
    Force,
    /// The word before was switched by the hotkey.
    ForcePrevious,
    /// A finished word was looked at.
    Detect,
    /// The word was switched while it was being typed.
    OnTheFly,
}

/// What to do after a key.
#[derive(Debug)]
pub struct Outcome {
    /// The key is kept from the foreground window.
    pub swallow: bool,
    /// The replacement to make.
    pub switch: Option<SwitchAction>,
    /// The key to type after it.
    pub boundary_vk: Option<u16>,
    /// The Start menu has to be kept from opening.
    pub suppress_start_menu: bool,
    /// The settings have changed and should be saved.
    pub save_settings: bool,
    /// What has come of the key.
    pub event: KeyEvent,
    /// How the word reads that was looked at.
    pub snapshot: Option<DetectionSnapshot>,
}

/// What to do after a key, as a value.
pub struct Effect {
    pub swallow: bool,
    pub switch: Option<Replacement>,
    pub boundary_vk: Option<u16>,
    pub suppress_start_menu: bool,
    pub save_settings: bool,
    pub event: KeyEvent,
    pub reading: Option<Reading>,
}

impl View for Outcome {
    type V = Effect;

    open spec fn view(&self) -> Effect {
        Effect {
            swallow: self.swallow,
            switch: buffer::replacement(self.switch),
            boundary_vk: self.boundary_vk,
            suppress_start_menu: self.suppress_start_menu,
            save_settings: self.save_settings,
            event: self.event,
            reading: buffer::reading(self.snapshot),
        }
    }
}

/// What a key does: what is remembered after it, the settings after it, and
/// what there is to do.
pub struct Step {
    pub memory: Memory,
    pub settings: Configuration,
    pub effect: Effect,
}

/// The key goes through and nothing is done.
pub open spec fn no_effect() -> Effect {
    Effect {
        swallow: false,
        switch: None,
        boundary_vk: None,
        suppress_start_menu: false,
        save_settings: false,
        event: KeyEvent::Plain,
        reading: None,
    }
}

fn nothing_to_do() -> (r: Outcome)
    ensures
        r@ == no_effect(),
{
    Outcome {
        swallow: false,
        switch: None,
        boundary_vk: None,
        suppress_start_menu: false,
        save_settings: false,
        event: KeyEvent::Plain,
        snapshot: None,
    }
}

/// What is kept of a switch so that it can be taken back: the key that ended
/// the word is on the screen too, if there is one.
pub open spec fn saved_undo(r: Replacement, boundary_vk: Option<u16>, original_lang: u16) -> Undo {
    Undo {
        original_word: r.original_word,
        erase_len: r.new_word.len() + (if boundary_vk is Some {
            1int
        } else {
            0int
        }),
        restore_lang: original_lang,
        boundary_vk,
    }
}

/// Keeps what it takes to take a switch back.
pub fn save_undo(action: &SwitchAction, boundary_vk: Option<u16>, original_lang: u16) -> (r:
    UndoState)
    requires
        boundary_vk is Some ==> action@.new_word.len() < usize::MAX,
    ensures
        r@ == saved_undo(action@, boundary_vk, original_lang),
{
    let typed: usize = action.new_word.as_str().unicode_len();
    UndoState {
        original_word: action.original_word.clone(),
        erase_len: if boundary_vk.is_some() {
            typed + 1
        } else {
            typed
        },
        restore_lang: original_lang,
        boundary_vk,
    }
}

// -- Taking a switch back ---------------------------------------------------------------

/// What the undo hotkey does. The restored word is left alone from now on.
pub open spec fn undo_step(m: Memory, c: Configuration, hk: HookHotkey) -> Step {
    let cleared = Memory { buf: buffer::nothing_typed(), undo: None, ..m };
    let pressed = Effect {
        swallow: true,
        suppress_start_menu: hk.win,
        event: KeyEvent::Undo,
        ..no_effect()
    };
    match m.undo {
        Some(u) => {
            let word = unicode::str_lowercase_of(u.original_word);
            let learnt = word.len() > 0 && !c.ignored_words.contains(word);
            Step {
                memory: cleared,
                settings: if learnt {
                    Configuration { ignored_words: c.ignored_words.insert(word), ..c }
                } else {
                    c
                },
                effect: Effect {
                    switch: Some(
                        Replacement {
                            backspaces: u.erase_len,
                            new_word: u.original_word,
                            target_lang: u.restore_lang,
                            original_word: Seq::empty(),
                        },
                    ),
                    boundary_vk: u.boundary_vk,
                    save_settings: learnt,
                    ..pressed
                },
            }
        },
        None => Step { memory: cleared, settings: c, effect: pressed },
    }
}

fn react_undo(state: &mut HookState, settings: &mut Settings, hk: &HookHotkey) -> (r: Outcome)
    ensures
        ({
            let step = undo_step(old(state)@, old(settings)@, *hk);
            final(state)@ == step.memory && final(settings)@ == step.settings && r@ == step.effect
        }),
{
    let undo = state.undo.take();
    state.buf.clear();
    let mut out = nothing_to_do();
    out.swallow = true;
    out.suppress_start_menu = hk.win;
    out.event = KeyEvent::Undo;
    match undo {
        Some(u) => {
            let word: String = u.original_word.as_str().to_lowercase();
            if word.as_str().unicode_len() > 0 {
                let ghost before = settings@;
                out.save_settings = settings.ignore_word(word);
                proof {
                    if !out.save_settings {
                        assert(settings@.ignored_words =~= before.ignored_words);
                        assert(settings@ == before);
                    }
                }
            }
            out.boundary_vk = u.boundary_vk;
            let action = SwitchAction {
                backspaces: u.erase_len,
                new_word: u.original_word,
                target_lang: u.restore_lang,
                original_word: String::new(),
            };
            assert(action@.original_word =~= Seq::<char>::empty());
            out.switch = Some(action);
        },
        None => {},
    }
    out
}

// -- Switching on demand --------------------------------------------------------------------

/// The settings after the user has chosen a language for some keys; a single
/// key is not learnt.
pub open spec fn corrected(c: Configuration, en_key: Seq<char>, target: u16) -> Configuration {
    let key = unicode::str_lowercase_of(en_key);
    if corrects(c, en_key, target) {
        Configuration { word_corrections: c.word_corrections.insert(key, target), ..c }
    } else {
        c
    }
}

/// The choice of a language for some keys is news.
pub open spec fn corrects(c: Configuration, en_key: Seq<char>, target: u16) -> bool {
    let key = unicode::str_lowercase_of(en_key);
    key.len() >= 2 && !(c.word_corrections.contains_key(key) && c.word_corrections[key] == target)
}

/// Remembers that the user has chosen a language for some keys, given by their
/// English spelling. Tells whether that is news.
pub fn record_force_correction(settings: &mut Settings, en_key: &str, target_lang: u16) -> (r: bool)
    ensures
        r == corrects(old(settings)@, en_key@, target_lang),
        final(settings)@ == corrected(old(settings)@, en_key@, target_lang),
{
    let key: String = en_key.to_lowercase();
    if key.as_str().unicode_len() < 2 {
        return false;
    }
    let known: bool = match settings.word_corrections.get(key.as_str()) {
        Some(l) => l == target_lang,
        None => false,
    };
    if known {
        return false;
    }
    settings.word_corrections.insert(key, target_lang);
    true
}

/// What the switching hotkey does: it switches the current word or, where
/// there is none, the word before, learns from it, and can be taken back.
pub open spec fn force_step(
    m: Memory,
    c: Configuration,
    lang: u16,
    prefs: Preferences,
    hk: HookHotkey,
    model: &LanguageModel,
) -> Step {
    let pressed = Effect {
        swallow: true,
        suppress_start_menu: hk.win,
        event: KeyEvent::Force,
        ..no_effect()
    };
    match buffer::forced_of(m.buf, lang, prefs, model) {
        Some(r) => {
            let s = buffer::reading_of(m.buf.keys, model);
            Step {
                memory: Memory {
                    buf: buffer::nothing_typed(),
                    prev: None,
                    undo: Some(saved_undo(r, None, lang)),
                    ..m
                },
                settings: corrected(c, s.en, r.target_lang),
                effect: Effect {
                    switch: Some(r),
                    save_settings: corrects(c, s.en, r.target_lang),
                    reading: Some(s),
                    ..pressed
                },
            }
        },
        None => match m.prev {
            Some((word, boundary_vk)) => match buffer::forced_of(word, lang, prefs, model) {
                Some(r) => {
                    let s = buffer::reading_of(word.keys, model);
                    let whole = Replacement { backspaces: r.backspaces + 1, ..r };
                    Step {
                        memory: Memory {
                            buf: buffer::nothing_typed(),
                            prev: None,
                            undo: Some(saved_undo(whole, Some(boundary_vk), lang)),
                            ..m
                        },
                        settings: corrected(c, s.en, r.target_lang),
                        effect: Effect {
                            switch: Some(whole),
                            boundary_vk: Some(boundary_vk),
                            save_settings: corrects(c, s.en, r.target_lang),
                            event: KeyEvent::ForcePrevious,
                            reading: Some(s),
                            ..pressed
                        },
                    }
                },
                None => Step {
                    memory: Memory { prev: None, undo: None, ..m },
                    settings: c,
                    effect: pressed,
                },
            },
            None => Step {
                memory: Memory { buf: buffer::nothing_typed(), undo: None, ..m },
                settings: c,
                effect: pressed,
            },
        },
    }
}

fn react_force(
    state: &mut HookState,
    settings: &mut Settings,
    lang: u16,
    config: &DetectionConfig,
    hk: &HookHotkey,
    model: &LanguageModel,
) -> (r: Outcome)
    requires
        old(state)@.has_room(),
    ensures
        ({
            let step = force_step(old(state)@, old(settings)@, lang, config@, *hk, model);
            final(state)@ == step.memory && final(settings)@ == step.settings && r@ == step.effect
        }),
{
    let mut out = nothing_to_do();
    out.swallow = true;
    out.suppress_start_menu = hk.win;
    out.event = KeyEvent::Force;
    state.undo = None;
    proof {
        laws::law_one_character_per_key(state@.buf, lang, 0, false, config@, model);
        match state@.prev {
            Some(p) => {
                laws::law_one_character_per_key(p.0, lang, 0, false, config@, model);
            },
            None => {},
        }
    }
    match state.buf.force_switch_with_config(lang, config, model) {
        Some(action) => {
            let snap = state.buf.detection_snapshot(model);
            match &snap {
                Some(s) => {
                    out.save_settings = record_force_correction(
                        settings,
                        s.en_word.as_str(),
                        action.target_lang,
                    );
                },
                None => {},
            }
            out.snapshot = snap;
            state.undo = Some(save_undo(&action, None, lang));
            out.switch = Some(action);
            state.buf.clear();
            state.prev = None;
        },
        None => {
            match state.prev.take() {
                Some((word, boundary_vk)) => {
                    match word.force_switch_with_config(lang, config, model) {
                        Some(action) => {
                            let snap = word.detection_snapshot(model);
                            match &snap {
                                Some(s) => {
                                    out.save_settings = record_force_correction(
                                        settings,
                                        s.en_word.as_str(),
                                        action.target_lang,
                                    );
                                },
                                None => {},
                            }
                            let mut again = action;
                            again.backspaces = again.backspaces + 1;
                            out.snapshot = snap;
                            out.event = KeyEvent::ForcePrevious;
                            out.boundary_vk = Some(boundary_vk);
                            state.undo = Some(save_undo(&again, Some(boundary_vk), lang));
                            out.switch = Some(again);
                            state.buf.clear();
                        },
                        None => {},
                    }
                },
                None => {
                    state.buf.clear();
                },
            }
        },
    }
    out
}

// -- The end of a word ------------------------------------------------------------------------

/// The word is made up of letters, four at least.
pub open spec fn long_word(w: Seq<char>) -> bool {
    !detection::punctuated(w) && w.len() >= 4
}

/// The word that was left alone counts towards being left alone for good: it
/// is no short one, in no dictionary, and another layout had the better score.
pub open spec fn almost_switched(s: Reading, lang: u16, model: &LanguageModel) -> bool {
    if layout::russian(lang) {
        long_word(s.ru) && !model.ru_dictionary().contains(s.ru) && scoring::better(
            s.en_score,
            s.ru_score,
        )
    } else if layout::ukrainian(lang) {
        long_word(s.ua) && !model.ua_dictionary().contains(s.ua) && scoring::better(
            s.en_score,
            s.ua_score,
        )
    } else if layout::english(lang) {
        long_word(s.en) && !model.en_dictionary().contains(s.en) && (scoring::better(
            s.ru_score,
            s.en_score,
        ) || scoring::better(s.ua_score, s.en_score))
    } else {
        false
    }
}

fn is_long_word(w: &str) -> (r: bool)
    ensures
        r == long_word(w@),
{
    !detection::has_punctuation(w) && w.unicode_len() >= 4
}

/// The word on the screen, where it counts towards being left alone for good.
fn adaptive_word(s: &DetectionSnapshot, lang: u16, model: &LanguageModel) -> (r: Option<String>)
    ensures
        r is Some == almost_switched(s@, lang, model),
        r matches Some(w) ==> w@ == s@.on_screen(lang),
{
    if hkl_is_russian(lang) {
        if is_long_word(s.ru_word.as_str()) && !model.is_common_ru(s.ru_word.as_str()) && is_better(
            s.score_en,
            s.score_ru,
        ) {
            return Some(s.ru_word.clone());
        }
    } else if hkl_is_ukrainian(lang) {
        if is_long_word(s.ua_word.as_str()) && !model.is_common_ua(s.ua_word.as_str()) && is_better(
            s.score_en,
            s.score_ua,
        ) {
            return Some(s.ua_word.clone());
        }
    } else if hkl_is_english(lang) {
        if is_long_word(s.en_word.as_str()) && !model.is_common_en(s.en_word.as_str()) && (
        is_better(s.score_ru, s.score_en) || is_better(s.score_ua, s.score_en)) {
            return Some(s.en_word.clone());
        }
    }
    None
}

/// How often a word has been typed: as counted since the start, else as the
/// settings have it.
pub open spec fn times_typed(m: Memory, c: Configuration, w: Seq<char>) -> u32 {
    if m.success_counts.contains_key(w) {
        m.success_counts[w]
    } else if c.adaptive_counts.contains_key(w) {
        c.adaptive_counts[w]
    } else {
        0
    }
}

/// One more time that a word was typed and left alone. At the limit it is left
/// alone for good and counted no more.
pub open spec fn counted(m: Memory, c: Configuration, w: Seq<char>) -> (Memory, Configuration) {
    let times = times_typed(m, c, w) + 1;
    if times >= ADAPTIVE_LIMIT {
        (
            Memory { success_counts: m.success_counts.remove(w), ..m },
            Configuration {
                ignored_words: c.ignored_words.insert(w),
                adaptive_counts: c.adaptive_counts.remove(w),
                ..c
            },
        )
    } else {
        (
            Memory { success_counts: m.success_counts.insert(w, times as u32), ..m },
            Configuration { adaptive_counts: c.adaptive_counts.insert(w, times as u32), ..c },
        )
    }
}

/// Counts one more time that a word was typed and left alone.
pub fn count_success(state: &mut HookState, settings: &mut Settings, word: &str)
    ensures
        final(state)@ == counted(old(state)@, old(settings)@, word@).0,
        final(settings)@ == counted(old(state)@, old(settings)@, word@).1,
{
    let times: u32 = match state.success_counts.get(word) {
        Some(n) => n,
        None => match settings.adaptive_counts.get(word) {
            Some(n) => n,
            None => 0,
        },
    };
    if times >= ADAPTIVE_LIMIT - 1 {
        let _ = settings.ignore_word(word.to_owned());
        settings.forget_count(word);
        state.success_counts.remove(word);
    } else {
        state.success_counts.insert(word.to_owned(), times + 1);
        settings.note_count(word.to_owned(), times + 1);
    }
}

/// What a key does that ends the word. Only the keys for white space count
/// words that were left alone.
pub open spec fn word_end_step(
    m: Memory,
    c: Configuration,
    vk: u16,
    lang: u16,
    prefs: Preferences,
    counts: bool,
    model: &LanguageModel,
) -> Step {
    let s = buffer::reading_of(m.buf.keys, model);
    let seen = if buffer::detectable(m.buf, false) {
        Some(s)
    } else {
        None
    };
    match buffer::detection_of(m.buf, lang, c.sensitivity, false, prefs, model) {
        Some(r) => Step {
            memory: Memory {
                buf: buffer::nothing_typed(),
                prev: None,
                undo: Some(saved_undo(r, Some(vk), lang)),
                context_langs: recorded(m.context_langs, r.target_lang),
                ..m
            },
            settings: c,
            effect: Effect {
                swallow: true,
                switch: Some(r),
                boundary_vk: Some(vk),
                event: KeyEvent::Detect,
                reading: seen,
                ..no_effect()
            },
        },
        None => {
            let left = if m.buf.keys.len() > 0 {
                Memory {
                    buf: buffer::nothing_typed(),
                    prev: Some((m.buf, vk)),
                    undo: None,
                    context_langs: recorded(m.context_langs, lang),
                    ..m
                }
            } else {
                Memory { buf: buffer::nothing_typed(), undo: None, ..m }
            };
            let counting = counts && seen is Some && almost_switched(s, lang, model);
            let after = if counting {
                counted(left, c, s.on_screen(lang))
            } else {
                (left, c)
            };
            Step {
                memory: after.0,
                settings: after.1,
                effect: Effect {
                    save_settings: counting,
                    event: KeyEvent::Detect,
                    reading: seen,
                    ..no_effect()
                },
            }
        },
    }
}

fn react_word_end(
    state: &mut HookState,
    settings: &mut Settings,
    vk: u16,
    lang: u16,
    config: &DetectionConfig,
    counts: bool,
    model: &LanguageModel,
) -> (r: Outcome)
    requires
        old(state)@.has_room(),
    ensures
        ({
            let step = word_end_step(
                old(state)@,
                old(settings)@,
                vk,
                lang,
                config@,
                counts,
                model,
            );
            final(state)@ == step.memory && final(settings)@ == step.settings && r@ == step.effect
        }),
{
    proof {
        laws::law_one_character_per_key(
            state@.buf,
            lang,
            settings@.sensitivity,
            false,
            config@,
            model,
        );
    }
    let mut out = nothing_to_do();
    out.event = KeyEvent::Detect;
    let (result, snap) = state.buf.detect_with_snapshot(lang, settings.sensitivity, config, model);
    match result {
        Some(action) => {
            record_context_lang(&mut state.context_langs, action.target_lang);
            state.undo = Some(save_undo(&action, Some(vk), lang));
            state.buf.clear();
            state.prev = None;
            out.swallow = true;
            out.boundary_vk = Some(vk);
            out.switch = Some(action);
        },
        None => {
            state.undo = None;
            if !state.buf.is_empty() {
                record_context_lang(&mut state.context_langs, lang);
                state.prev = Some((state.buf.clone(), vk));
            }
            state.buf.clear();
            if counts {
                match &snap {
                    Some(s) => {
                        match adaptive_word(s, lang, model) {
                            Some(word) => {
                                count_success(state, settings, word.as_str());
                                out.save_settings = true;
                            },
                            None => {},
                        }
                    },
                    None => {},
                }
            }
        },
    }
    out.snapshot = snap;
    out
}

/// What the key for an underscore does. The word before it is part of a name,
/// and as long as the layout is the English one, the next word is too.
pub open spec fn underscore_step(
    m: Memory,
    c: Configuration,
    vk: u16,
    lang: u16,
    prefs: Preferences,
    model: &LanguageModel,
) -> Step {
    let named = m.buf.in_snake_case || m.buf.keys.len() > 0;
    let step = word_end_step(
        Memory { buf: Typed { in_snake_case: named, ..m.buf }, ..m },
        c,
        vk,
        lang,
        prefs,
        false,
        model,
    );
    let lang_now = match step.effect.switch {
        Some(r) => r.target_lang,
        None => lang,
    };
    Step {
        memory: Memory {
            buf: Typed {
                in_snake_case: named && layout::english(lang_now),
                ..buffer::nothing_typed()
            },
            ..step.memory
        },
        ..step
    }
}

fn react_underscore(
    state: &mut HookState,
    settings: &mut Settings,
    vk: u16,
    lang: u16,
    config: &DetectionConfig,
    model: &LanguageModel,
) -> (r: Outcome)
    requires
        old(state)@.has_room(),
    ensures
        ({
            let step = underscore_step(old(state)@, old(settings)@, vk, lang, config@, model);
            final(state)@ == step.memory && final(settings)@ == step.settings && r@ == step.effect
        }),
{
    let named: bool = state.buf.in_snake_case || !state.buf.is_empty();
    state.buf.in_snake_case = named;
    let out = react_word_end(state, settings, vk, lang, config, false, model);
    let lang_now: u16 = match &out.switch {
        Some(action) => action.target_lang,
        None => lang,
    };
    state.buf.in_snake_case = named && hkl_is_english(lang_now);
    out
}

// -- A letter --------------------------------------------------------------------------------

/// The word with one more key; the first one notes the layout.
pub open spec fn typed_on(b: Typed, key: &KeyPress) -> Typed {
    Typed {
        keys: b.keys.push(
            crate::typing::Entry { vk: key.vk, is_upper: key.shift != key.caps },
        ),
        entry_lang: if b.keys.len() == 0 {
            key.lang
        } else {
            b.entry_lang
        },
        ..b
    }
}

/// What a key of the layouts does: it goes on with the word, which may be
/// switched at once. With Ctrl it is no letter, and the word is forgotten.
pub open spec fn letter_step(
    m: Memory,
    c: Configuration,
    key: &KeyPress,
    prefs: Preferences,
    model: &LanguageModel,
) -> Step {
    if key.held@.contains(VK_LCONTROL) || key.held@.contains(VK_RCONTROL) {
        Step {
            memory: Memory { buf: buffer::nothing_typed(), undo: None, ..m },
            settings: c,
            effect: no_effect(),
        }
    } else {
        let b = typed_on(m.buf, key);
        match buffer::detection_of(b, key.lang, c.sensitivity, true, prefs, model) {
            Some(r) => Step {
                memory: Memory {
                    buf: Typed { has_switched: true, ..b },
                    prev: None,
                    undo: Some(saved_undo(r, None, key.lang)),
                    ..m
                },
                settings: c,
                effect: Effect {
                    swallow: true,
                    switch: Some(r),
                    event: KeyEvent::OnTheFly,
                    reading: Some(buffer::reading_of(b.keys, model)),
                    ..no_effect()
                },
            },
            None => Step {
                memory: Memory { buf: b, undo: None, ..m },
                settings: c,
                effect: no_effect(),
            },
        }
    }
}

fn react_letter(
    state: &mut HookState,
    settings: &Settings,
    key: &KeyPress,
    config: &DetectionConfig,
    model: &LanguageModel,
) -> (r: Outcome)
    ensures
        ({
            let step = letter_step(old(state)@, settings@, key, config@, model);
            final(state)@ == step.memory && settings@ == step.settings && r@ == step.effect
        }),
{
    let mut out = nothing_to_do();
    state.undo = None;
    if is_down(VK_LCONTROL, &key.held) || is_down(VK_RCONTROL, &key.held) {
        state.buf.clear();
        return out;
    }
    state.buf.set_entry_lang(key.lang);
    state.buf.push(key.vk, key.shift != key.caps);
    let (result, snap) = state.buf.detect_on_the_fly_with_snapshot(
        key.lang,
        settings.sensitivity,
        config,
        model,
    );
    match result {
        Some(action) => {
            state.undo = Some(save_undo(&action, None, key.lang));
            state.buf.has_switched = true;
            state.prev = None;
            out.swallow = true;
            out.event = KeyEvent::OnTheFly;
            out.snapshot = snap;
            out.switch = Some(action);
        },
        None => {},
    }
    out
}

// -- Any key ----------------------------------------------------------------------------------

/// A key that is a modifier or belongs to a hotkey leaves the word before
/// within reach; any other makes it a thing of the past.
pub open spec fn keeps_previous(vk: u16, c: Configuration) -> bool {
    ||| keys::modifier(vk)
    ||| c.switch_key() matches Some(hk) && vk == hk.vk
    ||| c.undo_key() matches Some(hk) && vk == hk.vk
}

/// What a key does.
pub open spec fn key_step(
    m: Memory,
    c: Configuration,
    key: &KeyPress,
    prefs: Preferences,
    model: &LanguageModel,
) -> Step {
    let now = if keeps_previous(key.vk, c) {
        m
    } else {
        Memory { prev: None, ..m }
    };
    if c.undo_key() is Some && keys::fires(key.vk, c.undo_key()->0, key.held@) {
        undo_step(now, c, c.undo_key()->0)
    } else if c.switch_key() is Some && keys::fires(key.vk, c.switch_key()->0, key.held@) {
        force_step(now, c, key.lang, prefs, c.switch_key()->0, model)
    } else if key.vk == VK_BACK {
        Step {
            memory: Memory {
                buf: if now.buf.keys.len() == 0 {
                    Typed { in_snake_case: false, ..now.buf }
                } else {
                    Typed { keys: now.buf.keys.drop_last(), ..now.buf }
                },
                ..now
            },
            settings: c,
            effect: no_effect(),
        }
    } else if keys::boundary(key.vk) {
        word_end_step(now, c, key.vk, key.lang, prefs, true, model)
    } else if layout::translatable(key.vk) {
        letter_step(now, c, key, prefs, model)
    } else if keys::modifier(key.vk) {
        Step { memory: now, settings: c, effect: no_effect() }
    } else if keys::navigation(key.vk) {
        Step {
            memory: Memory { buf: buffer::nothing_typed(), undo: None, ..now },
            settings: c,
            effect: no_effect(),
        }
    } else if key.vk == VK_OEM_MINUS && key.shift {
        underscore_step(now, c, key.vk, key.lang, prefs, model)
    } else {
        word_end_step(now, c, key.vk, key.lang, prefs, false, model)
    }
}

/// Does what a key that is pressed calls for.
pub fn process_key(
    state: &mut HookState,
    settings: &mut Settings,
    key: &KeyPress,
    config: &DetectionConfig,
    model: &LanguageModel,
) -> (r: Outcome)
    requires
        old(state)@.has_room(),
    ensures
        ({
            let step = key_step(old(state)@, old(settings)@, key, config@, model);
            final(state)@ == step.memory && final(settings)@ == step.settings && r@ == step.effect
        }),
{
    let vk: u16 = key.vk;
    let hotkey = settings.hotkey();
    let undo_hotkey = settings.undo_hotkey();
    let is_hotkey_vk: bool = match &hotkey {
        Some(hk) => vk == hk.vk,
        None => false,
    };
    let is_undo_vk: bool = match &undo_hotkey {
        Some(hk) => vk == hk.vk,
        None => false,
    };
    if !is_modifier_vk(vk) && !is_hotkey_vk && !is_undo_vk {
        state.prev = None;
    }
    match &undo_hotkey {
        Some(hk) => {
            if hotkey_fires(vk, hk, &key.held) {
                return react_undo(state, settings, hk);
            }
        },
        None => {},
    }
    match &hotkey {
        Some(hk) => {
            if hotkey_fires(vk, hk, &key.held) {
                return react_force(state, settings, key.lang, config, hk, model);
            }
        },
        None => {},
    }
    if vk == VK_BACK {
        if state.buf.is_empty() {
            state.buf.in_snake_case = false;
        }
        state.buf.pop();
        nothing_to_do()
    } else if is_boundary_vk(vk) {
        react_word_end(state, settings, vk, key.lang, config, true, model)
    } else if is_translatable_vk(vk) {
        react_letter(state, settings, key, config, model)
    } else if is_modifier_vk(vk) {
        nothing_to_do()
    } else if is_navigation_vk(vk) {
        state.buf.clear();
        state.undo = None;
        nothing_to_do()
    } else if vk == VK_OEM_MINUS && key.shift {
        react_underscore(state, settings, vk, key.lang, config, model)
    } else {
        react_word_end(state, settings, vk, key.lang, config, false, model)
    }
}

// -- Events of keyboard and mouse ------------------------------------------------------------

/// A keyboard event calls for attention: it is to be handled, does not come
/// from the program itself, and is a key going down.
pub open spec fn calls_for_attention(
    n_code: i32,
    injected: bool,
    extra_info: usize,
    message: u32,
) -> bool {
    &&& n_code >= 0
    &&& !(injected && extra_info == INJECTED_MARK)
    &&& message == WM_KEYDOWN || message == WM_SYSKEYDOWN
}

/// Whether a keyboard event calls for attention.
pub fn is_key_press(n_code: i32, injected: bool, extra_info: usize, message: u32) -> (r: bool)
    ensures
        r == calls_for_attention(n_code, injected, extra_info, message),
{
    if n_code < 0 {
        return false;
    }
    if injected && extra_info == INJECTED_MARK {
        return false;
    }
    message == WM_KEYDOWN || message == WM_SYSKEYDOWN
}

/// The word without its keys, where it has some; the name that it belongs to is
/// forgotten in any case.
pub open spec fn word_dropped(b: Typed) -> Typed {
    if b.keys.len() > 0 {
        buffer::nothing_typed()
    } else {
        Typed { in_snake_case: false, ..b }
    }
}

/// What is remembered when a key goes to a window: in a new one the word, the
/// context and the undo are gone.
pub open spec fn in_window(m: Memory, window: usize) -> Memory {
    if m.last_window == window {
        m
    } else {
        Memory {
            buf: word_dropped(m.buf),
            undo: None,
            context_langs: Seq::empty(),
            last_window: window,
            ..m
        }
    }
}

/// The program in the foreground is one in which nothing is switched.
pub open spec fn excluded(c: Configuration, exe: Option<Seq<char>>) -> bool {
    exe matches Some(name) && c.exceptions.contains(name)
}

/// What a key does in a window of a program.
pub open spec fn press_step(
    m: Memory,
    c: Configuration,
    window: usize,
    exe: Option<Seq<char>>,
    key: &KeyPress,
    model: &LanguageModel,
) -> Step {
    let here = in_window(m, window);
    if excluded(c, exe) {
        Step {
            memory: Memory { buf: word_dropped(here.buf), ..here },
            settings: c,
            effect: no_effect(),
        }
    } else if !c.enabled {
        Step { memory: here, settings: c, effect: no_effect() }
    } else {
        key_step(
            here,
            c,
            key,
            settings::preferences_of(c, dominant(here.context_langs)),
            model,
        )
    }
}

fn drop_word(buf: &mut WordBuffer)
    ensures
        final(buf)@ == word_dropped(old(buf)@),
{
    buf.in_snake_case = false;
    if !buf.is_empty() {
        buf.clear();
    }
}

fn enter_window(state: &mut HookState, window: usize)
    ensures
        final(state)@ == in_window(old(state)@, window),
{
    if state.last_window != window {
        state.last_window = window;
        drop_word(&mut state.buf);
        state.undo = None;
        state.context_langs.clear();
        assert(state@.context_langs =~= Seq::<u16>::empty());
    }
}

/// Whether a program is one in which nothing is switched.
pub fn is_excluded(settings: &Settings, exe: &Option<String>) -> (r: bool)
    ensures
        r == excluded(settings@, text::text_of(*exe)),
{
    match exe {
        Some(name) => settings.has_exception(name.as_str()),
        None => false,
    }
}

/// Does what a key that is pressed in a window of a program calls for.
pub fn handle_key(
    state: &mut HookState,
    settings: &mut Settings,
    window: usize,
    exe: &Option<String>,
    key: &KeyPress,
    model: &LanguageModel,
) -> (r: Outcome)
    requires
        old(state)@.has_room(),
    ensures
        ({
            let step = press_step(
                old(state)@,
                old(settings)@,
                window,
                text::text_of(*exe),
                key,
                model,
            );
            final(state)@ == step.memory && final(settings)@ == step.settings && r@ == step.effect
        }),
{
    enter_window(state, window);
    if is_excluded(settings, exe) {
        drop_word(&mut state.buf);
        return nothing_to_do();
    }
    if !settings.enabled {
        return nothing_to_do();
    }
    let config = settings.detection_config(context_dominant_lang(&state.context_langs));
    process_key(state, settings, key, &config, model)
}

/// A mouse event is a click.
pub open spec fn click(n_code: i32, message: u32) -> bool {
    n_code >= 0 && (message == WM_LBUTTONDOWN || message == WM_RBUTTONDOWN || message
        == WM_MBUTTONDOWN || message == WM_NCLBUTTONDOWN || message == WM_NCRBUTTONDOWN)
}

/// Does what a mouse event calls for: after a click the word and the undo are
/// gone.
pub fn handle_mouse(state: &mut HookState, n_code: i32, message: u32)
    ensures
        final(state)@ == (if click(n_code, message) {
            Memory { buf: word_dropped(old(state)@.buf), undo: None, ..old(state)@ }
        } else {
            old(state)@
        }),
{
    if n_code >= 0 && (message == WM_LBUTTONDOWN || message == WM_RBUTTONDOWN || message
        == WM_MBUTTONDOWN || message == WM_NCLBUTTONDOWN || message == WM_NCRBUTTONDOWN) {
        drop_word(&mut state.buf);
        state.undo = None;
    }
}

/// The direction of a switch, for the log.
pub open spec fn direction(from: u16, to: u16) -> Seq<char> {
    if to == LANG_EN_US {
        if layout::russian(from) {
            "RU→EN"@
        } else {
            "UA→EN"@
        }
    } else if to == LANG_RU {
        "EN→RU"@
    } else {
        "EN→UA"@
    }
}

/// The direction of a switch, for the log.
pub fn switch_direction_str(from: u16, to: u16) -> (r: &'static str)
    ensures
        r@ == direction(from, to),
{
    if to == LANG_EN_US && hkl_is_russian(from) {
        "RU→EN"
    } else if to == LANG_EN_US {
        "UA→EN"
    } else if to == LANG_RU {
        "EN→RU"
    } else {
        "EN→UA"
    }
}

} // verus!
