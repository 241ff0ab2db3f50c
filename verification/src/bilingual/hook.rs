//! How the keys that are pressed turn into switches.

use vstd::prelude::*;

use crate::bigrams::LanguageModel;
use crate::bilingual::buffer::{
    self, DetectionSnapshot, Reading, Replacement, SwitchAction, WordBuffer,
};
use crate::bilingual::settings::{Configuration, Hotkey, Settings};
use crate::hook::{KeyEvent, KeyPress, WM_KEYDOWN, WM_SYSKEYDOWN};
use crate::keys::{
    self, is_boundary_vk, is_down, is_modifier_vk, key_is_held, VK_BACK, VK_LCONTROL, VK_LWIN,
    VK_RCONTROL, VK_RWIN,
};
use crate::layout::{self, is_translatable_vk};
use crate::settings::lists;
use crate::text;
use crate::typing::Entry;

verus! {

/// What it takes to take a switch back.
#[derive(Debug)]
pub struct UndoState {
    /// The word that was replaced.
    pub original_word: String,
    /// How many characters to erase first.
    pub erase_len: usize,
    /// Whether to change back to the Russian layout, else to the English one.
    pub restore_to_ru: bool,
}

/// What it takes to take a switch back, as a value.
pub struct Undo {
    pub original_word: Seq<char>,
    pub erase_len: int,
    pub restore_to_ru: bool,
}

impl View for UndoState {
    type V = Undo;

    open spec fn view(&self) -> Undo {
        Undo {
            original_word: self.original_word@,
            erase_len: self.erase_len as int,
            restore_to_ru: self.restore_to_ru,
        }
    }
}

/// What is remembered from key to key.
#[derive(Debug)]
pub struct HookState {
    /// The word that is being typed.
    pub buf: WordBuffer,
    /// How to take the last switch back.
    pub undo: Option<UndoState>,
}

/// What is remembered from key to key, as a value.
pub struct Memory {
    pub keys: Seq<Entry>,
    pub undo: Option<Undo>,
}

pub open spec fn undo_view(u: Option<UndoState>) -> Option<Undo> {
    match u {
        Some(x) => Some(x@),
        None => None,
    }
}

impl View for HookState {
    type V = Memory;

    open spec fn view(&self) -> Memory {
        Memory { keys: self.buf@, undo: undo_view(self.undo) }
    }
}

impl HookState {
    /// Nothing is remembered yet.
    pub fn new() -> (r: HookState)
        ensures
            r@.keys == Seq::<Entry>::empty(),
            r@.undo is None,
    {
        HookState { buf: WordBuffer::new(), undo: None }
    }
}

impl Default for HookState {
    fn default() -> (r: HookState)
        ensures
            r@.keys == Seq::<Entry>::empty(),
            r@.undo is None,
    {
        HookState::new()
    }
}

/// What to do after a key.
#[derive(Debug)]
pub struct Outcome {
    /// The key is kept from the foreground window.
    pub swallow: bool,
    /// The replacement to make.
    pub switch: Option<SwitchAction>,
    /// The key to type after it.
    pub boundary_vk: Option<u16>,
    /// The Start menu has to be kept from opening.
    pub suppress_start_menu: bool,
    /// What has come of the key.
    pub event: KeyEvent,
    /// How the word reads that was looked at.
    pub snapshot: Option<DetectionSnapshot>,
}

/// What to do after a key, as a value.
pub struct Effect {
    pub swallow: bool,
    pub switch: Option<Replacement>,
    pub boundary_vk: Option<u16>,
    pub suppress_start_menu: bool,
    pub event: KeyEvent,
    pub reading: Option<Reading>,
}

impl View for Outcome {
    type V = Effect;

    open spec fn view(&self) -> Effect {
        Effect {
            swallow: self.swallow,
            switch: buffer::replacement(self.switch),
            boundary_vk: self.boundary_vk,
            suppress_start_menu: self.suppress_start_menu,
            event: self.event,
            reading: buffer::reading(self.snapshot),
        }
    }
}

/// What a key does: what is remembered after it, and what there is to do.
pub struct Step {
    pub memory: Memory,
    pub effect: Effect,
}

/// The key goes through and nothing is done.
pub open spec fn no_effect() -> Effect {
    Effect {
        swallow: false,
        switch: None,
        boundary_vk: None,
        suppress_start_menu: false,
        event: KeyEvent::Plain,
        reading: None,
    }
}

fn nothing_to_do() -> (r: Outcome)
    ensures
        r@ == no_effect(),
{
    Outcome {
        swallow: false,
        switch: None,
        boundary_vk: None,
        suppress_start_menu: false,
        event: KeyEvent::Plain,
        snapshot: None,
    }
}

// -- Hotkeys -------------------------------------------------------------------------

/// A pressed key is the configured one; a key on either side of the keyboard
/// is pressed on its left or right side.
pub open spec fn same_key(actual: u16, configured: u16) -> bool {
    actual == keys::sides(configured).0 || actual == keys::sides(configured).1
}

/// Whether a pressed key is the configured one.
pub fn vk_matches(actual: u16, configured: u16) -> (r: bool)
    ensures
        r == same_key(actual, configured),
{
    match configured {
        0x10 => matches!(actual, 0xA0 | 0xA1),
        0x11 => matches!(actual, 0xA2 | 0xA3),
        0x12 => matches!(actual, 0xA4 | 0xA5),
        _ => actual == configured,
    }
}

/// A pressed key completes a hotkey, in either order where Win is part of it;
/// where it is not, Win must not be held.
pub open spec fn fires(vk: u16, hk: Hotkey, held: Seq<u16>) -> bool {
    let win_held = held.contains(VK_LWIN) || held.contains(VK_RWIN);
    if hk.win {
        (same_key(vk, hk.vk) && win_held) || (keys::win_key(vk) && keys::key_held(hk.vk, held))
    } else {
        same_key(vk, hk.vk) && !win_held
    }
}

/// Whether a pressed key completes a hotkey, given the keys that are held down.
pub fn hotkey_fires(vk: u16, hk: &Hotkey, held: &Vec<u16>) -> (r: bool)
    ensures
        r == fires(vk, *hk, held@),
{
    let win_held: bool = is_down(VK_LWIN, held) || is_down(VK_RWIN, held);
    if hk.win {
        let is_win_vk: bool = vk == VK_LWIN || vk == VK_RWIN;
        (vk_matches(vk, hk.vk) && win_held) || (is_win_vk && key_is_held(hk.vk, held))
    } else {
        vk_matches(vk, hk.vk) && !win_held
    }
}

// -- What a key does -------------------------------------------------------------------

/// What is kept of a switch so that it can be taken back: the characters that
/// were typed, and one more where a key ended the word.
pub open spec fn saved_undo(r: Replacement, had_boundary: bool) -> Undo {
    Undo {
        original_word: r.original_word,
        erase_len: r.new_word.len() + (if had_boundary {
            1int
        } else {
            0int
        }),
        restore_to_ru: !r.to_ru,
    }
}

/// Keeps what it takes to take a switch back.
pub fn save_undo(action: &SwitchAction, had_boundary: bool) -> (r: UndoState)
    requires
        had_boundary ==> action@.new_word.len() < usize::MAX,
    ensures
        r@ == saved_undo(action@, had_boundary),
{
    let typed: usize = action.new_word.as_str().unicode_len();
    UndoState {
        original_word: action.original_word.clone(),
        erase_len: if had_boundary {
            typed + 1
        } else {
            typed
        },
        restore_to_ru: !action.to_ru,
    }
}

/// What the undo hotkey does.
pub open spec fn undo_step(m: Memory, hk: Hotkey) -> Step {
    let pressed = Effect {
        swallow: true,
        suppress_start_menu: hk.win,
        event: KeyEvent::Undo,
        ..no_effect()
    };
    Step {
        memory: Memory { keys: Seq::empty(), undo: None },
        effect: match m.undo {
            Some(u) => Effect {
                switch: Some(
                    Replacement {
                        backspaces: u.erase_len,
                        new_word: u.original_word,
                        to_ru: u.restore_to_ru,
                        original_word: Seq::empty(),
                    },
                ),
                ..pressed
            },
            None => pressed,
        },
    }
}

fn react_undo(state: &mut HookState, hk: &Hotkey) -> (r: Outcome)
    ensures
        final(state)@ == undo_step(old(state)@, *hk).memory,
        r@ == undo_step(old(state)@, *hk).effect,
{
    let undo = state.undo.take();
    state.buf.clear();
    let mut out = nothing_to_do();
    out.swallow = true;
    out.suppress_start_menu = hk.win;
    out.event = KeyEvent::Undo;
    match undo {
        Some(u) => {
            let action = SwitchAction {
                backspaces: u.erase_len,
                new_word: u.original_word,
                to_ru: u.restore_to_ru,
                original_word: String::new(),
            };
            assert(action@.original_word =~= Seq::<char>::empty());
            out.switch = Some(action);
        },
        None => {},
    }
    out
}

/// What the switching hotkey does. Only what was switched by itself can be taken
/// back.
pub open spec fn force_step(m: Memory, lang: u16, hk: Hotkey, model: &LanguageModel) -> Step {
    let pressed = Effect {
        swallow: true,
        suppress_start_menu: hk.win,
        event: KeyEvent::Force,
        ..no_effect()
    };
    Step {
        memory: Memory { keys: Seq::empty(), undo: None },
        effect: match buffer::switch_of(m.keys, 1, lang, model) {
            Some(r) => Effect {
                switch: Some(r),
                reading: Some(buffer::reading_of(m.keys, model)),
                ..pressed
            },
            None => pressed,
        },
    }
}

fn react_force(state: &mut HookState, lang: u16, hk: &Hotkey, model: &LanguageModel) -> (r: Outcome)
    ensures
        final(state)@ == force_step(old(state)@, lang, *hk, model).memory,
        r@ == force_step(old(state)@, lang, *hk, model).effect,
{
    let mut out = nothing_to_do();
    out.swallow = true;
    out.suppress_start_menu = hk.win;
    out.event = KeyEvent::Force;
    match state.buf.force_switch(lang, model) {
        Some(action) => {
            out.snapshot = state.buf.detection_snapshot(model);
            out.switch = Some(action);
        },
        None => {},
    }
    state.buf.clear();
    state.undo = None;
    out
}

/// What a key does that ends the word. A key for white space is held back and
/// typed after the new word; any other goes through.
pub open spec fn word_end_step(
    m: Memory,
    vk: u16,
    lang: u16,
    white_space: bool,
    model: &LanguageModel,
) -> Step {
    let seen = if m.keys.len() == 0 {
        None
    } else {
        Some(buffer::reading_of(m.keys, model))
    };
    match buffer::switch_of(m.keys, 2, lang, model) {
        Some(r) => Step {
            memory: Memory { keys: Seq::empty(), undo: Some(saved_undo(r, white_space)) },
            effect: Effect {
                swallow: white_space,
                switch: Some(r),
                boundary_vk: if white_space {
                    Some(vk)
                } else {
                    None
                },
                event: KeyEvent::Detect,
                reading: seen,
                ..no_effect()
            },
        },
        None => Step {
            memory: Memory { keys: Seq::empty(), undo: None },
            effect: Effect { event: KeyEvent::Detect, reading: seen, ..no_effect() },
        },
    }
}

fn react_word_end(
    state: &mut HookState,
    vk: u16,
    lang: u16,
    white_space: bool,
    model: &LanguageModel,
) -> (r: Outcome)
    requires
        old(state)@.keys.len() < usize::MAX,
    ensures
        final(state)@ == word_end_step(old(state)@, vk, lang, white_space, model).memory,
        r@ == word_end_step(old(state)@, vk, lang, white_space, model).effect,
{
    proof {
        buffer::law_switch_keeps_the_length(state@.keys, 2, lang, model);
    }
    let mut out = nothing_to_do();
    out.event = KeyEvent::Detect;
    out.snapshot = state.buf.detection_snapshot(model);
    match state.buf.detect_mismatch(lang, model) {
        Some(action) => {
            state.undo = Some(save_undo(&action, white_space));
            out.swallow = white_space;
            if white_space {
                out.boundary_vk = Some(vk);
            }
            out.switch = Some(action);
        },
        None => {
            state.undo = None;
        },
    }
    state.buf.clear();
    out
}

/// What a key does.
pub open spec fn key_step(
    m: Memory,
    key: &KeyPress,
    hotkey: Option<Hotkey>,
    undo_hotkey: Option<Hotkey>,
    model: &LanguageModel,
) -> Step {
    let quiet = Step { memory: m, effect: no_effect() };
    let forget = Step {
        memory: Memory { keys: Seq::empty(), undo: None },
        effect: no_effect(),
    };
    if undo_hotkey is Some && fires(key.vk, undo_hotkey->0, key.held@) {
        undo_step(m, undo_hotkey->0)
    } else if hotkey is Some && fires(key.vk, hotkey->0, key.held@) {
        force_step(m, key.lang, hotkey->0, model)
    } else if key.vk == VK_BACK {
        Step {
            memory: Memory {
                keys: if m.keys.len() == 0 {
                    m.keys
                } else {
                    m.keys.drop_last()
                },
                ..m
            },
            effect: no_effect(),
        }
    } else if keys::boundary(key.vk) {
        word_end_step(m, key.vk, key.lang, true, model)
    } else if layout::translatable(key.vk) {
        if key.held@.contains(VK_LCONTROL) || key.held@.contains(VK_RCONTROL) {
            forget
        } else {
            Step {
                memory: Memory {
                    keys: m.keys.push(Entry { vk: key.vk, is_upper: key.shift != key.caps }),
                    undo: None,
                },
                effect: no_effect(),
            }
        }
    } else if keys::modifier(key.vk) {
        quiet
    } else {
        word_end_step(m, key.vk, key.lang, false, model)
    }
}

/// Does what a key that is pressed calls for.
pub fn process_key(
    state: &mut HookState,
    key: &KeyPress,
    hotkey: Option<Hotkey>,
    undo_hotkey: Option<Hotkey>,
    model: &LanguageModel,
) -> (r: Outcome)
    requires
        old(state)@.keys.len() < usize::MAX,
    ensures
        final(state)@ == key_step(old(state)@, key, hotkey, undo_hotkey, model).memory,
        r@ == key_step(old(state)@, key, hotkey, undo_hotkey, model).effect,
{
    let vk: u16 = key.vk;
    match &undo_hotkey {
        Some(hk) => {
            if hotkey_fires(vk, hk, &key.held) {
                return react_undo(state, hk);
            }
        },
        None => {},
    }
    match &hotkey {
        Some(hk) => {
            if hotkey_fires(vk, hk, &key.held) {
                return react_force(state, key.lang, hk, model);
            }
        },
        None => {},
    }
    if vk == VK_BACK {
        state.buf.pop();
        nothing_to_do()
    } else if is_boundary_vk(vk) {
        react_word_end(state, vk, key.lang, true, model)
    } else if is_translatable_vk(vk) {
        if is_down(VK_LCONTROL, &key.held) || is_down(VK_RCONTROL, &key.held) {
            state.buf.clear();
        } else {
            state.buf.push(vk, key.shift != key.caps);
        }
        state.undo = None;
        nothing_to_do()
    } else if is_modifier_vk(vk) {
        nothing_to_do()
    } else {
        react_word_end(state, vk, key.lang, false, model)
    }
}

/// A keyboard event calls for attention: it is to be handled, was not injected,
/// and is a key going down.
pub open spec fn calls_for_attention(n_code: i32, injected: bool, message: u32) -> bool {
    n_code >= 0 && !injected && (message == WM_KEYDOWN || message == WM_SYSKEYDOWN)
}

/// Whether a keyboard event calls for attention.
pub fn is_key_press(n_code: i32, injected: bool, message: u32) -> (r: bool)
    ensures
        r == calls_for_attention(n_code, injected, message),
{
    n_code >= 0 && !injected && (message == WM_KEYDOWN || message == WM_SYSKEYDOWN)
}

/// What a key does in a program.
pub open spec fn press_step(
    m: Memory,
    c: Configuration,
    exe: Option<Seq<char>>,
    key: &KeyPress,
    model: &LanguageModel,
) -> Step {
    if exe matches Some(name) && c.exceptions.contains(name) {
        Step { memory: Memory { keys: Seq::empty(), ..m }, effect: no_effect() }
    } else if !c.enabled {
        Step { memory: m, effect: no_effect() }
    } else {
        key_step(m, key, c.switch_key(), c.undo_key(), model)
    }
}

/// Does what a key that is pressed in a program calls for.
pub fn handle_key(
    state: &mut HookState,
    settings: &Settings,
    exe: &Option<String>,
    key: &KeyPress,
    model: &LanguageModel,
) -> (r: Outcome)
    requires
        old(state)@.keys.len() < usize::MAX,
    ensures
        final(state)@ == press_step(
            old(state)@,
            settings@,
            text::text_of(*exe),
            key,
            model,
        ).memory,
        r@ == press_step(old(state)@, settings@, text::text_of(*exe), key, model).effect,
{
    let excluded: bool = match exe {
        Some(name) => lists(&settings.exceptions, name.as_str()),
        None => false,
    };
    if excluded {
        state.buf.clear();
        return nothing_to_do();
    }
    if !settings.enabled {
        return nothing_to_do();
    }
    process_key(state, key, settings.hotkey(), settings.undo_hotkey(), model)
}

/// The undo hotkey, pressed right after a word was switched at its end, brings
/// the word back and the other layout: it erases exactly what was typed.
pub proof fn law_undo_takes_a_switch_back(
    m: Memory,
    vk: u16,
    lang: u16,
    white_space: bool,
    hk: Hotkey,
    model: &LanguageModel,
)
    requires
        word_end_step(m, vk, lang, white_space, model).effect.switch is Some,
    ensures
        ({
            let there = word_end_step(m, vk, lang, white_space, model);
            let put = there.effect.switch->0;
            undo_step(there.memory, hk).effect.switch == Some(
                Replacement {
                    backspaces: put.new_word.len() + (if white_space {
                        1int
                    } else {
                        0int
                    }),
                    new_word: put.original_word,
                    to_ru: !put.to_ru,
                    original_word: Seq::empty(),
                },
            )
        }),
{
}

/// After the switching hotkey there is nothing to take back, not even an earlier
/// switch.
pub proof fn law_forced_switch_is_not_taken_back(
    m: Memory,
    lang: u16,
    hk: Hotkey,
    undo_hk: Hotkey,
    model: &LanguageModel,
)
    ensures
        undo_step(force_step(m, lang, hk, model).memory, undo_hk).effect.switch is None,
{
}

} // verus!
