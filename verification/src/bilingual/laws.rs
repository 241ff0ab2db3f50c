//! What holds of the two-language switcher as a whole.

use vstd::prelude::*;

use crate::bigrams::LanguageModel;
use crate::bilingual::buffer;
use crate::bilingual::hook::{self, Memory, Step};
use crate::bilingual::settings::{self, Configuration, Hotkey};
use crate::bilingual::window::{self, FrameState};
use crate::hook::KeyPress;
use crate::key_laws::{down, letter_key, modifier_key, white_space_key};
use crate::layout::{self, Layout};
use crate::rule_laws::{fit, legible, of_layout, punctuating};
use crate::text;
use crate::typing::{self, Entry};
use crate::unicode;

verus! {

// -- Words ------------------------------------------------------------------------------

/// What the keys give in a layout, each in the case in which it was typed.
pub open spec fn typed_in(keys: Seq<Entry>, l: Layout, w: Seq<char>) -> bool {
    &&& w.len() == keys.len()
    &&& forall|i: int|
        0 <= i < keys.len() ==> Some(#[trigger] w[i]) == layout::key_char(
            l,
            keys[i].vk,
            keys[i].is_upper,
        )
}

/// One word fits better than another by more than one and a half nats, or the
/// other has no score.
pub open spec fn far_better(a: Option<i64>, b: Option<i64>) -> bool {
    match (a, b) {
        (Some(x), Some(y)) => x - y > 1_500_000_000,
        (Some(_), None) => true,
        _ => false,
    }
}

proof fn lemma_typed_in(keys: Seq<Entry>, l: Layout)
    requires
        legible(keys),
    ensures
        typed_in(keys, l, typing::spelled(keys, l, true)),
{
    let w = typing::spelled(keys, l, true);
    typing::lemma_spelled_len(keys, l, true);
    assert forall|i: int| 0 <= i < keys.len() implies Some(#[trigger] w[i]) == layout::key_char(
        l,
        keys[i].vk,
        keys[i].is_upper,
    ) by {
        typing::lemma_spelled_index(keys, l, true, i);
    }
}

/// The letters of the two words.
proof fn lemma_alphabets(keys: Seq<Entry>)
    requires
        legible(keys),
    ensures
        buffer::all_latin(typing::spelled(keys, Layout::English, true)) <==> !punctuating(keys),
        buffer::all_cyrillic(typing::spelled(keys, Layout::Russian, true)),
{
    let en = typing::spelled(keys, Layout::English, true);
    let ru = typing::spelled(keys, Layout::Russian, true);
    typing::lemma_spelled_len(keys, Layout::English, true);
    typing::lemma_spelled_len(keys, Layout::Russian, true);
    assert forall|i: int| 0 <= i < keys.len() implies (buffer::latin(en[i]) <==> (
    #[trigger] keys[i]).vk <= 0x5A) && buffer::cyrillic(ru[i]) by {
        typing::lemma_spelled_index(keys, Layout::English, true, i);
        typing::lemma_spelled_index(keys, Layout::Russian, true, i);
    }
    if punctuating(keys) {
        let i = choose|i: int| 0 <= i < keys.len() && (#[trigger] keys[i]).vk > 0x5A;
        assert(!buffer::latin(en[i]));
    } else {
        assert forall|i: int| 0 <= i < en.len() implies buffer::latin(#[trigger] en[i]) by {
            assert(!(keys[i].vk > 0x5A));
        }
    }
    assert forall|i: int| 0 <= i < ru.len() implies buffer::cyrillic(#[trigger] ru[i]) by {
        assert(layout::translatable(keys[i].vk));
    }
}

/// Under the English layout a word without punctuation is switched to Russian
/// just where Russian fits far better, or neither has a score. Under the Russian
/// one it is switched to English just where English fits far better, or neither
/// has a score. Under any other, and with too few keys, it stays.
pub proof fn law_words_are_switched(
    keys: Seq<Entry>,
    min_len: int,
    active: u16,
    model: &LanguageModel,
)
    requires
        legible(keys),
    ensures
        ({
            let found = buffer::switch_of(keys, min_len, active, model);
            let en = fit(keys, Layout::English, model);
            let ru = fit(keys, Layout::Russian, model);
            let unscored = en is None && ru is None;
            &&& keys.len() < min_len ==> found is None
            &&& keys.len() >= min_len && of_layout(active, Layout::English) ==> (found is Some
                <==> !punctuating(keys) && (unscored || far_better(ru, en)))
            &&& keys.len() >= min_len && of_layout(active, Layout::Russian) ==> (found is Some
                <==> unscored || far_better(en, ru))
            &&& !of_layout(active, Layout::English) && !of_layout(active, Layout::Russian)
                ==> found is None
            &&& found is Some ==> (found->0.to_ru <==> of_layout(active, Layout::English))
        }),
{
    layout::law_one_language(active);
    lemma_alphabets(keys);
    typing::lemma_spelled_len(keys, Layout::English, true);
    typing::lemma_spelled_len(keys, Layout::Russian, true);
}

/// A switch erases one character per key and puts what the same keys give in the
/// other layout in their place; what it takes away is what they give in the active
/// one. Capitals stay where they are.
pub proof fn law_switches_retype_the_keys(
    keys: Seq<Entry>,
    min_len: int,
    active: u16,
    model: &LanguageModel,
)
    ensures
        buffer::switch_of(keys, min_len, active, model) matches Some(r) ==> {
            let from = if r.to_ru {
                Layout::English
            } else {
                Layout::Russian
            };
            let to = if r.to_ru {
                Layout::Russian
            } else {
                Layout::English
            };
            &&& legible(keys)
            &&& r.backspaces == keys.len()
            &&& typed_in(keys, to, r.new_word)
            &&& typed_in(keys, from, r.original_word)
        },
{
    typing::lemma_spelled_len(keys, Layout::English, true);
    typing::lemma_spelled_len(keys, Layout::Russian, true);
    if typing::spelled(keys, Layout::English, true).len() == keys.len() {
        lemma_typed_in(keys, Layout::English);
        lemma_typed_in(keys, Layout::Russian);
    }
}

// -- Hotkeys ----------------------------------------------------------------------------

/// A pressed key is the configured one; of a key on either side it is a side.
pub open spec fn presses(vk: u16, configured: u16) -> bool {
    if configured == 0x10 {
        vk == 0xA0 || vk == 0xA1
    } else if configured == 0x11 {
        vk == 0xA2 || vk == 0xA3
    } else if configured == 0x12 {
        vk == 0xA4 || vk == 0xA5
    } else {
        vk == configured
    }
}

/// A hotkey without Win fires where its key is pressed and no Win key is held; one
/// with Win fires where either is pressed while the other is held.
pub proof fn law_hotkeys_fire(vk: u16, hk: Hotkey, held: Seq<u16>)
    ensures
        ({
            let win = held.contains(0x5B) || held.contains(0x5C);
            &&& !hk.win ==> (hook::fires(vk, hk, held) <==> presses(vk, hk.vk) && !win)
            &&& hk.win ==> (hook::fires(vk, hk, held) <==> (presses(vk, hk.vk) && win) || ((vk
                == 0x5B || vk == 0x5C) && down(hk.vk, held)))
        }),
{
}

// -- Keys -------------------------------------------------------------------------------

/// The program is on, and that in the foreground is no exception.
pub open spec fn at_work(c: Configuration, exe: Option<Seq<char>>) -> bool {
    c.enabled && !(exe is Some && c.exceptions.contains(exe->0))
}

/// The key completes neither of the two hotkeys.
pub open spec fn no_command(c: Configuration, key: &KeyPress) -> bool {
    &&& !(c.hotkey_enabled && hook::fires(key.vk, c.hotkey, key.held@))
    &&& !(c.undo_hotkey_enabled && hook::fires(key.vk, c.undo_hotkey, key.held@))
}

/// The key goes through and nothing is switched.
pub open spec fn goes_through(step: Step) -> bool {
    &&& !step.effect.swallow
    &&& step.effect.switch is None
    &&& step.effect.boundary_vk is None
    &&& !step.effect.suppress_start_menu
}

/// A letter goes on with the word; with Ctrl it forgets the word. Either way the
/// last switch cannot be taken back any more.
pub proof fn law_letters_go_on_with_the_word(
    m: Memory,
    c: Configuration,
    exe: Option<Seq<char>>,
    key: &KeyPress,
    model: &LanguageModel,
)
    requires
        at_work(c, exe),
        no_command(c, key),
        letter_key(key.vk),
    ensures
        ({
            let step = hook::press_step(m, c, exe, key, model);
            let ctrl = key.held@.contains(0xA2) || key.held@.contains(0xA3);
            &&& goes_through(step)
            &&& step.memory.undo is None
            &&& !ctrl ==> step.memory.keys == m.keys + seq![
                Entry { vk: key.vk, is_upper: key.shift != key.caps },
            ]
            &&& ctrl ==> step.memory.keys.len() == 0
        }),
{
    let e = Entry { vk: key.vk, is_upper: key.shift != key.caps };
    assert(m.keys.push(e) =~= m.keys + seq![e]);
}

/// Backspace takes the last key back and keeps the undo; a modifier does nothing.
pub proof fn law_backspace_and_modifiers(
    m: Memory,
    c: Configuration,
    exe: Option<Seq<char>>,
    key: &KeyPress,
    model: &LanguageModel,
)
    requires
        at_work(c, exe),
        no_command(c, key),
        key.vk == 0x08 || modifier_key(key.vk),
    ensures
        ({
            let step = hook::press_step(m, c, exe, key, model);
            &&& goes_through(step)
            &&& step.memory.undo == m.undo
            &&& key.vk == 0x08 && m.keys.len() > 0 ==> step.memory.keys == m.keys.take(
                m.keys.len() - 1,
            )
            &&& key.vk != 0x08 || m.keys.len() == 0 ==> step.memory.keys == m.keys
        }),
{
}

/// Any other key ends the word, which is switched where it has two keys at least.
/// White space is held back and typed after the new word; another key goes
/// through. What it takes to take the switch back is remembered.
pub proof fn law_words_end(
    m: Memory,
    c: Configuration,
    exe: Option<Seq<char>>,
    key: &KeyPress,
    model: &LanguageModel,
)
    requires
        at_work(c, exe),
        no_command(c, key),
        !letter_key(key.vk),
        !modifier_key(key.vk),
        key.vk != 0x08,
    ensures
        ({
            let step = hook::press_step(m, c, exe, key, model);
            let found = buffer::switch_of(m.keys, 2, key.lang, model);
            let white = white_space_key(key.vk);
            &&& step.effect.switch == found
            &&& step.memory.keys.len() == 0
            &&& step.effect.swallow == (found is Some && white)
            &&& step.effect.boundary_vk == (if found is Some && white {
                Some(key.vk)
            } else {
                None
            })
            &&& found is None ==> step.memory.undo is None
            &&& found matches Some(r) ==> (step.memory.undo matches Some(u) && {
                &&& u.original_word == r.original_word
                &&& u.erase_len == r.new_word.len() + (if white {
                    1int
                } else {
                    0int
                })
                &&& u.restore_to_ru == !r.to_ru
            })
        }),
{
}

/// The undo hotkey comes first and takes the last switch back; the switching
/// hotkey switches the word, one key at least. Neither reaches the foreground
/// window, and after both there is no word and nothing to take back.
pub proof fn law_hotkeys_work(
    m: Memory,
    c: Configuration,
    exe: Option<Seq<char>>,
    key: &KeyPress,
    model: &LanguageModel,
)
    requires
        at_work(c, exe),
        !no_command(c, key),
    ensures
        ({
            let step = hook::press_step(m, c, exe, key, model);
            let undoes = c.undo_hotkey_enabled && hook::fires(key.vk, c.undo_hotkey, key.held@);
            &&& step.effect.swallow
            &&& step.effect.boundary_vk is None
            &&& step.effect.suppress_start_menu == (if undoes {
                c.undo_hotkey.win
            } else {
                c.hotkey.win
            })
            &&& step.memory.keys.len() == 0
            &&& step.memory.undo is None
            &&& !undoes ==> step.effect.switch == buffer::switch_of(m.keys, 1, key.lang, model)
            &&& undoes && m.undo is None ==> step.effect.switch is None
            &&& undoes && m.undo is Some ==> (step.effect.switch matches Some(r) && {
                &&& r.backspaces == m.undo->0.erase_len
                &&& r.new_word == m.undo->0.original_word
                &&& r.to_ru == m.undo->0.restore_to_ru
            })
        }),
{
}

/// In an excepted program the word is forgotten and the key goes through; where
/// the program is switched off, the key goes through and nothing changes.
pub proof fn law_left_alone(
    m: Memory,
    c: Configuration,
    exe: Option<Seq<char>>,
    key: &KeyPress,
    model: &LanguageModel,
)
    ensures
        ({
            let step = hook::press_step(m, c, exe, key, model);
            let excepted = exe is Some && c.exceptions.contains(exe->0);
            &&& excepted ==> goes_through(step) && step.memory.keys.len() == 0 && step.memory.undo
                == m.undo
            &&& !excepted && !c.enabled ==> goes_through(step) && step.memory == m
        }),
{
}

/// Whoever has set nothing has a program that is on, and no hotkey fires; once
/// they switch them on, the hotkeys are Win with Shift and Win with Backspace.
pub proof fn law_factory_settings(key: &KeyPress)
    ensures
        ({
            let c = settings::factory_settings();
            &&& at_work(c, None)
            &&& no_command(c, key)
            &&& c.exceptions.len() == 0
            &&& c.hotkey.vk == 0x10 && c.hotkey.win
            &&& c.undo_hotkey.vk == 0x08 && c.undo_hotkey.win
            &&& (Configuration { hotkey_enabled: true, ..c }).switch_key() == Some(c.hotkey)
            &&& (Configuration { undo_hotkey_enabled: true, ..c }).undo_key() == Some(c.undo_hotkey)
            &&& c.switch_key() is None && c.undo_key() is None
        }),
{
}

// -- The settings window -----------------------------------------------------------------

/// The window is drawn just where it is asked for and not closed; closing hides it.
/// It begins hidden where the first frame comes without its being asked for. It gets the
/// focus where it is drawn and was not there in the frame before, or was closed since.
pub proof fn law_frames(s: FrameState, requested: bool, closed: bool)
    ensures
        ({
            let next = window::frame_of(s, requested, closed).0;
            let todo = window::frame_of(s, requested, closed).1;
            &&& todo.draw <==> requested && !closed
            &&& todo.show_requested == todo.draw
            &&& todo.hide_on_close == closed
            &&& todo.begin_hidden <==> s.first_frame && !requested
            &&& todo.focus <==> todo.draw && !s.window_visible
            &&& !next.first_frame
            &&& closed ==> !next.window_visible
            &&& !closed ==> (next.window_visible <==> s.window_visible || requested)
        }),
{
}

/// The bytes of a text are those of its characters, one to four each.
pub proof fn law_bytes_of_a_text(a: Seq<char>, b: Seq<char>)
    ensures
        window::byte_len(a + b) == window::byte_len(a) + window::byte_len(b),
        b.len() == 1 ==> window::byte_len(b) == (if b[0] as u32 >= 0x1_0000 {
            4int
        } else if b[0] as u32 >= 0x800 {
            3int
        } else if b[0] as u32 >= 0x80 {
            2int
        } else {
            1int
        }),
        window::TITLE_BYTES == 38,
    decreases b.len(),
{
    if b.len() == 0 {
        assert(a + b =~= a);
    } else {
        law_bytes_of_a_text(a, b.drop_last());
        assert((a + b).drop_last() =~= a + b.drop_last());
        if b.len() == 1 {
            assert(b.drop_last().len() == 0);
        }
    }
}

/// The names of the keys: either Shift is Shift, the function keys have their numbers,
/// and a key without a name is a custom one.
pub proof fn law_keys_are_named(vk: u16)
    ensures
        settings::key_name(0x10) == "Shift"@,
        settings::key_name(0xA0) == settings::key_name(0x10),
        settings::key_name(0xA1) == settings::key_name(0x10),
        0x78 <= vk <= 0x7B ==> settings::key_name(vk) == "F"@ + text::decimal(
            (vk - 0x78 + 9) as nat,
        ),
        settings::key_name(0x08) == "Backspace"@,
        settings::key_name(0x13) == "Pause"@,
        settings::key_name(0x14) == "Caps Lock"@,
        settings::key_name(0x91) == "Scroll Lock"@,
        vk != 0x08 && vk != 0x10 && vk != 0x13 && vk != 0x14 && vk != 0x91 && vk != 0xA0 && vk
            != 0xA1 && !(0x78 <= vk <= 0x7B) ==> settings::key_name(vk) == "Custom"@,
{
    reveal_strlit("F");
    reveal_strlit("F9");
    reveal_strlit("F10");
    reveal_strlit("F11");
    reveal_strlit("F12");
    reveal_with_fuel(text::decimal, 3);
    assert("F9"@ =~= "F"@ + text::decimal(9));
    assert("F10"@ =~= "F"@ + text::decimal(10));
    assert("F11"@ =~= "F"@ + text::decimal(11));
    assert("F12"@ =~= "F"@ + text::decimal(12));
}

/// A pressed key is the configured one just where it is it, or one of its sides.
pub proof fn law_sides_of_keys(vk: u16, configured: u16)
    ensures
        hook::same_key(vk, configured) <==> presses(vk, configured),
{
}

/// A key calls for attention where it goes down, with Alt or without, and was not
/// injected.
pub proof fn law_key_presses(n_code: i32, injected: bool, message: u32)
    ensures
        hook::calls_for_attention(n_code, injected, message) <==> n_code >= 0 && !injected && (message
            == 0x100 || message == 0x104),
{
}

/// The letters of the two alphabets, in either case.
pub proof fn law_letters_of_the_alphabets(c: char)
    requires
        unicode::keyboard_char(c),
    ensures
        ({
            let low = unicode::keyboard_lower(c);
            &&& buffer::cyrillic(c) <==> 'а' <= low <= 'я' || low == 'ё'
            &&& buffer::latin(c) <==> 'a' <= low <= 'z'
        }),
{
}

} // verus!
