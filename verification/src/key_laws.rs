//! What every kind of key does, from the key press to what is remembered.

use vstd::prelude::*;

use crate::bigrams::LanguageModel;
use crate::buffer::{self, Preferences, Replacement, Typed};
use crate::hook::{self, KeyEvent, KeyPress, Memory, Step, Undo};
use crate::keys;
use crate::laws;
use crate::layout::{self, Layout};
use crate::rule_laws::{common, fit, fresh, legible, of_layout, punctuating, word};
use crate::settings::Configuration;
use crate::typing::{self, Entry};
use crate::unicode;

verus! {

/// What the settings and the recent words contribute to detection.
pub open spec fn prefs_now(m: Memory, c: Configuration) -> Preferences {
    Preferences {
        ignored_words: c.ignored_words,
        word_corrections: c.word_corrections,
        preferred_cyrillic: c.preferred_cyrillic,
        context_lang: hook::dominant(m.context_langs),
    }
}

/// The program is on, the window is the one of the last key, and its program is
/// no exception.
pub open spec fn at_work(m: Memory, c: Configuration, window: usize, exe: Option<Seq<char>>) -> bool {
    &&& c.enabled
    &&& m.last_window == window
    &&& exe matches Some(name) ==> !c.exceptions.contains(name)
}

/// The key completes neither of the two hotkeys.
pub open spec fn no_command(c: Configuration, key: &KeyPress) -> bool {
    &&& !(c.hotkey_enabled && keys::fires(key.vk, c.hotkey, key.held@))
    &&& !(c.undo_hotkey_enabled && keys::fires(key.vk, c.undo_hotkey, key.held@))
}

/// The key goes through, nothing is switched, and the settings stay.
pub open spec fn goes_through(step: Step, c: Configuration) -> bool {
    &&& !step.effect.swallow
    &&& step.effect.switch is None
    &&& step.effect.boundary_vk is None
    &&& !step.effect.suppress_start_menu
    &&& !step.effect.save_settings
    &&& step.settings == c
}

/// Nothing is left of a word.
pub open spec fn blank(b: Typed) -> bool {
    &&& b.keys.len() == 0
    &&& !b.has_switched
    &&& b.entry_lang == 0
    &&& !b.in_snake_case
}

/// The letters, and the punctuation that other layouts have letters on.
pub open spec fn letter_key(vk: u16) -> bool {
    0x41 <= vk <= 0x5A || vk == 0xBA || vk == 0xBC || vk == 0xBE || vk == 0xDB || vk == 0xDD || vk
        == 0xDE
}

/// Enter, Tab and the space bar.
pub open spec fn white_space_key(vk: u16) -> bool {
    vk == 0x0D || vk == 0x09 || vk == 0x20
}

/// Page Up to the arrow keys, Insert and Delete.
pub open spec fn cursor_key(vk: u16) -> bool {
    0x21 <= vk <= 0x28 || vk == 0x2D || vk == 0x2E
}

/// Shift, Ctrl, Alt and Win, on either side.
pub open spec fn modifier_key(vk: u16) -> bool {
    0x10 <= vk <= 0x12 || vk == 0x5B || vk == 0x5C || 0xA0 <= vk <= 0xA5
}

// -- Letters ---------------------------------------------------------------------------------

/// A letter goes on with the word: the key is added with the case that Shift and
/// Caps Lock give it together, and the first one notes the layout. Detection looks
/// at the longer word. Where it finds nothing, the key goes through and the last
/// switch can no longer be taken back.
#[verifier::rlimit(50)]
pub proof fn law_letters_go_on_with_the_word(
    m: Memory,
    c: Configuration,
    window: usize,
    exe: Option<Seq<char>>,
    key: &KeyPress,
    model: &LanguageModel,
)
    requires
        at_work(m, c, window, exe),
        no_command(c, key),
        letter_key(key.vk),
        !key.held@.contains(0xA2),
        !key.held@.contains(0xA3),
    ensures
        ({
            let step = hook::press_step(m, c, window, exe, key, model);
            let longer = Typed {
                keys: m.buf.keys.push(Entry { vk: key.vk, is_upper: key.shift != key.caps }),
                has_switched: m.buf.has_switched,
                entry_lang: if m.buf.keys.len() == 0 {
                    key.lang
                } else {
                    m.buf.entry_lang
                },
                in_snake_case: m.buf.in_snake_case,
            };
            let found = buffer::detection_of(
                longer,
                key.lang,
                c.sensitivity,
                true,
                prefs_now(m, c),
                model,
            );
            &&& step.effect.switch == found
            &&& step.effect.swallow == (found is Some)
            &&& step.effect.boundary_vk is None
            &&& step.settings == c
            &&& !step.effect.save_settings
            &&& step.memory.context_langs == m.context_langs
            &&& step.memory.success_counts == m.success_counts
            &&& step.memory.buf.keys == longer.keys
            &&& step.memory.buf.entry_lang == longer.entry_lang
            &&& step.memory.buf.in_snake_case == longer.in_snake_case
            &&& step.memory.buf.has_switched == (m.buf.has_switched || found is Some)
            &&& step.memory.undo is Some == found is Some
            &&& found is Some ==> step.memory.prev is None
            &&& found is None ==> goes_through(step, c)
        }),
{
}

/// A letter that is pressed with Ctrl is a command to the program in the
/// foreground: the word and the last switch are forgotten.
#[verifier::rlimit(50)]
pub proof fn law_ctrl_forgets_the_word(
    m: Memory,
    c: Configuration,
    window: usize,
    exe: Option<Seq<char>>,
    key: &KeyPress,
    model: &LanguageModel,
)
    requires
        at_work(m, c, window, exe),
        no_command(c, key),
        letter_key(key.vk),
        key.held@.contains(0xA2) || key.held@.contains(0xA3),
    ensures
        ({
            let step = hook::press_step(m, c, window, exe, key, model);
            &&& goes_through(step, c)
            &&& blank(step.memory.buf)
            &&& step.memory.undo is None
            &&& step.memory.context_langs == m.context_langs
            &&& step.memory.success_counts == m.success_counts
        }),
{
}

/// Backspace takes the last key back and leaves everything else as it was, the
/// undo as well; where there is no key, it takes the underscore before it back.
#[verifier::rlimit(50)]
pub proof fn law_backspace_takes_a_key_back(
    m: Memory,
    c: Configuration,
    window: usize,
    exe: Option<Seq<char>>,
    key: &KeyPress,
    model: &LanguageModel,
)
    requires
        at_work(m, c, window, exe),
        no_command(c, key),
        key.vk == 0x08,
    ensures
        ({
            let step = hook::press_step(m, c, window, exe, key, model);
            &&& goes_through(step, c)
            &&& m.buf.keys.len() > 0 ==> step.memory.buf == (Typed {
                keys: m.buf.keys.take(m.buf.keys.len() - 1),
                ..m.buf
            })
            &&& m.buf.keys.len() == 0 ==> step.memory.buf == (Typed {
                in_snake_case: false,
                ..m.buf
            })
            &&& step.memory.undo == m.undo
            &&& step.memory.context_langs == m.context_langs
            &&& step.memory.success_counts == m.success_counts
        }),
{
}

/// A letter that switches nothing and a Backspace after it leave the word as it
/// was.
#[verifier::rlimit(50)]
pub proof fn law_backspace_undoes_a_letter(
    m: Memory,
    c: Configuration,
    window: usize,
    exe: Option<Seq<char>>,
    key: &KeyPress,
    back: &KeyPress,
    model: &LanguageModel,
)
    requires
        at_work(m, c, window, exe),
        no_command(c, key),
        no_command(c, back),
        letter_key(key.vk),
        !key.held@.contains(0xA2),
        !key.held@.contains(0xA3),
        back.vk == 0x08,
        m.buf.keys.len() > 0,
        hook::press_step(m, c, window, exe, key, model).effect.switch is None,
    ensures
        ({
            let there = hook::press_step(m, c, window, exe, key, model);
            hook::press_step(there.memory, there.settings, window, exe, back, model).memory.buf
                == m.buf
        }),
{
    let longer = m.buf.keys.push(Entry { vk: key.vk, is_upper: key.shift != key.caps });
    assert(longer.drop_last() =~= m.buf.keys);
}

/// Where the cursor is moved, nobody knows what stands before it: the word and
/// the undo are forgotten.
#[verifier::rlimit(50)]
pub proof fn law_cursor_keys_forget_the_word(
    m: Memory,
    c: Configuration,
    window: usize,
    exe: Option<Seq<char>>,
    key: &KeyPress,
    model: &LanguageModel,
)
    requires
        at_work(m, c, window, exe),
        no_command(c, key),
        cursor_key(key.vk),
    ensures
        ({
            let step = hook::press_step(m, c, window, exe, key, model);
            &&& goes_through(step, c)
            &&& blank(step.memory.buf)
            &&& step.memory.undo is None
            &&& step.memory.context_langs == m.context_langs
            &&& step.memory.success_counts == m.success_counts
        }),
{
}

/// A modifier alone does nothing.
#[verifier::rlimit(50)]
pub proof fn law_modifier_keys_do_nothing(
    m: Memory,
    c: Configuration,
    window: usize,
    exe: Option<Seq<char>>,
    key: &KeyPress,
    model: &LanguageModel,
)
    requires
        at_work(m, c, window, exe),
        no_command(c, key),
        modifier_key(key.vk),
    ensures
        hook::press_step(m, c, window, exe, key, model).memory == m,
        goes_through(hook::press_step(m, c, window, exe, key, model), c),
{
}

// -- The end of a word --------------------------------------------------------------------------

/// The keys that end a word: white space, and all others that are no letters, no
/// Backspace, no cursor keys and no modifiers, but for the underscore.
pub open spec fn ends_word(key: &KeyPress) -> bool {
    ||| white_space_key(key.vk)
    ||| {
        &&& !letter_key(key.vk)
        &&& key.vk != 0x08
        &&& !cursor_key(key.vk)
        &&& !modifier_key(key.vk)
        &&& !(key.vk == 0xBD && key.shift)
    }
}

/// At its end a word is looked at once more. Where it is switched, the key that
/// ended it is held back and typed after the new word, and the context learns the
/// new layout; else the key goes through, the context learns the active layout,
/// and the word can still be switched by the hotkey. In any case the next word
/// begins.
#[verifier::rlimit(50)]
pub proof fn law_words_end(
    m: Memory,
    c: Configuration,
    window: usize,
    exe: Option<Seq<char>>,
    key: &KeyPress,
    model: &LanguageModel,
)
    requires
        at_work(m, c, window, exe),
        no_command(c, key),
        ends_word(key),
    ensures
        ({
            let step = hook::press_step(m, c, window, exe, key, model);
            let found = buffer::detection_of(
                m.buf,
                key.lang,
                c.sensitivity,
                false,
                prefs_now(m, c),
                model,
            );
            &&& step.effect.switch == found
            &&& step.effect.swallow == (found is Some)
            &&& step.effect.boundary_vk == (if found is Some {
                Some(key.vk)
            } else {
                None
            })
            &&& blank(step.memory.buf)
            &&& found is Some ==> {
                &&& step.settings == c
                &&& step.memory.undo is Some
                &&& step.memory.prev is None
                &&& step.memory.context_langs == hook::recorded(
                    m.context_langs,
                    found->0.target_lang,
                )
            }
            &&& found is None ==> step.memory.undo is None
            &&& found is None && m.buf.keys.len() > 0 ==> {
                &&& step.memory.prev == Some((m.buf, key.vk))
                &&& step.memory.context_langs == hook::recorded(m.context_langs, key.lang)
            }
            &&& found is None && (m.buf.has_switched || !(of_layout(key.lang, Layout::English)
                || of_layout(key.lang, Layout::Russian) || of_layout(key.lang, Layout::Ukrainian)))
                ==> goes_through(step, c) && step.memory.success_counts == m.success_counts
            &&& found is Some ==> step.memory.success_counts == m.success_counts
            &&& found is None && m.buf.keys.len() == 0 ==> {
                &&& goes_through(step, c)
                &&& step.memory.context_langs == m.context_langs
            }
        }),
{
}

/// The context holds the last words, four at most, the latest last.
pub proof fn law_context_holds_the_last_words(langs: Seq<u16>, lang: u16)
    ensures
        ({
            let next = hook::recorded(langs, lang);
            &&& next.last() == lang
            &&& langs.len() < 4 ==> next == langs + seq![lang]
            &&& langs.len() >= 4 ==> next == langs.skip(1) + seq![lang]
            &&& langs.len() <= 4 ==> next.len() <= 4
        }),
{
    assert(langs.len() < 4 ==> hook::recorded(langs, lang) =~= langs + seq![lang]);
    assert(langs.len() >= 4 ==> hook::recorded(langs, lang) =~= langs.skip(1) + seq![lang]);
}

/// A finished word that was left alone under a layout counts towards being left
/// alone for good: it has four letters or more and nothing but letters, is no
/// common word, and fits another layout better.
pub open spec fn nearly_switched(keys: Seq<Entry>, l: Layout, model: &LanguageModel) -> bool {
    &&& keys.len() >= 4
    &&& !common(keys, l, model)
    &&& match l {
        Layout::English => !punctuating(keys) && (fits_better(
            fit(keys, Layout::Russian, model),
            fit(keys, l, model),
        ) || fits_better(fit(keys, Layout::Ukrainian, model), fit(keys, l, model))),
        _ => fits_better(fit(keys, Layout::English, model), fit(keys, l, model)),
    }
}

/// One score is better than another; none is the worst.
pub open spec fn fits_better(a: Option<i64>, b: Option<i64>) -> bool {
    a is Some && (b is None || a->0 > b->0)
}

/// A word in Cyrillic letters holds nothing but letters.
proof fn lemma_letters_only(keys: Seq<Entry>, l: Layout)
    requires
        legible(keys),
        l != Layout::English,
    ensures
        !crate::detection::punctuated(word(keys, l)),
        word(keys, l).len() == keys.len(),
{
    let w = word(keys, l);
    typing::lemma_spelled_len(keys, l, false);
    assert forall|i: int| 0 <= i < w.len() implies unicode::is_letter(#[trigger] w[i]) by {
        typing::lemma_spelled_index(keys, l, false, i);
    }
}

/// White space after a word that was nearly switched counts it; at the third time
/// the word is left alone for good and its count is dropped. Nothing else is
/// counted, and no other count changes.
#[verifier::rlimit(50)]
pub proof fn law_words_are_counted(
    m: Memory,
    c: Configuration,
    window: usize,
    exe: Option<Seq<char>>,
    key: &KeyPress,
    l: Layout,
    model: &LanguageModel,
)
    requires
        at_work(m, c, window, exe),
        no_command(c, key),
        ends_word(key),
        fresh(m.buf),
        of_layout(key.lang, l),
        hook::press_step(m, c, window, exe, key, model).effect.switch is None,
    ensures
        ({
            let step = hook::press_step(m, c, window, exe, key, model);
            let w = word(m.buf.keys, l);
            let before = if m.success_counts.contains_key(w) {
                m.success_counts[w] as int
            } else if c.adaptive_counts.contains_key(w) {
                c.adaptive_counts[w] as int
            } else {
                0
            };
            let counts = white_space_key(key.vk) && nearly_switched(m.buf.keys, l, model);
            &&& step.effect.save_settings == counts
            &&& !counts ==> step.settings == c && step.memory.success_counts == m.success_counts
            &&& counts && before < 2 ==> {
                &&& step.settings.ignored_words == c.ignored_words
                &&& step.settings.adaptive_counts == c.adaptive_counts.insert(
                    w,
                    (before + 1) as u32,
                )
                &&& step.memory.success_counts == m.success_counts.insert(w, (before + 1) as u32)
            }
            &&& counts && before >= 2 ==> {
                &&& step.settings.ignored_words == c.ignored_words.insert(w)
                &&& step.settings.adaptive_counts == c.adaptive_counts.remove(w)
                &&& step.memory.success_counts == m.success_counts.remove(w)
            }
        }),
{
    let keys = m.buf.keys;
    layout::law_one_language(key.lang);
    crate::rule_laws::law_telling_keys(keys);
    typing::lemma_spelled_len(keys, Layout::English, false);
    lemma_letters_only(keys, Layout::Russian);
    lemma_letters_only(keys, Layout::Ukrainian);
    laws::law_readings_agree(keys, model);
}

/// The underscore ends a word as other keys do, but nothing is counted; what
/// stands before it is part of a name, and so is what follows where the layout is
/// then the English one.
#[verifier::rlimit(50)]
pub proof fn law_underscores_join_names(
    m: Memory,
    c: Configuration,
    window: usize,
    exe: Option<Seq<char>>,
    key: &KeyPress,
    model: &LanguageModel,
)
    requires
        at_work(m, c, window, exe),
        no_command(c, key),
        key.vk == 0xBD,
        key.shift,
    ensures
        ({
            let step = hook::press_step(m, c, window, exe, key, model);
            let named = m.buf.in_snake_case || m.buf.keys.len() > 0;
            let found = buffer::detection_of(
                (Typed { in_snake_case: named, ..m.buf }),
                key.lang,
                c.sensitivity,
                false,
                prefs_now(m, c),
                model,
            );
            let lang_now = if found is Some {
                found->0.target_lang
            } else {
                key.lang
            };
            &&& step.effect.switch == found
            &&& step.effect.swallow == (found is Some)
            &&& step.effect.boundary_vk == (if found is Some {
                Some(key.vk)
            } else {
                None
            })
            &&& step.settings == c
            &&& !step.effect.save_settings
            &&& step.memory.success_counts == m.success_counts
            &&& found is None ==> step.memory.undo is None
            &&& found is None && m.buf.keys.len() > 0 ==> {
                &&& step.memory.prev == Some((Typed { in_snake_case: named, ..m.buf }, key.vk))
                &&& step.memory.context_langs == hook::recorded(m.context_langs, key.lang)
            }
            &&& found is Some ==> step.memory.context_langs == hook::recorded(
                m.context_langs,
                lang_now,
            )
            &&& step.memory.buf.keys.len() == 0
            &&& !step.memory.buf.has_switched
            &&& step.memory.buf.in_snake_case == (named && of_layout(lang_now, Layout::English))
        }),
{
}

// -- Hotkeys -------------------------------------------------------------------------------------

/// What a switch leaves behind so that it can be taken back: the old word, how
/// much there is to erase (the key that ended the word stands on the screen too),
/// the layout before it and that key.
pub open spec fn can_be_taken_back(
    undo: Option<Undo>,
    r: Replacement,
    boundary_vk: Option<u16>,
    lang: u16,
) -> bool {
    undo matches Some(u) && {
        &&& u.original_word == r.original_word
        &&& u.erase_len == r.new_word.len() + (if boundary_vk is Some {
            1int
        } else {
            0int
        })
        &&& u.restore_lang == lang
        &&& u.boundary_vk == boundary_vk
    }
}

/// After every switch but that of an undo, what it takes to take it back is
/// remembered, and nothing of an earlier one.
#[verifier::rlimit(50)]
pub proof fn law_every_switch_can_be_taken_back(
    m: Memory,
    c: Configuration,
    window: usize,
    exe: Option<Seq<char>>,
    key: &KeyPress,
    model: &LanguageModel,
)
    requires
        at_work(m, c, window, exe),
        !(c.undo_hotkey_enabled && keys::fires(key.vk, c.undo_hotkey, key.held@)),
    ensures
        ({
            let step = hook::press_step(m, c, window, exe, key, model);
            step.effect.switch is Some ==> can_be_taken_back(
                step.memory.undo,
                step.effect.switch->0,
                step.effect.boundary_vk,
                key.lang,
            )
        }),
{
}

/// The undo hotkey comes before everything else. It erases what the last switch
/// has put there, types the old word and the key that ended it, and goes back to
/// the layout before; the word is left alone from then on. Without a switch to
/// take back it does nothing, but never reaches the foreground window.
#[verifier::rlimit(50)]
pub proof fn law_undo_hotkey(
    m: Memory,
    c: Configuration,
    window: usize,
    exe: Option<Seq<char>>,
    key: &KeyPress,
    model: &LanguageModel,
)
    requires
        at_work(m, c, window, exe),
        c.undo_hotkey_enabled,
        keys::fires(key.vk, c.undo_hotkey, key.held@),
    ensures
        ({
            let step = hook::press_step(m, c, window, exe, key, model);
            &&& step.effect.swallow
            &&& step.effect.suppress_start_menu == c.undo_hotkey.win
            &&& blank(step.memory.buf)
            &&& step.memory.undo is None
            &&& step.memory.prev == m.prev
            &&& step.memory.context_langs == m.context_langs
            &&& step.memory.success_counts == m.success_counts
            &&& m.undo is None ==> step.effect.switch is None && step.effect.boundary_vk is None
                && step.settings == c
            &&& m.undo matches Some(u) ==> {
                let w = unicode::str_lowercase_of(u.original_word);
                &&& step.effect.switch matches Some(r) && {
                    &&& r.backspaces == u.erase_len
                    &&& r.new_word == u.original_word
                    &&& r.target_lang == u.restore_lang
                }
                &&& step.effect.boundary_vk == u.boundary_vk
                &&& w.len() > 0 ==> step.settings == (Configuration {
                    ignored_words: c.ignored_words.insert(w),
                    ..c
                })
                &&& w.len() == 0 ==> step.settings == c
                &&& step.effect.save_settings == (w.len() > 0 && !c.ignored_words.contains(w))
            }
        }),
{
    assert(hook::keeps_previous(key.vk, c));
    match m.undo {
        Some(u) => {
            let w = unicode::str_lowercase_of(u.original_word);
            if c.ignored_words.contains(w) {
                assert(c.ignored_words.insert(w) =~= c.ignored_words);
            }
        },
        None => {},
    }
}

/// A hotkey that fires is completed by a modifier or by its own key.
proof fn lemma_hotkey_key(c: Configuration, key: &KeyPress)
    requires
        c.hotkey_enabled,
        keys::fires(key.vk, c.hotkey, key.held@),
    ensures
        hook::keeps_previous(key.vk, c),
{
}

/// The switching hotkey switches the current word; where there is none that can
/// be switched, it switches the word before, together with the key that ended it.
/// The choice is learnt for the same keys, two at least. It never reaches the
/// foreground window.
#[verifier::rlimit(50)]
pub proof fn law_switching_hotkey(
    m: Memory,
    c: Configuration,
    window: usize,
    exe: Option<Seq<char>>,
    key: &KeyPress,
    model: &LanguageModel,
)
    requires
        at_work(m, c, window, exe),
        c.hotkey_enabled,
        keys::fires(key.vk, c.hotkey, key.held@),
        !(c.undo_hotkey_enabled && keys::fires(key.vk, c.undo_hotkey, key.held@)),
    ensures
        ({
            let step = hook::press_step(m, c, window, exe, key, model);
            let this = buffer::forced_of(m.buf, key.lang, prefs_now(m, c), model);
            &&& step.effect.swallow
            &&& step.effect.suppress_start_menu == c.hotkey.win
            &&& step.memory.prev is None
            &&& step.memory.context_langs == m.context_langs
            &&& step.memory.success_counts == m.success_counts
            &&& step.effect.switch is None ==> step.memory.undo is None
            &&& this is Some ==> {
                &&& step.effect.switch == this
                &&& step.effect.boundary_vk is None
                &&& blank(step.memory.buf)
                &&& learnt(c, step, m.buf.keys, this->0.target_lang)
            }
            &&& this is None ==> match m.prev {
                None => step.effect.switch is None && step.settings == c && blank(step.memory.buf),
                Some(before) => {
                    let there = buffer::forced_of(before.0, key.lang, prefs_now(m, c), model);
                    &&& there is None ==> step.effect.switch is None && step.settings == c
                        && step.memory.buf == m.buf
                    &&& there is Some ==> {
                        &&& step.effect.switch == Some(
                            Replacement { backspaces: there->0.backspaces + 1, ..there->0 },
                        )
                        &&& step.effect.boundary_vk == Some(before.1)
                        &&& blank(step.memory.buf)
                        &&& learnt(c, step, before.0.keys, there->0.target_lang)
                    }
                },
            }
        }),
{
    lemma_hotkey_key(c, key);
    lemma_english_words_are_lower(m.buf.keys);
    match m.prev {
        Some(before) => {
            lemma_english_words_are_lower(before.0.keys);
        },
        None => {},
    }
}

/// The settings after a step know the language that was chosen for some keys,
/// and nothing else has changed.
pub open spec fn learnt(c: Configuration, step: Step, keys: Seq<Entry>, target: u16) -> bool {
    let w = word(keys, Layout::English);
    &&& step.settings == (if w.len() >= 2 {
        Configuration { word_corrections: c.word_corrections.insert(w, target), ..c }
    } else {
        c
    })
    &&& step.effect.save_settings == (w.len() >= 2 && !(c.word_corrections.contains_key(w)
        && c.word_corrections[w] == target))
}

proof fn lemma_english_words_are_lower(keys: Seq<Entry>)
    ensures
        unicode::str_lowercase_of(word(keys, Layout::English)) == word(keys, Layout::English),
        forall|c: Configuration, target: u16|
            #![trigger hook::corrected(c, word(keys, Layout::English), target)]
            c.word_corrections.contains_key(word(keys, Layout::English))
                && c.word_corrections[word(keys, Layout::English)] == target
                ==> c.word_corrections.insert(word(keys, Layout::English), target)
                == c.word_corrections,
{
    let w = word(keys, Layout::English);
    lemma_lower_english(keys);
    assert(w.map_values(|c: char| unicode::keyboard_lower(c)) =~= w);
    assert forall|c: Configuration, target: u16|
        #![trigger hook::corrected(c, word(keys, Layout::English), target)]
        c.word_corrections.contains_key(w) && c.word_corrections[w] == target implies
        c.word_corrections.insert(w, target) == c.word_corrections by {
        assert(c.word_corrections.insert(w, target) =~= c.word_corrections);
    }
}

proof fn lemma_lower_english(keys: Seq<Entry>)
    ensures
        forall|i: int|
            0 <= i < word(keys, Layout::English).len() ==> {
                &&& unicode::keyboard_char(#[trigger] word(keys, Layout::English)[i])
                &&& unicode::keyboard_lower(word(keys, Layout::English)[i]) == word(
                    keys,
                    Layout::English,
                )[i]
            },
    decreases keys.len(),
{
    if keys.len() > 0 {
        let rest = keys.drop_last();
        lemma_lower_english(rest);
        let before = word(rest, Layout::English);
        let w = word(keys, Layout::English);
        assert forall|i: int| 0 <= i < w.len() implies unicode::keyboard_char(#[trigger] w[i])
            && unicode::keyboard_lower(w[i]) == w[i] by {
            if i < before.len() {
                assert(w[i] == before[i]);
            }
        }
    }
}

// -- Windows and programs -----------------------------------------------------------------------------

/// A key in another window does what it would do there with no word, no undo and
/// no context; the counts go along.
#[verifier::rlimit(50)]
pub proof fn law_windows_are_apart(
    m: Memory,
    c: Configuration,
    window: usize,
    exe: Option<Seq<char>>,
    key: &KeyPress,
    model: &LanguageModel,
)
    requires
        m.last_window != window,
    ensures
        hook::press_step(m, c, window, exe, key, model) == hook::press_step(
            (Memory {
                buf: Typed {
                    keys: Seq::empty(),
                    has_switched: m.buf.has_switched && m.buf.keys.len() == 0,
                    entry_lang: if m.buf.keys.len() == 0 {
                        m.buf.entry_lang
                    } else {
                        0
                    },
                    in_snake_case: false,
                },
                undo: None,
                context_langs: Seq::empty(),
                last_window: window,
                ..m
            }),
            c,
            window,
            exe,
            key,
            model,
        ),
{
    if m.buf.keys.len() == 0 {
        assert(m.buf.keys =~= Seq::empty());
    }
}

/// In an excepted program a key goes through and the word is forgotten; where the
/// program is switched off, a key goes through and nothing is forgotten.
#[verifier::rlimit(50)]
pub proof fn law_excepted_programs_are_left_alone(
    m: Memory,
    c: Configuration,
    window: usize,
    exe: Option<Seq<char>>,
    key: &KeyPress,
    model: &LanguageModel,
)
    requires
        m.last_window == window,
    ensures
        ({
            let step = hook::press_step(m, c, window, exe, key, model);
            let excepted = exe is Some && c.exceptions.contains(exe->0);
            &&& excepted ==> goes_through(step, c) && step.memory.buf.keys.len() == 0
                && !step.memory.buf.in_snake_case && step.memory.undo == m.undo
                && step.memory.context_langs == m.context_langs
            &&& !excepted && !c.enabled ==> goes_through(step, c) && step.memory == m
        }),
{
}

/// A word that the hotkey could switch is out of reach once another key than a
/// modifier or that of a hotkey is pressed, unless it ends a word itself.
#[verifier::rlimit(50)]
pub proof fn law_words_before_get_out_of_reach(
    m: Memory,
    c: Configuration,
    window: usize,
    exe: Option<Seq<char>>,
    key: &KeyPress,
    model: &LanguageModel,
)
    requires
        at_work(m, c, window, exe),
        no_command(c, key),
        letter_key(key.vk) || cursor_key(key.vk) || key.vk == 0x08,
        !(c.hotkey_enabled && key.vk == c.hotkey.vk),
        !(c.undo_hotkey_enabled && key.vk == c.undo_hotkey.vk),
    ensures
        hook::press_step(m, c, window, exe, key, model).memory.prev is None,
{
}

/// A click of the left, the right or the middle button, in a window or on its
/// frame, is one; nothing else is, and what is not to be handled is not.
pub proof fn law_clicks(n_code: i32, message: u32)
    ensures
        hook::click(n_code, message) <==> n_code >= 0 && (message == 0x201 || message == 0x204
            || message == 0x207 || message == 0xA1 || message == 0xA4),
{
}

/// After a click nothing is left of the word that was being typed.
pub proof fn law_clicks_forget_the_word(b: Typed)
    ensures
        hook::word_dropped(b).keys.len() == 0,
        !hook::word_dropped(b).in_snake_case,
        b.keys.len() > 0 ==> blank(hook::word_dropped(b)),
        b.keys.len() == 0 ==> hook::word_dropped(b).entry_lang == b.entry_lang
            && hook::word_dropped(b).has_switched == b.has_switched,
{
}

/// A key calls for attention where it goes down, with Alt or without, and does
/// not bear the mark of the program's own events.
pub proof fn law_key_presses(n_code: i32, injected: bool, extra_info: usize, message: u32)
    ensures
        hook::calls_for_attention(n_code, injected, extra_info, message) <==> n_code >= 0 && (message
            == 0x100 || message == 0x104) && (!injected || extra_info != 0x5357_4954),
{
}

// -- Which keys complete a hotkey ------------------------------------------------------------------------

/// One of the keys that a key on either side of the keyboard stands for is held.
pub open spec fn down(vk: u16, held: Seq<u16>) -> bool {
    if vk == 0x10 {
        held.contains(0xA0) || held.contains(0xA1)
    } else if vk == 0x11 {
        held.contains(0xA2) || held.contains(0xA3)
    } else if vk == 0x12 {
        held.contains(0xA4) || held.contains(0xA5)
    } else {
        held.contains(vk)
    }
}

/// A pressed key is the one that was configured, or one of its two sides.
pub open spec fn presses(vk: u16, configured: u16) -> bool {
    ||| vk == configured
    ||| configured == 0x10 && (vk == 0xA0 || vk == 0xA1)
    ||| configured == 0x11 && (vk == 0xA2 || vk == 0xA3)
    ||| configured == 0x12 && (vk == 0xA4 || vk == 0xA5)
}

/// A hotkey fires just where the pressed key belongs to it, its main key is down,
/// and of the four modifiers exactly those are down that it is made of.
pub proof fn law_hotkeys_fire(vk: u16, hk: keys::HookHotkey, held: Seq<u16>)
    ensures
        keys::fires(vk, hk, held) <==> {
            let win = held.contains(0x5B) || held.contains(0x5C);
            let ctrl = held.contains(0x11) || held.contains(0xA2) || held.contains(0xA3);
            let shift = held.contains(0x10) || held.contains(0xA0) || held.contains(0xA1);
            let alt = held.contains(0x12) || held.contains(0xA4) || held.contains(0xA5);
            &&& {
                ||| presses(vk, hk.vk)
                ||| hk.win && (vk == 0x5B || vk == 0x5C)
                ||| hk.ctrl && (vk == 0x11 || vk == 0xA2 || vk == 0xA3)
                ||| hk.shift && (vk == 0x10 || vk == 0xA0 || vk == 0xA1)
                ||| hk.alt && (vk == 0x12 || vk == 0xA4 || vk == 0xA5)
            }
            &&& presses(vk, hk.vk) || down(hk.vk, held)
            &&& win == (hk.win || hk.vk == 0x5B || hk.vk == 0x5C)
            &&& ctrl == (hk.ctrl || hk.vk == 0x11 || hk.vk == 0xA2 || hk.vk == 0xA3)
            &&& shift == (hk.shift || hk.vk == 0x10 || hk.vk == 0xA0 || hk.vk == 0xA1)
            &&& alt == (hk.alt || hk.vk == 0x12 || hk.vk == 0xA4 || hk.vk == 0xA5)
        },
{
}

// -- What is told of a key ---------------------------------------------------------------------------

/// What has come of a key is told: a word was looked at, was switched while it was
/// being typed, was switched by the hotkey or taken back; and how the word reads that
/// was looked at.
#[verifier::rlimit(50)]
pub proof fn law_outcomes_are_told(
    m: Memory,
    c: Configuration,
    window: usize,
    exe: Option<Seq<char>>,
    key: &KeyPress,
    model: &LanguageModel,
)
    requires
        at_work(m, c, window, exe),
    ensures
        ({
            let step = hook::press_step(m, c, window, exe, key, model);
            let undoes = c.undo_hotkey_enabled && keys::fires(key.vk, c.undo_hotkey, key.held@);
            let this = buffer::forced_of(m.buf, key.lang, prefs_now(m, c), model);
            &&& undoes ==> step.effect.event == KeyEvent::Undo && step.effect.reading is None
            &&& !undoes && !no_command(c, key) ==> {
                &&& step.effect.event == KeyEvent::Force || step.effect.event
                    == KeyEvent::ForcePrevious
                &&& step.effect.event == KeyEvent::ForcePrevious <==> this is None
                    && step.effect.switch is Some
                &&& this is Some ==> step.effect.reading == Some(
                    buffer::reading_of(m.buf.keys, model),
                )
            }
            &&& no_command(c, key) && ends_word(key) ==> {
                &&& step.effect.event == KeyEvent::Detect
                &&& fresh(m.buf) ==> step.effect.reading == Some(
                    buffer::reading_of(m.buf.keys, model),
                )
                &&& m.buf.keys.len() == 0 ==> step.effect.reading is None
            }
            &&& no_command(c, key) && letter_key(key.vk) ==> {
                &&& step.effect.switch is Some ==> step.effect.event == KeyEvent::OnTheFly
                    && step.effect.reading == Some(
                    buffer::reading_of(step.memory.buf.keys, model),
                )
                &&& step.effect.switch is None ==> step.effect.event == KeyEvent::Plain
            }
            &&& no_command(c, key) && (cursor_key(key.vk) || modifier_key(key.vk) || key.vk == 0x08)
                ==> step.effect.event == KeyEvent::Plain
        }),
{
    if c.hotkey_enabled && keys::fires(key.vk, c.hotkey, key.held@) {
        lemma_hotkey_key(c, key);
    }
}

/// The direction of a switch is told by its two languages.
pub proof fn law_directions_are_told(from: u16, to: u16)
    ensures
        of_layout(from, Layout::Russian) && to == 0x0409 ==> hook::direction(from, to)
            == "RU→EN"@,
        of_layout(from, Layout::Ukrainian) && to == 0x0409 ==> hook::direction(from, to)
            == "UA→EN"@,
        of_layout(from, Layout::English) && to == 0x0419 ==> hook::direction(from, to)
            == "EN→RU"@,
        of_layout(from, Layout::English) && to == 0x0422 ==> hook::direction(from, to)
            == "EN→UA"@,
{
    layout::law_one_language(from);
}

/// The language that was chosen for some keys is recorded under their English spelling,
/// in lower case, unless that is known already or is a single letter.
pub proof fn law_choices_are_recorded(c: Configuration, en_key: Seq<char>, target: u16)
    ensures
        ({
            let w = unicode::str_lowercase_of(en_key);
            let known = c.word_corrections.contains_key(w) && c.word_corrections[w] == target;
            let now = hook::corrected(c, en_key, target);
            &&& hook::corrects(c, en_key, target) <==> w.len() >= 2 && !known
            &&& w.len() >= 2 ==> now.word_corrections == c.word_corrections.insert(w, target)
            &&& w.len() < 2 ==> now == c
            &&& now == (Configuration { word_corrections: now.word_corrections, ..c })
        }),
{
    let w = unicode::str_lowercase_of(en_key);
    if c.word_corrections.contains_key(w) && c.word_corrections[w] == target {
        assert(c.word_corrections.insert(w, target) =~= c.word_corrections);
    }
}

/// A key that is held or pressed is told by its side, where it has two.
pub proof fn law_sides_of_keys(vk: u16, configured: u16, held: Seq<u16>)
    ensures
        keys::same_key(vk, configured) <==> presses(vk, configured),
        keys::key_held(configured, held) <==> down(configured, held),
{
}

/// The same as for the keys that are held, given the four modifiers and whether the main
/// key is down.
pub proof fn law_hotkeys_are_completed(
    vk: u16,
    hk: keys::HookHotkey,
    m: keys::Modifiers,
    main_held: bool,
)
    ensures
        keys::completes(vk, hk, m, main_held) <==> {
            &&& {
                ||| presses(vk, hk.vk)
                ||| hk.win && (vk == 0x5B || vk == 0x5C)
                ||| hk.ctrl && (vk == 0x11 || vk == 0xA2 || vk == 0xA3)
                ||| hk.shift && (vk == 0x10 || vk == 0xA0 || vk == 0xA1)
                ||| hk.alt && (vk == 0x12 || vk == 0xA4 || vk == 0xA5)
            }
            &&& presses(vk, hk.vk) || main_held
            &&& m.win == (hk.win || hk.vk == 0x5B || hk.vk == 0x5C)
            &&& m.ctrl == (hk.ctrl || hk.vk == 0x11 || hk.vk == 0xA2 || hk.vk == 0xA3)
            &&& m.shift == (hk.shift || hk.vk == 0x10 || hk.vk == 0xA0 || hk.vk == 0xA1)
            &&& m.alt == (hk.alt || hk.vk == 0x12 || hk.vk == 0xA4 || hk.vk == 0xA5)
        },
{
}

/// The kinds of keys.
pub proof fn law_kinds_of_keys(vk: u16)
    ensures
        keys::boundary(vk) <==> white_space_key(vk),
        keys::navigation(vk) <==> cursor_key(vk),
        keys::modifier(vk) <==> modifier_key(vk),
        layout::translatable(vk) <==> letter_key(vk),
{
}

/// To begin with, nothing is remembered.
pub proof fn law_memory_begins_blank()
    ensures
        ({
            let m = hook::blank_memory();
            &&& blank(m.buf)
            &&& m.prev is None
            &&& m.undo is None
            &&& m.last_window == 0
            &&& m.context_langs.len() == 0
            &&& forall|w: Seq<char>| !(#[trigger] m.success_counts.contains_key(w))
        }),
{
}

/// Whatever a key does, the window that had it is remembered.
#[verifier::rlimit(50)]
pub proof fn law_windows_are_remembered(
    m: Memory,
    c: Configuration,
    window: usize,
    exe: Option<Seq<char>>,
    key: &KeyPress,
    model: &LanguageModel,
)
    ensures
        hook::press_step(m, c, window, exe, key, model).memory.last_window == window,
{
}

} // verus!
