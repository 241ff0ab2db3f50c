//! What holds of the keys that are pressed as a whole.

use vstd::prelude::*;

use crate::bigrams::LanguageModel;
use crate::buffer::{self, Preferences, Replacement, Typed};
use crate::detection;
use crate::hook::{self, KeyPress, Memory, Step, ADAPTIVE_LIMIT, CONTEXT_LEN};
use crate::keys::{self, HookHotkey, VK_BACK, VK_LCONTROL, VK_OEM_MINUS, VK_RCONTROL};
use crate::laws;
use crate::layout::{self, Layout, LANG_EN_US};
use crate::settings::{self, Configuration};
use crate::typing::{self, Entry};
use crate::unicode;

verus! {

/// A word that is spelled without capitals is its own lower-case form.
proof fn lemma_lower_word(keys: Seq<Entry>, l: Layout)
    ensures
        unicode::str_lowercase_of(typing::spelled(keys, l, false)) == typing::spelled(keys, l, false),
{
    let w = typing::spelled(keys, l, false);
    lemma_lower_letters(keys, l);
    assert(w.map_values(|c: char| unicode::keyboard_lower(c)) =~= w);
}

/// The characters of a word that is spelled without capitals are keyboard
/// characters in lower case.
proof fn lemma_lower_letters(keys: Seq<Entry>, l: Layout)
    ensures
        forall|i: int|
            0 <= i < typing::spelled(keys, l, false).len() ==> {
                &&& unicode::keyboard_char(#[trigger] typing::spelled(keys, l, false)[i])
                &&& unicode::keyboard_lower(typing::spelled(keys, l, false)[i]) == typing::spelled(
                    keys,
                    l,
                    false,
                )[i]
            },
    decreases keys.len(),
{
    if keys.len() > 0 {
        lemma_lower_letters(keys.drop_last(), l);
        let before = typing::spelled(keys.drop_last(), l, false);
        let w = typing::spelled(keys, l, false);
        assert forall|i: int| 0 <= i < w.len() implies unicode::keyboard_char(#[trigger] w[i])
            && unicode::keyboard_lower(w[i]) == w[i] by {
            if i < before.len() {
                assert(w[i] == before[i]);
            }
        }
    }
}

/// The key that causes a switch never reaches the foreground window, and a
/// change of the settings is always saved.
pub proof fn law_switches_swallow_and_changes_are_saved(
    m: Memory,
    c: Configuration,
    window: usize,
    exe: Option<Seq<char>>,
    key: &KeyPress,
    model: &LanguageModel,
)
    ensures
        ({
            let step = hook::press_step(m, c, window, exe, key, model);
            &&& step.effect.switch is Some ==> step.effect.swallow
            &&& step.settings != c ==> step.effect.save_settings
        }),
{
}

/// Where the program is switched off, or in a program that is excepted, no key
/// causes a switch, is swallowed or changes the settings.
pub proof fn law_left_alone_when_off(
    m: Memory,
    c: Configuration,
    window: usize,
    exe: Option<Seq<char>>,
    key: &KeyPress,
    model: &LanguageModel,
)
    requires
        !c.enabled || hook::excluded(c, exe),
    ensures
        hook::press_step(m, c, window, exe, key, model).effect == hook::no_effect(),
        hook::press_step(m, c, window, exe, key, model).settings == c,
{
}

/// In a new window nothing is left of the word, the undo and the context.
pub proof fn law_new_window_starts_afresh(m: Memory, window: usize)
    requires
        m.last_window != window,
    ensures
        hook::in_window(m, window).buf.keys.len() == 0,
        !hook::in_window(m, window).buf.in_snake_case,
        hook::in_window(m, window).undo is None,
        hook::dominant(hook::in_window(m, window).context_langs) is None,
{
}

/// The context never reaches back further than its limit, whatever is typed.
pub proof fn law_context_is_bounded(
    m: Memory,
    c: Configuration,
    window: usize,
    exe: Option<Seq<char>>,
    key: &KeyPress,
    model: &LanguageModel,
)
    requires
        m.context_langs.len() <= CONTEXT_LEN,
    ensures
        hook::press_step(m, c, window, exe, key, model).memory.context_langs.len() <= CONTEXT_LEN,
{
}

/// Two words in a row in one layout make it the dominant one.
pub proof fn law_two_words_dominate(langs: Seq<u16>, lang: u16)
    ensures
        hook::dominant(hook::recorded(hook::recorded(langs, lang), lang)) == Some(lang),
{
}

/// A dominant layout is one that two of the last three words ended up in.
pub proof fn law_dominant_is_shared(langs: Seq<u16>)
    ensures
        hook::dominant(langs) matches Some(l) ==> exists|i: int, j: int|
            #![trigger langs[i], langs[j]]
            langs.len() - 3 <= i < j < langs.len() && 0 <= i && langs[i] == l && langs[j] == l,
        hook::dominant(langs) is None ==> forall|i: int, j: int|
            #![trigger langs[i], langs[j]]
            langs.len() - 3 <= i < j < langs.len() && 0 <= i ==> langs[i] != langs[j],
{
}

/// Pressing a modifier that completes no hotkey changes nothing.
pub proof fn law_modifiers_change_nothing(
    m: Memory,
    c: Configuration,
    key: &KeyPress,
    prefs: Preferences,
    model: &LanguageModel,
)
    requires
        keys::modifier(key.vk),
        c.undo_key() matches Some(hk) ==> !keys::fires(key.vk, hk, key.held@),
        c.switch_key() matches Some(hk) ==> !keys::fires(key.vk, hk, key.held@),
    ensures
        hook::key_step(m, c, key, prefs, model) == (Step {
            memory: m,
            settings: c,
            effect: hook::no_effect(),
        }),
{
}

/// Once the user types on without a switch, the last one cannot be taken back.
pub proof fn law_typing_on_gives_up_the_undo(
    m: Memory,
    c: Configuration,
    key: &KeyPress,
    prefs: Preferences,
    model: &LanguageModel,
)
    requires
        layout::translatable(key.vk) || keys::boundary(key.vk) || keys::navigation(key.vk),
        hook::key_step(m, c, key, prefs, model).effect.switch is None,
    ensures
        hook::key_step(m, c, key, prefs, model).memory.undo is None,
{
}

/// Neither hotkey fires.
pub open spec fn no_hotkey(c: Configuration, key: &KeyPress) -> bool {
    &&& c.undo_key() matches Some(hk) ==> !keys::fires(key.vk, hk, key.held@)
    &&& c.switch_key() matches Some(hk) ==> !keys::fires(key.vk, hk, key.held@)
}

/// Under the English layout an underscore after some letters switches nothing,
/// unless the user has corrected these keys before: they are part of a name,
/// and so is what follows.
pub proof fn law_underscored_names_stay(
    m: Memory,
    c: Configuration,
    key: &KeyPress,
    prefs: Preferences,
    model: &LanguageModel,
)
    requires
        key.vk == VK_OEM_MINUS,
        key.shift,
        no_hotkey(c, key),
        layout::english(key.lang),
        m.buf.keys.len() > 0,
        !prefs.word_corrections.contains_key(buffer::reading_of(m.buf.keys, model).en),
    ensures
        ({
            let step = hook::key_step(m, c, key, prefs, model);
            &&& step.effect.switch is None
            &&& !step.effect.swallow
            &&& step.memory.buf.in_snake_case
        }),
{
    laws::law_identifiers_stay(
        Typed { in_snake_case: true, ..m.buf },
        key.lang,
        c.sensitivity,
        false,
        prefs,
        model,
    );
}

/// What follows an underscore in a name stays under the English layout as well,
/// while it is typed and at its end, unless the user has corrected it before.
pub proof fn law_rest_of_the_name_stays(
    m: Memory,
    c: Configuration,
    key: &KeyPress,
    prefs: Preferences,
    model: &LanguageModel,
)
    requires
        m.buf.in_snake_case,
        no_hotkey(c, key),
        layout::english(key.lang),
        !prefs.word_corrections.contains_key(buffer::reading_of(m.buf.keys, model).en),
        !prefs.word_corrections.contains_key(
            buffer::reading_of(hook::typed_on(m.buf, key).keys, model).en,
        ),
    ensures
        ({
            let step = hook::key_step(m, c, key, prefs, model);
            let ctrl = key.held@.contains(VK_LCONTROL) || key.held@.contains(VK_RCONTROL);
            &&& step.effect.switch is None
            &&& !step.effect.swallow
            &&& layout::translatable(key.vk) && !keys::boundary(key.vk) && key.vk != VK_BACK && !ctrl
                ==> step.memory.buf == hook::typed_on(m.buf, key)
                && step.memory.buf.in_snake_case
        }),
{
    laws::law_identifiers_stay(m.buf, key.lang, c.sensitivity, false, prefs, model);
    laws::law_identifiers_stay(
        hook::typed_on(m.buf, key),
        key.lang,
        c.sensitivity,
        true,
        prefs,
        model,
    );
}

/// Under a Cyrillic layout an underscore after some letters switches them to
/// English, unless they are a word that the user wants left alone or has
/// corrected, or a common one; what follows is part of the name.
pub proof fn law_underscored_names_leave_cyrillic(
    m: Memory,
    c: Configuration,
    key: &KeyPress,
    prefs: Preferences,
    model: &LanguageModel,
)
    requires
        key.vk == VK_OEM_MINUS,
        key.shift,
        no_hotkey(c, key),
        layout::russian(key.lang) || layout::ukrainian(key.lang),
        buffer::detectable(m.buf, false),
        forall|i: int|
            0 <= i < m.buf.keys.len() ==> layout::translatable((#[trigger] m.buf.keys[i]).vk),
        !prefs.ignored_words.contains(
            buffer::reading_of(m.buf.keys, model).on_screen(key.lang),
        ),
        !prefs.word_corrections.contains_key(buffer::reading_of(m.buf.keys, model).en),
        !detection::known_on_screen(buffer::reading_of(m.buf.keys, model), key.lang, model),
    ensures
        ({
            let step = hook::key_step(m, c, key, prefs, model);
            &&& step.effect.switch matches Some(r) && r.target_lang == LANG_EN_US
            &&& step.memory.buf.in_snake_case
        }),
{
    laws::law_misfits_are_switched(
        Typed { in_snake_case: true, ..m.buf },
        key.lang,
        c.sensitivity,
        false,
        prefs,
        model,
    );
}

/// The undo hotkey, pressed right after a word was switched at its end, erases
/// what was put in its place together with the key that ended it, and brings
/// the word back, the key and the layout too.
pub proof fn law_undo_takes_a_switch_back(
    m: Memory,
    c: Configuration,
    vk: u16,
    lang: u16,
    prefs: Preferences,
    counts: bool,
    hk: HookHotkey,
    model: &LanguageModel,
)
    requires
        hook::word_end_step(m, c, vk, lang, prefs, counts, model).effect.switch is Some,
    ensures
        ({
            let there = hook::word_end_step(m, c, vk, lang, prefs, counts, model);
            let put = there.effect.switch->0;
            let back = hook::undo_step(there.memory, there.settings, hk);
            &&& back.effect.switch == Some(
                Replacement {
                    backspaces: put.new_word.len() + 1int,
                    new_word: put.original_word,
                    target_lang: lang,
                    original_word: Seq::empty(),
                },
            )
            &&& back.effect.boundary_vk == Some(vk)
            &&& back.memory.undo is None
        }),
{
}

/// The same for a word that was switched while it was being typed, where no
/// key has ended it yet.
pub proof fn law_undo_takes_a_switch_on_the_fly_back(
    m: Memory,
    c: Configuration,
    key: &KeyPress,
    prefs: Preferences,
    hk: HookHotkey,
    model: &LanguageModel,
)
    requires
        hook::letter_step(m, c, key, prefs, model).effect.switch is Some,
    ensures
        ({
            let there = hook::letter_step(m, c, key, prefs, model);
            let put = there.effect.switch->0;
            let back = hook::undo_step(there.memory, there.settings, hk);
            &&& back.effect.switch == Some(
                Replacement {
                    backspaces: put.new_word.len() as int,
                    new_word: put.original_word,
                    target_lang: key.lang,
                    original_word: Seq::empty(),
                },
            )
            &&& back.effect.boundary_vk is None
        }),
{
}

/// The same for a word that was switched by the hotkey, be it the current one or
/// the one before: the key that ended the latter is typed again too.
pub proof fn law_undo_takes_a_forced_switch_back(
    m: Memory,
    c: Configuration,
    lang: u16,
    prefs: Preferences,
    hk: HookHotkey,
    undo_hk: HookHotkey,
    model: &LanguageModel,
)
    requires
        hook::force_step(m, c, lang, prefs, hk, model).effect.switch is Some,
    ensures
        ({
            let there = hook::force_step(m, c, lang, prefs, hk, model);
            let put = there.effect.switch->0;
            let back = hook::undo_step(there.memory, there.settings, undo_hk);
            &&& back.effect.switch == Some(
                Replacement {
                    backspaces: put.new_word.len() + (if there.effect.boundary_vk is Some {
                        1int
                    } else {
                        0int
                    }),
                    new_word: put.original_word,
                    target_lang: lang,
                    original_word: Seq::empty(),
                },
            )
            &&& back.effect.boundary_vk == there.effect.boundary_vk
        }),
{
}

/// A word whose switch was taken back is never switched again under the same
/// layout, unless another language was chosen for it within one language.
pub proof fn law_undone_words_stay(
    m: Memory,
    c: Configuration,
    vk: u16,
    lang: u16,
    prefs: Preferences,
    counts: bool,
    hk: HookHotkey,
    context: Option<u16>,
    sensitivity: i32,
    on_the_fly: bool,
    model: &LanguageModel,
)
    requires
        layout::english(lang) || layout::russian(lang) || layout::ukrainian(lang),
        hook::word_end_step(m, c, vk, lang, prefs, counts, model).effect.switch matches Some(r)
            && layout::primary(r.target_lang) != layout::primary(lang),
    ensures
        ({
            let there = hook::word_end_step(m, c, vk, lang, prefs, counts, model);
            let back = hook::undo_step(there.memory, there.settings, hk);
            buffer::detection_of(
                m.buf,
                lang,
                sensitivity,
                on_the_fly,
                settings::preferences_of(back.settings, context),
                model,
            ) is None
        }),
{
    let keys = m.buf.keys;
    lemma_lower_word(keys, Layout::English);
    lemma_lower_word(keys, Layout::Russian);
    lemma_lower_word(keys, Layout::Ukrainian);
    let s = buffer::reading_of(keys, model);
    let there = hook::word_end_step(m, c, vk, lang, prefs, counts, model);
    let put = there.effect.switch->0;
    assert(put.original_word == s.on_screen(lang));
    laws::law_one_character_per_key(m.buf, lang, c.sensitivity, false, prefs, model);
    laws::law_readings_agree(keys, model);
    detection::lemma_target(
        s,
        buffer::shape_of(m.buf),
        lang,
        c.sensitivity,
        false,
        prefs,
        model,
    );
    assert(s.on_screen(lang).len() > 0);
    let back = hook::undo_step(there.memory, there.settings, hk);
    assert(back.settings.ignored_words.contains(s.on_screen(lang)));
}

/// The same for a word that was switched while it was being typed: as far as it
/// was typed then, it is never switched again.
pub proof fn law_words_undone_on_the_fly_stay(
    m: Memory,
    c: Configuration,
    key: &KeyPress,
    prefs: Preferences,
    hk: HookHotkey,
    context: Option<u16>,
    sensitivity: i32,
    on_the_fly: bool,
    model: &LanguageModel,
)
    requires
        layout::english(key.lang) || layout::russian(key.lang) || layout::ukrainian(key.lang),
        hook::letter_step(m, c, key, prefs, model).effect.switch matches Some(r)
            && layout::primary(r.target_lang) != layout::primary(key.lang),
    ensures
        ({
            let there = hook::letter_step(m, c, key, prefs, model);
            let back = hook::undo_step(there.memory, there.settings, hk);
            buffer::detection_of(
                hook::typed_on(m.buf, key),
                key.lang,
                sensitivity,
                on_the_fly,
                settings::preferences_of(back.settings, context),
                model,
            ) is None
        }),
{
    let b = hook::typed_on(m.buf, key);
    lemma_lower_word(b.keys, Layout::English);
    lemma_lower_word(b.keys, Layout::Russian);
    lemma_lower_word(b.keys, Layout::Ukrainian);
    let s = buffer::reading_of(b.keys, model);
    let there = hook::letter_step(m, c, key, prefs, model);
    let put = there.effect.switch->0;
    assert(put.original_word == s.on_screen(key.lang));
    laws::law_one_character_per_key(b, key.lang, c.sensitivity, true, prefs, model);
    laws::law_readings_agree(b.keys, model);
    detection::lemma_target(
        s,
        buffer::shape_of(b),
        key.lang,
        c.sensitivity,
        true,
        prefs,
        model,
    );
    assert(s.on_screen(key.lang).len() > 0);
    let back = hook::undo_step(there.memory, there.settings, hk);
    assert(back.settings.ignored_words.contains(s.on_screen(key.lang)));
}

/// The lower-case form of a word is how its keys spell it without capitals.
proof fn lemma_lower_form(keys: Seq<Entry>, l: Layout)
    ensures
        unicode::str_lowercase_of(typing::spelled(keys, l, true)) == typing::spelled(keys, l, false),
{
    lemma_lower_forms(keys, l);
    assert(typing::spelled(keys, l, true).map_values(|c: char| unicode::keyboard_lower(c))
        =~= typing::spelled(keys, l, false));
}

proof fn lemma_lower_forms(keys: Seq<Entry>, l: Layout)
    ensures
        typing::spelled(keys, l, true).len() == typing::spelled(keys, l, false).len(),
        forall|i: int|
            0 <= i < typing::spelled(keys, l, true).len() ==> {
                &&& unicode::keyboard_char(#[trigger] typing::spelled(keys, l, true)[i])
                &&& unicode::keyboard_lower(typing::spelled(keys, l, true)[i]) == typing::spelled(
                    keys,
                    l,
                    false,
                )[i]
            },
    decreases keys.len(),
{
    if keys.len() > 0 {
        let rest = keys.drop_last();
        lemma_lower_forms(rest, l);
        layout::law_translatable(keys.last().vk, true);
        layout::law_translatable(keys.last().vk, false);
        let before = typing::spelled(rest, l, true);
        let w = typing::spelled(keys, l, true);
        let lower = typing::spelled(keys, l, false);
        assert forall|i: int| 0 <= i < w.len() implies unicode::keyboard_char(#[trigger] w[i])
            && unicode::keyboard_lower(w[i]) == lower[i] by {
            if i < before.len() {
                assert(w[i] == before[i]);
            }
        }
    }
}

/// A word that was switched by the hotkey and taken back is never switched
/// again under the layout that it was typed in, although the switch was learnt.
pub proof fn law_forced_words_undone_stay(
    m: Memory,
    c: Configuration,
    lang: u16,
    prefs: Preferences,
    hk: HookHotkey,
    undo_hk: HookHotkey,
    word: Typed,
    again: Typed,
    active: u16,
    context: Option<u16>,
    sensitivity: i32,
    on_the_fly: bool,
    model: &LanguageModel,
)
    requires
        (if buffer::forced_of(m.buf, lang, prefs, model) is Some {
            word == m.buf
        } else {
            m.prev matches Some(p) && word == p.0
        }),
        buffer::forced_of(word, lang, prefs, model) is Some,
        again.keys == word.keys,
        buffer::layout_of(active) == buffer::layout_of(buffer::typed_under(word, lang)),
    ensures
        ({
            let there = hook::force_step(m, c, lang, prefs, hk, model);
            let back = hook::undo_step(there.memory, there.settings, undo_hk);
            buffer::detection_of(
                again,
                active,
                sensitivity,
                on_the_fly,
                settings::preferences_of(back.settings, context),
                model,
            ) is None
        }),
{
    let keys = word.keys;
    let l = buffer::layout_of(active);
    lemma_lower_form(keys, l);
    laws::law_one_character_per_key(word, lang, 0, false, prefs, model);
    let there = hook::force_step(m, c, lang, prefs, hk, model);
    let back = hook::undo_step(there.memory, there.settings, undo_hk);
    let s = buffer::reading_of(keys, model);
    assert(s.on_screen(active) == typing::spelled(keys, l, false));
    assert(there.effect.switch->0.original_word == typing::spelled(keys, l, true));
    lemma_lower_forms(keys, l);
    assert(s.on_screen(active).len() > 0);
    assert(back.settings.ignored_words.contains(s.on_screen(active)));
    laws::law_ignored_words_stay(
        again,
        active,
        sensitivity,
        on_the_fly,
        settings::preferences_of(back.settings, context),
        model,
    );
}

/// A word that was switched by the hotkey, be it the current one or the one
/// before, is switched the same way from then on, whatever dictionaries and
/// statistics say, unless it is one that the user wants left alone or has no
/// more than one key.
pub proof fn law_forced_switches_are_learnt(
    m: Memory,
    c: Configuration,
    lang: u16,
    prefs: Preferences,
    hk: HookHotkey,
    word: Typed,
    again: Typed,
    active: u16,
    context: Option<u16>,
    sensitivity: i32,
    on_the_fly: bool,
    model: &LanguageModel,
)
    requires
        (if buffer::forced_of(m.buf, lang, prefs, model) is Some {
            word == m.buf
        } else {
            m.prev matches Some(p) && word == p.0
        }),
        buffer::forced_of(word, lang, prefs, model) is Some,
        word.keys.len() >= 2,
        again.keys == word.keys,
        buffer::detectable(again, on_the_fly),
        active != buffer::forced_of(word, lang, prefs, model)->0.target_lang,
        !c.ignored_words.contains(buffer::reading_of(again.keys, model).on_screen(active)),
    ensures
        ({
            let step = hook::force_step(m, c, lang, prefs, hk, model);
            buffer::detection_of(
                again,
                active,
                sensitivity,
                on_the_fly,
                settings::preferences_of(step.settings, context),
                model,
            ) matches Some(r) && r.target_lang == step.effect.switch->0.target_lang
        }),
{
    let keys = word.keys;
    let s = buffer::reading_of(keys, model);
    lemma_lower_word(keys, Layout::English);
    laws::law_readings_agree(keys, model);
    laws::law_force_succeeds(word, lang, prefs, model);
    typing::lemma_spelled_len(keys, Layout::English, false);
    let step = hook::force_step(m, c, lang, prefs, hk, model);
    let after = settings::preferences_of(step.settings, context);
    assert(s.en.len() >= 2);
    assert(after.word_corrections.contains_key(s.en));
    laws::law_corrections_win(again, active, sensitivity, on_the_fly, after, model);
}

/// A word that nobody has counted yet is left alone for good once it was
/// counted to the limit, and not before; then it is counted no more.
pub proof fn law_counted_words_stay(m: Memory, c: Configuration, w: Seq<char>)
    requires
        !m.success_counts.contains_key(w),
        !c.adaptive_counts.contains_key(w),
        !c.ignored_words.contains(w),
    ensures
        ({
            let once = hook::counted(m, c, w);
            let twice = hook::counted(once.0, once.1, w);
            let thrice = hook::counted(twice.0, twice.1, w);
            &&& ADAPTIVE_LIMIT == 3
            &&& !once.1.ignored_words.contains(w)
            &&& !twice.1.ignored_words.contains(w)
            &&& thrice.1.ignored_words.contains(w)
            &&& !thrice.1.adaptive_counts.contains_key(w)
            &&& !thrice.0.success_counts.contains_key(w)
        }),
{
}

/// The count survives a restart: what the settings have counted is where the
/// count goes on.
pub proof fn law_count_survives_a_restart(m: Memory, c: Configuration, w: Seq<char>)
    requires
        hook::times_typed(m, c, w) + 1 < ADAPTIVE_LIMIT,
    ensures
        ({
            let saved = hook::counted(m, c, w).1;
            hook::times_typed(hook::blank_memory(), saved, w) == hook::times_typed(m, c, w) + 1
        }),
{
}

} // verus!
