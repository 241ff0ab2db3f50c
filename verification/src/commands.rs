//! What the user can do in the settings window.

use vstd::prelude::*;
use vstd::string::StringExecFns;

use crate::order::same_text;
use crate::settings::{self, lists, Configuration, Settings};
use crate::text::{self, push_decimal, trim};
use crate::unicode;
use crate::words::{self, WordMap};

verus! {

/// The title of the menu item that shows the settings.
pub open spec fn show_title(lang: Seq<char>) -> Seq<char> {
    if lang == "ru"@ {
        "Настройки"@
    } else if lang == "uk"@ {
        "Налаштування"@
    } else {
        "Settings"@
    }
}

/// The title of the menu item that ends the program.
pub open spec fn quit_title(lang: Seq<char>) -> Seq<char> {
    if lang == "ru"@ {
        "Выход"@
    } else if lang == "uk"@ {
        "Вихід"@
    } else {
        "Exit"@
    }
}

/// The titles of the two menu items in a language: that which shows the
/// settings, and that which ends the program.
pub fn update_tray_menu_language(lang: &str) -> (r: (&'static str, &'static str))
    ensures
        r.0@ == show_title(lang@),
        r.1@ == quit_title(lang@),
{
    if same_text(lang, "ru") {
        ("Настройки", "Выход")
    } else if same_text(lang, "uk") {
        ("Налаштування", "Вихід")
    } else {
        ("Settings", "Exit")
    }
}

/// The settings after the user has saved new ones: the place of the window and
/// what was learnt by switching stay; a word that is to be left alone is
/// counted no more.
pub open spec fn merged(current: Configuration, new: Configuration) -> Configuration {
    Configuration {
        window_x: current.window_x,
        window_y: current.window_y,
        window_width: current.window_width,
        window_height: current.window_height,
        word_corrections: current.word_corrections,
        adaptive_counts: current.adaptive_counts.remove_keys(new.ignored_words),
        ..new
    }
}

/// Drops the counts of some words.
fn forget_counts(counts: &mut WordMap<u32>, list: &Vec<String>)
    ensures
        forall|w: Seq<char>| #[trigger]
            final(counts)@.contains_key(w) <==> old(counts)@.contains_key(w) && !words::holds_word(
                list@,
                w,
            ),
        forall|w: Seq<char>| #[trigger]
            final(counts)@.contains_key(w) ==> final(counts)@[w] == old(counts)@[w],
{
    let mut i: usize = 0;
    while i < list.len()
        invariant
            i <= list@.len(),
            forall|w: Seq<char>| #[trigger]
                counts@.contains_key(w) <==> old(counts)@.contains_key(w) && !words::holds_word(
                    list@.take(i as int),
                    w,
                ),
            forall|w: Seq<char>| #[trigger]
                counts@.contains_key(w) ==> counts@[w] == old(counts)@[w],
        decreases list.len() - i,
    {
        let ghost before = counts@;
        counts.remove(list[i].as_str());
        proof {
            let done = list@.take(i as int);
            let more = list@.take(i + 1);
            assert forall|w: Seq<char>| words::holds_word(more, w) <==> words::holds_word(done, w)
                || w == list@[i as int]@ by {
                if words::holds_word(done, w) {
                    let k = choose|k: int| 0 <= k < done.len() && #[trigger] done[k]@ == w;
                    assert(more[k]@ == w);
                }
                if w == list@[i as int]@ {
                    assert(more[i as int]@ == w);
                }
                if words::holds_word(more, w) {
                    let k = choose|k: int| 0 <= k < more.len() && #[trigger] more[k]@ == w;
                    if k < i {
                        assert(done[k]@ == w);
                    }
                }
            }
        }
        i += 1;
    }
    assert(list@.take(list@.len() as int) =~= list@);
}

/// Takes new settings over. Tells whether the language of the menus has
/// changed.
pub fn save_settings(current: &mut Settings, new: Settings) -> (r: bool)
    ensures
        final(current)@ == merged(old(current)@, new@),
        r == (old(current)@.lang != new@.lang),
{
    let lang_changed: bool = !same_text(current.lang.as_str(), new.lang.as_str());
    let mut counts: WordMap<u32> = current.adaptive_counts.clone();
    let list: Vec<String> = new.ignored_words.to_words();
    forget_counts(&mut counts, &list);
    proof {
        assert(counts@ =~= old(current)@.adaptive_counts.remove_keys(new@.ignored_words));
    }
    let next = Settings {
        enabled: new.enabled,
        exceptions: new.exceptions,
        hotkey_enabled: new.hotkey_enabled,
        hotkey_vk: new.hotkey_vk,
        hotkey_win: new.hotkey_win,
        hotkey_ctrl: new.hotkey_ctrl,
        hotkey_shift: new.hotkey_shift,
        hotkey_alt: new.hotkey_alt,
        undo_hotkey_enabled: new.undo_hotkey_enabled,
        undo_hotkey_vk: new.undo_hotkey_vk,
        undo_hotkey_win: new.undo_hotkey_win,
        undo_hotkey_ctrl: new.undo_hotkey_ctrl,
        undo_hotkey_shift: new.undo_hotkey_shift,
        undo_hotkey_alt: new.undo_hotkey_alt,
        lang: new.lang,
        sensitivity: new.sensitivity,
        ignored_words: new.ignored_words,
        use_selection_replace: new.use_selection_replace,
        window_x: current.window_x,
        window_y: current.window_y,
        window_width: current.window_width,
        window_height: current.window_height,
        word_corrections: current.word_corrections.clone(),
        adaptive_counts: counts,
        preferred_cyrillic: new.preferred_cyrillic,
    };
    *current = next;
    lang_changed
}

/// The name of a program as it is listed: trimmed and in lower case.
pub open spec fn listed_name(app: Seq<char>) -> Seq<char> {
    unicode::str_lowercase_of(text::trimmed(app))
}

/// A list with one more name, unless that is empty or in the list already.
pub open spec fn with_name(list: Seq<Seq<char>>, name: Seq<char>) -> Seq<Seq<char>> {
    if name.len() > 0 && !list.contains(name) {
        list.push(name)
    } else {
        list
    }
}

/// Adds a name to a list, unless it is empty or in the list already. Tells
/// whether it was added.
pub fn add_name(list: &mut Vec<String>, name: String) -> (r: bool)
    ensures
        settings::texts(final(list)@) == with_name(settings::texts(old(list)@), name@),
        r == (name@.len() > 0 && !settings::texts(old(list)@).contains(name@)),
{
    if name.as_str().unicode_len() == 0 || lists(list, name.as_str()) {
        return false;
    }
    let ghost text = name@;
    list.push(name);
    assert(settings::texts(list@) =~= settings::texts(old(list)@).push(text));
    true
}

/// Adds a program in which nothing is switched. Tells whether it is new, and
/// the settings should be saved.
pub fn add_exception(settings: &mut Settings, app: &str) -> (r: bool)
    ensures
        final(settings)@ == (Configuration {
            exceptions: with_name(old(settings)@.exceptions, listed_name(app@)),
            ..old(settings)@
        }),
        r == (listed_name(app@).len() > 0 && !old(settings)@.exceptions.contains(
            listed_name(app@),
        )),
{
    let name: String = trim(app).as_str().to_lowercase();
    add_name(&mut settings.exceptions, name)
}

/// Takes a program out of those in which nothing is switched. Tells whether
/// there was one at that place, and the settings should be saved.
pub fn remove_exception(settings: &mut Settings, index: usize) -> (r: bool)
    ensures
        r == (index < old(settings)@.exceptions.len()),
        final(settings)@ == (if r {
            Configuration {
                exceptions: old(settings)@.exceptions.remove(index as int),
                ..old(settings)@
            }
        } else {
            old(settings)@
        }),
{
    if index < settings.exceptions.len() {
        let _ = settings.exceptions.remove(index);
        assert(settings@.exceptions =~= old(settings)@.exceptions.remove(index as int));
        true
    } else {
        false
    }
}

/// Switches the program on or off.
pub fn set_enabled(settings: &mut Settings, enabled: bool)
    ensures
        final(settings)@ == (Configuration { enabled, ..old(settings)@ }),
{
    settings.enabled = enabled;
}

/// What the window was moved to or resized to is kept.
pub fn keep_position(settings: &mut Settings, x: i32, y: i32)
    ensures
        final(settings)@ == (Configuration {
            window_x: Some(x),
            window_y: Some(y),
            ..old(settings)@
        }),
{
    settings.window_x = Some(x);
    settings.window_y = Some(y);
}

/// The size that the window was given is kept.
pub fn keep_size(settings: &mut Settings, width: u32, height: u32)
    ensures
        final(settings)@ == (Configuration {
            window_width: Some(width),
            window_height: Some(height),
            ..old(settings)@
        }),
{
    settings.window_width = Some(width);
    settings.window_height = Some(height);
}

/// The largest answer to a launch that stands for a failure.
pub const LAUNCH_ERROR_LIMIT: u64 = 32;

/// The outcome of a launch, given the answer to it.
pub fn launch_result(code: u64) -> (r: Result<(), String>)
    ensures
        r is Ok <==> code > LAUNCH_ERROR_LIMIT,
        r matches Err(e) ==> e@ == "ShellExecuteW failed with code "@ + text::decimal(code as nat),
{
    if code <= LAUNCH_ERROR_LIMIT {
        let mut e: String = "ShellExecuteW failed with code ".to_owned();
        push_decimal(&mut e, code);
        Err(e)
    } else {
        Ok(())
    }
}

/// Whatever is saved, a word that is to be left alone is counted no more, and
/// what was learnt by switching is kept.
pub proof fn law_saving_keeps_what_was_learnt(current: Configuration, new: Configuration)
    ensures
        merged(current, new).word_corrections == current.word_corrections,
        forall|w: Seq<char>| #[trigger]
            new.ignored_words.contains(w) ==> !merged(current, new).adaptive_counts.contains_key(w),
        forall|w: Seq<char>|
            !new.ignored_words.contains(w) && #[trigger] current.adaptive_counts.contains_key(w)
                ==> merged(current, new).adaptive_counts.contains_key(w) && merged(
                current,
                new,
            ).adaptive_counts[w] == current.adaptive_counts[w],
{
}

/// However often a program is added, it is listed once.
pub proof fn law_exceptions_are_listed_once(list: Seq<Seq<char>>, name: Seq<char>)
    requires
        list.no_duplicates(),
    ensures
        with_name(list, name).no_duplicates(),
        name.len() > 0 ==> with_name(list, name).contains(name),
        with_name(with_name(list, name), name) == with_name(list, name),
{
    if name.len() > 0 && !list.contains(name) {
        let more = list.push(name);
        assert(more[list.len() as int] == name);
        assert forall|i: int, j: int| 0 <= i < more.len() && 0 <= j < more.len() && i != j implies
            more[i] != more[j] by {
            if i < list.len() && j < list.len() {
                assert(list[i] != list[j]);
            } else if i < list.len() {
                assert(list.contains(list[i]));
            } else {
                assert(list.contains(list[j]));
            }
        }
    }
}

} // verus!
