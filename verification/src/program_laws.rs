//! What holds of the programs that are running, of the settings and of the icon
//! that shows the layout.

use vstd::prelude::*;

use crate::commands;
use crate::exceptions::{self, RunningApp};
use crate::hook::KeyPress;
use crate::key_laws;
use crate::layout::Layout;
use crate::order;
use crate::rule_laws::of_layout;
use crate::settings::{self, Configuration, PreferredCyrillic};
use crate::switcher;
use crate::text;
use crate::text_laws;
use crate::tray::{self, LangIcon};
use crate::unicode;
use crate::window::{self, Monitor};

verus! {

// -- Programs ----------------------------------------------------------------------------

/// The title of a program is that of the first of its windows; a program without a
/// window has none.
pub proof fn law_first_window_gives_the_title(apps: Seq<RunningApp>, exe: Seq<char>)
    ensures
        exceptions::first_of(apps, exe) matches Some(title) ==> exists|i: int|
            {
                &&& 0 <= i < apps.len()
                &&& (#[trigger] apps[i]).exe@ == exe
                &&& apps[i].title@ == title
                &&& forall|j: int| 0 <= j < i ==> (#[trigger] apps[j]).exe@ != exe
            },
        exceptions::first_of(apps, exe) is None ==> forall|i: int|
            0 <= i < apps.len() ==> (#[trigger] apps[i]).exe@ != exe,
    decreases apps.len(),
{
    if apps.len() > 0 {
        let rest = apps.drop_last();
        law_first_window_gives_the_title(rest, exe);
        match exceptions::first_of(rest, exe) {
            Some(title) => {
                let i = choose|i: int|
                    {
                        &&& 0 <= i < rest.len()
                        &&& (#[trigger] rest[i]).exe@ == exe
                        &&& rest[i].title@ == title
                        &&& forall|j: int| 0 <= j < i ==> (#[trigger] rest[j]).exe@ != exe
                    };
                assert(apps[i] == rest[i]);
                assert forall|j: int| 0 <= j < i implies (#[trigger] apps[j]).exe@ != exe by {
                    assert(rest[j] == apps[j]);
                }
            },
            None => {
                assert forall|j: int| 0 <= j < rest.len() implies (#[trigger] apps[j]).exe@
                    != exe by {
                    assert(rest[j] == apps[j]);
                }
                let last = apps.len() - 1;
                assert(apps[last] == apps.last());
            },
        }
    }
}

/// The name of a file is what comes after the last backslash of its path, or the
/// whole path where there is none.
pub proof fn law_file_names_follow_the_last_backslash(path: Seq<char>)
    ensures
        ({
            let name = exceptions::file_part(path);
            let from = path.len() - name.len();
            &&& 0 <= from
            &&& name == path.skip(from)
            &&& forall|i: int| 0 <= i < name.len() ==> #[trigger] name[i] != '\\'
            &&& from > 0 ==> path[from - 1] == '\\'
        }),
    decreases path.len(),
{
    let name = exceptions::file_part(path);
    if path.len() == 0 || path.last() == '\\' {
        assert(name =~= path.skip(path.len() as int));
    } else {
        let rest = path.drop_last();
        law_file_names_follow_the_last_backslash(rest);
        let from = path.len() - name.len();
        assert(name =~= path.skip(from));
        assert forall|i: int| 0 <= i < name.len() implies #[trigger] name[i] != '\\' by {
            if i < name.len() - 1 {
                assert(name[i] == exceptions::file_part(rest)[i]);
            }
        }
    }
}

// -- Settings ------------------------------------------------------------------------------

/// Saving takes over all that the user can set, and keeps the place of the window
/// and what was learnt by switching.
pub proof fn law_saving_takes_over_what_was_set(current: Configuration, new: Configuration)
    ensures
        ({
            let now = commands::merged(current, new);
            &&& now.enabled == new.enabled
            &&& now.exceptions == new.exceptions
            &&& now.hotkey_enabled == new.hotkey_enabled
            &&& now.hotkey == new.hotkey
            &&& now.undo_hotkey_enabled == new.undo_hotkey_enabled
            &&& now.undo_hotkey == new.undo_hotkey
            &&& now.lang == new.lang
            &&& now.sensitivity == new.sensitivity
            &&& now.ignored_words == new.ignored_words
            &&& now.use_selection_replace == new.use_selection_replace
            &&& now.preferred_cyrillic == new.preferred_cyrillic
            &&& now.window_x == current.window_x
            &&& now.window_y == current.window_y
            &&& now.window_width == current.window_width
            &&& now.window_height == current.window_height
            &&& now.word_corrections == current.word_corrections
            &&& commands::merged(now, new) == now
        }),
{
    let now = commands::merged(current, new);
    assert(commands::merged(now, new).adaptive_counts =~= now.adaptive_counts);
}

/// Whoever has set nothing has a program that is on, without exceptions, claims,
/// counts or a place for the window; no hotkey fires. Once they switch them on, the
/// hotkeys are Win with Shift and Win with Backspace.
pub proof fn law_factory_settings(key: &KeyPress)
    ensures
        ({
            let c = settings::factory_settings();
            &&& c.enabled
            &&& c.exceptions.len() == 0
            &&& key_laws::no_command(c, key)
            &&& c.switch_key() is None && c.undo_key() is None
            &&& c.hotkey.vk == 0x10 && c.hotkey.win && !c.hotkey.ctrl && !c.hotkey.shift
                && !c.hotkey.alt
            &&& c.undo_hotkey.vk == 0x08 && c.undo_hotkey.win && !c.undo_hotkey.ctrl
                && !c.undo_hotkey.shift && !c.undo_hotkey.alt
            &&& (Configuration { hotkey_enabled: true, ..c }).switch_key() == Some(c.hotkey)
            &&& (Configuration { undo_hotkey_enabled: true, ..c }).undo_key() == Some(c.undo_hotkey)
            &&& c.lang == "en"@
            &&& c.sensitivity == 1_000_000
            &&& !c.use_selection_replace
            &&& c.preferred_cyrillic == PreferredCyrillic::Auto
            &&& forall|w: Seq<char>| !(#[trigger] c.ignored_words.contains(w))
            &&& forall|w: Seq<char>| !(#[trigger] c.word_corrections.contains_key(w))
            &&& forall|w: Seq<char>| !(#[trigger] c.adaptive_counts.contains_key(w))
            &&& c.window_x is None && c.window_y is None && c.window_width is None
                && c.window_height is None
        }),
{
}

// -- The icon that shows the layout ------------------------------------------------------------

/// Each of the three languages has a flag of its own, and no other layout has one.
pub proof fn law_flags(lang: u16)
    ensures
        tray::icon_of(lang) == Some(LangIcon::En) <==> of_layout(lang, Layout::English),
        tray::icon_of(lang) == Some(LangIcon::Ru) <==> of_layout(lang, Layout::Russian),
        tray::icon_of(lang) == Some(LangIcon::Ua) <==> of_layout(lang, Layout::Ukrainian),
{
    crate::layout::law_one_language(lang);
}

/// A dimmed picture keeps its size and the opacity of each pixel; of each colour it
/// keeps thirty-five hundredths, without the fraction.
pub proof fn law_pictures_are_dimmed(rgba: Seq<u8>, i: int)
    requires
        0 <= i < rgba.len(),
    ensures
        ({
            let d = tray::dimmed_pixels(rgba);
            &&& d.len() == rgba.len()
            &&& i % 4 == 3 ==> d[i] == rgba[i]
            &&& i % 4 != 3 ==> d[i] * 100 <= rgba[i] * 35 < (d[i] + 1) * 100
        }),
{
}

/// The language of a layout handle is its low word, whatever stands above it.
pub proof fn law_handles_hold_their_language(hkl: usize, high: usize, lang: u16)
    requires
        hkl == high * 0x1_0000 + lang,
    ensures
        switcher::lang_of_handle(hkl) == lang,
{
}

// -- The settings window -------------------------------------------------------------------------

/// The upper left corner of a monitor lies on it, and so does every point less than
/// its width to the right and less than its height below; no other point does.
pub proof fn law_monitors_cover_their_points(m: Monitor, dx: int, dy: int, x: i32, y: i32)
    requires
        x == m.x + dx,
        y == m.y + dy,
    ensures
        window::on_monitor(x, y, m) <==> 0 <= dx && dx < m.width && 0 <= dy && dy < m.height,
{
}

// -- The list of running programs ------------------------------------------------------------------

/// The list of running programs holds every program but the own one, each once and in
/// the order of the names, with the title of its first window; nothing else.
pub proof fn law_running_programs_are_listed(
    list: Seq<RunningApp>,
    apps: Seq<RunningApp>,
    own: Seq<char>,
    i: int,
    j: int,
    k: int,
)
    requires
        exceptions::summary_of(list, apps, own),
        0 <= i < apps.len(),
        0 <= j < k < list.len(),
    ensures
        apps[i].exe@ != own ==> exists|n: int|
            0 <= n < list.len() && (#[trigger] list[n]).exe@ == apps[i].exe@,
        list[j].exe@ != own,
        exceptions::first_of(apps, list[j].exe@) == Some(list[j].title@),
        order::precedes(list[j].exe@, list[k].exe@),
        list[j].exe@ != list[k].exe@,
{
    assert(exceptions::lists_app(list, list[j].exe@, list[j].title@));
    order::lemma_precedes_asymmetric(list[j].exe@, list[k].exe@);
    if apps[i].exe@ != own {
        law_first_window_gives_the_title(apps, apps[i].exe@);
        let title = exceptions::first_of(apps, apps[i].exe@)->0;
        assert(exceptions::lists_app(list, apps[i].exe@, title));
        let n = choose|n: int|
            0 <= n < list.len() && (#[trigger] list[n]).exe@ == apps[i].exe@ && list[n].title@
                == title;
        assert(list[n].exe@ == apps[i].exe@);
    }
}

/// Of two different words one stands before the other: the one that ends first where
/// the other goes on, or that has the smaller character where they first differ.
pub proof fn law_words_are_ordered(common: Seq<char>, a: Seq<char>, b: Seq<char>)
    requires
        b.len() > 0,
        a.len() > 0 ==> a[0] < b[0],
    ensures
        order::precedes(common + a, common + b),
        !order::precedes(common + b, common + a),
{
    let k = common.len() as int;
    assert(order::diverges_at(common + a, common + b, k));
    order::lemma_precedes_asymmetric(common + a, common + b);
}

// -- Menus ---------------------------------------------------------------------------------------

/// The menus are in Russian or Ukrainian where that was set, and in English in any
/// other case.
pub proof fn law_menus_speak_the_language(lang: Seq<char>)
    ensures
        lang == "ru"@ ==> commands::show_title(lang) == "Настройки"@ && commands::quit_title(lang)
            == "Выход"@,
        lang == "uk"@ ==> commands::show_title(lang) == "Налаштування"@ && commands::quit_title(
            lang,
        ) == "Вихід"@,
        lang != "ru"@ && lang != "uk"@ ==> commands::show_title(lang) == "Settings"@
            && commands::quit_title(lang) == "Exit"@,
{
    reveal_strlit("ru");
    reveal_strlit("uk");
    assert("ru"@[0] != "uk"@[0]);
}

/// A program is listed by its name without white space around it and in lower case;
/// adding it twice, or with capitals, lists it once.
pub proof fn law_names_are_listed_alike(list: Seq<Seq<char>>, a: Seq<char>, b: Seq<char>)
    requires
        commands::listed_name(a) == commands::listed_name(b),
        commands::listed_name(a).len() > 0,
    ensures
        ({
            let once = commands::with_name(list, commands::listed_name(a));
            &&& once.contains(commands::listed_name(b))
            &&& commands::with_name(once, commands::listed_name(b)) == once
            &&& forall|w: Seq<char>| #[trigger]
                once.contains(w) <==> list.contains(w) || w == commands::listed_name(a)
        }),
{
    let name = commands::listed_name(a);
    let once = commands::with_name(list, name);
    if !list.contains(name) {
        assert(once[list.len() as int] == name);
        assert forall|w: Seq<char>| #[trigger] once.contains(w) <==> list.contains(w) || w
            == name by {
            if list.contains(w) {
                let i = choose|i: int| 0 <= i < list.len() && list[i] == w;
                assert(once[i] == w);
            }
        }
    }
}

/// A launch has failed just where the answer is 32 or less.
pub proof fn law_failed_launches(code: u64)
    ensures
        code > commands::LAUNCH_ERROR_LIMIT <==> code >= 33,
{
}

/// A name that is kept for a window is of use where it is not empty.
pub proof fn law_names_of_use(name: Seq<char>)
    ensures
        exceptions::usable(name) is Some <==> name.len() > 0,
        exceptions::usable(name) is Some ==> exceptions::usable(name)->0 == name,
{
}

/// The name that a program is listed by is in lower case, without white space at its
/// ends; a name that is so already stays.
pub proof fn law_listed_names(app: Seq<char>)
    requires
        forall|i: int| 0 <= i < app.len() ==> unicode::keyboard_char(#[trigger] app[i]),
    ensures
        ({
            let name = commands::listed_name(app);
            &&& forall|i: int|
                0 <= i < name.len() ==> unicode::keyboard_lower(#[trigger] name[i]) == name[i]
            &&& name.len() > 0 ==> !unicode::is_space(name[0]) && !unicode::is_space(name.last())
            &&& exists|from: int, to: int|
                {
                    &&& 0 <= from <= to <= app.len()
                    &&& name == (#[trigger] app.subrange(from, to)).map_values(
                        |c: char| unicode::keyboard_lower(c),
                    )
                    &&& forall|i: int| 0 <= i < from ==> unicode::is_space(#[trigger] app[i])
                    &&& forall|i: int| to <= i < app.len() ==> unicode::is_space(#[trigger] app[i])
                }
        }),
{
    let t = text::trimmed(app);
    text_laws::law_texts_are_trimmed(app);
    let (from, to) = choose|from: int, to: int|
        {
            &&& 0 <= from <= to <= app.len()
            &&& t == #[trigger] app.subrange(from, to)
            &&& forall|i: int| 0 <= i < from ==> unicode::is_space(#[trigger] app[i])
            &&& forall|i: int| to <= i < app.len() ==> unicode::is_space(#[trigger] app[i])
        };
    assert forall|i: int| 0 <= i < t.len() implies unicode::keyboard_char(#[trigger] t[i]) by {
        assert(t[i] == app[from + i]);
    }
    let name = commands::listed_name(app);
    assert(name == t.map_values(|c: char| unicode::keyboard_lower(c)));
    assert(app.subrange(from, to).map_values(|c: char| unicode::keyboard_lower(c)) == name);
}

} // verus!
