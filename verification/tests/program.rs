//! Everything around the words: the settings, the log, the icon, the events.

use rswitcher::benchmark::{extract_words, find_key, find_keys, simulate, tally};
use rswitcher::bigrams::LanguageModel;
use rswitcher::bilingual;
use rswitcher::buffer::SwitchAction;
use rswitcher::commands::{
    add_exception, keep_position, keep_size, launch_result, remove_exception, save_settings,
    set_enabled, update_tray_menu_language,
};
use rswitcher::exceptions::{
    enumerate_visible_apps, exe_name, is_active_window_elevated, note_window, Elevation, ExeCache,
    RunningApp,
};
use rswitcher::icon::{encode_dib, ico_file, make_icon_rgba, Image};
use rswitcher::layout::Layout;
use rswitcher::logger::{
    fmt_elapsed, get_windows_version, is_expired, local_time_str, log_file_name,
    log_keyboard_layouts, log_line, units_of_bytes, Elapsed, LocalTime, LogFile, LogLevel,
    LogQuota, KEEP_NANOS, QUOTA_BYTES,
};
use rswitcher::order::{place, same_text, Placement};
use rswitcher::settings::{PreferredCyrillic, Settings};
use rswitcher::switcher::{
    find_hkl, make_unicode_unit, make_vk, start_menu_inputs, switch_inputs, HeldModifiers, KeyInput,
};
use rswitcher::text::{push_hex, push_number, trim};
use rswitcher::tray::{
    foreground_lang, initial_icon, is_dimmed, lang_icon, make_app_icon_rgba, make_lang_icon, watch,
    LangIcon,
};
use rswitcher::typing::Entry;
use rswitcher::window::{is_position_visible, place_window, Monitor, Placing};
use rswitcher::words::{WordMap, WordSet};

fn words(list: &[&str]) -> Vec<String> {
    list.iter().map(|w| w.to_string()).collect()
}

// -- Words -------------------------------------------------------------------------------

#[test]
fn word_sets_hold_each_word_once() {
    let mut set = WordSet::from_words(&words(&["б", "а", "б", "aa", "a"]));
    assert_eq!(set.to_words(), words(&["a", "aa", "а", "б"]));
    assert!(set.contains("aa") && !set.contains("ab") && !set.contains(""));
    assert!(set.insert("ab".to_string()));
    assert!(!set.insert("ab".to_string()));
    set.remove("a");
    set.remove("nothing");
    assert_eq!(set.to_words(), words(&["aa", "ab", "а", "б"]));
    assert_eq!(set.clone().to_words(), set.to_words());
}

#[test]
fn word_maps_keep_the_last_value() {
    let mut map: WordMap<u16> = WordMap::new();
    map.insert("b".to_string(), 1);
    map.insert("a".to_string(), 2);
    map.insert("b".to_string(), 3);
    assert_eq!(map.get("b"), Some(3));
    assert_eq!(map.get("c"), None);
    map.remove("a");
    assert_eq!(map.to_words(), words(&["b"]));
    assert_eq!(map.clone().get("b"), Some(3));
}

#[test]
fn words_are_ordered_like_strings() {
    let list = ["", "a", "ab", "b", "я", "і", "\u{10000}"];
    for x in list {
        for y in list {
            let expected = if x < y {
                Placement::Before
            } else if x == y {
                Placement::Same
            } else {
                Placement::After
            };
            assert_eq!(place(x, y), expected, "{:?} {:?}", x, y);
            assert_eq!(same_text(x, y), x == y);
        }
    }
}

#[test]
fn texts_are_trimmed_and_numbers_written() {
    for s in ["", "  ", "a", " a b\t", "\u{a0}x\u{2003}", "\u{b}\u{c}y", "\u{85}z\u{200b}"] {
        assert_eq!(trim(s), s.trim());
    }
    let mut out = String::new();
    push_number(&mut out, 7, 3, '0');
    push_number(&mut out, 1234, 3, '0');
    push_number(&mut out, 0, 2, ' ');
    push_number(&mut out, u64::MAX, 1, ' ');
    push_hex(&mut out, 0x0422);
    push_hex(&mut out, 0xABCD);
    assert_eq!(out, "0071234 0184467440737095516150x04220xabcd");
}

// -- Settings ------------------------------------------------------------------------------

#[test]
fn factory_settings() {
    let s = Settings::default();
    assert!(s.enabled && !s.hotkey_enabled && !s.undo_hotkey_enabled);
    assert_eq!((s.hotkey_vk, s.hotkey_win), (0x10, true));
    assert_eq!((s.undo_hotkey_vk, s.undo_hotkey_win), (0x08, true));
    assert_eq!((s.lang.as_str(), s.sensitivity), ("en", 1_000_000));
    assert_eq!(s.preferred_cyrillic, PreferredCyrillic::Auto);
    assert!(s.hotkey().is_none() && s.undo_hotkey().is_none());
    let b = bilingual::settings::Settings::default();
    assert!(b.enabled && b.hotkey().is_none() && b.undo_hotkey().is_none());
    assert_eq!((b.hotkey_vk, b.undo_hotkey_vk), (0x10, 0x08));
}

#[test]
fn saving_keeps_what_was_learnt() {
    let mut current = Settings::default();
    current.word_corrections.insert("ghbdtn".to_string(), 0x0419);
    current.adaptive_counts.insert("foo".to_string(), 2);
    current.adaptive_counts.insert("bar".to_string(), 1);
    current.window_x = Some(5);
    let mut new = Settings::default();
    new.lang = "uk".to_string();
    new.sensitivity = 1_500_000;
    new.ignored_words.insert("foo".to_string());
    new.exceptions.push("a.exe".to_string());
    new.hotkey_alt = true;
    new.window_x = Some(99);
    new.preferred_cyrillic = PreferredCyrillic::Ua;
    assert!(save_settings(&mut current, new.clone()));
    assert_eq!(current.word_corrections.get("ghbdtn"), Some(0x0419));
    assert_eq!(current.adaptive_counts.get("foo"), None);
    assert_eq!(current.adaptive_counts.get("bar"), Some(1));
    assert_eq!(current.window_x, Some(5));
    assert_eq!((current.lang.as_str(), current.sensitivity), ("uk", 1_500_000));
    assert_eq!(current.exceptions, words(&["a.exe"]));
    assert!(current.hotkey_alt && current.ignored_words.contains("foo"));
    assert_eq!(current.preferred_cyrillic, PreferredCyrillic::Ua);
    assert!(!save_settings(&mut current, new));
}

#[test]
fn exceptions_are_added_and_removed() {
    let mut s = Settings::default();
    assert!(add_exception(&mut s, "  Game.EXE\n"));
    assert!(!add_exception(&mut s, "game.exe"));
    assert!(!add_exception(&mut s, " \t"));
    assert!(add_exception(&mut s, "ІГРА.exe"));
    assert_eq!(s.exceptions, words(&["game.exe", "ігра.exe"]));
    assert!(!remove_exception(&mut s, 2));
    assert!(remove_exception(&mut s, 0));
    assert_eq!(s.exceptions, words(&["ігра.exe"]));
    set_enabled(&mut s, false);
    assert!(!s.enabled);
    keep_position(&mut s, -5, 6);
    keep_size(&mut s, 7, 8);
    assert_eq!((s.window_x, s.window_y), (Some(-5), Some(6)));
    assert_eq!((s.window_width, s.window_height), (Some(7), Some(8)));
}

#[test]
fn lower_case_beyond_the_keyboard() {
    let mut s = Settings::default();
    add_exception(&mut s, "ÉTÉ.EXE");
    assert_eq!(s.exceptions, words(&["été.exe"]));
}

#[test]
fn menu_titles() {
    assert_eq!(update_tray_menu_language("ru"), ("Настройки", "Выход"));
    assert_eq!(update_tray_menu_language("uk"), ("Налаштування", "Вихід"));
    assert_eq!(update_tray_menu_language("en"), ("Settings", "Exit"));
    assert_eq!(update_tray_menu_language("RU"), ("Settings", "Exit"));
}

#[test]
fn launches_fail_up_to_a_limit() {
    assert_eq!(launch_result(33), Ok(()));
    assert_eq!(launch_result(32), Err("ShellExecuteW failed with code 32".to_string()));
    assert_eq!(launch_result(0), Err("ShellExecuteW failed with code 0".to_string()));
}

// -- Programs ---------------------------------------------------------------------------------

fn app(exe: &str, title: &str) -> RunningApp {
    RunningApp { exe: exe.to_string(), title: title.to_string() }
}

#[test]
fn running_programs_are_listed_once_and_in_order() {
    let raw = vec![
        app("b.exe", "first"),
        app("self.exe", "me"),
        app("a.exe", "only"),
        app("b.exe", "second"),
        app("c.exe", ""),
    ];
    let list = enumerate_visible_apps(&raw, "self.exe");
    let shown: Vec<(&str, &str)> =
        list.iter().map(|a| (a.exe.as_str(), a.title.as_str())).collect();
    assert_eq!(shown, vec![("a.exe", "only"), ("b.exe", "first"), ("c.exe", "")]);
}

#[test]
fn only_visible_windows_with_titles_are_noted() {
    let mut list = Vec::new();
    let exe = || Some("a.exe".to_string());
    note_window(&mut list, false, 5, exe(), "x".to_string());
    note_window(&mut list, true, 0, exe(), "x".to_string());
    note_window(&mut list, true, 1, None, "x".to_string());
    assert!(list.is_empty());
    note_window(&mut list, true, 1, exe(), "x".to_string());
    assert_eq!(list.len(), 1);
}

#[test]
fn names_of_programs() {
    assert_eq!(exe_name("C:\\Windows\\NotePad.EXE"), "notepad.exe");
    assert_eq!(exe_name("notepad.exe"), "notepad.exe");
    assert_eq!(exe_name("C:\\Windows\\"), "");
    assert_eq!(exe_name(""), "");
}

#[test]
fn name_of_the_last_window_is_kept() {
    let mut cache = ExeCache::new();
    assert!(!cache.knows(1));
    cache.keep(1, Some("a.exe".to_string()));
    assert!(cache.knows(1) && !cache.knows(2));
    assert_eq!(cache.name(1), Some("a.exe".to_string()));
    assert_eq!(cache.name(2), None);
    cache.keep(2, None);
    assert!(cache.knows(2) && !cache.knows(1));
    assert_eq!(cache.name(2), None);
}

#[test]
fn rights_of_the_foreground_program() {
    assert!(!is_active_window_elevated(Elevation::NoProgram));
    assert!(is_active_window_elevated(Elevation::Denied));
    assert!(is_active_window_elevated(Elevation::Asked { answered: true, elevated: true }));
    assert!(!is_active_window_elevated(Elevation::Asked { answered: false, elevated: true }));
    assert!(!is_active_window_elevated(Elevation::Asked { answered: true, elevated: false }));
}

// -- Icon and window --------------------------------------------------------------------------

#[test]
fn icons_are_dimmed() {
    let picture = vec![100u8, 200, 255, 255, 0, 1, 3, 7];
    assert_eq!(make_lang_icon(&picture, false), picture);
    assert_eq!(make_lang_icon(&picture, true), vec![35, 70, 89, 255, 0, 0, 1, 7]);
    assert_eq!(make_app_icon_rgba(32, &picture), picture);
}

#[test]
fn icon_follows_the_layout() {
    assert_eq!(lang_icon(0x0419), Some(LangIcon::Ru));
    assert_eq!(lang_icon(0x0809), Some(LangIcon::En));
    assert_eq!(lang_icon(0x0422), Some(LangIcon::Ua));
    assert_eq!(lang_icon(0x0407), None);
    assert_eq!(bilingual::tray::lang_icon(0x0422), None);
    assert_eq!(bilingual::tray::lang_icon(0x0419), Some(LangIcon::Ru));
    assert_eq!(bilingual::tray::lang_icon(0x0409), Some(LangIcon::En));
    assert_eq!(initial_icon(0x0422), LangIcon::En);
    assert_eq!(initial_icon(0x0419), LangIcon::Ru);
    let mut shown = None;
    assert_eq!(watch(&mut shown, Some(LangIcon::Ru), false), Some((LangIcon::Ru, false)));
    assert_eq!(watch(&mut shown, Some(LangIcon::Ru), false), None);
    assert_eq!(watch(&mut shown, None, true), None);
    assert_eq!(watch(&mut shown, Some(LangIcon::Ru), true), Some((LangIcon::Ru, true)));
    assert_eq!(shown, Some((LangIcon::Ru, true)));
    assert!(is_dimmed(true, true, false) && is_dimmed(false, false, true));
    assert!(!is_dimmed(false, true, true) && !is_dimmed(false, false, false));
}

#[test]
fn language_of_a_handle_is_its_low_word() {
    assert_eq!(foreground_lang(Some(0x0419_0422)), 0x0422);
    assert_eq!(foreground_lang(None), 0);
    let installed = vec![0x0409_0409, 0x0001_0419, 0x0419_0419];
    assert_eq!(find_hkl(&installed, 0x0419), Some(0x0001_0419));
    assert_eq!(find_hkl(&installed, 0x0422), None);
    assert_eq!(find_hkl(&vec![], 0x0409), None);
}

#[test]
fn window_is_put_where_it_can_be_seen() {
    let monitors = vec![
        Monitor { x: 0, y: 0, width: 1920, height: 1080 },
        Monitor { x: -1280, y: 100, width: 1280, height: 1024 },
    ];
    assert!(is_position_visible(0, 0, &monitors));
    assert!(is_position_visible(1919, 1079, &monitors));
    assert!(!is_position_visible(1920, 0, &monitors));
    assert!(!is_position_visible(0, 1080, &monitors));
    assert!(is_position_visible(-1280, 100, &monitors));
    assert!(!is_position_visible(-1, 99, &monitors));
    assert!(!is_position_visible(0, 0, &vec![]));
    assert_eq!(place_window(None, Some(1), &monitors), Placing::Keep);
    assert_eq!(place_window(Some(1), Some(1), &monitors), Placing::At { x: 1, y: 1 });
    assert_eq!(place_window(Some(5000), Some(1), &monitors), Placing::Centre);
}

// -- Events ------------------------------------------------------------------------------------

const NONE_HELD: HeldModifiers = HeldModifiers {
    lwin: false,
    rwin: false,
    lctrl: false,
    rctrl: false,
    lshift: false,
    rshift: false,
    lalt: false,
    ralt: false,
};

fn replace(backspaces: usize, new_word: &str) -> SwitchAction {
    SwitchAction {
        backspaces,
        new_word: new_word.to_string(),
        target_lang: 0x0419,
        original_word: String::new(),
    }
}

fn brief(events: &[KeyInput]) -> Vec<(u16, u16, u32)> {
    assert!(events.iter().all(|e| e.extra_info == 0x5357_4954));
    events.iter().map(|e| (e.vk, e.scan, e.flags)).collect()
}

#[test]
fn word_is_erased_and_typed() {
    let events = switch_inputs(&replace(2, "я"), Some(0x20), false, &NONE_HELD);
    let expected = vec![
        (0x08, 0, 0),
        (0x08, 0, 2),
        (0x08, 0, 0),
        (0x08, 0, 2),
        (0, 0x044F, 4),
        (0, 0x044F, 6),
        (0x20, 0, 0),
        (0x20, 0, 2),
    ];
    assert_eq!(brief(&events), expected);
    assert!(switch_inputs(&replace(0, ""), None, true, &NONE_HELD).is_empty());
    // A character beyond the first plane takes two units.
    let events = switch_inputs(&replace(0, "\u{1F600}"), None, false, &NONE_HELD);
    assert_eq!(brief(&events), vec![(0, 0xD83D, 4), (0, 0xD83D, 6), (0, 0xDE00, 4), (0, 0xDE00, 6)]);
}

#[test]
fn word_is_selected_and_erased() {
    let events = switch_inputs(&replace(5, ""), None, true, &NONE_HELD);
    let expected = vec![
        (0x11, 0, 0),
        (0x10, 0, 0),
        (0x25, 0, 0),
        (0x25, 0, 2),
        (0x10, 0, 2),
        (0x11, 0, 2),
        (0x08, 0, 0),
        (0x08, 0, 2),
    ];
    assert_eq!(brief(&events), expected);
}

#[test]
fn modifiers_are_let_go_and_held_again() {
    let all = HeldModifiers {
        lwin: true,
        rwin: true,
        lctrl: true,
        rctrl: true,
        lshift: true,
        rshift: true,
        lalt: true,
        ralt: true,
    };
    let events = brief(&switch_inputs(&replace(0, ""), None, false, &all));
    let mut expected = vec![(0xE8, 0, 0), (0xE8, 0, 2)];
    for vk in [0x5B, 0x5C, 0xA2, 0xA3, 0xA0, 0xA1, 0xA4, 0xA5] {
        expected.push((vk, 0, 2));
    }
    for vk in [0xA4, 0xA5, 0xA0, 0xA1, 0xA2, 0xA3, 0x5B, 0x5C] {
        expected.push((vk, 0, 0));
    }
    assert_eq!(events, expected);
    assert_eq!(brief(&start_menu_inputs()), vec![(0xE8, 0, 0), (0xE8, 0, 2)]);
    assert_eq!(make_vk(0x41, true).flags, 2);
    assert_eq!(make_unicode_unit(0x41, true).flags, 6);
}

// -- Log ----------------------------------------------------------------------------------------

#[test]
fn elapsed_time_is_written() {
    assert_eq!(fmt_elapsed(Elapsed { secs: 0, millis: 0 }), "  0:00.000");
    assert_eq!(fmt_elapsed(Elapsed { secs: 74, millis: 479 }), "  1:14.479");
    assert_eq!(fmt_elapsed(Elapsed { secs: 239, millis: 998 }), "  3:59.998");
    assert_eq!(fmt_elapsed(Elapsed { secs: 60_000, millis: 5 }), "1000:00.005");
}

#[test]
fn lines_are_written() {
    let time = LocalTime { year: 2026, month: 6, day: 24, hour: 10, minute: 12, second: 1, millis: 9 };
    assert_eq!(local_time_str(time), "2026-06-24 10:12:01.009");
    let m = rswitcher::logger::write(
        LogLevel::Info,
        "OS: Windows 11 Pro (Build 26200)".to_string(),
        Elapsed { secs: 0, millis: 6 },
        "main".to_string(),
        local_time_str(time),
    );
    assert_eq!(
        log_line(&m),
        "[2026-06-24 10:12:01.009] [  0:00.006] [main] [INFO] OS: Windows 11 Pro (Build 26200)"
    );
    let m = bilingual::logger::write(
        LogLevel::Error,
        "x".to_string(),
        Elapsed { secs: 1, millis: 20 },
    );
    assert_eq!(bilingual::logger::log_line(&m), "[  0:01.020] [ERROR] x");
    assert_eq!(LogLevel::Debug.as_str(), "DEBUG");
    assert!(LogLevel::Debug < LogLevel::Info && LogLevel::Info < LogLevel::Error);
    assert_eq!(log_file_name(1_750_000_000, 5678), "rswitcher_1750000000_5678.log");
}

#[test]
fn system_is_named() {
    let some = |s: &str| Some(s.to_string());
    assert_eq!(
        get_windows_version(true, &some(" Windows 11 Pro "), &some(" 26200 ")),
        "Windows 11 Pro (Build 26200)"
    );
    assert_eq!(get_windows_version(true, &None, &None), "Windows");
    assert_eq!(get_windows_version(true, &None, &some("1")), "Windows (Build 1)");
    assert_eq!(get_windows_version(false, &None, &None), "Windows (Unknown version)");
    assert_eq!(units_of_bytes(0), 0);
    assert_eq!(units_of_bytes(1), 0);
    assert_eq!(units_of_bytes(2), 0);
    assert_eq!(units_of_bytes(10), 4);
    assert_eq!(
        log_keyboard_layouts(&vec![0x0409, 0x0419, 0x0422]),
        "Active keyboard layouts: [0x0409 (English), 0x0419 (Russian), 0x0422 (Ukrainian)]"
    );
    assert_eq!(log_keyboard_layouts(&vec![0x0407]), "Active keyboard layouts: [0x0407]");
}

#[test]
fn old_log_files_expire() {
    let now = 10 * KEEP_NANOS;
    assert!(!is_expired(now - KEEP_NANOS, now));
    assert!(is_expired(now - KEEP_NANOS - 1, now));
    assert!(!is_expired(now, now));
    assert!(!is_expired(i64::MIN, i64::MIN));
}

#[test]
fn oldest_log_files_go_first() {
    let file = |size: u64, modified: i64| LogFile { size, modified };
    let files = vec![file(10, 30), file(20, 10), file(30, 20), file(5, 10)];
    let mut q = LogQuota::new(files, 25);
    assert_eq!(q.total, 65);
    assert_eq!(q.next_victim(), Some(1));
    q.note_attempt(true);
    assert_eq!(q.total, 45);
    assert_eq!(q.next_victim(), Some(3));
    // One that cannot be removed still takes its place.
    q.note_attempt(false);
    assert_eq!(q.total, 45);
    assert_eq!(q.next_victim(), Some(2));
    q.note_attempt(true);
    assert_eq!(q.total, 15);
    assert_eq!(q.next_victim(), None);
    // Where every removal succeeds, no more files go than have to.
    let mut q = LogQuota::new(vec![file(10, 3), file(20, 1), file(30, 2)], 40);
    let mut removed = vec![];
    while let Some(i) = q.next_victim() {
        removed.push(i);
        q.note_attempt(true);
    }
    assert_eq!((removed, q.total), (vec![1], 40));
    let q = LogQuota::new(vec![file(QUOTA_BYTES, 0)], QUOTA_BYTES);
    assert_eq!(q.next_victim(), None);
    let q = LogQuota::new(vec![file(u64::MAX, 1), file(u64::MAX, 0)], 0);
    assert_eq!(q.next_victim(), Some(1));
}

// -- The window of the two-language switcher ------------------------------------------------------

#[test]
fn hotkeys_are_named() {
    let name = bilingual::settings::vk_display_name;
    assert_eq!(name(0x10, true), "Win+Shift");
    assert_eq!(name(0xA1, false), "Shift");
    assert_eq!(name(0x08, true), "Win+Backspace");
    assert_eq!(name(0x13, false), "Pause");
    assert_eq!(name(0x91, false), "Scroll Lock");
    assert_eq!(name(0x14, false), "Caps Lock");
    assert_eq!(name(0x7B, false), "F12");
    assert_eq!(name(0x7A, false), "F11");
    assert_eq!(name(0x79, false), "F10");
    assert_eq!(name(0x78, false), "F9");
    assert_eq!(name(0x41, true), "Win+Custom");
}

#[test]
fn window_is_shown_and_hidden() {
    let mut s = bilingual::window::FrameState { first_frame: true, window_visible: false };
    let a = bilingual::window::frame(&mut s, false, false);
    assert!(a.begin_hidden && !a.draw && !a.focus);
    let a = bilingual::window::frame(&mut s, true, false);
    assert!(!a.begin_hidden && a.draw && a.focus && a.show_requested);
    let a = bilingual::window::frame(&mut s, true, false);
    assert!(a.draw && !a.focus);
    let a = bilingual::window::frame(&mut s, true, true);
    assert!(a.hide_on_close && !a.draw && !a.show_requested);
    let a = bilingual::window::frame(&mut s, true, false);
    assert!(a.focus);
}

#[test]
fn exceptions_of_two_languages() {
    let mut s = bilingual::settings::Settings::default();
    assert_eq!(bilingual::window::add_typed(&mut s, "  "), (false, false));
    assert_eq!(bilingual::window::add_typed(&mut s, " A.exe "), (true, true));
    assert_eq!(bilingual::window::add_typed(&mut s, "a.EXE"), (true, false));
    assert!(bilingual::window::add_picked(&mut s, "b.exe".to_string()));
    assert!(!bilingual::window::add_picked(&mut s, "a.exe".to_string()));
    bilingual::window::remove_exception(&mut s, 0);
    assert_eq!(s.exceptions, words(&["b.exe"]));
}

#[test]
fn titles_are_cut() {
    let long = "x".repeat(50);
    assert_eq!(bilingual::window::short_title(&long), "x".repeat(38));
    assert_eq!(bilingual::window::short_title("short"), "short");
    let cyrillic = "я".repeat(30);
    assert_eq!(bilingual::window::short_title(&cyrillic), "я".repeat(19));
    assert_eq!(bilingual::window::short_title(&"я".repeat(19)), "я".repeat(19));
}

// -- Benchmark ---------------------------------------------------------------------------------------

fn flat_model() -> LanguageModel {
    LanguageModel::new(
        vec![9_000_000_000; 26 * 26],
        vec![1_000_000_000; 32 * 32],
        vec![8_000_000_000; 40 * 40],
        WordSet::from_words(&words(&["hello"])),
        WordSet::new(),
        WordSet::new(),
    )
    .unwrap()
}

#[test]
fn words_are_taken_out_of_a_text() {
    assert_eq!(
        extract_words("One, two-three a\n4 five5 été\r\nсім", 100),
        words(&["One", "twothree", "five", "été", "сім"])
    );
    assert_eq!(extract_words("aa bb cc", 2), words(&["aa", "bb"]));
    assert_eq!(extract_words("aa bb cc", 0), words(&["aa"]));
    assert!(extract_words("", 5).is_empty());
    assert!(extract_words(" a . b", 5).is_empty());
    assert_eq!(extract_words("\u{2003}aa\u{a0}bb", 5), words(&["aa", "bb"]));
}

#[test]
fn keys_of_characters() {
    assert_eq!(find_key(Layout::English, 'a'), Some(Entry { vk: 0x41, is_upper: false }));
    assert_eq!(find_key(Layout::Russian, 'Й'), Some(Entry { vk: 0x51, is_upper: true }));
    assert_eq!(find_key(Layout::Ukrainian, 'ї'), Some(Entry { vk: 0xDD, is_upper: false }));
    // Punctuation has no case: the upper one comes last.
    assert_eq!(find_key(Layout::English, ';'), Some(Entry { vk: 0xBA, is_upper: true }));
    assert_eq!(find_key(Layout::English, '1'), None);
    assert_eq!(find_key(Layout::Ukrainian, 'ы'), None);
    assert_eq!(find_keys(Layout::Russian, "да").unwrap().len(), 2);
    assert!(find_keys(Layout::Russian, "д1").is_none());
    assert_eq!(find_keys(Layout::Russian, "").unwrap().len(), 0);
}

#[test]
fn words_are_typed_and_counted() {
    let m = flat_model();
    let keys = find_keys(Layout::Russian, "быстро").unwrap();
    let action = simulate(&keys, &m).unwrap();
    // Switched on the fly, at the fourth key.
    assert_eq!((action.backspaces, action.new_word.as_str()), (3, "быст"));
    let t = tally(&words(&["быстро", "стол", "да", "дом1", "ы"]), Layout::Russian, &m);
    // The key of the single letter gives a Ukrainian word.
    assert_eq!((t.total, t.to_ru, t.to_ua, t.kept), (4, 3, 1, 0));
    let t = tally(&words(&["hello", "the", "été"]), Layout::English, &m);
    assert_eq!((t.total, t.kept), (2, 2));
    let t = tally(&words(&["він", "кіт"]), Layout::Ukrainian, &m);
    assert_eq!((t.total, t.to_ua, t.kept), (2, 1, 1));
}

// -- Icon ---------------------------------------------------------------------------

#[test]
fn picture_of_one_pixel() {
    let file = encode_dib(&vec![10, 20, 30, 40], 1);
    let mut expected: Vec<u8> = vec![40, 0, 0, 0, 1, 0, 0, 0, 2, 0, 0, 0, 1, 0, 32, 0];
    expected.extend_from_slice(&[0u8; 24]);
    // Blue comes first; the mask is one row of four bytes.
    expected.extend_from_slice(&[30, 20, 10, 40, 0, 0, 0, 0]);
    assert_eq!(file, expected);
}

#[test]
fn rows_of_a_picture_begin_at_the_bottom() {
    let rgba: Vec<u8> = (1..=16).collect();
    let file = encode_dib(&rgba, 2);
    assert_eq!(&file[40..56], &[11, 10, 9, 12, 15, 14, 13, 16, 3, 2, 1, 4, 7, 6, 5, 8]);
    assert_eq!(file.len(), 40 + 16 + 8);
}

#[test]
fn pictures_without_pixels() {
    assert_eq!(encode_dib(&vec![], 0).len(), 40);
    assert_eq!(ico_file(&vec![]), vec![0, 0, 1, 0, 0, 0]);
    assert!(make_icon_rgba(0, &vec![]).is_empty());
}

#[test]
fn entries_tell_where_pictures_begin() {
    let images = vec![
        Image { size: 1, rgba: vec![1, 2, 3, 4] },
        Image { size: 2, rgba: vec![9; 16] },
    ];
    let file = ico_file(&images);
    assert_eq!(&file[0..6], &[0, 0, 1, 0, 2, 0]);
    // 48 bytes from 38 on, 64 bytes from 86 on.
    assert_eq!(&file[6..22], &[1, 1, 0, 0, 1, 0, 32, 0, 48, 0, 0, 0, 38, 0, 0, 0]);
    assert_eq!(&file[22..38], &[2, 2, 0, 0, 1, 0, 32, 0, 64, 0, 0, 0, 86, 0, 0, 0]);
    assert_eq!(&file[38..86], &encode_dib(&images[0].rgba, 1)[..]);
    assert_eq!(&file[86..], &encode_dib(&images[1].rgba, 2)[..]);
}

#[test]
fn large_sides_are_written_as_zero() {
    let file = ico_file(&vec![Image { size: 256, rgba: vec![0; 256 * 256 * 4] }]);
    assert_eq!(&file[6..8], &[0, 0]);
    assert_eq!(&file[26..32], &[0, 1, 0, 0, 0, 2]);
}

#[test]
fn letters_stand_in_the_middle_of_the_icon() {
    let rgba = make_icon_rgba(16, &vec![Some(255); 256]);
    let row = |y: usize| -> String {
        (0..16).map(|x: usize| if rgba[(y * 16 + x) * 4] == 0xd0 { '#' } else { '.' }).collect()
    };
    assert_eq!(row(3), "................");
    assert_eq!(row(4), "..###....###....");
    assert_eq!(row(5), "..#..#..#.......");
    assert_eq!(row(6), "..###....###....");
    assert_eq!(row(7), "..#.#.......#...");
    assert_eq!(row(8), "..#..#...###....");
    assert_eq!(row(9), "................");
    assert_eq!(&rgba[0..4], &[0x1a, 0x2e, 0x6c, 255]);
    assert_eq!(&make_icon_rgba(1, &vec![None])[..], &[0, 0, 0, 0]);
    assert_eq!(&make_icon_rgba(1, &vec![Some(7)])[..], &[0xd0, 0xd8, 0xe0, 7]);
}
