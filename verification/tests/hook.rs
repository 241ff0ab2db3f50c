//! What keys do, one after the other.

use rswitcher::bigrams::LanguageModel;
use rswitcher::bilingual;
use rswitcher::hook::{
    context_dominant_lang, count_success, handle_key, handle_mouse, is_excluded, is_key_press,
    process_key, record_context_lang, record_force_correction, save_undo, switch_direction_str,
    HookState, KeyEvent, KeyPress, Outcome,
};
use rswitcher::buffer::SwitchAction;
use rswitcher::keys::{
    hotkey_fires, hotkey_matches, is_boundary_vk, is_modifier_vk, is_navigation_vk, key_is_held,
    vk_matches, HookHotkey,
};
use rswitcher::settings::{PreferredCyrillic, Settings};
use rswitcher::words::WordSet;

const LANG_EN: u16 = 0x0409;
const LANG_RU: u16 = 0x0419;
const LANG_UA: u16 = 0x0422;

fn word_set(words: &[&str]) -> WordSet {
    let list: Vec<String> = words.iter().map(|w| w.to_string()).collect();
    WordSet::from_words(&list)
}

/// A model in which every pair of letters is as likely as any other; English
/// ones a little likelier, so that it has the better score.
fn model() -> LanguageModel {
    LanguageModel::new(
        vec![1_000_000_000; 26 * 26],
        vec![1_100_000_000; 32 * 32],
        vec![1_100_000_000; 40 * 40],
        word_set(&["bulk", "hello", "table"]),
        word_set(&["нужно"]),
        word_set(&[]),
    )
    .unwrap()
}

fn key(vk: u16, lang: u16) -> KeyPress {
    KeyPress { vk, lang, held: Vec::new(), shift: false, caps: false }
}

fn chord(vk: u16, lang: u16, held: &[u16]) -> KeyPress {
    KeyPress { vk, lang, held: held.to_vec(), shift: false, caps: false }
}

fn settings() -> Settings {
    let mut s = Settings::default();
    s.hotkey_enabled = true;
    s.undo_hotkey_enabled = true;
    s
}

fn press(state: &mut HookState, s: &mut Settings, k: &KeyPress) -> Outcome {
    assert!(state.has_room());
    handle_key(state, s, 7, &None, k, &model())
}

fn type_word(state: &mut HookState, s: &mut Settings, word: &str, lang: u16) {
    for c in word.chars() {
        let vk = match c {
            ';' => 0xBA,
            _ => c.to_ascii_uppercase() as u16,
        };
        let out = press(state, s, &key(vk, lang));
        assert!(!out.swallow, "{}", c);
    }
}

fn force(lang: u16) -> KeyPress {
    chord(0xA0, lang, &[0x5B, 0xA0])
}

fn undo(lang: u16) -> KeyPress {
    chord(0x08, lang, &[0x5B, 0x08])
}

#[test]
fn test_hotkey_matches_standard() {
    let hk = HookHotkey { vk: 0x20, win: false, ctrl: true, shift: false, alt: true };
    assert!(hotkey_matches(0x20, &hk, false, true, false, true, false));
    assert!(!hotkey_matches(0x20, &hk, false, false, false, true, false));
    assert!(!hotkey_matches(0x20, &hk, false, true, true, true, false));
}

#[test]
fn test_hotkey_matches_modifier_only() {
    let hk = HookHotkey { vk: 0x10, win: true, ctrl: false, shift: false, alt: false };
    assert!(hotkey_matches(0x10, &hk, true, false, true, false, false));
    assert!(hotkey_matches(0xA0, &hk, true, false, true, false, false));
    assert!(!hotkey_matches(0x10, &hk, false, false, true, false, false));
    assert!(!hotkey_matches(0x10, &hk, true, true, true, false, false));
}

#[test]
fn hotkey_fires_in_either_order() {
    let hk = HookHotkey { vk: 0x10, win: true, ctrl: false, shift: false, alt: false };
    let held = vec![0x5B, 0xA0];
    assert!(hotkey_fires(0xA0, &hk, &held));
    assert!(hotkey_fires(0x5B, &hk, &held));
    assert!(!hotkey_fires(0x5B, &hk, &vec![0x5B]));
    assert!(!hotkey_fires(0xA2, &hk, &held));
    assert!(!hotkey_fires(0xA0, &hk, &vec![0x5B, 0xA0, 0xA4]));
}

#[test]
fn keys_are_told_apart() {
    for vk in [0x5B, 0x5C, 0x10, 0xA0, 0xA1, 0x11, 0xA2, 0xA3, 0x12, 0xA4, 0xA5] {
        assert!(is_modifier_vk(vk), "{:#04x}", vk);
    }
    assert!(!is_modifier_vk(0x14));
    for vk in [0x21, 0x22, 0x23, 0x24, 0x25, 0x26, 0x27, 0x28, 0x2D, 0x2E] {
        assert!(is_navigation_vk(vk), "{:#04x}", vk);
    }
    assert!(!is_navigation_vk(0x29) && !is_navigation_vk(0x20));
    assert!(is_boundary_vk(0x20) && is_boundary_vk(0x0D) && is_boundary_vk(0x09));
    assert!(!is_boundary_vk(0x08));
    assert!(vk_matches(0xA1, 0x10) && vk_matches(0x10, 0x10) && !vk_matches(0x10, 0xA0));
    assert!(vk_matches(0xA3, 0x11) && vk_matches(0xA4, 0x12) && !vk_matches(0xA4, 0x11));
    assert!(key_is_held(0x10, &vec![0xA1]) && !key_is_held(0x10, &vec![0x10]));
    assert!(key_is_held(0x08, &vec![0x41, 0x08]) && !key_is_held(0x08, &vec![]));
}

#[test]
fn only_key_presses_of_the_user_call_for_attention() {
    assert!(is_key_press(0, false, 0, 0x0100));
    assert!(is_key_press(0, false, 0, 0x0104));
    assert!(!is_key_press(0, false, 0, 0x0101));
    assert!(!is_key_press(-1, false, 0, 0x0100));
    assert!(!is_key_press(0, true, 0x5357_4954, 0x0100));
    // Events that others inject are looked at.
    assert!(is_key_press(0, true, 1, 0x0100));
    assert!(!bilingual::hook::is_key_press(0, true, 0x0100));
    assert!(bilingual::hook::is_key_press(0, false, 0x0104));
}

#[test]
fn word_is_switched_at_its_end_and_taken_back() {
    let mut state = HookState::new();
    let mut s = settings();
    type_word(&mut state, &mut s, "bulk", LANG_RU);
    let out = press(&mut state, &mut s, &key(0x20, LANG_RU));
    assert!(out.swallow);
    assert_eq!(out.event, KeyEvent::Detect);
    assert_eq!(out.boundary_vk, Some(0x20));
    assert!(!out.save_settings);
    let action = out.switch.unwrap();
    assert_eq!((action.backspaces, action.new_word.as_str()), (4, "bulk"));
    assert_eq!(action.target_lang, LANG_EN);
    assert_eq!(out.snapshot.unwrap().ru_word, "игдл");
    assert_eq!(state.context_langs, vec![LANG_EN]);
    assert!(state.buf.is_empty());

    let out = press(&mut state, &mut s, &undo(LANG_EN));
    assert!(out.swallow && out.suppress_start_menu && out.save_settings);
    assert_eq!(out.event, KeyEvent::Undo);
    let back = out.switch.unwrap();
    assert_eq!((back.backspaces, back.new_word.as_str()), (5, "игдл"));
    assert_eq!(back.target_lang, LANG_RU);
    assert_eq!(out.boundary_vk, Some(0x20));
    assert!(s.ignored_words.contains("игдл"));

    // Once taken back, it stays.
    type_word(&mut state, &mut s, "bulk", LANG_RU);
    let out = press(&mut state, &mut s, &key(0x20, LANG_RU));
    assert!(out.switch.is_none() && !out.swallow);
    // And there is nothing to take back any more.
    let out = press(&mut state, &mut s, &undo(LANG_RU));
    assert!(out.swallow && out.switch.is_none() && !out.save_settings);
    assert_eq!(out.event, KeyEvent::Undo);
}

#[test]
fn undo_is_given_up_by_typing_on() {
    let mut state = HookState::new();
    let mut s = settings();
    type_word(&mut state, &mut s, "bulk", LANG_RU);
    assert!(press(&mut state, &mut s, &key(0x20, LANG_RU)).switch.is_some());
    assert!(state.undo.is_some());
    type_word(&mut state, &mut s, "h", LANG_EN);
    assert!(state.undo.is_none());
}

#[test]
fn forced_switch_is_learnt() {
    let mut state = HookState::new();
    let mut s = settings();
    type_word(&mut state, &mut s, "hello", LANG_EN);
    let out = press(&mut state, &mut s, &force(LANG_EN));
    assert!(out.swallow && out.suppress_start_menu && out.save_settings);
    assert_eq!(out.event, KeyEvent::Force);
    let action = out.switch.unwrap();
    assert_eq!(action.new_word, "руддщ");
    assert_eq!(s.word_corrections.get("hello"), Some(LANG_RU));
    assert!(state.buf.is_empty());
    let u = state.undo.as_ref().unwrap();
    assert_eq!((u.original_word.as_str(), u.erase_len), ("hello", 5));
    assert_eq!((u.restore_lang, u.boundary_vk), (LANG_EN, None));
    // From now on the same keys are switched at once.
    for c in "hell".chars() {
        assert!(!press(&mut state, &mut s, &key(c.to_ascii_uppercase() as u16, LANG_EN)).swallow);
    }
    let out = press(&mut state, &mut s, &key(0x4F, LANG_EN));
    assert!(out.swallow);
    assert_eq!(out.event, KeyEvent::OnTheFly);
    let action = out.switch.unwrap();
    assert_eq!((action.backspaces, action.new_word.as_str()), (4, "руддщ"));
    assert!(state.buf.has_switched);
    // The same choice again is no news.
    state.buf.clear();
    for c in "hell".chars() {
        press(&mut state, &mut s, &key(c.to_ascii_uppercase() as u16, LANG_EN));
    }
    state.buf.push(0x4F, false);
    assert!(!press(&mut state, &mut s, &force(LANG_EN)).save_settings);
}

#[test]
fn switch_on_the_fly_is_taken_back_without_a_boundary() {
    let mut state = HookState::new();
    let mut s = settings();
    s.word_corrections.insert("hello".to_string(), LANG_UA);
    for c in "hell".chars() {
        press(&mut state, &mut s, &key(c.to_ascii_uppercase() as u16, LANG_EN));
    }
    assert!(press(&mut state, &mut s, &key(0x4F, LANG_EN)).switch.is_some());
    let back = press(&mut state, &mut s, &undo(LANG_UA));
    assert_eq!(back.boundary_vk, None);
    let action = back.switch.unwrap();
    assert_eq!((action.backspaces, action.new_word.as_str()), (5, "hello"));
    assert_eq!(action.target_lang, LANG_EN);
}

#[test]
fn forced_switch_reaches_the_word_before() {
    let mut state = HookState::new();
    let mut s = settings();
    type_word(&mut state, &mut s, "hello", LANG_EN);
    assert!(press(&mut state, &mut s, &key(0x0D, LANG_EN)).switch.is_none());
    assert!(state.prev.is_some());
    // Modifiers keep it within reach.
    press(&mut state, &mut s, &chord(0x5B, LANG_EN, &[0x5B]));
    assert!(state.prev.is_some());
    let out = press(&mut state, &mut s, &force(LANG_EN));
    assert_eq!(out.event, KeyEvent::ForcePrevious);
    assert_eq!(out.boundary_vk, Some(0x0D));
    let action = out.switch.unwrap();
    assert_eq!((action.backspaces, action.new_word.as_str()), (6, "руддщ"));
    assert!(state.prev.is_none());
    let u = state.undo.as_ref().unwrap();
    assert_eq!((u.original_word.as_str(), u.erase_len), ("hello", 6));
    assert_eq!((u.restore_lang, u.boundary_vk), (LANG_EN, Some(0x0D)));
    // A second time there is nothing left.
    let out = press(&mut state, &mut s, &force(LANG_EN));
    assert!(out.swallow && out.switch.is_none());
    assert_eq!(out.event, KeyEvent::Force);
    assert!(state.undo.is_none());
    // Any other key makes it a thing of the past.
    type_word(&mut state, &mut s, "table", LANG_EN);
    press(&mut state, &mut s, &key(0x20, LANG_EN));
    assert!(state.prev.is_some());
    type_word(&mut state, &mut s, "h", LANG_EN);
    assert!(state.prev.is_none());
}

#[test]
fn forced_switches_are_taken_back() {
    let mut state = HookState::new();
    let mut s = settings();
    type_word(&mut state, &mut s, "hello", LANG_EN);
    assert!(press(&mut state, &mut s, &force(LANG_EN)).switch.is_some());
    let out = press(&mut state, &mut s, &undo(LANG_RU));
    assert!(out.save_settings);
    let back = out.switch.unwrap();
    assert_eq!((back.backspaces, back.new_word.as_str()), (5, "hello"));
    assert_eq!((back.target_lang, out.boundary_vk), (LANG_EN, None));
    // What was taken back stays, although the switch was learnt.
    assert!(s.ignored_words.contains("hello"));
    assert_eq!(s.word_corrections.get("hello"), Some(LANG_RU));
    type_word(&mut state, &mut s, "hello", LANG_EN);
    assert!(press(&mut state, &mut s, &key(0x20, LANG_EN)).switch.is_none());
    // The word before comes back with the key that ended it.
    type_word(&mut state, &mut s, "table", LANG_EN);
    press(&mut state, &mut s, &key(0x20, LANG_EN));
    assert!(press(&mut state, &mut s, &force(LANG_EN)).switch.is_some());
    let out = press(&mut state, &mut s, &undo(LANG_RU));
    let back = out.switch.unwrap();
    assert_eq!((back.backspaces, back.new_word.as_str()), (6, "table"));
    assert_eq!(out.boundary_vk, Some(0x20));
}

#[test]
fn names_with_underscores_stay_in_english() {
    let underscore = |lang: u16| KeyPress { shift: true, ..key(0xBD, lang) };
    let mut state = HookState::new();
    let mut s = settings();
    // A word that Russian knows, but part of a name.
    let nuzhno: [u16; 5] = [0x59, 0x45, 0xBA, 0x59, 0x4A];
    for vk in nuzhno {
        state.buf.push(vk, false);
    }
    state.last_window = 7;
    let out = press(&mut state, &mut s, &underscore(LANG_EN));
    assert!(out.switch.is_none() && !out.swallow);
    assert!(state.buf.is_empty() && state.buf.in_snake_case);
    // So is what comes after it, up to the end.
    type_word(&mut state, &mut s, "ye;yj", LANG_EN);
    assert!(state.buf.in_snake_case);
    assert!(press(&mut state, &mut s, &key(0x20, LANG_EN)).switch.is_none());
    assert!(!state.buf.in_snake_case);
    // A word of its own is switched, and so it is before a hyphen.
    for vk in nuzhno {
        state.buf.push(vk, false);
    }
    let out = press(&mut state, &mut s, &key(0xBD, LANG_EN));
    assert_eq!(out.switch.unwrap().new_word, "нужно");
    // A correction counts in a name too, and ends it.
    s.word_corrections.insert("ab".to_string(), LANG_RU);
    type_word(&mut state, &mut s, "ab", LANG_EN);
    let out = press(&mut state, &mut s, &underscore(LANG_EN));
    assert_eq!(out.switch.unwrap().target_lang, LANG_RU);
    assert!(!state.buf.in_snake_case);
    // An underscore alone makes no name.
    press(&mut state, &mut s, &underscore(LANG_EN));
    assert!(!state.buf.in_snake_case);
}

#[test]
fn names_with_underscores_leave_cyrillic() {
    let underscore = |lang: u16| KeyPress { shift: true, ..key(0xBD, lang) };
    for lang in [LANG_RU, LANG_UA] {
        let mut state = HookState::new();
        let mut s = settings();
        type_word(&mut state, &mut s, "xkj", lang);
        let out = press(&mut state, &mut s, &underscore(lang));
        assert!(out.swallow);
        assert_eq!(out.boundary_vk, Some(0xBD));
        let action = out.switch.unwrap();
        assert_eq!((action.target_lang, action.new_word.as_str()), (LANG_EN, "xkj"));
        assert!(state.buf.in_snake_case);
        // Nothing remains of it after a click, nor in another window.
        handle_mouse(&mut state, 0, 0x0201);
        assert!(!state.buf.in_snake_case);
        state.buf.in_snake_case = true;
        handle_key(&mut state, &mut s, 8, &None, &key(0x41, LANG_EN), &model());
        assert!(!state.buf.in_snake_case && state.buf.len() == 1);
        // Backspace takes the underscore back after the letters.
        state.buf.in_snake_case = true;
        handle_key(&mut state, &mut s, 8, &None, &key(0x08, LANG_EN), &model());
        assert!(state.buf.is_empty() && state.buf.in_snake_case);
        handle_key(&mut state, &mut s, 8, &None, &key(0x08, LANG_EN), &model());
        assert!(!state.buf.in_snake_case);
    }
    // A common word stays.
    let mut state = HookState::new();
    let mut s = settings();
    type_word(&mut state, &mut s, "ye;yj", LANG_RU);
    let out = press(&mut state, &mut s, &underscore(LANG_RU));
    assert!(out.switch.is_none() && !state.buf.in_snake_case);
}

#[test]
fn single_keys_are_not_learnt() {
    let mut s = settings();
    assert!(!record_force_correction(&mut s, "h", LANG_RU));
    assert!(!record_force_correction(&mut s, "", LANG_RU));
    assert!(record_force_correction(&mut s, "HE", LANG_RU));
    assert_eq!(s.word_corrections.get("he"), Some(LANG_RU));
    assert!(!record_force_correction(&mut s, "he", LANG_RU));
    assert!(record_force_correction(&mut s, "he", LANG_UA));
}

#[test]
fn words_typed_three_times_are_left_alone_for_good() {
    let mut state = HookState::new();
    let mut s = settings();
    // The English reading has the better score, but not by enough.
    for n in 1..=3u32 {
        type_word(&mut state, &mut s, "xkjq", LANG_RU);
        let out = press(&mut state, &mut s, &key(0x20, LANG_RU));
        assert!(out.switch.is_none());
        assert!(out.save_settings);
        if n < 3 {
            assert_eq!(s.adaptive_counts.get("члой"), Some(n));
            assert!(!s.ignored_words.contains("члой"));
        }
    }
    assert!(s.ignored_words.contains("члой"));
    assert_eq!(s.adaptive_counts.get("члой"), None);
    assert_eq!(state.success_counts.get("члой"), None);
    // Other keys that end a word count nothing.
    type_word(&mut state, &mut s, "wkjq", LANG_RU);
    let out = press(&mut state, &mut s, &key(0x31, LANG_RU));
    assert!(!out.save_settings && !out.swallow);
    assert_eq!(s.adaptive_counts.get("цлой"), None);
    // Nor does a word in which its own layout has the better score.
    type_word(&mut state, &mut s, "xkjq", LANG_EN);
    assert!(!press(&mut state, &mut s, &key(0x20, LANG_EN)).save_settings);
    // Nor a short one.
    type_word(&mut state, &mut s, "xkj", LANG_RU);
    assert!(!press(&mut state, &mut s, &key(0x20, LANG_RU)).save_settings);
}

#[test]
fn count_goes_on_after_a_restart() {
    let mut s = settings();
    s.adaptive_counts.insert("слово".to_string(), 2);
    let mut state = HookState::new();
    count_success(&mut state, &mut s, "слово");
    assert!(s.ignored_words.contains("слово"));
    s.adaptive_counts.insert("дело".to_string(), u32::MAX);
    count_success(&mut state, &mut s, "дело");
    assert!(s.ignored_words.contains("дело"));
    count_success(&mut state, &mut s, "тело");
    assert_eq!(state.success_counts.get("тело"), Some(1));
    assert_eq!(s.adaptive_counts.get("тело"), Some(1));
}

#[test]
fn context_is_what_two_of_three_words_share() {
    let dominant = |langs: &[u16]| context_dominant_lang(&langs.to_vec());
    assert_eq!(dominant(&[]), None);
    assert_eq!(dominant(&[LANG_RU]), None);
    assert_eq!(dominant(&[LANG_RU, LANG_RU]), Some(LANG_RU));
    assert_eq!(dominant(&[LANG_RU, LANG_EN]), None);
    assert_eq!(dominant(&[LANG_RU, LANG_EN, LANG_RU]), Some(LANG_RU));
    assert_eq!(dominant(&[LANG_RU, LANG_RU, LANG_EN]), Some(LANG_RU));
    assert_eq!(dominant(&[LANG_EN, LANG_RU, LANG_RU]), Some(LANG_RU));
    assert_eq!(dominant(&[LANG_EN, LANG_RU, LANG_UA]), None);
    assert_eq!(dominant(&[LANG_RU, LANG_RU, LANG_EN, LANG_EN]), Some(LANG_EN));
    let mut langs = vec![];
    for l in [1, 2, 3, 4, 5] {
        record_context_lang(&mut langs, l);
    }
    assert_eq!(langs, vec![2, 3, 4, 5]);
}

#[test]
fn new_window_starts_afresh() {
    let mut state = HookState::new();
    let mut s = settings();
    type_word(&mut state, &mut s, "bulk", LANG_RU);
    press(&mut state, &mut s, &key(0x20, LANG_RU));
    type_word(&mut state, &mut s, "hel", LANG_EN);
    assert_eq!(state.buf.len(), 3);
    handle_key(&mut state, &mut s, 8, &None, &key(0x4C, LANG_EN), &model());
    assert_eq!(state.buf.len(), 1);
    assert_eq!(state.last_window, 8);
    assert!(state.context_langs.is_empty() && state.undo.is_none());
}

#[test]
fn excepted_programs_and_switched_off() {
    let mut state = HookState::new();
    let mut s = settings();
    s.exceptions.push("game.exe".to_string());
    let game = Some("game.exe".to_string());
    assert!(is_excluded(&s, &game));
    assert!(!is_excluded(&s, &Some("other.exe".to_string())) && !is_excluded(&s, &None));
    type_word(&mut state, &mut s, "bulk", LANG_RU);
    let out = handle_key(&mut state, &mut s, 7, &game, &key(0x20, LANG_RU), &model());
    assert!(out.switch.is_none() && !out.swallow);
    assert!(state.buf.is_empty());
    s.enabled = false;
    type_word(&mut state, &mut s, "bulk", LANG_RU);
    assert!(state.buf.is_empty());
    assert!(press(&mut state, &mut s, &key(0x20, LANG_RU)).switch.is_none());
}

#[test]
fn navigation_ctrl_and_clicks_forget_the_word() {
    let mut state = HookState::new();
    let mut s = settings();
    type_word(&mut state, &mut s, "bul", LANG_RU);
    press(&mut state, &mut s, &key(0x25, LANG_RU));
    assert!(state.buf.is_empty());
    type_word(&mut state, &mut s, "bul", LANG_RU);
    press(&mut state, &mut s, &chord(0x43, LANG_RU, &[0xA2, 0x43]));
    assert!(state.buf.is_empty());
    type_word(&mut state, &mut s, "bul", LANG_RU);
    handle_mouse(&mut state, 0, 0x0200);
    assert_eq!(state.buf.len(), 3);
    handle_mouse(&mut state, -1, 0x0201);
    assert_eq!(state.buf.len(), 3);
    handle_mouse(&mut state, 0, 0x0201);
    assert!(state.buf.is_empty());
    for message in [0x0204, 0x0207, 0x00A1, 0x00A4] {
        type_word(&mut state, &mut s, "b", LANG_RU);
        handle_mouse(&mut state, 0, message);
        assert!(state.buf.is_empty());
    }
}

#[test]
fn backspace_takes_a_key_back() {
    let mut state = HookState::new();
    let mut s = settings();
    type_word(&mut state, &mut s, "bull", LANG_RU);
    press(&mut state, &mut s, &key(0x08, LANG_RU));
    assert_eq!(state.buf.len(), 3);
    type_word(&mut state, &mut s, "k", LANG_RU);
    assert!(press(&mut state, &mut s, &key(0x20, LANG_RU)).switch.is_some());
}

#[test]
fn capitals_come_from_shift_or_caps_lock() {
    let mut state = HookState::new();
    let mut s = settings();
    for (shift, caps) in [(true, false), (false, true), (true, true), (false, false)] {
        let k = KeyPress { vk: 0x41, lang: LANG_EN, held: vec![], shift, caps };
        press(&mut state, &mut s, &k);
    }
    let upper: Vec<bool> = state.buf.entries.iter().map(|e| e.is_upper).collect();
    assert_eq!(upper, vec![true, true, false, false]);
}

#[test]
fn other_keys_end_a_word_too() {
    let mut state = HookState::new();
    let mut s = settings();
    type_word(&mut state, &mut s, "bulk", LANG_RU);
    let out = press(&mut state, &mut s, &key(0x31, LANG_RU));
    assert!(out.swallow);
    assert_eq!(out.boundary_vk, Some(0x31));
}

#[test]
fn process_key_takes_the_configuration_as_it_is_given() {
    let mut state = HookState::new();
    let mut s = settings();
    let mut config = s.detection_config(None);
    config.preferred_cyrillic = PreferredCyrillic::Ua;
    for c in ['L', 'K', 'Z'] {
        process_key(&mut state, &mut s, &key(c as u16, LANG_EN), &config, &model());
    }
    let out = process_key(&mut state, &mut s, &key(0x20, LANG_EN), &config, &model());
    assert_eq!(out.switch.unwrap().target_lang, LANG_UA);
}

#[test]
fn direction_of_a_switch() {
    assert_eq!(switch_direction_str(LANG_RU, LANG_EN), "RU→EN");
    assert_eq!(switch_direction_str(LANG_UA, LANG_EN), "UA→EN");
    assert_eq!(switch_direction_str(LANG_EN, LANG_RU), "EN→RU");
    assert_eq!(switch_direction_str(LANG_EN, LANG_UA), "EN→UA");
}

#[test]
fn undo_counts_characters() {
    let action = SwitchAction {
        backspaces: 6,
        new_word: "привет".to_string(),
        target_lang: LANG_RU,
        original_word: "ghbdtn".to_string(),
    };
    let u = save_undo(&action, Some(0x20), LANG_EN);
    assert_eq!((u.erase_len, u.restore_lang, u.boundary_vk), (7, LANG_EN, Some(0x20)));
    assert_eq!(save_undo(&action, None, LANG_EN).erase_len, 6);
    let action = bilingual::buffer::SwitchAction {
        backspaces: 6,
        new_word: "привет".to_string(),
        to_ru: true,
        original_word: "ghbdtn".to_string(),
    };
    let u = bilingual::hook::save_undo(&action, true);
    assert_eq!((u.erase_len, u.restore_to_ru), (7, false));
    assert_eq!(u.original_word, "ghbdtn");
}

// -- Two languages ------------------------------------------------------------------------

/// English pairs are much likelier than Russian ones.
fn english_model() -> LanguageModel {
    LanguageModel::new(
        vec![1_000_000_000; 26 * 26],
        vec![5_000_000_000; 32 * 32],
        vec![5_000_000_000; 40 * 40],
        WordSet::new(),
        WordSet::new(),
        WordSet::new(),
    )
    .unwrap()
}

fn two_settings() -> bilingual::settings::Settings {
    let mut s = bilingual::settings::Settings::default();
    s.hotkey_enabled = true;
    s.undo_hotkey_enabled = true;
    s
}

fn press_two(
    state: &mut bilingual::hook::HookState,
    s: &bilingual::settings::Settings,
    k: &KeyPress,
) -> bilingual::hook::Outcome {
    bilingual::hook::handle_key(state, s, &None, k, &english_model())
}

#[test]
fn two_languages_switch_and_undo() {
    let mut state = bilingual::hook::HookState::new();
    let s = two_settings();
    for c in "note".chars() {
        let out = press_two(&mut state, &s, &key(c.to_ascii_uppercase() as u16, LANG_RU));
        assert!(!out.swallow);
    }
    let out = press_two(&mut state, &s, &key(0x20, LANG_RU));
    assert!(out.swallow);
    assert_eq!(out.boundary_vk, Some(0x20));
    assert_eq!(out.snapshot.unwrap().ru_word, "тщеу");
    let action = out.switch.unwrap();
    assert!(!action.to_ru);
    assert_eq!(action.new_word, "note");
    let out = press_two(&mut state, &s, &undo(LANG_EN));
    assert!(out.swallow && out.suppress_start_menu);
    let back = out.switch.unwrap();
    assert!(back.to_ru);
    assert_eq!((back.backspaces, back.new_word.as_str()), (5, "тщеу"));
    assert!(state.undo.is_none());
}

#[test]
fn two_languages_let_other_keys_through() {
    let mut state = bilingual::hook::HookState::new();
    let s = two_settings();
    for c in "note".chars() {
        press_two(&mut state, &s, &key(c.to_ascii_uppercase() as u16, LANG_RU));
    }
    let out = press_two(&mut state, &s, &key(0x31, LANG_RU));
    assert!(!out.swallow);
    assert_eq!(out.boundary_vk, None);
    assert!(out.switch.is_some());
    assert_eq!(state.undo.as_ref().unwrap().erase_len, 4);
    // A modifier leaves everything as it is.
    press_two(&mut state, &s, &key(0xA0, LANG_RU));
    assert!(state.undo.is_some());
    // A letter with Ctrl forgets it.
    press_two(&mut state, &s, &chord(0x43, LANG_RU, &[0xA3]));
    assert!(state.undo.is_none());
}

#[test]
fn two_languages_force() {
    let mut state = bilingual::hook::HookState::new();
    let mut s = two_settings();
    press_two(&mut state, &s, &key(0x48, LANG_EN));
    press_two(&mut state, &s, &key(0x49, LANG_EN));
    press_two(&mut state, &s, &key(0x08, LANG_EN));
    let out = press_two(&mut state, &s, &force(LANG_EN));
    let action = out.switch.unwrap();
    assert!(action.to_ru && out.swallow);
    assert_eq!(action.new_word, "р");
    assert!(state.buf.is_empty());
    // Only what was switched by itself can be taken back.
    assert!(state.undo.is_none());
    assert!(press_two(&mut state, &s, &undo(LANG_RU)).switch.is_none());
    // Nothing to switch: the key is swallowed all the same.
    let out = press_two(&mut state, &s, &force(LANG_EN));
    assert!(out.swallow && out.switch.is_none());
    // In an excepted program nothing happens.
    s.exceptions.push("game.exe".to_string());
    let game = Some("game.exe".to_string());
    press_two(&mut state, &s, &key(0x48, LANG_EN));
    let out =
        bilingual::hook::handle_key(&mut state, &s, &game, &force(LANG_EN), &english_model());
    assert!(!out.swallow && out.switch.is_none() && state.buf.is_empty());
}

#[test]
fn two_languages_hotkeys() {
    use_hotkey(0x10, true);
    use_hotkey(0x08, true);
    let plain = bilingual::settings::Hotkey { vk: 0x13, win: false };
    assert!(bilingual::hook::hotkey_fires(0x13, &plain, &vec![]));
    assert!(!bilingual::hook::hotkey_fires(0x13, &plain, &vec![0x5C]));
    assert!(!bilingual::hook::vk_matches(0x10, 0x10));
    assert!(bilingual::hook::vk_matches(0xA2, 0x11));
}

fn use_hotkey(vk: u16, win: bool) {
    let hk = bilingual::settings::Hotkey { vk, win };
    let side = if vk == 0x10 { 0xA1 } else { vk };
    assert!(bilingual::hook::hotkey_fires(side, &hk, &vec![0x5B]));
    assert!(bilingual::hook::hotkey_fires(0x5B, &hk, &vec![side]));
    assert!(!bilingual::hook::hotkey_fires(side, &hk, &vec![]));
}
