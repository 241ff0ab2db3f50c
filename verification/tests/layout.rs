//! The three layouts and the languages of layout handles.

use rswitcher::layout::{
    en_to_ru, en_to_ua, hkl_is_english, hkl_is_russian, hkl_is_ukrainian, is_translatable_vk,
    ru_to_en, vk_to_char, vk_to_en, vk_to_ru, vk_to_ua, Layout, MAP,
};

#[test]
fn en_to_ru_spot_checks() {
    assert_eq!(en_to_ru('n'), Some('т'));
    assert_eq!(en_to_ru('f'), Some('а'));
    assert_eq!(en_to_ru('q'), Some('й'));
    assert_eq!(en_to_ru('['), Some('х'));
    assert_eq!(en_to_ru('.'), Some('ю'));
}

#[test]
fn en_to_ru_preserves_case() {
    assert_eq!(en_to_ru('N'), Some('Т'));
    assert_eq!(en_to_ru('A'), Some('Ф'));
}

#[test]
fn full_map_round_trips() {
    for &(en, ru) in MAP.iter() {
        assert_eq!(en_to_ru(en), Some(ru), "en_to_ru({:?}) failed", en);
        assert_eq!(ru_to_en(ru), Some(en), "ru_to_en({:?}) failed", ru);
    }
}

#[test]
fn en_to_ru_returns_none_for_unmapped() {
    assert!(en_to_ru('1').is_none());
    assert!(en_to_ru('!').is_none());
    assert!(en_to_ru(' ').is_none());
}

#[test]
fn vk_to_en_letter_keys() {
    assert_eq!(vk_to_en(0x41, false), Some('a'));
    assert_eq!(vk_to_en(0x5A, false), Some('z'));
    assert_eq!(vk_to_en(0x4E, false), Some('n'));
}

#[test]
fn vk_to_en_uppercase() {
    assert_eq!(vk_to_en(0x4E, true), Some('N'));
    assert_eq!(vk_to_en(0x41, true), Some('A'));
}

#[test]
fn vk_to_en_punctuation() {
    assert_eq!(vk_to_en(0xBA, false), Some(';'));
    assert_eq!(vk_to_en(0xBC, false), Some(','));
    assert_eq!(vk_to_en(0xBE, false), Some('.'));
    assert_eq!(vk_to_en(0xDB, false), Some('['));
    assert_eq!(vk_to_en(0xDD, false), Some(']'));
}

#[test]
fn vk_to_en_returns_none_for_digits_and_specials() {
    assert!(vk_to_en(0x30, false).is_none());
    assert!(vk_to_en(0x20, false).is_none());
    assert!(vk_to_en(0x0D, false).is_none());
}

#[test]
fn vk_to_ru_letter_keys() {
    assert_eq!(vk_to_ru(0x4E, false), Some('т'));
    assert_eq!(vk_to_ru(0x46, false), Some('а'));
    assert_eq!(vk_to_ru(0x51, false), Some('й'));
}

#[test]
fn vk_to_ru_uppercase() {
    assert_eq!(vk_to_ru(0x4E, true), Some('Т'));
}

#[test]
fn vk_to_en_and_vk_to_ru_agree_with_map() {
    for &(en, ru) in MAP.iter() {
        if !en.is_ascii_alphabetic() {
            continue;
        }
        let vk = en.to_ascii_uppercase() as u16;
        assert_eq!(vk_to_en(vk, false), Some(en), "vk_to_en({:#04x}) should be {:?}", vk, en);
        assert_eq!(vk_to_ru(vk, false), Some(ru), "vk_to_ru({:#04x}) should be {:?}", vk, ru);
    }
}

#[test]
fn translatable_vk_accepts_letters() {
    assert!(is_translatable_vk(0x41));
    assert!(is_translatable_vk(0x5A));
    assert!(is_translatable_vk(0x4E));
}

#[test]
fn translatable_vk_accepts_mapped_punctuation() {
    assert!(is_translatable_vk(0xBA));
    assert!(is_translatable_vk(0xBC));
    assert!(is_translatable_vk(0xBE));
    assert!(is_translatable_vk(0xDB));
    assert!(is_translatable_vk(0xDD));
    assert!(is_translatable_vk(0xDE));
}

#[test]
fn translatable_vk_rejects_specials() {
    assert!(!is_translatable_vk(0x20));
    assert!(!is_translatable_vk(0x0D));
    assert!(!is_translatable_vk(0x08));
    assert!(!is_translatable_vk(0x30));
    assert!(!is_translatable_vk(0x31));
}

#[test]
fn hkl_english_variants() {
    assert!(hkl_is_english(0x0409));
    assert!(hkl_is_english(0x0809));
    assert!(hkl_is_english(0x0C09));
    assert!(!hkl_is_english(0x0419));
    assert!(!hkl_is_english(0x0000));
}

#[test]
fn hkl_russian() {
    assert!(hkl_is_russian(0x0419));
    assert!(!hkl_is_russian(0x0409));
}

#[test]
fn hkl_ukrainian() {
    assert!(hkl_is_ukrainian(0x0422));
    assert!(!hkl_is_ukrainian(0x0419));
    assert!(!hkl_is_russian(0x0422));
}

#[test]
fn ukrainian_differs_on_three_keys() {
    assert_eq!(en_to_ua('s'), Some('і'));
    assert_eq!(en_to_ua('S'), Some('І'));
    assert_eq!(en_to_ua(']'), Some('ї'));
    assert_eq!(en_to_ua('\''), Some('є'));
    assert_eq!(en_to_ua('q'), Some('й'));
    assert_eq!(en_to_ua('1'), None);
    for vk in 0..=0xFFu16 {
        let same = vk_to_ru(vk, false) == vk_to_ua(vk, false);
        assert_eq!(same, !matches!(vk, 0x53 | 0xDD | 0xDE), "{:#04x}", vk);
    }
}

#[test]
fn layouts_translate_the_same_keys() {
    for vk in 0..=0x1FFu16 {
        for upper in [false, true] {
            let known = is_translatable_vk(vk);
            assert_eq!(vk_to_char(Layout::English, vk, upper).is_some(), known);
            assert_eq!(vk_to_char(Layout::Russian, vk, upper).is_some(), known);
            assert_eq!(vk_to_char(Layout::Ukrainian, vk, upper).is_some(), known);
        }
    }
}

#[test]
fn characters_beyond_the_keyboard_are_looked_up_in_lower_case() {
    // The Kelvin sign has a lower case on the keyboard.
    assert_eq!(en_to_ru('\u{212A}'), Some('Л'));
    // Its own lower case has none.
    assert_eq!(ru_to_en('Ω'), None);
    assert_eq!(ru_to_en('Й'), Some('Q'));
}
