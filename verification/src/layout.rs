//! The English, Russian and Ukrainian layouts of a QWERTY keyboard, and the
//! layout that a Windows language identifier stands for.

use vstd::prelude::*;

use crate::unicode::{self, first_lowercase, first_uppercase};

verus! {

/// What a key gives in the English and in the Russian layout, both in lower case.
pub const MAP: [(char, char); 32] = [
    ('q', 'й'), ('w', 'ц'), ('e', 'у'), ('r', 'к'), ('t', 'е'),
    ('y', 'н'), ('u', 'г'), ('i', 'ш'), ('o', 'щ'), ('p', 'з'),
    ('[', 'х'), (']', 'ъ'), ('a', 'ф'), ('s', 'ы'), ('d', 'в'),
    ('f', 'а'), ('g', 'п'), ('h', 'р'), ('j', 'о'), ('k', 'л'),
    ('l', 'д'), (';', 'ж'), ('\'', 'э'), ('z', 'я'), ('x', 'ч'),
    ('c', 'с'), ('v', 'м'), ('b', 'и'), ('n', 'т'), ('m', 'ь'),
    (',', 'б'), ('.', 'ю'),
];

/// The Russian letter on the key of a lower-case English character.
pub open spec fn ru_of(en: char) -> Option<char> {
    match en {
        'q' => Some('й'),
        'w' => Some('ц'),
        'e' => Some('у'),
        'r' => Some('к'),
        't' => Some('е'),
        'y' => Some('н'),
        'u' => Some('г'),
        'i' => Some('ш'),
        'o' => Some('щ'),
        'p' => Some('з'),
        '[' => Some('х'),
        ']' => Some('ъ'),
        'a' => Some('ф'),
        's' => Some('ы'),
        'd' => Some('в'),
        'f' => Some('а'),
        'g' => Some('п'),
        'h' => Some('р'),
        'j' => Some('о'),
        'k' => Some('л'),
        'l' => Some('д'),
        ';' => Some('ж'),
        '\'' => Some('э'),
        'z' => Some('я'),
        'x' => Some('ч'),
        'c' => Some('с'),
        'v' => Some('м'),
        'b' => Some('и'),
        'n' => Some('т'),
        'm' => Some('ь'),
        ',' => Some('б'),
        '.' => Some('ю'),
        _ => None,
    }
}

/// The English character on the key of a lower-case Russian letter.
pub open spec fn en_of(ru: char) -> Option<char> {
    match ru {
        'й' => Some('q'),
        'ц' => Some('w'),
        'у' => Some('e'),
        'к' => Some('r'),
        'е' => Some('t'),
        'н' => Some('y'),
        'г' => Some('u'),
        'ш' => Some('i'),
        'щ' => Some('o'),
        'з' => Some('p'),
        'х' => Some('['),
        'ъ' => Some(']'),
        'ф' => Some('a'),
        'ы' => Some('s'),
        'в' => Some('d'),
        'а' => Some('f'),
        'п' => Some('g'),
        'р' => Some('h'),
        'о' => Some('j'),
        'л' => Some('k'),
        'д' => Some('l'),
        'ж' => Some(';'),
        'э' => Some('\''),
        'я' => Some('z'),
        'ч' => Some('x'),
        'с' => Some('c'),
        'м' => Some('v'),
        'и' => Some('b'),
        'т' => Some('n'),
        'ь' => Some('m'),
        'б' => Some(','),
        'ю' => Some('.'),
        _ => None,
    }
}

/// The Ukrainian letter on the key of a lower-case English character: the
/// Russian one, but for the three keys of the letters i, yi and ye.
pub open spec fn ua_of(en: char) -> Option<char> {
    match en {
        's' => Some('і'),
        ']' => Some('ї'),
        '\'' => Some('є'),
        _ => ru_of(en),
    }
}

/// The table and the two readings of it agree.
proof fn lemma_map()
    ensures
        forall|i: int|
            0 <= i < 32 ==> ru_of((#[trigger] MAP@[i]).0) == Some(MAP@[i].1) && en_of(MAP@[i].1)
                == Some(MAP@[i].0),
        forall|c: char| #[trigger]
            ru_of(c) is Some ==> exists|i: int| 0 <= i < 32 && (#[trigger] MAP@[i]).0 == c,
        forall|c: char| #[trigger]
            en_of(c) is Some ==> exists|i: int| 0 <= i < 32 && (#[trigger] MAP@[i]).1 == c,
{
    assert(MAP@[0] == ('q', 'й'));
    assert(MAP@[1] == ('w', 'ц'));
    assert(MAP@[2] == ('e', 'у'));
    assert(MAP@[3] == ('r', 'к'));
    assert(MAP@[4] == ('t', 'е'));
    assert(MAP@[5] == ('y', 'н'));
    assert(MAP@[6] == ('u', 'г'));
    assert(MAP@[7] == ('i', 'ш'));
    assert(MAP@[8] == ('o', 'щ'));
    assert(MAP@[9] == ('p', 'з'));
    assert(MAP@[10] == ('[', 'х'));
    assert(MAP@[11] == (']', 'ъ'));
    assert(MAP@[12] == ('a', 'ф'));
    assert(MAP@[13] == ('s', 'ы'));
    assert(MAP@[14] == ('d', 'в'));
    assert(MAP@[15] == ('f', 'а'));
    assert(MAP@[16] == ('g', 'п'));
    assert(MAP@[17] == ('h', 'р'));
    assert(MAP@[18] == ('j', 'о'));
    assert(MAP@[19] == ('k', 'л'));
    assert(MAP@[20] == ('l', 'д'));
    assert(MAP@[21] == (';', 'ж'));
    assert(MAP@[22] == ('\'', 'э'));
    assert(MAP@[23] == ('z', 'я'));
    assert(MAP@[24] == ('x', 'ч'));
    assert(MAP@[25] == ('c', 'с'));
    assert(MAP@[26] == ('v', 'м'));
    assert(MAP@[27] == ('b', 'и'));
    assert(MAP@[28] == ('n', 'т'));
    assert(MAP@[29] == ('m', 'ь'));
    assert(MAP@[30] == (',', 'б'));
    assert(MAP@[31] == ('.', 'ю'));
}

/// The case that `upper` asks for, of a keyboard character in lower case.
pub open spec fn with_case(c: char, upper: bool) -> char {
    if upper {
        unicode::keyboard_upper(c)
    } else {
        c
    }
}

/// The lower-case English character on a key.
pub open spec fn base_char(vk: u16) -> Option<char> {
    if 0x41 <= vk <= 0x5A {
        Some((vk + 0x20) as char)
    } else {
        match vk {
            0xBA => Some(';'),
            0xBC => Some(','),
            0xBE => Some('.'),
            0xDB => Some('['),
            0xDD => Some(']'),
            0xDE => Some('\''),
            _ => None,
        }
    }
}

/// The keys that all three layouts translate.
pub open spec fn translatable(vk: u16) -> bool {
    0x41 <= vk <= 0x5A || vk == 0xBA || vk == 0xBC || vk == 0xBE || vk == 0xDB || vk == 0xDD || vk
        == 0xDE
}

/// What a key gives in the English layout.
pub open spec fn en_char(vk: u16, upper: bool) -> Option<char> {
    match base_char(vk) {
        Some(c) => Some(with_case(c, upper)),
        None => None,
    }
}

/// What a key gives in the Russian layout.
pub open spec fn ru_char(vk: u16, upper: bool) -> Option<char> {
    match base_char(vk) {
        Some(c) => match ru_of(c) {
            Some(r) => Some(with_case(r, upper)),
            None => None,
        },
        None => None,
    }
}

/// What a key gives in the Ukrainian layout.
pub open spec fn ua_char(vk: u16, upper: bool) -> Option<char> {
    match base_char(vk) {
        Some(c) => match ua_of(c) {
            Some(u) => Some(with_case(u, upper)),
            None => None,
        },
        None => None,
    }
}

/// One of the three layouts.
#[derive(Debug, Clone, Copy, PartialEq, Eq, Structural)]
pub enum Layout {
    English,
    Russian,
    Ukrainian,
}

/// What a key gives in a layout.
pub open spec fn key_char(layout: Layout, vk: u16, upper: bool) -> Option<char> {
    match layout {
        Layout::English => en_char(vk, upper),
        Layout::Russian => ru_char(vk, upper),
        Layout::Ukrainian => ua_char(vk, upper),
    }
}

/// Everything on the keys of the three layouts is a keyboard character in
/// lower case.
proof fn lemma_lower_keyboard(c: char)
    ensures
        ru_of(c) matches Some(r) ==> unicode::keyboard_char(r) && unicode::keyboard_lower_letter(r)
            && unicode::keyboard_char(c),
        en_of(c) matches Some(e) ==> unicode::keyboard_char(e) && unicode::keyboard_char(c),
        ua_of(c) matches Some(u) ==> unicode::keyboard_char(u) && unicode::keyboard_lower_letter(u)
            && unicode::keyboard_char(c),
{
}

/// The Russian letter that the key of an English character gives, in the case
/// of that character.
pub fn en_to_ru(ch: char) -> (r: Option<char>)
    ensures
        r == (match ru_of(unicode::lowercase_of(ch)[0]) {
            Some(ru) => Some(with_case(ru, unicode::is_upper_char(ch))),
            None => None,
        }),
{
    let lower: char = first_lowercase(ch);
    proof {
        lemma_map();
        lemma_lower_keyboard(lower);
    }
    let mut i: usize = 0;
    while i < MAP.len()
        invariant
            i <= 32,
            forall|j: int| 0 <= j < i ==> #[trigger] MAP@[j].0 != lower,
            lower == unicode::lowercase_of(ch)[0],
            ru_of(lower) matches Some(r) ==> unicode::keyboard_char(r),
            forall|j: int| 0 <= j < 32 ==> ru_of((#[trigger] MAP@[j]).0) == Some(MAP@[j].1),
        decreases MAP.len() - i,
    {
        if MAP[i].0 == lower {
            let ru: char = MAP[i].1;
            return if ch.is_uppercase() {
                Some(first_uppercase(ru))
            } else {
                Some(ru)
            };
        }
        i += 1;
    }
    None
}

/// The English character that the key of a Russian letter gives, in the case
/// of that letter.
pub fn ru_to_en(ch: char) -> (r: Option<char>)
    ensures
        r == (match en_of(unicode::lowercase_of(ch)[0]) {
            Some(en) => Some(with_case(en, unicode::is_upper_char(ch))),
            None => None,
        }),
{
    let lower: char = first_lowercase(ch);
    proof {
        lemma_map();
        lemma_lower_keyboard(lower);
    }
    let mut i: usize = 0;
    while i < MAP.len()
        invariant
            i <= 32,
            forall|j: int| 0 <= j < i ==> #[trigger] MAP@[j].1 != lower,
            lower == unicode::lowercase_of(ch)[0],
            en_of(lower) matches Some(r) ==> unicode::keyboard_char(r),
            forall|j: int| 0 <= j < 32 ==> en_of((#[trigger] MAP@[j]).1) == Some(MAP@[j].0),
        decreases MAP.len() - i,
    {
        if MAP[i].1 == lower {
            let en: char = MAP[i].0;
            return if ch.is_uppercase() {
                Some(first_uppercase(en))
            } else {
                Some(en)
            };
        }
        i += 1;
    }
    None
}

/// The Ukrainian letter that the key of an English character gives, in the
/// case of that character.
pub fn en_to_ua(ch: char) -> (r: Option<char>)
    ensures
        r == (match ua_of(unicode::lowercase_of(ch)[0]) {
            Some(ua) => Some(with_case(ua, unicode::is_upper_char(ch))),
            None => None,
        }),
{
    let lower: char = first_lowercase(ch);
    let ua: char = match lower {
        's' => 'і',
        ']' => 'ї',
        '\'' => 'є',
        _ => {
            return en_to_ru(ch);
        },
    };
    if ch.is_uppercase() {
        Some(first_uppercase(ua))
    } else {
        Some(ua)
    }
}

/// The lower-case English character on a key.
fn base_of(vk: u16) -> (r: Option<char>)
    ensures
        r == base_char(vk),
{
    match vk {
        0x41..=0x5A => Some(((vk + 0x20) as u8) as char),
        0xBA => Some(';'),
        0xBC => Some(','),
        0xBE => Some('.'),
        0xDB => Some('['),
        0xDD => Some(']'),
        0xDE => Some('\''),
        _ => None,
    }
}

/// What a key gives in the English layout, or `None` for a key off the table.
pub fn vk_to_en(vk: u16, is_upper: bool) -> (r: Option<char>)
    ensures
        r == en_char(vk, is_upper),
{
    let base: char = match base_of(vk) {
        Some(c) => c,
        None => {
            return None;
        },
    };
    if is_upper {
        Some(first_uppercase(base))
    } else {
        Some(base)
    }
}

/// What a key gives in the Russian layout, or `None` for a key off the table.
pub fn vk_to_ru(vk: u16, is_upper: bool) -> (r: Option<char>)
    ensures
        r == ru_char(vk, is_upper),
{
    let base: char = match base_of(vk) {
        Some(c) => c,
        None => {
            return None;
        },
    };
    proof {
        lemma_lower_keyboard(base);
    }
    match en_to_ru(base) {
        Some(ru) => if is_upper {
            Some(first_uppercase(ru))
        } else {
            Some(ru)
        },
        None => None,
    }
}

/// What a key gives in the Ukrainian layout, or `None` for a key off the table.
pub fn vk_to_ua(vk: u16, is_upper: bool) -> (r: Option<char>)
    ensures
        r == ua_char(vk, is_upper),
{
    let base: char = match base_of(vk) {
        Some(c) => c,
        None => {
            return None;
        },
    };
    proof {
        lemma_lower_keyboard(base);
    }
    match en_to_ua(base) {
        Some(ua) => if is_upper {
            Some(first_uppercase(ua))
        } else {
            Some(ua)
        },
        None => None,
    }
}

/// What a key gives in a layout, or `None` for a key off the table.
pub fn vk_to_char(layout: Layout, vk: u16, is_upper: bool) -> (r: Option<char>)
    ensures
        r == key_char(layout, vk, is_upper),
{
    match layout {
        Layout::English => vk_to_en(vk, is_upper),
        Layout::Russian => vk_to_ru(vk, is_upper),
        Layout::Ukrainian => vk_to_ua(vk, is_upper),
    }
}

/// Whether a key has a place in the layouts.
pub fn is_translatable_vk(vk: u16) -> (r: bool)
    ensures
        r == translatable(vk),
{
    matches!(vk, 0x41..=0x5A | 0xBA | 0xBC | 0xBE | 0xDB | 0xDD | 0xDE)
}

/// Language identifier of Russian (Russia).
pub const LANG_RU: u16 = 0x0419;

/// Language identifier of English (United States).
pub const LANG_EN_US: u16 = 0x0409;

/// Language identifier of Ukrainian (Ukraine).
pub const LANG_UA: u16 = 0x0422;

/// The primary language of a language identifier: its low ten bits.
pub open spec fn primary(lang_word: u16) -> u16 {
    lang_word % 0x400
}

pub open spec fn english(lang_word: u16) -> bool {
    primary(lang_word) == 0x09
}

pub open spec fn russian(lang_word: u16) -> bool {
    primary(lang_word) == 0x19
}

pub open spec fn ukrainian(lang_word: u16) -> bool {
    primary(lang_word) == 0x22
}

/// Whether a language identifier is of any variant of English.
pub fn hkl_is_english(lang_word: u16) -> (r: bool)
    ensures
        r == english(lang_word),
{
    assert(lang_word & 0x3FF == lang_word % 0x400) by (bit_vector);
    lang_word & 0x3FF == 0x09
}

/// Whether a language identifier is of Russian.
pub fn hkl_is_russian(lang_word: u16) -> (r: bool)
    ensures
        r == russian(lang_word),
{
    assert(lang_word & 0x3FF == lang_word % 0x400) by (bit_vector);
    lang_word & 0x3FF == 0x19
}

/// Whether a language identifier is of Ukrainian.
pub fn hkl_is_ukrainian(lang_word: u16) -> (r: bool)
    ensures
        r == ukrainian(lang_word),
{
    assert(lang_word & 0x3FF == lang_word % 0x400) by (bit_vector);
    lang_word & 0x3FF == 0x22
}

/// The three layouts translate the same keys, and these are the translatable
/// ones, in either case.
pub proof fn law_translatable(vk: u16, upper: bool)
    ensures
        translatable(vk) <==> en_char(vk, upper) is Some,
        translatable(vk) <==> ru_char(vk, upper) is Some,
        translatable(vk) <==> ua_char(vk, upper) is Some,
{
}

/// Going to the Russian layout and back gives the character again, in its case.
pub proof fn law_en_ru_round_trip(ch: char)
    requires
        unicode::keyboard_char(ch),
        ru_of(unicode::lowercase_of(ch)[0]) is Some,
    ensures
        ({
            let ru = with_case(
                ru_of(unicode::lowercase_of(ch)[0])->0,
                unicode::is_upper_char(ch),
            );
            en_of(unicode::lowercase_of(ru)[0]) matches Some(en) && with_case(
                en,
                unicode::is_upper_char(ru),
            ) == ch
        }),
{
}

/// No two keys give the same character in one layout, whatever their case.
pub proof fn law_keys_are_distinct(vk1: u16, vk2: u16)
    requires
        vk1 != vk2,
        translatable(vk1),
        translatable(vk2),
    ensures
        en_char(vk1, false) != en_char(vk2, false),
        ru_char(vk1, false) != ru_char(vk2, false),
        ua_char(vk1, false) != ua_char(vk2, false),
{
}

/// A language identifier stands for at most one of the three languages.
pub proof fn law_one_language(lang: u16)
    ensures
        !(english(lang) && russian(lang)),
        !(english(lang) && ukrainian(lang)),
        !(russian(lang) && ukrainian(lang)),
        english(LANG_EN_US),
        russian(LANG_RU),
        ukrainian(LANG_UA),
{
}

/// The keys of the upper row, from Q to the closing bracket.
pub open spec fn upper_row() -> Seq<u16> {
    seq![0x51u16, 0x57, 0x45, 0x52, 0x54, 0x59, 0x55, 0x49, 0x4F, 0x50, 0xDB, 0xDD]
}

/// The keys of the middle row, from A to the apostrophe.
pub open spec fn middle_row() -> Seq<u16> {
    seq![0x41u16, 0x53, 0x44, 0x46, 0x47, 0x48, 0x4A, 0x4B, 0x4C, 0xBA, 0xDE]
}

/// The keys of the lower row, from Z to the full stop.
pub open spec fn lower_row() -> Seq<u16> {
    seq![0x5Au16, 0x58, 0x43, 0x56, 0x42, 0x4E, 0x4D, 0xBC, 0xBE]
}

/// A row of keys spells a text in a layout, from left to right.
pub open spec fn spells(row: Seq<u16>, layout: Layout, text: Seq<char>) -> bool {
    &&& row.len() == text.len()
    &&& forall|i: int|
        0 <= i < row.len() ==> key_char(layout, #[trigger] row[i], false) == Some(text[i])
}

/// The three rows of keys spell the three layouts.
pub proof fn law_rows_of_keys()
    ensures
        spells(upper_row(), Layout::English, "qwertyuiop[]"@),
        spells(middle_row(), Layout::English, "asdfghjkl;'"@),
        spells(lower_row(), Layout::English, "zxcvbnm,."@),
        spells(upper_row(), Layout::Russian, "йцукенгшщзхъ"@),
        spells(middle_row(), Layout::Russian, "фывапролджэ"@),
        spells(lower_row(), Layout::Russian, "ячсмитьбю"@),
        spells(upper_row(), Layout::Ukrainian, "йцукенгшщзхї"@),
        spells(middle_row(), Layout::Ukrainian, "фівапролджє"@),
        spells(lower_row(), Layout::Ukrainian, "ячсмитьбю"@),
{
    reveal_strlit("qwertyuiop[]");
    reveal_strlit("asdfghjkl;'");
    reveal_strlit("zxcvbnm,.");
    reveal_strlit("йцукенгшщзхъ");
    reveal_strlit("фывапролджэ");
    reveal_strlit("ячсмитьбю");
    reveal_strlit("йцукенгшщзхї");
    reveal_strlit("фівапролджє");
}

/// The keys of the three rows are all keys that the layouts translate; with a capital
/// a key gives the capital of what it gives without.
pub proof fn law_keys_and_capitals(layout: Layout, vk: u16)
    ensures
        key_char(layout, vk, false) is Some <==> upper_row().contains(vk) || middle_row().contains(
            vk,
        ) || lower_row().contains(vk),
        key_char(layout, vk, true) == (match key_char(layout, vk, false) {
            Some(c) => Some(unicode::keyboard_upper(c)),
            None => None,
        }),
{
    assert(upper_row()[0] == 0x51);
    assert(upper_row()[1] == 0x57);
    assert(upper_row()[2] == 0x45);
    assert(upper_row()[3] == 0x52);
    assert(upper_row()[4] == 0x54);
    assert(upper_row()[5] == 0x59);
    assert(upper_row()[6] == 0x55);
    assert(upper_row()[7] == 0x49);
    assert(upper_row()[8] == 0x4F);
    assert(upper_row()[9] == 0x50);
    assert(upper_row()[10] == 0xDB);
    assert(upper_row()[11] == 0xDD);
    assert(middle_row()[0] == 0x41);
    assert(middle_row()[1] == 0x53);
    assert(middle_row()[2] == 0x44);
    assert(middle_row()[3] == 0x46);
    assert(middle_row()[4] == 0x47);
    assert(middle_row()[5] == 0x48);
    assert(middle_row()[6] == 0x4A);
    assert(middle_row()[7] == 0x4B);
    assert(middle_row()[8] == 0x4C);
    assert(middle_row()[9] == 0xBA);
    assert(middle_row()[10] == 0xDE);
    assert(lower_row()[0] == 0x5A);
    assert(lower_row()[1] == 0x58);
    assert(lower_row()[2] == 0x43);
    assert(lower_row()[3] == 0x56);
    assert(lower_row()[4] == 0x42);
    assert(lower_row()[5] == 0x4E);
    assert(lower_row()[6] == 0x4D);
    assert(lower_row()[7] == 0xBC);
    assert(lower_row()[8] == 0xBE);
}

/// A Russian letter has an English character just where it is on the key of that
/// character.
pub proof fn law_russian_letters_are_on_keys(ru: char, en: char)
    ensures
        en_of(ru) == Some(en) <==> ru_of(en) == Some(ru),
{
}

} // verus!
