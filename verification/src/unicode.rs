//! Letter case and character classes, as the standard library gives them.
//!
//! The characters that a keyboard layout of this crate can produce lie in
//! ASCII and in the Cyrillic block; for those every answer is stated outright.
//! For the rest of Unicode the answer of the standard library carries a name.

use vstd::prelude::*;

verus! {

/// ASCII, U+0400..=U+045F, and the two forms of the letter ghe with upturn.
pub open spec fn keyboard_char(c: char) -> bool {
    c <= '\u{7F}' || '\u{400}' <= c <= '\u{45F}' || c == '\u{490}' || c == '\u{491}'
}

/// Upper-case letters among the keyboard characters.
pub open spec fn keyboard_upper_letter(c: char) -> bool {
    'A' <= c <= 'Z' || '\u{400}' <= c <= '\u{42F}' || c == '\u{490}'
}

/// Lower-case letters among the keyboard characters.
pub open spec fn keyboard_lower_letter(c: char) -> bool {
    'a' <= c <= 'z' || '\u{430}' <= c <= '\u{45F}' || c == '\u{491}'
}

/// The lower-case form of a keyboard character.
pub open spec fn keyboard_lower(c: char) -> char {
    if 'A' <= c <= 'Z' || '\u{410}' <= c <= '\u{42F}' {
        (c as u32 + 0x20) as char
    } else if '\u{400}' <= c <= '\u{40F}' {
        (c as u32 + 0x50) as char
    } else if c == '\u{490}' {
        '\u{491}'
    } else {
        c
    }
}

/// The upper-case form of a keyboard character.
pub open spec fn keyboard_upper(c: char) -> char {
    if 'a' <= c <= 'z' || '\u{430}' <= c <= '\u{44F}' {
        (c as u32 - 0x20) as char
    } else if '\u{450}' <= c <= '\u{45F}' {
        (c as u32 - 0x50) as char
    } else if c == '\u{491}' {
        '\u{490}'
    } else {
        c
    }
}

/// What `char::to_lowercase` yields for a character.
pub uninterp spec fn unicode_lowercase(c: char) -> Seq<char>;

/// What `char::to_uppercase` yields for a character.
pub uninterp spec fn unicode_uppercase(c: char) -> Seq<char>;

/// What `char::is_uppercase` answers for a character.
pub uninterp spec fn unicode_is_uppercase(c: char) -> bool;

/// What `char::is_alphabetic` answers for a character.
pub uninterp spec fn unicode_is_alphabetic(c: char) -> bool;

/// What `char::is_whitespace` answers for a character.
pub uninterp spec fn unicode_is_whitespace(c: char) -> bool;

/// What `str::to_lowercase` gives for a string.
pub uninterp spec fn unicode_str_lowercase(s: Seq<char>) -> Seq<char>;

/// The lower-case mapping of a character.
pub open spec fn lowercase_of(c: char) -> Seq<char> {
    if keyboard_char(c) {
        seq![keyboard_lower(c)]
    } else {
        unicode_lowercase(c)
    }
}

/// The upper-case mapping of a character.
pub open spec fn uppercase_of(c: char) -> Seq<char> {
    if keyboard_char(c) {
        seq![keyboard_upper(c)]
    } else {
        unicode_uppercase(c)
    }
}

/// Whether a character is an upper-case letter.
pub open spec fn is_upper_char(c: char) -> bool {
    if keyboard_char(c) {
        keyboard_upper_letter(c)
    } else {
        unicode_is_uppercase(c)
    }
}

/// Whether a character is a letter.
pub open spec fn is_letter(c: char) -> bool {
    if keyboard_char(c) {
        keyboard_upper_letter(c) || keyboard_lower_letter(c)
    } else {
        unicode_is_alphabetic(c)
    }
}

/// Whether a character is white space.
pub open spec fn is_space(c: char) -> bool {
    if keyboard_char(c) {
        c == ' ' || '\u{9}' <= c <= '\u{D}'
    } else {
        unicode_is_whitespace(c)
    }
}

/// The lower-case form of a whole string.
pub open spec fn str_lowercase_of(s: Seq<char>) -> Seq<char> {
    if forall|i: int| 0 <= i < s.len() ==> keyboard_char(#[trigger] s[i]) {
        s.map_values(|c: char| keyboard_lower(c))
    } else {
        unicode_str_lowercase(s)
    }
}

/// Calls `char::to_lowercase` and collects what it yields: one or more
/// characters, and for a keyboard character its one lower-case form.
#[verifier::external_body]
pub(crate) fn lowercase(c: char) -> (r: Vec<char>)
    ensures
        r@ == (if keyboard_char(c) { seq![keyboard_lower(c)] } else { unicode_lowercase(c) }),
        r@.len() >= 1,
{
    c.to_lowercase().collect()
}

/// Calls `char::to_uppercase` and collects what it yields: one or more
/// characters, and for a keyboard character its one upper-case form.
#[verifier::external_body]
pub(crate) fn uppercase(c: char) -> (r: Vec<char>)
    ensures
        r@ == (if keyboard_char(c) { seq![keyboard_upper(c)] } else { unicode_uppercase(c) }),
        r@.len() >= 1,
{
    c.to_uppercase().collect()
}

/// `char::is_uppercase`: true of the upper-case letters; among the keyboard
/// characters these are A to Z, U+0400..=U+042F and U+0490.
pub assume_specification[ char::is_uppercase ](c: char) -> (r: bool)
    ensures
        r == (if keyboard_char(c) { keyboard_upper_letter(c) } else { unicode_is_uppercase(c) }),
;

/// `char::is_alphabetic`: true of letters; among the keyboard characters these
/// are the upper-case and the lower-case letters.
pub assume_specification[ char::is_alphabetic ](c: char) -> (r: bool)
    ensures
        r == (if keyboard_char(c) {
            keyboard_upper_letter(c) || keyboard_lower_letter(c)
        } else {
            unicode_is_alphabetic(c)
        }),
;

/// `char::is_whitespace`: true of white space; among the keyboard characters
/// these are the space and U+0009..=U+000D.
pub assume_specification[ char::is_whitespace ](c: char) -> (r: bool)
    ensures
        r == (if keyboard_char(c) { c == ' ' || '\u{9}' <= c <= '\u{D}' } else {
            unicode_is_whitespace(c)
        }),
;

/// `str::to_lowercase`: the lower-case form of a string; where all characters
/// are keyboard characters, each is replaced by its lower-case form.
pub assume_specification[ str::to_lowercase ](s: &str) -> (r: String)
    ensures
        r@ == (if forall|i: int| 0 <= i < s@.len() ==> keyboard_char(#[trigger] s@[i]) {
            s@.map_values(|c: char| keyboard_lower(c))
        } else {
            unicode_str_lowercase(s@)
        }),
;

/// `String::push`: appends one character.
pub assume_specification[ String::push ](s: &mut String, c: char)
    ensures
        final(s)@ == old(s)@.push(c),
;

/// The first character of the lower-case mapping.
pub fn first_lowercase(c: char) -> (r: char)
    ensures
        r == lowercase_of(c)[0],
{
    lowercase(c)[0]
}

/// The first character of the upper-case mapping.
pub fn first_uppercase(c: char) -> (r: char)
    ensures
        r == uppercase_of(c)[0],
{
    uppercase(c)[0]
}

} // verus!
