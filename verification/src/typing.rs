//! Keys as they were typed, what they spell in a layout, and the letter case
//! that a corrected word takes over from them.

use vstd::prelude::*;

use crate::layout::{self, vk_to_char, Layout};
use crate::unicode::{self, first_uppercase, lowercase, uppercase};

verus! {

/// One typed key. `is_upper` tells whether the key was to give a capital.
#[derive(Debug, Clone, Copy, PartialEq, Eq, Structural)]
pub struct Entry {
    pub vk: u16,
    pub is_upper: bool,
}

/// How a word looks, apart from its letters.
#[derive(Debug, Clone, Copy, PartialEq, Eq, Structural)]
pub enum Shape {
    /// An ordinary word.
    Plain,
    /// An identifier such as `camelCase`.
    CamelCase,
    /// A part of an identifier such as `snake_case`.
    SnakeCase,
}

/// What typed keys spell in a layout; keys that it does not translate are left
/// out. With `cased` the capitals are kept, else everything is in lower case.
pub open spec fn spelled(keys: Seq<Entry>, layout: Layout, cased: bool) -> Seq<char>
    decreases keys.len(),
{
    if keys.len() == 0 {
        Seq::empty()
    } else {
        let before = spelled(keys.drop_last(), layout, cased);
        match layout::key_char(layout, keys.last().vk, cased && keys.last().is_upper) {
            Some(c) => before.push(c),
            None => before,
        }
    }
}

/// Spells typed keys in a layout.
pub fn spell(keys: &Vec<Entry>, layout: Layout, cased: bool) -> (r: String)
    ensures
        r@ == spelled(keys@, layout, cased),
{
    let mut word = String::new();
    let mut i: usize = 0;
    while i < keys.len()
        invariant
            i <= keys@.len(),
            word@ == spelled(keys@.take(i as int), layout, cased),
        decreases keys.len() - i,
    {
        proof {
            let next = keys@.take(i + 1);
            assert(next.drop_last() =~= keys@.take(i as int));
            assert(next.last() == keys@[i as int]);
        }
        match vk_to_char(layout, keys[i].vk, cased && keys[i].is_upper) {
            Some(c) => {
                word.push(c);
            },
            None => {},
        }
        i += 1;
    }
    assert(keys@.take(keys@.len() as int) =~= keys@);
    word
}

/// Where every key is translatable, a word has one character per key.
pub proof fn lemma_spelled_len(keys: Seq<Entry>, layout: Layout, cased: bool)
    ensures
        spelled(keys, layout, cased).len() <= keys.len(),
        spelled(keys, layout, cased).len() == keys.len() <==> forall|i: int|
            0 <= i < keys.len() ==> layout::translatable((#[trigger] keys[i]).vk),
    decreases keys.len(),
{
    if keys.len() > 0 {
        let rest = keys.drop_last();
        lemma_spelled_len(rest, layout, cased);
        layout::law_translatable(keys.last().vk, cased && keys.last().is_upper);
        if spelled(keys, layout, cased).len() == keys.len() {
            assert forall|i: int| 0 <= i < keys.len() implies layout::translatable(
                (#[trigger] keys[i]).vk,
            ) by {
                if i < rest.len() {
                    assert(rest[i] == keys[i]);
                }
            }
        }
        if forall|i: int| 0 <= i < keys.len() ==> layout::translatable((#[trigger] keys[i]).vk) {
            assert forall|i: int| 0 <= i < rest.len() implies layout::translatable(
                (#[trigger] rest[i]).vk,
            ) by {
                assert(rest[i] == keys[i]);
            }
            assert(layout::translatable(keys[keys.len() - 1].vk));
        }
    }
}

/// Where every key is translatable, each character of a word is what its key
/// gives.
pub proof fn lemma_spelled_index(keys: Seq<Entry>, layout: Layout, cased: bool, i: int)
    requires
        forall|j: int| 0 <= j < keys.len() ==> layout::translatable((#[trigger] keys[j]).vk),
        0 <= i < keys.len(),
    ensures
        spelled(keys, layout, cased).len() == keys.len(),
        Some(spelled(keys, layout, cased)[i]) == layout::key_char(
            layout,
            keys[i].vk,
            cased && keys[i].is_upper,
        ),
    decreases keys.len(),
{
    lemma_spelled_len(keys, layout, cased);
    let rest = keys.drop_last();
    assert forall|j: int| 0 <= j < rest.len() implies layout::translatable(
        (#[trigger] rest[j]).vk,
    ) by {
        assert(rest[j] == keys[j]);
    }
    lemma_spelled_len(rest, layout, cased);
    layout::law_translatable(keys.last().vk, cased && keys.last().is_upper);
    if i < rest.len() {
        lemma_spelled_index(rest, layout, cased, i);
    }
}

/// The lower-case forms of all characters of a text, one after the other.
pub open spec fn all_lower(s: Seq<char>) -> Seq<char>
    decreases s.len(),
{
    if s.len() == 0 {
        Seq::empty()
    } else {
        all_lower(s.drop_last()) + unicode::lowercase_of(s.last())
    }
}

/// The first key was typed in lower case and all others, two at least, in
/// upper case: Caps Lock was on where it was not meant to be.
pub open spec fn caps_inverted(keys: Seq<Entry>) -> bool {
    keys.len() >= 3 && !keys[0].is_upper && forall|i: int|
        1 <= i < keys.len() ==> (#[trigger] keys[i]).is_upper
}

/// The capitals stand as in an identifier such as `camelCase` or `PascalCase`:
/// one directly after a lower-case letter. A word with capitals from its second
/// letter to its last is none; there Caps Lock was on.
pub open spec fn camel_cased(keys: Seq<Entry>) -> bool {
    &&& exists|i: int| 1 <= i < keys.len() && (#[trigger] keys[i]).is_upper && !keys[i - 1].is_upper
    &&& exists|i: int| 1 <= i < keys.len() && !(#[trigger] keys[i]).is_upper
}

/// A word in the case of the keys that it was typed with. Under an inverted
/// Caps Lock that is a capital and lower-case letters; else each character
/// takes the case of its key, and characters beyond the keys fall away.
pub open spec fn in_case_of(keys: Seq<Entry>, word: Seq<char>) -> Seq<char> {
    if keys.len() == 0 {
        word
    } else if caps_inverted(keys) {
        if word.len() == 0 {
            Seq::empty()
        } else {
            unicode::uppercase_of(word[0]) + all_lower(word.drop_first())
        }
    } else {
        Seq::new(
            if word.len() <= keys.len() {
                word.len()
            } else {
                keys.len()
            },
            |i: int|
                if keys[i].is_upper {
                    unicode::uppercase_of(word[i])[0]
                } else {
                    word[i]
                },
        )
    }
}

fn is_caps_inverted(keys: &Vec<Entry>) -> (r: bool)
    ensures
        r == caps_inverted(keys@),
{
    if keys.len() < 3 || keys[0].is_upper {
        return false;
    }
    let mut i: usize = 1;
    while i < keys.len()
        invariant
            1 <= i <= keys@.len(),
            forall|j: int| 1 <= j < i ==> (#[trigger] keys@[j]).is_upper,
        decreases keys.len() - i,
    {
        if !keys[i].is_upper {
            return false;
        }
        i += 1;
    }
    true
}

/// Whether the capitals stand as in an identifier.
pub fn is_camel_cased(keys: &Vec<Entry>) -> (r: bool)
    ensures
        r == camel_cased(keys@),
{
    let mut rises: bool = false;
    let mut falls: bool = false;
    let mut i: usize = 1;
    while i < keys.len()
        invariant
            1 <= i,
            rises == exists|j: int|
                1 <= j < i && j < keys@.len() && (#[trigger] keys@[j]).is_upper && !keys@[j
                    - 1].is_upper,
            falls == exists|j: int|
                1 <= j < i && j < keys@.len() && !(#[trigger] keys@[j]).is_upper,
        decreases keys.len() - i,
    {
        assert(keys@[i as int] == keys[i as int]);
        if keys[i].is_upper {
            if !keys[i - 1].is_upper {
                rises = true;
            }
        } else {
            falls = true;
        }
        i += 1;
    }
    rises && falls
}

fn push_all(s: &mut String, chars: &Vec<char>)
    ensures
        final(s)@ == old(s)@ + chars@,
{
    let mut i: usize = 0;
    while i < chars.len()
        invariant
            i <= chars@.len(),
            s@ == old(s)@ + chars@.take(i as int),
        decreases chars.len() - i,
    {
        s.push(chars[i]);
        i += 1;
        assert(s@ =~= old(s)@ + chars@.take(i as int));
    }
    assert(s@ =~= old(s)@ + chars@);
}

/// Gives a word the case of the keys that it was typed with.
pub fn apply_case_correction(original_entries: &Vec<Entry>, word: &str) -> (r: String)
    ensures
        r@ == in_case_of(original_entries@, word@),
{
    if original_entries.len() == 0 {
        return word.to_owned();
    }
    let mut out = String::new();
    if is_caps_inverted(original_entries) {
        let mut first: bool = true;
        for c in it: word.chars()
            invariant
                it.seq() == word@,
                first == (it.index() == 0),
                out@ == (if it.index() == 0 {
                    Seq::empty()
                } else {
                    unicode::uppercase_of(word@[0]) + all_lower(
                        word@.drop_first().take(it.index() - 1),
                    )
                }),
        {
            let ghost before = out@;
            if first {
                push_all(&mut out, &uppercase(c));
                first = false;
                proof {
                    assert(word@.drop_first().take(0) =~= Seq::empty());
                    assert(out@ =~= unicode::uppercase_of(word@[0]) + all_lower(Seq::empty()));
                }
            } else {
                push_all(&mut out, &lowercase(c));
                proof {
                    let rest = word@.drop_first();
                    let k = it.index() as int;
                    assert(rest.take(k).drop_last() =~= rest.take(k - 1));
                    assert(rest.take(k).last() == c);
                    assert(out@ =~= unicode::uppercase_of(word@[0]) + all_lower(rest.take(k)));
                }
            }
        }
        proof {
            if word@.len() > 0 {
                let rest = word@.drop_first();
                assert(rest.take(rest.len() as int) =~= rest);
            }
        }
        return out;
    }
    let mut i: usize = 0;
    for c in it: word.chars()
        invariant
            it.seq() == word@,
            original_entries@.len() > 0,
            !caps_inverted(original_entries@),
            i <= original_entries@.len(),
            i == (if it.index() <= original_entries@.len() {
                it.index() as int
            } else {
                original_entries@.len() as int
            }),
            out@ == in_case_of(original_entries@, word@).take(i as int),
            i <= in_case_of(original_entries@, word@).len(),
    {
        if i < original_entries.len() {
            let d: char = if original_entries[i].is_upper {
                first_uppercase(c)
            } else {
                c
            };
            out.push(d);
            i += 1;
            assert(out@ =~= in_case_of(original_entries@, word@).take(i as int));
        }
    }
    assert(out@ =~= in_case_of(original_entries@, word@));
    out
}

/// A word spelled in lower case and then given the case of its keys is the
/// word spelled with its capitals, unless Caps Lock was inverted.
pub proof fn law_case_is_restored(keys: Seq<Entry>, layout: Layout)
    requires
        spelled(keys, layout, false).len() == keys.len(),
        !caps_inverted(keys),
    ensures
        in_case_of(keys, spelled(keys, layout, false)) == spelled(keys, layout, true),
{
    lemma_spelled_len(keys, layout, false);
    lemma_spelled_len(keys, layout, true);
    let plain = spelled(keys, layout, false);
    let cased = spelled(keys, layout, true);
    assert forall|i: int| 0 <= i < keys.len() implies in_case_of(keys, plain)[i] == cased[i] by {
        lemma_spelled_index(keys, layout, false, i);
        lemma_spelled_index(keys, layout, true, i);
    }
    assert(in_case_of(keys, plain) =~= cased);
}

/// A word typed in lower case stays in lower case.
pub proof fn law_lower_case_stays(keys: Seq<Entry>, word: Seq<char>)
    requires
        word.len() <= keys.len(),
        forall|i: int| 0 <= i < keys.len() ==> !(#[trigger] keys[i]).is_upper,
    ensures
        in_case_of(keys, word) == word,
{
    assert(!caps_inverted(keys)) by {
        if keys.len() >= 3 {
            assert(!keys[1].is_upper);
        }
    }
    assert(in_case_of(keys, word) =~= word);
}

/// A word typed in capitals comes out in capitals.
pub proof fn law_capitals_stay(keys: Seq<Entry>, word: Seq<char>)
    requires
        word.len() <= keys.len(),
        forall|i: int| 0 <= i < keys.len() ==> (#[trigger] keys[i]).is_upper,
    ensures
        in_case_of(keys, word) == word.map_values(|c: char| unicode::uppercase_of(c)[0]),
{
    assert(in_case_of(keys, word) =~= word.map_values(|c: char| unicode::uppercase_of(c)[0]));
}

proof fn lemma_all_lower(s: Seq<char>)
    requires
        forall|i: int| 0 <= i < s.len() ==> unicode::keyboard_char(#[trigger] s[i]),
    ensures
        all_lower(s) == s.map_values(|c: char| unicode::keyboard_lower(c)),
    decreases s.len(),
{
    if s.len() > 0 {
        lemma_all_lower(s.drop_last());
        assert(unicode::keyboard_char(s[s.len() - 1]));
    }
    assert(all_lower(s) =~= s.map_values(|c: char| unicode::keyboard_lower(c)));
}

/// A word typed under an inverted Caps Lock comes out with one capital, the
/// first, and lower-case letters.
pub proof fn law_caps_lock_is_mended(keys: Seq<Entry>, word: Seq<char>)
    requires
        caps_inverted(keys),
        word.len() > 0,
        forall|i: int| 0 <= i < word.len() ==> unicode::keyboard_char(#[trigger] word[i]),
    ensures
        in_case_of(keys, word) == seq![unicode::keyboard_upper(word[0])]
            + word.drop_first().map_values(|c: char| unicode::keyboard_lower(c)),
{
    let rest = word.drop_first();
    assert forall|i: int| 0 <= i < rest.len() implies unicode::keyboard_char(
        #[trigger] rest[i],
    ) by {
        assert(rest[i] == word[i + 1]);
    }
    lemma_all_lower(rest);
}

/// No word is an identifier and typed under an inverted Caps Lock as well.
pub proof fn law_inverted_words_are_no_identifiers(keys: Seq<Entry>)
    requires
        caps_inverted(keys),
    ensures
        !camel_cased(keys),
{
}

} // verus!
