//! How well detection does on running text.

use vstd::prelude::*;

use crate::bigrams::LanguageModel;
use crate::buffer::{self, replacement, Replacement, SwitchAction, Typed, WordBuffer};
use crate::layout::{
    self, is_translatable_vk, vk_to_char, Layout, LANG_EN_US, LANG_RU, LANG_UA,
};
use crate::settings;
use crate::typing::Entry;
use crate::unicode;

verus! {

// -- Words -----------------------------------------------------------------------------

/// What is known of a text after some of its characters: the words that have
/// ended, and the letters of the word that has not.
pub struct Scan {
    pub words: Seq<Seq<char>>,
    pub letters: Seq<char>,
}

/// The words with one more, unless it is a single letter or none.
pub open spec fn with_word(words: Seq<Seq<char>>, letters: Seq<char>) -> Seq<Seq<char>> {
    if letters.len() >= 2 {
        words.push(letters)
    } else {
        words
    }
}

/// Reads a text: white space ends a word, and of anything else only letters
/// count.
pub open spec fn scan(text: Seq<char>) -> Scan
    decreases text.len(),
{
    if text.len() == 0 {
        Scan { words: Seq::empty(), letters: Seq::empty() }
    } else {
        let before = scan(text.drop_last());
        let c = text.last();
        if unicode::is_space(c) {
            Scan { words: with_word(before.words, before.letters), letters: Seq::empty() }
        } else if unicode::is_letter(c) {
            Scan { words: before.words, letters: before.letters.push(c) }
        } else {
            before
        }
    }
}

/// The words of a text, of two letters at least.
pub open spec fn words_of(text: Seq<char>) -> Seq<Seq<char>> {
    with_word(scan(text).words, scan(text).letters)
}

/// The first words of a text; there is one at least, where the text has any.
pub open spec fn first_words(text: Seq<char>, limit: int) -> Seq<Seq<char>> {
    let all = words_of(text);
    let n = if limit < 1 {
        1
    } else {
        limit
    };
    if all.len() <= n {
        all
    } else {
        all.take(n)
    }
}

proof fn lemma_words_grow(text: Seq<char>, k: int)
    requires
        0 <= k <= text.len(),
    ensures
        scan(text.take(k)).words.is_prefix_of(words_of(text)),
    decreases text.len() - k,
{
    if k == text.len() {
        assert(text.take(k) =~= text);
    } else {
        lemma_words_grow(text, k + 1);
        assert(text.take(k + 1).drop_last() =~= text.take(k));
    }
}

/// Takes the first words out of a text: letters only, two of them at least.
pub fn extract_words(content: &str, limit: usize) -> (r: Vec<String>)
    ensures
        settings::texts(r@) == first_words(content@, limit as int),
{
    let mut words: Vec<String> = Vec::new();
    let mut letters = String::new();
    assert(content@.take(0) =~= Seq::<char>::empty());
    assert(settings::texts(words@) =~= scan(content@.take(0)).words);
    assert(letters@ =~= Seq::<char>::empty());
    for c in it: content.chars()
        invariant
            it.seq() == content@,
            settings::texts(words@) == scan(content@.take(it.index() as int)).words,
            letters@ == scan(content@.take(it.index() as int)).letters,
            words@.len() == 0 || words@.len() < limit,
    {
        proof {
            let next = content@.take(it.index() + 1);
            assert(next.drop_last() =~= content@.take(it.index() as int));
            assert(next.last() == c);
            lemma_words_grow(content@, it.index() + 1);
        }
        if c.is_whitespace() {
            let mut done = String::new();
            assert(done@ =~= Seq::<char>::empty());
            std::mem::swap(&mut done, &mut letters);
            if done.as_str().unicode_len() >= 2 {
                let ghost before = words@;
                let ghost word = done@;
                words.push(done);
                assert(settings::texts(words@) =~= settings::texts(before).push(word));
                if words.len() >= limit {
                    proof {
                        let all = words_of(content@);
                        let n = words@.len() as int;
                        assert(settings::texts(words@) =~= all.take(n));
                        assert(all.len() >= n);
                        if all.len() == n {
                            assert(all.take(n) =~= all);
                        }
                    }
                    return words;
                }
            }
        } else if c.is_alphabetic() {
            letters.push(c);
        }
    }
    assert(content@.take(content@.len() as int) =~= content@);
    if letters.as_str().unicode_len() >= 2 {
        let ghost before = words@;
        let ghost word = letters@;
        words.push(letters);
        assert(settings::texts(words@) =~= settings::texts(before).push(word));
    }
    words
}

// -- Keys ------------------------------------------------------------------------------

/// The last of the keys below `n` that gives a character in a layout; of the
/// two cases of a key the upper one comes last.
pub open spec fn last_key(l: Layout, c: char, n: int) -> Option<Entry>
    decreases n,
{
    if n <= 0 {
        None
    } else {
        let vk = (n - 1) as u16;
        if layout::translatable(vk) && layout::key_char(l, vk, true) == Some(c) {
            Some(Entry { vk, is_upper: true })
        } else if layout::translatable(vk) && layout::key_char(l, vk, false) == Some(c) {
            Some(Entry { vk, is_upper: false })
        } else {
            last_key(l, c, n - 1)
        }
    }
}

/// The key that gives a character in a layout.
pub open spec fn key_for(l: Layout, c: char) -> Option<Entry> {
    last_key(l, c, 0x100)
}

/// Finds the key that gives a character in a layout.
pub fn find_key(l: Layout, c: char) -> (r: Option<Entry>)
    ensures
        r == key_for(l, c),
{
    let mut n: u16 = 0x100;
    while n > 0
        invariant
            n <= 0x100,
            key_for(l, c) == last_key(l, c, n as int),
        decreases n,
    {
        let vk: u16 = n - 1;
        if is_translatable_vk(vk) {
            match vk_to_char(l, vk, true) {
                Some(d) => {
                    if d == c {
                        return Some(Entry { vk, is_upper: true });
                    }
                },
                None => {},
            }
            match vk_to_char(l, vk, false) {
                Some(d) => {
                    if d == c {
                        return Some(Entry { vk, is_upper: false });
                    }
                },
                None => {},
            }
        }
        n -= 1;
    }
    None
}

proof fn lemma_last_key(l: Layout, c: char, n: int, vk: u16, upper: bool)
    requires
        0 <= vk < n <= 0x1_0000,
        layout::key_char(l, vk, upper) == Some(c),
    ensures
        last_key(l, c, n) is Some,
    decreases n,
{
    layout::law_translatable(vk, upper);
    if vk < n - 1 {
        lemma_last_key(l, c, n - 1, vk, upper);
    }
}

/// The key that is found gives the character; where none is found, no key
/// gives it.
pub proof fn law_keys_are_found(l: Layout, c: char, vk: u16, upper: bool)
    ensures
        key_for(l, c) matches Some(e) ==> layout::key_char(l, e.vk, e.is_upper) == Some(c),
        layout::key_char(l, vk, upper) == Some(c) ==> key_for(l, c) is Some,
{
    layout::law_translatable(vk, upper);
    if layout::key_char(l, vk, upper) == Some(c) {
        lemma_last_key(l, c, 0x100, vk, upper);
    }
    lemma_last_key_gives(l, c, 0x100);
}

proof fn lemma_last_key_gives(l: Layout, c: char, n: int)
    requires
        n <= 0x1_0000,
    ensures
        last_key(l, c, n) matches Some(e) ==> layout::key_char(l, e.vk, e.is_upper) == Some(c),
    decreases n,
{
    if n > 0 {
        lemma_last_key_gives(l, c, n - 1);
    }
}

/// The keys that type a word in a layout.
pub open spec fn keys_for(l: Layout, word: Seq<char>) -> Option<Seq<Entry>>
    decreases word.len(),
{
    if word.len() == 0 {
        Some(Seq::empty())
    } else {
        match (keys_for(l, word.drop_last()), key_for(l, word.last())) {
            (Some(before), Some(e)) => Some(before.push(e)),
            _ => None,
        }
    }
}

proof fn lemma_no_keys(l: Layout, word: Seq<char>, k: int)
    requires
        0 <= k <= word.len(),
        keys_for(l, word.take(k)) is None,
    ensures
        keys_for(l, word) is None,
    decreases word.len() - k,
{
    if k == word.len() {
        assert(word.take(k) =~= word);
    } else {
        assert(word.take(k + 1).drop_last() =~= word.take(k));
        lemma_no_keys(l, word, k + 1);
    }
}

/// The optional keys behind an optional vector.
pub open spec fn keys_view(v: Option<Vec<Entry>>) -> Option<Seq<Entry>> {
    match v {
        Some(x) => Some(x@),
        None => None,
    }
}

/// Finds the keys that type a word in a layout, where there are such.
pub fn find_keys(l: Layout, word: &str) -> (r: Option<Vec<Entry>>)
    ensures
        keys_view(r) == keys_for(l, word@),
{
    let mut keys: Vec<Entry> = Vec::new();
    assert(word@.take(0) =~= Seq::<char>::empty());
    assert(keys@ =~= Seq::<Entry>::empty());
    for c in it: word.chars()
        invariant
            it.seq() == word@,
            keys_for(l, word@.take(it.index() as int)) == Some(keys@),
    {
        proof {
            let next = word@.take(it.index() + 1);
            assert(next.drop_last() =~= word@.take(it.index() as int));
            assert(next.last() == c);
        }
        match find_key(l, c) {
            Some(e) => {
                keys.push(e);
            },
            None => {
                proof {
                    lemma_no_keys(l, word@, it.index() + 1);
                }
                return None;
            },
        }
    }
    assert(word@.take(word@.len() as int) =~= word@);
    Some(keys)
}

// -- Typing a word -----------------------------------------------------------------------

/// A buffer with some keys and nothing else.
pub open spec fn plain(keys: Seq<Entry>) -> Typed {
    Typed { keys, ..buffer::nothing_typed() }
}

/// What comes of the keys after the first `n` of them, typed one by one under
/// the English layout and then ended: the first switch on the fly, else that
/// at the end of the word.
pub open spec fn typed_from(keys: Seq<Entry>, n: int, model: &LanguageModel) -> Option<Replacement>
    decreases keys.len() - n,
{
    if n >= keys.len() {
        buffer::detection_of(
            plain(keys),
            LANG_EN_US,
            1_000_000,
            false,
            buffer::no_preferences(),
            model,
        )
    } else {
        match buffer::detection_of(
            plain(keys.take(n + 1)),
            LANG_EN_US,
            1_000_000,
            true,
            buffer::no_preferences(),
            model,
        ) {
            Some(r) => Some(r),
            None => typed_from(keys, n + 1, model),
        }
    }
}

/// Types a word under the English layout and ends it.
pub fn simulate(keys: &Vec<Entry>, model: &LanguageModel) -> (r: Option<SwitchAction>)
    ensures
        replacement(r) == typed_from(keys@, 0, model),
{
    let mut buf = WordBuffer::new();
    let mut i: usize = 0;
    assert(keys@.take(0) =~= Seq::<Entry>::empty());
    while i < keys.len()
        invariant
            i <= keys@.len(),
            buf@ == plain(keys@.take(i as int)),
            typed_from(keys@, 0, model) == typed_from(keys@, i as int, model),
        decreases keys.len() - i,
    {
        buf.push(keys[i].vk, keys[i].is_upper);
        assert(buf@.keys =~= keys@.take(i + 1));
        match buf.detect_mismatch_on_the_fly(LANG_EN_US, 1_000_000, model) {
            Some(action) => {
                return Some(action);
            },
            None => {},
        }
        i += 1;
    }
    assert(keys@.take(keys@.len() as int) =~= keys@);
    buf.detect_mismatch_with_sensitivity(LANG_EN_US, 1_000_000, model)
}

// -- Results -------------------------------------------------------------------------------

/// The results for words of one language.
#[derive(Debug, Clone, Copy, PartialEq, Eq, Structural)]
pub struct Tally {
    /// Words that the keys of the layout can type.
    pub total: usize,
    /// Those that were switched to Russian.
    pub to_ru: usize,
    /// Those that were switched to Ukrainian.
    pub to_ua: usize,
    /// Those that were not switched.
    pub kept: usize,
}

/// The results for words of one language, as a value.
pub struct Count {
    pub total: int,
    pub to_ru: int,
    pub to_ua: int,
    pub kept: int,
}

impl View for Tally {
    type V = Count;

    open spec fn view(&self) -> Count {
        Count {
            total: self.total as int,
            to_ru: self.to_ru as int,
            to_ua: self.to_ua as int,
            kept: self.kept as int,
        }
    }
}

/// The results with one more word, given what came of it.
pub open spec fn tallied(t: Count, outcome: Option<Replacement>) -> Count {
    let more = Count { total: t.total + 1, ..t };
    match outcome {
        Some(r) => if r.target_lang == LANG_RU {
            Count { to_ru: t.to_ru + 1, ..more }
        } else if r.target_lang == LANG_UA {
            Count { to_ua: t.to_ua + 1, ..more }
        } else {
            more
        },
        None => Count { kept: t.kept + 1, ..more },
    }
}

/// The results for some words of a language: a word that the layout cannot type
/// does not count.
pub open spec fn tally_of(words: Seq<Seq<char>>, l: Layout, model: &LanguageModel) -> Count
    decreases words.len(),
{
    if words.len() == 0 {
        Count { total: 0, to_ru: 0, to_ua: 0, kept: 0 }
    } else {
        let before = tally_of(words.drop_last(), l, model);
        match keys_for(l, words.last()) {
            Some(keys) => tallied(before, typed_from(keys, 0, model)),
            None => before,
        }
    }
}

/// Types words of a language under the English layout and counts what comes of
/// them.
pub fn tally(words: &Vec<String>, l: Layout, model: &LanguageModel) -> (r: Tally)
    ensures
        r@ == tally_of(settings::texts(words@), l, model),
        r.total <= words@.len(),
{
    let ghost texts = settings::texts(words@);
    let mut t = Tally { total: 0, to_ru: 0, to_ua: 0, kept: 0 };
    let mut i: usize = 0;
    while i < words.len()
        invariant
            i <= words@.len(),
            texts == settings::texts(words@),
            t@ == tally_of(texts.take(i as int), l, model),
            t.total <= i,
            t.to_ru + t.to_ua + t.kept <= t.total,
        decreases words.len() - i,
    {
        proof {
            let next = texts.take(i + 1);
            assert(next.drop_last() =~= texts.take(i as int));
            assert(next.last() == words@[i as int]@);
        }
        match find_keys(l, words[i].as_str()) {
            Some(keys) => {
                t.total = t.total + 1;
                match simulate(&keys, model) {
                    Some(action) => {
                        if action.target_lang == LANG_RU {
                            t.to_ru = t.to_ru + 1;
                        } else if action.target_lang == LANG_UA {
                            t.to_ua = t.to_ua + 1;
                        }
                    },
                    None => {
                        t.kept = t.kept + 1;
                    },
                }
            },
            None => {},
        }
        i += 1;
    }
    assert(texts.take(texts.len() as int) =~= texts);
    t
}

/// Every word that counts was switched to Russian, switched to Ukrainian or
/// kept.
pub proof fn law_results_add_up(words: Seq<Seq<char>>, l: Layout, model: &LanguageModel)
    ensures
        ({
            let t = tally_of(words, l, model);
            t.total == t.to_ru + t.to_ua + t.kept && 0 <= t.to_ru && 0 <= t.to_ua && 0 <= t.kept
        }),
    decreases words.len(),
{
    if words.len() > 0 {
        law_results_add_up(words.drop_last(), l, model);
        if keys_for(l, words.last()) is Some {
            lemma_typed_target(keys_for(l, words.last())->0, 0, model);
        }
    }
}

proof fn lemma_typed_target(keys: Seq<Entry>, n: int, model: &LanguageModel)
    ensures
        typed_from(keys, n, model) matches Some(r) ==> r.target_lang == LANG_RU || r.target_lang
            == LANG_UA,
    decreases keys.len() - n,
{
    if n >= keys.len() {
        crate::laws::law_switch_changes_the_layout(
            plain(keys),
            LANG_EN_US,
            1_000_000,
            false,
            buffer::no_preferences(),
            model,
        );
    } else {
        crate::laws::law_switch_changes_the_layout(
            plain(keys.take(n + 1)),
            LANG_EN_US,
            1_000_000,
            true,
            buffer::no_preferences(),
            model,
        );
        lemma_typed_target(keys, n + 1, model);
    }
}

} // verus!
