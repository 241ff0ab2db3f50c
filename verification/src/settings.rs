//! The settings of the program.

use vstd::prelude::*;

use crate::buffer::{DetectionConfig, Preferences};
use crate::keys::HookHotkey;
use crate::order::same_text;
use crate::words::{WordMap, WordSet};

verus! {

/// How a word that could be Russian as well as Ukrainian is taken.
#[derive(Debug, Clone, Copy, PartialEq, Eq, Structural)]
pub enum PreferredCyrillic {
    /// Ukrainian only where it holds a letter that Russian lacks.
    Auto,
    /// Always Russian.
    Ru,
    /// Always Ukrainian.
    Ua,
}

impl Default for PreferredCyrillic {
    fn default() -> (r: PreferredCyrillic)
        ensures
            r == PreferredCyrillic::Auto,
    {
        PreferredCyrillic::Auto
    }
}

/// Everything that the user can set, and what the program has learnt.
#[derive(Debug)]
pub struct Settings {
    /// The program switches at all.
    pub enabled: bool,
    /// Programs in which nothing is switched.
    pub exceptions: Vec<String>,
    /// The hotkey that switches the current word, and what is held with it.
    pub hotkey_enabled: bool,
    pub hotkey_vk: u16,
    pub hotkey_win: bool,
    pub hotkey_ctrl: bool,
    pub hotkey_shift: bool,
    pub hotkey_alt: bool,
    /// The hotkey that takes the last switch back, and what is held with it.
    pub undo_hotkey_enabled: bool,
    pub undo_hotkey_vk: u16,
    pub undo_hotkey_win: bool,
    pub undo_hotkey_ctrl: bool,
    pub undo_hotkey_shift: bool,
    pub undo_hotkey_alt: bool,
    /// The language of the menus.
    pub lang: String,
    /// How readily a word is switched, in millionths.
    pub sensitivity: i32,
    /// Words that are never switched.
    pub ignored_words: WordSet,
    /// A mistyped word is erased by selecting it.
    pub use_selection_replace: bool,
    /// Where the window was, and its size.
    pub window_x: Option<i32>,
    pub window_y: Option<i32>,
    pub window_width: Option<u32>,
    pub window_height: Option<u32>,
    /// Languages that the user has chosen, by the English spelling of the keys.
    pub word_corrections: WordMap<u16>,
    /// How often words were typed that almost had been switched.
    pub adaptive_counts: WordMap<u32>,
    /// How a word that could be Russian as well as Ukrainian is taken.
    pub preferred_cyrillic: PreferredCyrillic,
}

/// What settings hold.
pub struct Configuration {
    pub enabled: bool,
    pub exceptions: Seq<Seq<char>>,
    pub hotkey_enabled: bool,
    pub hotkey: HookHotkey,
    pub undo_hotkey_enabled: bool,
    pub undo_hotkey: HookHotkey,
    pub lang: Seq<char>,
    pub sensitivity: i32,
    pub ignored_words: Set<Seq<char>>,
    pub use_selection_replace: bool,
    pub window_x: Option<i32>,
    pub window_y: Option<i32>,
    pub window_width: Option<u32>,
    pub window_height: Option<u32>,
    pub word_corrections: Map<Seq<char>, u16>,
    pub adaptive_counts: Map<Seq<char>, u32>,
    pub preferred_cyrillic: PreferredCyrillic,
}

/// The texts of a list of strings.
pub open spec fn texts(list: Seq<String>) -> Seq<Seq<char>> {
    list.map_values(|s: String| s@)
}

impl View for Settings {
    type V = Configuration;

    open spec fn view(&self) -> Configuration {
        Configuration {
            enabled: self.enabled,
            exceptions: texts(self.exceptions@),
            hotkey_enabled: self.hotkey_enabled,
            hotkey: HookHotkey {
                vk: self.hotkey_vk,
                win: self.hotkey_win,
                ctrl: self.hotkey_ctrl,
                shift: self.hotkey_shift,
                alt: self.hotkey_alt,
            },
            undo_hotkey_enabled: self.undo_hotkey_enabled,
            undo_hotkey: HookHotkey {
                vk: self.undo_hotkey_vk,
                win: self.undo_hotkey_win,
                ctrl: self.undo_hotkey_ctrl,
                shift: self.undo_hotkey_shift,
                alt: self.undo_hotkey_alt,
            },
            lang: self.lang@,
            sensitivity: self.sensitivity,
            ignored_words: self.ignored_words@,
            use_selection_replace: self.use_selection_replace,
            window_x: self.window_x,
            window_y: self.window_y,
            window_width: self.window_width,
            window_height: self.window_height,
            word_corrections: self.word_corrections@,
            adaptive_counts: self.adaptive_counts@,
            preferred_cyrillic: self.preferred_cyrillic,
        }
    }
}

/// The settings of someone who has set nothing.
pub open spec fn factory_settings() -> Configuration {
    Configuration {
        enabled: true,
        exceptions: Seq::empty(),
        hotkey_enabled: false,
        hotkey: HookHotkey { vk: 0x10, win: true, ctrl: false, shift: false, alt: false },
        undo_hotkey_enabled: false,
        undo_hotkey: HookHotkey { vk: 0x08, win: true, ctrl: false, shift: false, alt: false },
        lang: "en"@,
        sensitivity: 1_000_000,
        ignored_words: Set::empty(),
        use_selection_replace: false,
        window_x: None,
        window_y: None,
        window_width: None,
        window_height: None,
        word_corrections: Map::empty(),
        adaptive_counts: Map::empty(),
        preferred_cyrillic: PreferredCyrillic::Auto,
    }
}

impl Default for Settings {
    fn default() -> (r: Settings)
        ensures
            r@ == factory_settings(),
    {
        let r = Settings {
            enabled: true,
            exceptions: Vec::new(),
            hotkey_enabled: false,
            hotkey_vk: default_hotkey_vk(),
            hotkey_win: true,
            hotkey_ctrl: false,
            hotkey_shift: false,
            hotkey_alt: false,
            undo_hotkey_enabled: false,
            undo_hotkey_vk: default_undo_hotkey_vk(),
            undo_hotkey_win: true,
            undo_hotkey_ctrl: false,
            undo_hotkey_shift: false,
            undo_hotkey_alt: false,
            lang: default_lang(),
            sensitivity: default_sensitivity(),
            ignored_words: WordSet::new(),
            use_selection_replace: false,
            window_x: None,
            window_y: None,
            window_width: None,
            window_height: None,
            word_corrections: WordMap::new(),
            adaptive_counts: WordMap::new(),
            preferred_cyrillic: PreferredCyrillic::Auto,
        };
        assert(r@.exceptions =~= Seq::<Seq<char>>::empty());
        r
    }
}

/// The key of the switching hotkey: Shift.
pub fn default_hotkey_vk() -> (r: u16)
    ensures
        r == 0x10,
{
    0x10
}

/// The key of the undo hotkey: Backspace.
pub fn default_undo_hotkey_vk() -> (r: u16)
    ensures
        r == 0x08,
{
    0x08
}

/// The language of the menus: English.
pub fn default_lang() -> (r: String)
    ensures
        r@ == "en"@,
{
    "en".to_owned()
}

/// The sensitivity, in millionths: one.
pub fn default_sensitivity() -> (r: i32)
    ensures
        r == 1_000_000,
{
    1_000_000
}

/// Copies a list of strings.
pub fn copy_texts(list: &Vec<String>) -> (r: Vec<String>)
    ensures
        texts(r@) == texts(list@),
{
    let mut out: Vec<String> = Vec::new();
    let mut i: usize = 0;
    while i < list.len()
        invariant
            i <= list@.len(),
            out@.len() == i,
            forall|j: int| 0 <= j < i ==> (#[trigger] out@[j])@ == list@[j]@,
        decreases list.len() - i,
    {
        out.push(list[i].clone());
        i += 1;
    }
    assert(texts(out@) =~= texts(list@));
    out
}

/// Whether a text is in a list of strings.
pub fn lists(list: &Vec<String>, text: &str) -> (r: bool)
    ensures
        r == texts(list@).contains(text@),
{
    let mut i: usize = 0;
    while i < list.len()
        invariant
            i <= list@.len(),
            forall|j: int| 0 <= j < i ==> (#[trigger] list@[j])@ != text@,
        decreases list.len() - i,
    {
        if same_text(list[i].as_str(), text) {
            assert(texts(list@)[i as int] == text@);
            return true;
        }
        i += 1;
    }
    assert forall|j: int| 0 <= j < texts(list@).len() implies #[trigger] texts(list@)[j]
        != text@ by {
        assert(list@[j]@ != text@);
    }
    false
}

impl Clone for Settings {
    fn clone(&self) -> (r: Settings)
        ensures
            r@ == self@,
    {
        Settings {
            enabled: self.enabled,
            exceptions: copy_texts(&self.exceptions),
            hotkey_enabled: self.hotkey_enabled,
            hotkey_vk: self.hotkey_vk,
            hotkey_win: self.hotkey_win,
            hotkey_ctrl: self.hotkey_ctrl,
            hotkey_shift: self.hotkey_shift,
            hotkey_alt: self.hotkey_alt,
            undo_hotkey_enabled: self.undo_hotkey_enabled,
            undo_hotkey_vk: self.undo_hotkey_vk,
            undo_hotkey_win: self.undo_hotkey_win,
            undo_hotkey_ctrl: self.undo_hotkey_ctrl,
            undo_hotkey_shift: self.undo_hotkey_shift,
            undo_hotkey_alt: self.undo_hotkey_alt,
            lang: self.lang.clone(),
            sensitivity: self.sensitivity,
            ignored_words: self.ignored_words.clone(),
            use_selection_replace: self.use_selection_replace,
            window_x: self.window_x,
            window_y: self.window_y,
            window_width: self.window_width,
            window_height: self.window_height,
            word_corrections: self.word_corrections.clone(),
            adaptive_counts: self.adaptive_counts.clone(),
            preferred_cyrillic: self.preferred_cyrillic,
        }
    }
}

/// What settings contribute to detection, beside the context.
pub open spec fn preferences_of(c: Configuration, context_lang: Option<u16>) -> Preferences {
    Preferences {
        ignored_words: c.ignored_words,
        word_corrections: c.word_corrections,
        preferred_cyrillic: c.preferred_cyrillic,
        context_lang,
    }
}

impl Configuration {
    /// The hotkey that switches the current word, where there is one.
    pub open spec fn switch_key(self) -> Option<HookHotkey> {
        if self.hotkey_enabled {
            Some(self.hotkey)
        } else {
            None
        }
    }

    /// The hotkey that takes the last switch back, where there is one.
    pub open spec fn undo_key(self) -> Option<HookHotkey> {
        if self.undo_hotkey_enabled {
            Some(self.undo_hotkey)
        } else {
            None
        }
    }
}

impl Settings {
    /// The hotkey that switches the current word, where there is one.
    pub fn hotkey(&self) -> (r: Option<HookHotkey>)
        ensures
            r == self@.switch_key(),
    {
        if self.hotkey_enabled {
            Some(
                HookHotkey {
                    vk: self.hotkey_vk,
                    win: self.hotkey_win,
                    ctrl: self.hotkey_ctrl,
                    shift: self.hotkey_shift,
                    alt: self.hotkey_alt,
                },
            )
        } else {
            None
        }
    }

    /// The hotkey that takes the last switch back, where there is one.
    pub fn undo_hotkey(&self) -> (r: Option<HookHotkey>)
        ensures
            r == self@.undo_key(),
    {
        if self.undo_hotkey_enabled {
            Some(
                HookHotkey {
                    vk: self.undo_hotkey_vk,
                    win: self.undo_hotkey_win,
                    ctrl: self.undo_hotkey_ctrl,
                    shift: self.undo_hotkey_shift,
                    alt: self.undo_hotkey_alt,
                },
            )
        } else {
            None
        }
    }

    /// Whether nothing is switched in a program.
    pub fn has_exception(&self, exe: &str) -> (r: bool)
        ensures
            r == self@.exceptions.contains(exe@),
    {
        lists(&self.exceptions, exe)
    }

    /// Leaves a word alone from now on. Tells whether that is news.
    pub fn ignore_word(&mut self, word: String) -> (r: bool)
        ensures
            r == !old(self)@.ignored_words.contains(word@),
            final(self)@ == (Configuration {
                ignored_words: old(self)@.ignored_words.insert(word@),
                ..old(self)@
            }),
    {
        self.ignored_words.insert(word)
    }

    /// Notes how often a word has been typed and left alone.
    pub fn note_count(&mut self, word: String, times: u32)
        ensures
            final(self)@ == (Configuration {
                adaptive_counts: old(self)@.adaptive_counts.insert(word@, times),
                ..old(self)@
            }),
    {
        self.adaptive_counts.insert(word, times);
    }

    /// Counts a word no more.
    pub fn forget_count(&mut self, word: &str)
        ensures
            final(self)@ == (Configuration {
                adaptive_counts: old(self)@.adaptive_counts.remove(word@),
                ..old(self)@
            }),
    {
        self.adaptive_counts.remove(word);
    }

    /// What the settings contribute to detection, beside the context.
    pub fn detection_config(&self, context_lang: Option<u16>) -> (r: DetectionConfig)
        ensures
            r@ == preferences_of(self@, context_lang),
    {
        DetectionConfig {
            ignored_words: self.ignored_words.clone(),
            word_corrections: self.word_corrections.clone(),
            preferred_cyrillic: self.preferred_cyrillic,
            context_lang,
        }
    }
}

} // verus!
