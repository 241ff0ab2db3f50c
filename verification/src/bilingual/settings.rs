//! The settings of the two-language switcher.

use vstd::prelude::*;
use vstd::string::StringExecFns;

use crate::settings::{self, default_hotkey_vk, default_undo_hotkey_vk};

verus! {

/// A key, with or without the Win key.
#[derive(Debug, Clone, Copy, PartialEq, Eq, Structural)]
pub struct Hotkey {
    pub vk: u16,
    pub win: bool,
}

/// Everything that the user can set.
#[derive(Debug)]
pub struct Settings {
    /// The program switches at all.
    pub enabled: bool,
    /// Programs in which nothing is switched.
    pub exceptions: Vec<String>,
    /// The hotkey that switches the current word.
    pub hotkey_enabled: bool,
    pub hotkey_vk: u16,
    pub hotkey_win: bool,
    /// The hotkey that takes the last switch back.
    pub undo_hotkey_enabled: bool,
    pub undo_hotkey_vk: u16,
    pub undo_hotkey_win: bool,
}

/// What settings hold.
pub struct Configuration {
    pub enabled: bool,
    pub exceptions: Seq<Seq<char>>,
    pub hotkey_enabled: bool,
    pub hotkey: Hotkey,
    pub undo_hotkey_enabled: bool,
    pub undo_hotkey: Hotkey,
}

impl View for Settings {
    type V = Configuration;

    open spec fn view(&self) -> Configuration {
        Configuration {
            enabled: self.enabled,
            exceptions: settings::texts(self.exceptions@),
            hotkey_enabled: self.hotkey_enabled,
            hotkey: Hotkey { vk: self.hotkey_vk, win: self.hotkey_win },
            undo_hotkey_enabled: self.undo_hotkey_enabled,
            undo_hotkey: Hotkey { vk: self.undo_hotkey_vk, win: self.undo_hotkey_win },
        }
    }
}

/// The settings of someone who has set nothing.
pub open spec fn factory_settings() -> Configuration {
    Configuration {
        enabled: true,
        exceptions: Seq::empty(),
        hotkey_enabled: false,
        hotkey: Hotkey { vk: 0x10, win: true },
        undo_hotkey_enabled: false,
        undo_hotkey: Hotkey { vk: 0x08, win: true },
    }
}

impl Default for Settings {
    fn default() -> (r: Settings)
        ensures
            r@ == factory_settings(),
    {
        let r = Settings {
            enabled: true,
            exceptions: Vec::new(),
            hotkey_enabled: false,
            hotkey_vk: default_hotkey_vk(),
            hotkey_win: true,
            undo_hotkey_enabled: false,
            undo_hotkey_vk: default_undo_hotkey_vk(),
            undo_hotkey_win: true,
        };
        assert(r@.exceptions =~= Seq::<Seq<char>>::empty());
        r
    }
}

impl Configuration {
    /// The hotkey that switches the current word, where there is one.
    pub open spec fn switch_key(self) -> Option<Hotkey> {
        if self.hotkey_enabled {
            Some(self.hotkey)
        } else {
            None
        }
    }

    /// The hotkey that takes the last switch back, where there is one.
    pub open spec fn undo_key(self) -> Option<Hotkey> {
        if self.undo_hotkey_enabled {
            Some(self.undo_hotkey)
        } else {
            None
        }
    }
}

impl Settings {
    /// The hotkey that switches the current word, where there is one.
    pub fn hotkey(&self) -> (r: Option<Hotkey>)
        ensures
            r == self@.switch_key(),
    {
        if self.hotkey_enabled {
            Some(Hotkey { vk: self.hotkey_vk, win: self.hotkey_win })
        } else {
            None
        }
    }

    /// The hotkey that takes the last switch back, where there is one.
    pub fn undo_hotkey(&self) -> (r: Option<Hotkey>)
        ensures
            r == self@.undo_key(),
    {
        if self.undo_hotkey_enabled {
            Some(Hotkey { vk: self.undo_hotkey_vk, win: self.undo_hotkey_win })
        } else {
            None
        }
    }
}

/// The name of a key that a hotkey is likely to have.
pub open spec fn key_name(vk: u16) -> Seq<char> {
    match vk {
        0x10 => "Shift"@,
        0xA0 => "Shift"@,
        0xA1 => "Shift"@,
        0x08 => "Backspace"@,
        0x13 => "Pause"@,
        0x91 => "Scroll Lock"@,
        0x14 => "Caps Lock"@,
        0x7B => "F12"@,
        0x7A => "F11"@,
        0x79 => "F10"@,
        0x78 => "F9"@,
        _ => "Custom"@,
    }
}

/// The name of a hotkey.
pub fn vk_display_name(vk: u16, win: bool) -> (r: String)
    ensures
        r@ == (if win {
            "Win+"@ + key_name(vk)
        } else {
            key_name(vk)
        }),
{
    let base: &'static str = match vk {
        0x10 | 0xA0 | 0xA1 => "Shift",
        0x08 => "Backspace",
        0x13 => "Pause",
        0x91 => "Scroll Lock",
        0x14 => "Caps Lock",
        0x7B => "F12",
        0x7A => "F11",
        0x79 => "F10",
        0x78 => "F9",
        _ => "Custom",
    };
    if win {
        let mut name: String = "Win+".to_owned();
        name.append(base);
        name
    } else {
        base.to_owned()
    }
}

} // verus!
