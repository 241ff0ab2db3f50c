//! Keys that are no letters, and hotkeys.

use vstd::prelude::*;

verus! {

pub const VK_BACK: u16 = 0x08;

pub const VK_TAB: u16 = 0x09;

pub const VK_RETURN: u16 = 0x0D;

pub const VK_SHIFT: u16 = 0x10;

pub const VK_CONTROL: u16 = 0x11;

pub const VK_MENU: u16 = 0x12;

pub const VK_SPACE: u16 = 0x20;

pub const VK_LEFT: u16 = 0x25;

pub const VK_LWIN: u16 = 0x5B;

pub const VK_RWIN: u16 = 0x5C;

pub const VK_LSHIFT: u16 = 0xA0;

pub const VK_RSHIFT: u16 = 0xA1;

pub const VK_LCONTROL: u16 = 0xA2;

pub const VK_RCONTROL: u16 = 0xA3;

pub const VK_LMENU: u16 = 0xA4;

pub const VK_RMENU: u16 = 0xA5;

/// The key for the hyphen and, with Shift, the underscore.
pub const VK_OEM_MINUS: u16 = 0xBD;

/// A key that nothing is assigned to.
pub const VK_UNASSIGNED: u16 = 0xE8;

pub open spec fn win_key(vk: u16) -> bool {
    vk == VK_LWIN || vk == VK_RWIN
}

pub open spec fn shift_key(vk: u16) -> bool {
    vk == VK_SHIFT || vk == VK_LSHIFT || vk == VK_RSHIFT
}

pub open spec fn ctrl_key(vk: u16) -> bool {
    vk == VK_CONTROL || vk == VK_LCONTROL || vk == VK_RCONTROL
}

pub open spec fn alt_key(vk: u16) -> bool {
    vk == VK_MENU || vk == VK_LMENU || vk == VK_RMENU
}

/// A key that only changes what other keys do.
pub open spec fn modifier(vk: u16) -> bool {
    win_key(vk) || shift_key(vk) || ctrl_key(vk) || alt_key(vk)
}

/// A key that moves the cursor or deletes ahead of it: Page Up to Down, Insert
/// and Delete.
pub open spec fn navigation(vk: u16) -> bool {
    0x21 <= vk <= 0x28 || vk == 0x2D || vk == 0x2E
}

/// A key that ends a word and is typed after it.
pub open spec fn boundary(vk: u16) -> bool {
    vk == VK_SPACE || vk == VK_RETURN || vk == VK_TAB
}

/// Whether a key only changes what other keys do.
pub fn is_modifier_vk(vk: u16) -> (r: bool)
    ensures
        r == modifier(vk),
{
    matches!(
        vk,
        0x5B | 0x5C | 0x10 | 0xA0 | 0xA1 | 0x11 | 0xA2 | 0xA3 | 0x12 | 0xA4 | 0xA5
    )
}

/// Whether a key moves the cursor or deletes ahead of it.
pub fn is_navigation_vk(vk: u16) -> (r: bool)
    ensures
        r == navigation(vk),
{
    matches!(vk, 0x21 | 0x22 | 0x23 | 0x24 | 0x25 | 0x26 | 0x27 | 0x28 | 0x2D | 0x2E)
}

/// Whether a key ends a word and is typed after it.
pub fn is_boundary_vk(vk: u16) -> (r: bool)
    ensures
        r == boundary(vk),
{
    vk == VK_SPACE || vk == VK_RETURN || vk == VK_TAB
}

/// The left and the right key that a key on either side of the keyboard stands
/// for; any other key stands for itself.
pub open spec fn sides(configured: u16) -> (u16, u16) {
    if configured == VK_SHIFT {
        (VK_LSHIFT, VK_RSHIFT)
    } else if configured == VK_CONTROL {
        (VK_LCONTROL, VK_RCONTROL)
    } else if configured == VK_MENU {
        (VK_LMENU, VK_RMENU)
    } else {
        (configured, configured)
    }
}

/// A pressed key is the configured one, or one of the two that it stands for.
pub open spec fn same_key(actual: u16, configured: u16) -> bool {
    actual == configured || actual == sides(configured).0 || actual == sides(configured).1
}

/// Whether a pressed key is the configured one, or one of the two that it
/// stands for.
pub fn vk_matches(actual: u16, configured: u16) -> (r: bool)
    ensures
        r == same_key(actual, configured),
{
    if actual == configured {
        return true;
    }
    match configured {
        0x10 => matches!(actual, 0xA0 | 0xA1),
        0x11 => matches!(actual, 0xA2 | 0xA3),
        0x12 => matches!(actual, 0xA4 | 0xA5),
        _ => false,
    }
}

/// Whether a key is among those that are held down.
pub fn is_down(vk: u16, held: &Vec<u16>) -> (r: bool)
    ensures
        r == held@.contains(vk),
{
    let mut i: usize = 0;
    while i < held.len()
        invariant
            i <= held@.len(),
            forall|j: int| 0 <= j < i ==> held@[j] != vk,
        decreases held.len() - i,
    {
        if held[i] == vk {
            assert(held@.contains(vk));
            return true;
        }
        i += 1;
    }
    false
}

/// The configured key, or one of the two that it stands for, is held down.
pub open spec fn key_held(configured: u16, held: Seq<u16>) -> bool {
    held.contains(sides(configured).0) || held.contains(sides(configured).1)
}

/// Whether the configured key is held down, on either side of the keyboard.
pub fn key_is_held(configured: u16, held: &Vec<u16>) -> (r: bool)
    ensures
        r == key_held(configured, held@),
{
    match configured {
        0x10 => is_down(VK_LSHIFT, held) || is_down(VK_RSHIFT, held),
        0x11 => is_down(VK_LCONTROL, held) || is_down(VK_RCONTROL, held),
        0x12 => is_down(VK_LMENU, held) || is_down(VK_RMENU, held),
        _ => is_down(configured, held),
    }
}

/// A key and what must be held with it.
#[derive(Debug, Clone, Copy, PartialEq, Eq, Structural)]
pub struct HookHotkey {
    pub vk: u16,
    pub win: bool,
    pub ctrl: bool,
    pub shift: bool,
    pub alt: bool,
}

/// The modifiers that are held down.
pub struct Modifiers {
    pub win: bool,
    pub ctrl: bool,
    pub shift: bool,
    pub alt: bool,
}

/// The modifiers among the keys that are held down.
pub open spec fn modifiers_in(held: Seq<u16>) -> Modifiers {
    Modifiers {
        win: held.contains(VK_LWIN) || held.contains(VK_RWIN),
        ctrl: held.contains(VK_CONTROL) || held.contains(VK_LCONTROL) || held.contains(VK_RCONTROL),
        shift: held.contains(VK_SHIFT) || held.contains(VK_LSHIFT) || held.contains(VK_RSHIFT),
        alt: held.contains(VK_MENU) || held.contains(VK_LMENU) || held.contains(VK_RMENU),
    }
}

/// A pressed key completes a hotkey: it belongs to it, the main key is down,
/// and of the modifiers those are down that the hotkey is made of, and no
/// others. The main key may be a modifier itself.
pub open spec fn completes(vk: u16, hk: HookHotkey, m: Modifiers, main_held: bool) -> bool {
    &&& same_key(vk, hk.vk) || (win_key(vk) && hk.win) || (ctrl_key(vk) && hk.ctrl) || (shift_key(
        vk,
    ) && hk.shift) || (alt_key(vk) && hk.alt)
    &&& same_key(vk, hk.vk) || main_held
    &&& m.win == (hk.win || win_key(hk.vk))
    &&& m.ctrl == (hk.ctrl || ctrl_key(hk.vk))
    &&& m.shift == (hk.shift || shift_key(hk.vk))
    &&& m.alt == (hk.alt || alt_key(hk.vk))
}

/// Whether a pressed key completes a hotkey, given the modifiers that are down
/// and whether the main key of the hotkey is.
pub fn hotkey_matches(
    vk: u16,
    hk: &HookHotkey,
    win_pressed: bool,
    ctrl_pressed: bool,
    shift_pressed: bool,
    alt_pressed: bool,
    main_held: bool,
) -> (r: bool)
    ensures
        r == completes(
            vk,
            *hk,
            (Modifiers {
                win: win_pressed,
                ctrl: ctrl_pressed,
                shift: shift_pressed,
                alt: alt_pressed,
            }),
            main_held,
        ),
{
    let vk_is_main: bool = vk_matches(vk, hk.vk);
    let vk_is_win: bool = vk == 0x5B || vk == 0x5C;
    let vk_is_ctrl: bool = vk == 0x11 || vk == 0xA2 || vk == 0xA3;
    let vk_is_shift: bool = vk == 0x10 || vk == 0xA0 || vk == 0xA1;
    let vk_is_alt: bool = vk == 0x12 || vk == 0xA4 || vk == 0xA5;
    let vk_matches_configured: bool = vk_is_main || (vk_is_win && hk.win) || (vk_is_ctrl && hk.ctrl)
        || (vk_is_shift && hk.shift) || (vk_is_alt && hk.alt);
    if !vk_matches_configured {
        return false;
    }
    let main_pressed: bool = vk_is_main || main_held;
    let expected_win: bool = hk.win || vk_matches(hk.vk, 0x5B) || vk_matches(hk.vk, 0x5C);
    let expected_ctrl: bool = hk.ctrl || vk_matches(hk.vk, 0x11);
    let expected_shift: bool = hk.shift || vk_matches(hk.vk, 0x10);
    let expected_alt: bool = hk.alt || vk_matches(hk.vk, 0x12);
    main_pressed && win_pressed == expected_win && ctrl_pressed == expected_ctrl && shift_pressed
        == expected_shift && alt_pressed == expected_alt
}

/// A pressed key completes a hotkey, given the keys that are held down.
pub open spec fn fires(vk: u16, hk: HookHotkey, held: Seq<u16>) -> bool {
    completes(vk, hk, modifiers_in(held), key_held(hk.vk, held))
}

/// Whether a pressed key completes a hotkey, given the keys that are held down.
pub fn hotkey_fires(vk: u16, hk: &HookHotkey, held: &Vec<u16>) -> (r: bool)
    ensures
        r == fires(vk, *hk, held@),
{
    let win: bool = is_down(VK_LWIN, held) || is_down(VK_RWIN, held);
    let ctrl: bool = is_down(VK_CONTROL, held) || is_down(VK_LCONTROL, held) || is_down(
        VK_RCONTROL,
        held,
    );
    let shift: bool = is_down(VK_SHIFT, held) || is_down(VK_LSHIFT, held) || is_down(
        VK_RSHIFT,
        held,
    );
    let alt: bool = is_down(VK_MENU, held) || is_down(VK_LMENU, held) || is_down(VK_RMENU, held);
    let main_held: bool = key_is_held(hk.vk, held);
    hotkey_matches(vk, hk, win, ctrl, shift, alt, main_held)
}

/// A modifier that is no part of a hotkey keeps it from firing, and so does a
/// missing one that is.
pub proof fn law_modifiers_must_match(vk: u16, hk: HookHotkey, held: Seq<u16>)
    requires
        fires(vk, hk, held),
    ensures
        modifiers_in(held).win <==> hk.win || win_key(hk.vk),
        modifiers_in(held).ctrl <==> hk.ctrl || ctrl_key(hk.vk),
        modifiers_in(held).shift <==> hk.shift || shift_key(hk.vk),
        modifiers_in(held).alt <==> hk.alt || alt_key(hk.vk),
{
}

/// A hotkey fires whichever of its keys is pressed last.
pub proof fn law_order_does_not_matter(hk: HookHotkey, held: Seq<u16>, vk1: u16, vk2: u16)
    requires
        fires(vk1, hk, held),
        key_held(hk.vk, held),
        (vk2 == hk.vk) || (win_key(vk2) && hk.win) || (ctrl_key(vk2) && hk.ctrl) || (shift_key(vk2)
            && hk.shift) || (alt_key(vk2) && hk.alt),
    ensures
        fires(vk2, hk, held),
{
}

} // verus!
