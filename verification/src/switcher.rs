//! The key events that replace a word.

use vstd::prelude::*;

use crate::buffer::{Replacement, SwitchAction};
use crate::hook::INJECTED_MARK;
use crate::keys::{
    VK_BACK, VK_CONTROL, VK_LCONTROL, VK_LEFT, VK_LMENU, VK_LSHIFT, VK_LWIN, VK_RCONTROL, VK_RMENU,
    VK_RSHIFT, VK_RWIN, VK_SHIFT, VK_UNASSIGNED,
};

verus! {

/// The flag of an event for a key that goes up.
pub const KEYEVENTF_KEYUP: u32 = 0x0002;

/// The flag of an event that carries a UTF-16 unit in place of a key.
pub const KEYEVENTF_UNICODE: u32 = 0x0004;

/// The flags of an event that carries a UTF-16 unit, the key going up.
pub const UNICODE_KEYUP: u32 = 0x0006;

/// A keyboard event to be injected.
#[derive(Debug, Clone, Copy, PartialEq, Eq, Structural)]
pub struct KeyInput {
    /// The key; zero where the event carries a UTF-16 unit.
    pub vk: u16,
    /// The UTF-16 unit; zero where the event is about a key.
    pub scan: u16,
    pub flags: u32,
    /// The mark by which the program knows its own events.
    pub extra_info: usize,
}

/// A key goes down or up.
pub open spec fn stroke(vk: u16, up: bool) -> KeyInput {
    KeyInput {
        vk,
        scan: 0,
        flags: if up {
            KEYEVENTF_KEYUP
        } else {
            0
        },
        extra_info: INJECTED_MARK,
    }
}

/// A UTF-16 unit is typed, the key going down or up.
pub open spec fn unit_stroke(unit: u16, up: bool) -> KeyInput {
    KeyInput {
        vk: 0,
        scan: unit,
        flags: if up {
            UNICODE_KEYUP
        } else {
            KEYEVENTF_UNICODE
        },
        extra_info: INJECTED_MARK,
    }
}

/// The event of a key that goes down or up.
pub fn make_vk(vk: u16, up: bool) -> (r: KeyInput)
    ensures
        r == stroke(vk, up),
{
    KeyInput {
        vk,
        scan: 0,
        flags: if up {
            KEYEVENTF_KEYUP
        } else {
            0
        },
        extra_info: INJECTED_MARK,
    }
}

/// The event of a UTF-16 unit that is typed.
pub fn make_unicode_unit(unit: u16, up: bool) -> (r: KeyInput)
    ensures
        r == unit_stroke(unit, up),
{
    KeyInput {
        vk: 0,
        scan: unit,
        flags: if up {
            UNICODE_KEYUP
        } else {
            KEYEVENTF_UNICODE
        },
        extra_info: INJECTED_MARK,
    }
}

/// The modifiers that are held down, each on its side of the keyboard.
#[derive(Debug, Clone, Copy, PartialEq, Eq, Structural)]
pub struct HeldModifiers {
    pub lwin: bool,
    pub rwin: bool,
    pub lctrl: bool,
    pub rctrl: bool,
    pub lshift: bool,
    pub rshift: bool,
    pub lalt: bool,
    pub ralt: bool,
}

/// The event, where the condition holds.
pub open spec fn only_if(condition: bool, e: KeyInput) -> Seq<KeyInput> {
    if condition {
        seq![e]
    } else {
        Seq::empty()
    }
}

/// A key goes down and up again.
pub open spec fn tap(vk: u16) -> Seq<KeyInput> {
    seq![stroke(vk, false), stroke(vk, true)]
}

/// All held modifiers go up. Before the Win keys do, a key that means nothing
/// is tapped: it keeps the Start menu from opening.
pub open spec fn release(m: HeldModifiers) -> Seq<KeyInput> {
    (if m.lwin || m.rwin {
        tap(VK_UNASSIGNED)
    } else {
        Seq::empty()
    }) + only_if(m.lwin, stroke(VK_LWIN, true)) + only_if(m.rwin, stroke(VK_RWIN, true)) + only_if(
        m.lctrl,
        stroke(VK_LCONTROL, true),
    ) + only_if(m.rctrl, stroke(VK_RCONTROL, true)) + only_if(m.lshift, stroke(VK_LSHIFT, true))
        + only_if(m.rshift, stroke(VK_RSHIFT, true)) + only_if(m.lalt, stroke(VK_LMENU, true))
        + only_if(m.ralt, stroke(VK_RMENU, true))
}

/// The modifiers that had been held go down again, in the opposite order.
pub open spec fn restore(m: HeldModifiers) -> Seq<KeyInput> {
    only_if(m.lalt, stroke(VK_LMENU, false)) + only_if(m.ralt, stroke(VK_RMENU, false)) + only_if(
        m.lshift,
        stroke(VK_LSHIFT, false),
    ) + only_if(m.rshift, stroke(VK_RSHIFT, false)) + only_if(m.lctrl, stroke(VK_LCONTROL, false))
        + only_if(m.rctrl, stroke(VK_RCONTROL, false)) + only_if(m.lwin, stroke(VK_LWIN, false))
        + only_if(m.rwin, stroke(VK_RWIN, false))
}

/// A key is tapped a number of times.
pub open spec fn taps(vk: u16, n: int) -> Seq<KeyInput>
    decreases n,
{
    if n <= 0 {
        Seq::empty()
    } else {
        taps(vk, n - 1) + tap(vk)
    }
}

/// Some characters are erased: one by one, or selected as a word and erased
/// at once.
pub open spec fn erase(n: int, by_selection: bool) -> Seq<KeyInput> {
    if n <= 0 {
        Seq::empty()
    } else if by_selection {
        seq![
            stroke(VK_CONTROL, false),
            stroke(VK_SHIFT, false),
            stroke(VK_LEFT, false),
            stroke(VK_LEFT, true),
            stroke(VK_SHIFT, true),
            stroke(VK_CONTROL, true),
            stroke(VK_BACK, false),
            stroke(VK_BACK, true),
        ]
    } else {
        taps(VK_BACK, n)
    }
}

/// A character in UTF-16.
pub open spec fn utf16(c: char) -> Seq<u16> {
    if c as u32 <= 0xFFFF {
        seq![c as u16]
    } else {
        seq![
            (0xD800 + (c as u32 - 0x1_0000) / 0x400) as u16,
            (0xDC00 + (c as u32 - 0x1_0000) % 0x400) as u16,
        ]
    }
}

/// A UTF-16 unit goes down and up.
pub open spec fn unit_tap(unit: u16) -> Seq<KeyInput> {
    seq![unit_stroke(unit, false), unit_stroke(unit, true)]
}

/// A character is typed.
pub open spec fn char_taps(c: char) -> Seq<KeyInput> {
    if utf16(c).len() == 1 {
        unit_tap(utf16(c)[0])
    } else {
        unit_tap(utf16(c)[0]) + unit_tap(utf16(c)[1])
    }
}

/// A word is typed.
pub open spec fn type_word(w: Seq<char>) -> Seq<KeyInput>
    decreases w.len(),
{
    if w.len() == 0 {
        Seq::empty()
    } else {
        type_word(w.drop_last()) + char_taps(w.last())
    }
}

/// The events that replace a word: the modifiers are let go of, the word is
/// erased, the new one is typed, then the key that ended it, and the modifiers
/// are held again.
pub open spec fn switch_strokes(
    r: Replacement,
    boundary_vk: Option<u16>,
    by_selection: bool,
    m: HeldModifiers,
) -> Seq<KeyInput> {
    release(m) + erase(r.backspaces, by_selection) + type_word(r.new_word) + (match boundary_vk {
        Some(vk) => tap(vk),
        None => Seq::empty(),
    }) + restore(m)
}

fn push_if(out: &mut Vec<KeyInput>, condition: bool, vk: u16, up: bool)
    ensures
        final(out)@ == old(out)@ + only_if(condition, stroke(vk, up)),
{
    if condition {
        out.push(make_vk(vk, up));
    }
    assert(out@ =~= old(out)@ + only_if(condition, stroke(vk, up)));
}

fn push_tap(out: &mut Vec<KeyInput>, vk: u16)
    ensures
        final(out)@ == old(out)@ + tap(vk),
{
    out.push(make_vk(vk, false));
    out.push(make_vk(vk, true));
    assert(out@ =~= old(out)@ + tap(vk));
}

fn release_inputs(m: &HeldModifiers) -> (r: Vec<KeyInput>)
    ensures
        r@ == release(*m),
{
    let mut out: Vec<KeyInput> = Vec::new();
    if m.lwin || m.rwin {
        push_tap(&mut out, VK_UNASSIGNED);
        assert(out@ =~= tap(VK_UNASSIGNED));
    }
    push_if(&mut out, m.lwin, VK_LWIN, true);
    push_if(&mut out, m.rwin, VK_RWIN, true);
    push_if(&mut out, m.lctrl, VK_LCONTROL, true);
    push_if(&mut out, m.rctrl, VK_RCONTROL, true);
    push_if(&mut out, m.lshift, VK_LSHIFT, true);
    push_if(&mut out, m.rshift, VK_RSHIFT, true);
    push_if(&mut out, m.lalt, VK_LMENU, true);
    push_if(&mut out, m.ralt, VK_RMENU, true);
    out
}

fn restore_inputs(m: &HeldModifiers) -> (r: Vec<KeyInput>)
    ensures
        r@ == restore(*m),
{
    let mut out: Vec<KeyInput> = Vec::new();
    push_if(&mut out, m.lalt, VK_LMENU, false);
    assert(out@ =~= only_if(m.lalt, stroke(VK_LMENU, false)));
    push_if(&mut out, m.ralt, VK_RMENU, false);
    push_if(&mut out, m.lshift, VK_LSHIFT, false);
    push_if(&mut out, m.rshift, VK_RSHIFT, false);
    push_if(&mut out, m.lctrl, VK_LCONTROL, false);
    push_if(&mut out, m.rctrl, VK_RCONTROL, false);
    push_if(&mut out, m.lwin, VK_LWIN, false);
    push_if(&mut out, m.rwin, VK_RWIN, false);
    out
}

fn push_erase(out: &mut Vec<KeyInput>, n: usize, by_selection: bool)
    ensures
        final(out)@ == old(out)@ + erase(n as int, by_selection),
{
    if n == 0 {
        assert(out@ =~= old(out)@ + erase(n as int, by_selection));
        return;
    }
    if by_selection {
        out.push(make_vk(VK_CONTROL, false));
        out.push(make_vk(VK_SHIFT, false));
        out.push(make_vk(VK_LEFT, false));
        out.push(make_vk(VK_LEFT, true));
        out.push(make_vk(VK_SHIFT, true));
        out.push(make_vk(VK_CONTROL, true));
        out.push(make_vk(VK_BACK, false));
        out.push(make_vk(VK_BACK, true));
        assert(out@ =~= old(out)@ + erase(n as int, by_selection));
        return;
    }
    let mut i: usize = 0;
    assert(out@ =~= old(out)@ + taps(VK_BACK, 0));
    while i < n
        invariant
            i <= n,
            out@ == old(out)@ + taps(VK_BACK, i as int),
        decreases n - i,
    {
        push_tap(out, VK_BACK);
        i += 1;
        assert(out@ =~= old(out)@ + taps(VK_BACK, i as int));
    }
}

fn push_unit(out: &mut Vec<KeyInput>, unit: u16)
    ensures
        final(out)@ == old(out)@ + unit_tap(unit),
{
    out.push(make_unicode_unit(unit, false));
    out.push(make_unicode_unit(unit, true));
    assert(out@ =~= old(out)@ + unit_tap(unit));
}

fn push_char(out: &mut Vec<KeyInput>, c: char)
    ensures
        final(out)@ == old(out)@ + char_taps(c),
{
    let code: u32 = c as u32;
    if code <= 0xFFFF {
        push_unit(out, code as u16);
    } else {
        let rest: u32 = code - 0x1_0000;
        push_unit(out, (0xD800 + rest / 0x400) as u16);
        push_unit(out, (0xDC00 + rest % 0x400) as u16);
        assert(out@ =~= old(out)@ + char_taps(c));
    }
}

fn push_word(out: &mut Vec<KeyInput>, word: &str)
    ensures
        final(out)@ == old(out)@ + type_word(word@),
{
    assert(word@.take(0) =~= Seq::<char>::empty());
    assert(out@ =~= old(out)@ + type_word(word@.take(0)));
    for c in it: word.chars()
        invariant
            it.seq() == word@,
            out@ == old(out)@ + type_word(word@.take(it.index() as int)),
    {
        push_char(out, c);
        proof {
            let next = word@.take(it.index() + 1);
            assert(next.drop_last() =~= word@.take(it.index() as int));
            assert(next.last() == c);
            assert(out@ =~= old(out)@ + type_word(next));
        }
    }
    assert(word@.take(word@.len() as int) =~= word@);
}

/// The events that replace a word, given the modifiers that are held down.
pub fn switch_inputs(
    action: &SwitchAction,
    boundary_vk: Option<u16>,
    use_selection: bool,
    held: &HeldModifiers,
) -> (r: Vec<KeyInput>)
    ensures
        r@ == switch_strokes(action@, boundary_vk, use_selection, *held),
{
    let mut out: Vec<KeyInput> = release_inputs(held);
    push_erase(&mut out, action.backspaces, use_selection);
    push_word(&mut out, action.new_word.as_str());
    match boundary_vk {
        Some(vk) => {
            push_tap(&mut out, vk);
        },
        None => {},
    }
    let mut last: Vec<KeyInput> = restore_inputs(held);
    let ghost before = out@;
    proof {
        if boundary_vk is None {
            assert(before + Seq::<KeyInput>::empty() =~= before);
        }
    }
    out.append(&mut last);
    out
}

/// The events that keep the Start menu from opening: a key that means nothing
/// is tapped while Win is held.
pub fn start_menu_inputs() -> (r: Vec<KeyInput>)
    ensures
        r@ == tap(VK_UNASSIGNED),
{
    let mut out: Vec<KeyInput> = Vec::new();
    push_tap(&mut out, VK_UNASSIGNED);
    assert(out@ =~= tap(VK_UNASSIGNED));
    out
}

/// The language of an installed layout: the low word of its handle.
pub open spec fn lang_of_handle(hkl: usize) -> u16 {
    (hkl % 0x1_0000) as u16
}

/// The language of an installed layout.
pub fn handle_lang(hkl: usize) -> (r: u16)
    ensures
        r == lang_of_handle(hkl),
{
    (hkl % 0x1_0000) as u16
}

/// Finds the first installed layout of a language.
pub fn find_hkl(installed: &Vec<usize>, lang_id: u16) -> (r: Option<usize>)
    ensures
        r matches Some(h) ==> exists|i: int|
            0 <= i < installed@.len() && #[trigger] installed@[i] == h && lang_of_handle(h)
                == lang_id && forall|j: int|
                0 <= j < i ==> lang_of_handle(#[trigger] installed@[j]) != lang_id,
        r is None ==> forall|i: int|
            0 <= i < installed@.len() ==> lang_of_handle(#[trigger] installed@[i]) != lang_id,
{
    let mut i: usize = 0;
    while i < installed.len()
        invariant
            i <= installed@.len(),
            forall|j: int| 0 <= j < i ==> lang_of_handle(#[trigger] installed@[j]) != lang_id,
        decreases installed.len() - i,
    {
        if handle_lang(installed[i]) == lang_id {
            return Some(installed[i]);
        }
        i += 1;
    }
    None
}

// -- What the events do ---------------------------------------------------------------

/// The keys that are held after some events.
pub open spec fn held_after(held: Set<u16>, events: Seq<KeyInput>) -> Set<u16>
    decreases events.len(),
{
    if events.len() == 0 {
        held
    } else {
        let before = held_after(held, events.drop_last());
        let e = events.last();
        if e.flags == 0 {
            before.insert(e.vk)
        } else if e.flags == KEYEVENTF_KEYUP {
            before.remove(e.vk)
        } else {
            before
        }
    }
}

/// The modifiers that are held down, as a set of keys.
pub open spec fn held_set(m: HeldModifiers) -> Set<u16> {
    Set::new(
        |vk: u16|
            {
                ||| m.lwin && vk == VK_LWIN
                ||| m.rwin && vk == VK_RWIN
                ||| m.lctrl && vk == VK_LCONTROL
                ||| m.rctrl && vk == VK_RCONTROL
                ||| m.lshift && vk == VK_LSHIFT
                ||| m.rshift && vk == VK_RSHIFT
                ||| m.lalt && vk == VK_LMENU
                ||| m.ralt && vk == VK_RMENU
            },
    )
}

proof fn lemma_held_concat(held: Set<u16>, a: Seq<KeyInput>, b: Seq<KeyInput>)
    ensures
        held_after(held, a + b) == held_after(held_after(held, a), b),
    decreases b.len(),
{
    if b.len() == 0 {
        assert(a + b =~= a);
    } else {
        assert((a + b).drop_last() =~= a + b.drop_last());
        lemma_held_concat(held, a, b.drop_last());
    }
}

proof fn lemma_held_one(held: Set<u16>, condition: bool, e: KeyInput)
    ensures
        held_after(held, only_if(condition, e)) == (if !condition {
            held
        } else if e.flags == 0 {
            held.insert(e.vk)
        } else if e.flags == KEYEVENTF_KEYUP {
            held.remove(e.vk)
        } else {
            held
        }),
{
    reveal_with_fuel(held_after, 2);
    let s = only_if(condition, e);
    if condition {
        assert(s.drop_last() =~= Seq::<KeyInput>::empty());
        assert(s.last() == e);
    }
}

proof fn lemma_held_tap(held: Set<u16>, vk: u16)
    requires
        !held.contains(vk),
    ensures
        held_after(held, tap(vk)) == held,
{
    let down = only_if(true, stroke(vk, false));
    let up = only_if(true, stroke(vk, true));
    assert(tap(vk) =~= down + up);
    lemma_held_concat(held, down, up);
    lemma_held_one(held, true, stroke(vk, false));
    lemma_held_one(held.insert(vk), true, stroke(vk, true));
    assert(held.insert(vk).remove(vk) =~= held);
}

proof fn lemma_held_taps(held: Set<u16>, vk: u16, n: int)
    requires
        !held.contains(vk),
    ensures
        held_after(held, taps(vk, n)) == held,
    decreases n,
{
    if n > 0 {
        lemma_held_taps(held, vk, n - 1);
        lemma_held_concat(held, taps(vk, n - 1), tap(vk));
        lemma_held_tap(held, vk);
    }
}

proof fn lemma_held_unit(held: Set<u16>, unit: u16)
    ensures
        held_after(held, unit_tap(unit)) == held,
{
    let down = only_if(true, unit_stroke(unit, false));
    let up = only_if(true, unit_stroke(unit, true));
    assert(unit_tap(unit) =~= down + up);
    lemma_held_concat(held, down, up);
    lemma_held_one(held, true, unit_stroke(unit, false));
    lemma_held_one(held, true, unit_stroke(unit, true));
}

proof fn lemma_held_word(held: Set<u16>, w: Seq<char>)
    ensures
        held_after(held, type_word(w)) == held,
    decreases w.len(),
{
    if w.len() > 0 {
        let u = utf16(w.last());
        lemma_held_word(held, w.drop_last());
        lemma_held_concat(held, type_word(w.drop_last()), char_taps(w.last()));
        lemma_held_unit(held, u[0]);
        if u.len() == 2 {
            lemma_held_unit(held, u[1]);
            lemma_held_concat(held, unit_tap(u[0]), unit_tap(u[1]));
        }
    }
}

proof fn lemma_held_erase(n: int, by_selection: bool)
    ensures
        held_after(Set::empty(), erase(n, by_selection)) == Set::<u16>::empty(),
{
    let none = Set::<u16>::empty();
    if n > 0 && by_selection {
        let e = erase(n, by_selection);
        reveal_with_fuel(held_after, 9);
        assert(held_after(none, e) =~= none);
    } else if n > 0 {
        lemma_held_taps(none, VK_BACK, n);
    }
}

/// One more event about a key, where the condition holds: it tells whether that
/// key is held, and nothing of the others.
proof fn lemma_held_more(
    held: Set<u16>,
    s: Seq<KeyInput>,
    condition: bool,
    vk: u16,
    up: bool,
    other: u16,
)
    ensures
        held_after(held, s + only_if(condition, stroke(vk, up))).contains(other) == (if condition
            && other == vk {
            !up
        } else {
            held_after(held, s).contains(other)
        }),
{
    lemma_held_concat(held, s, only_if(condition, stroke(vk, up)));
    lemma_held_one(held_after(held, s), condition, stroke(vk, up));
}

proof fn lemma_held_release(m: HeldModifiers)
    ensures
        held_after(held_set(m), release(m)) == Set::<u16>::empty(),
{
    let h = held_set(m);
    lemma_held_tap(h, VK_UNASSIGNED);
    let s0 = if m.lwin || m.rwin {
        tap(VK_UNASSIGNED)
    } else {
        Seq::empty()
    };
    let s1 = s0 + only_if(m.lwin, stroke(VK_LWIN, true));
    let s2 = s1 + only_if(m.rwin, stroke(VK_RWIN, true));
    let s3 = s2 + only_if(m.lctrl, stroke(VK_LCONTROL, true));
    let s4 = s3 + only_if(m.rctrl, stroke(VK_RCONTROL, true));
    let s5 = s4 + only_if(m.lshift, stroke(VK_LSHIFT, true));
    let s6 = s5 + only_if(m.rshift, stroke(VK_RSHIFT, true));
    let s7 = s6 + only_if(m.lalt, stroke(VK_LMENU, true));
    assert(held_after(h, s0) == h);
    assert forall|k: u16| !#[trigger] held_after(h, release(m)).contains(k) by {
        lemma_held_more(h, s0, m.lwin, VK_LWIN, true, k);
        lemma_held_more(h, s1, m.rwin, VK_RWIN, true, k);
        lemma_held_more(h, s2, m.lctrl, VK_LCONTROL, true, k);
        lemma_held_more(h, s3, m.rctrl, VK_RCONTROL, true, k);
        lemma_held_more(h, s4, m.lshift, VK_LSHIFT, true, k);
        lemma_held_more(h, s5, m.rshift, VK_RSHIFT, true, k);
        lemma_held_more(h, s6, m.lalt, VK_LMENU, true, k);
        lemma_held_more(h, s7, m.ralt, VK_RMENU, true, k);
    }
    assert(held_after(h, release(m)) =~= Set::<u16>::empty());
}

proof fn lemma_held_restore(m: HeldModifiers)
    ensures
        held_after(Set::empty(), restore(m)) == held_set(m),
{
    let h = Set::<u16>::empty();
    let s0 = Seq::<KeyInput>::empty();
    let s1 = s0 + only_if(m.lalt, stroke(VK_LMENU, false));
    let s2 = s1 + only_if(m.ralt, stroke(VK_RMENU, false));
    let s3 = s2 + only_if(m.lshift, stroke(VK_LSHIFT, false));
    let s4 = s3 + only_if(m.rshift, stroke(VK_RSHIFT, false));
    let s5 = s4 + only_if(m.lctrl, stroke(VK_LCONTROL, false));
    let s6 = s5 + only_if(m.rctrl, stroke(VK_RCONTROL, false));
    let s7 = s6 + only_if(m.lwin, stroke(VK_LWIN, false));
    assert(s1 =~= only_if(m.lalt, stroke(VK_LMENU, false)));
    assert forall|k: u16| #[trigger]
        held_after(h, restore(m)).contains(k) == held_set(m).contains(k) by {
        lemma_held_more(h, s0, m.lalt, VK_LMENU, false, k);
        lemma_held_more(h, s1, m.ralt, VK_RMENU, false, k);
        lemma_held_more(h, s2, m.lshift, VK_LSHIFT, false, k);
        lemma_held_more(h, s3, m.rshift, VK_RSHIFT, false, k);
        lemma_held_more(h, s4, m.lctrl, VK_LCONTROL, false, k);
        lemma_held_more(h, s5, m.rctrl, VK_RCONTROL, false, k);
        lemma_held_more(h, s6, m.lwin, VK_LWIN, false, k);
        lemma_held_more(h, s7, m.rwin, VK_RWIN, false, k);
    }
    assert(held_after(h, restore(m)) =~= held_set(m));
}

/// While a word is replaced no modifier is held, and after it exactly those
/// are held again that had been before.
pub proof fn law_modifiers_are_restored(
    r: Replacement,
    boundary_vk: Option<u16>,
    by_selection: bool,
    m: HeldModifiers,
)
    ensures
        held_after(held_set(m), release(m)) == Set::<u16>::empty(),
        held_after(held_set(m), switch_strokes(r, boundary_vk, by_selection, m)) == held_set(m),
{
    let h0 = held_set(m);
    let none = Set::<u16>::empty();
    let end = match boundary_vk {
        Some(vk) => tap(vk),
        None => Seq::<KeyInput>::empty(),
    };
    let s1 = release(m) + erase(r.backspaces, by_selection);
    let s2 = s1 + type_word(r.new_word);
    let s3 = s2 + end;
    lemma_held_release(m);
    lemma_held_concat(h0, release(m), erase(r.backspaces, by_selection));
    lemma_held_erase(r.backspaces, by_selection);
    lemma_held_concat(h0, s1, type_word(r.new_word));
    lemma_held_word(none, r.new_word);
    lemma_held_concat(h0, s2, end);
    if boundary_vk is Some {
        lemma_held_tap(none, boundary_vk->0);
    }
    lemma_held_concat(h0, s3, restore(m));
    lemma_held_restore(m);
}

/// The text in front of the cursor, in UTF-16, after some events. Of the keys
/// only Backspace matters here: it takes the last unit away.
pub open spec fn text_after(text: Seq<u16>, events: Seq<KeyInput>) -> Seq<u16>
    decreases events.len(),
{
    if events.len() == 0 {
        text
    } else {
        let before = text_after(text, events.drop_last());
        let e = events.last();
        if e.flags == KEYEVENTF_UNICODE {
            before.push(e.scan)
        } else if e.flags == 0 && e.vk == VK_BACK && before.len() > 0 {
            before.drop_last()
        } else {
            before
        }
    }
}

/// A word in UTF-16.
pub open spec fn units(w: Seq<char>) -> Seq<u16>
    decreases w.len(),
{
    if w.len() == 0 {
        Seq::empty()
    } else {
        units(w.drop_last()) + utf16(w.last())
    }
}

proof fn lemma_text_concat(text: Seq<u16>, a: Seq<KeyInput>, b: Seq<KeyInput>)
    ensures
        text_after(text, a + b) == text_after(text_after(text, a), b),
    decreases b.len(),
{
    if b.len() == 0 {
        assert(a + b =~= a);
    } else {
        assert((a + b).drop_last() =~= a + b.drop_last());
        lemma_text_concat(text, a, b.drop_last());
    }
}

proof fn lemma_text_one(text: Seq<u16>, condition: bool, e: KeyInput)
    ensures
        text_after(text, only_if(condition, e)) == (if !condition {
            text
        } else if e.flags == KEYEVENTF_UNICODE {
            text.push(e.scan)
        } else if e.flags == 0 && e.vk == VK_BACK && text.len() > 0 {
            text.drop_last()
        } else {
            text
        }),
{
    reveal_with_fuel(text_after, 2);
    let s = only_if(condition, e);
    if condition {
        assert(s.drop_last() =~= Seq::<KeyInput>::empty());
        assert(s.last() == e);
    }
}

/// One more event about a key other than Backspace leaves the text alone.
proof fn lemma_text_still(text: Seq<u16>, s: Seq<KeyInput>, condition: bool, vk: u16, up: bool)
    requires
        vk != VK_BACK,
    ensures
        text_after(text, s + only_if(condition, stroke(vk, up))) == text_after(text, s),
{
    lemma_text_concat(text, s, only_if(condition, stroke(vk, up)));
    lemma_text_one(text_after(text, s), condition, stroke(vk, up));
}

proof fn lemma_text_back(text: Seq<u16>, n: int)
    requires
        0 <= n <= text.len(),
    ensures
        text_after(text, taps(VK_BACK, n)) == text.take(text.len() - n),
    decreases n,
{
    if n == 0 {
        assert(text.take(text.len() as int) =~= text);
    } else {
        lemma_text_back(text, n - 1);
        lemma_text_concat(text, taps(VK_BACK, n - 1), tap(VK_BACK));
        let before = text.take(text.len() - (n - 1));
        let down = only_if(true, stroke(VK_BACK, false));
        let up = only_if(true, stroke(VK_BACK, true));
        assert(tap(VK_BACK) =~= down + up);
        lemma_text_concat(before, down, up);
        lemma_text_one(before, true, stroke(VK_BACK, false));
        lemma_text_one(before.drop_last(), true, stroke(VK_BACK, true));
        assert(before.drop_last() =~= text.take(text.len() - n));
    }
}

proof fn lemma_text_unit(text: Seq<u16>, unit: u16)
    ensures
        text_after(text, unit_tap(unit)) == text.push(unit),
{
    let down = only_if(true, unit_stroke(unit, false));
    let up = only_if(true, unit_stroke(unit, true));
    assert(unit_tap(unit) =~= down + up);
    lemma_text_concat(text, down, up);
    lemma_text_one(text, true, unit_stroke(unit, false));
    lemma_text_one(text.push(unit), true, unit_stroke(unit, true));
}

proof fn lemma_text_word(text: Seq<u16>, w: Seq<char>)
    ensures
        text_after(text, type_word(w)) == text + units(w),
    decreases w.len(),
{
    if w.len() == 0 {
        assert(text + units(w) =~= text);
    } else {
        let u = utf16(w.last());
        let before = text + units(w.drop_last());
        lemma_text_word(text, w.drop_last());
        lemma_text_concat(text, type_word(w.drop_last()), char_taps(w.last()));
        lemma_text_unit(before, u[0]);
        if u.len() == 2 {
            lemma_text_unit(before.push(u[0]), u[1]);
            lemma_text_concat(before, unit_tap(u[0]), unit_tap(u[1]));
        }
        assert(text_after(text, type_word(w)) =~= text + units(w));
    }
}

proof fn lemma_text_release(text: Seq<u16>, m: HeldModifiers)
    ensures
        text_after(text, release(m)) == text,
{
    let s0 = if m.lwin || m.rwin {
        tap(VK_UNASSIGNED)
    } else {
        Seq::empty()
    };
    let s1 = s0 + only_if(m.lwin, stroke(VK_LWIN, true));
    let s2 = s1 + only_if(m.rwin, stroke(VK_RWIN, true));
    let s3 = s2 + only_if(m.lctrl, stroke(VK_LCONTROL, true));
    let s4 = s3 + only_if(m.rctrl, stroke(VK_RCONTROL, true));
    let s5 = s4 + only_if(m.lshift, stroke(VK_LSHIFT, true));
    let s6 = s5 + only_if(m.rshift, stroke(VK_RSHIFT, true));
    let s7 = s6 + only_if(m.lalt, stroke(VK_LMENU, true));
    let down = only_if(true, stroke(VK_UNASSIGNED, false));
    lemma_text_one(text, true, stroke(VK_UNASSIGNED, false));
    lemma_text_still(text, down, true, VK_UNASSIGNED, true);
    assert(tap(VK_UNASSIGNED) =~= down + only_if(true, stroke(VK_UNASSIGNED, true)));
    lemma_text_still(text, s0, m.lwin, VK_LWIN, true);
    lemma_text_still(text, s1, m.rwin, VK_RWIN, true);
    lemma_text_still(text, s2, m.lctrl, VK_LCONTROL, true);
    lemma_text_still(text, s3, m.rctrl, VK_RCONTROL, true);
    lemma_text_still(text, s4, m.lshift, VK_LSHIFT, true);
    lemma_text_still(text, s5, m.rshift, VK_RSHIFT, true);
    lemma_text_still(text, s6, m.lalt, VK_LMENU, true);
    lemma_text_still(text, s7, m.ralt, VK_RMENU, true);
}

proof fn lemma_text_restore(text: Seq<u16>, m: HeldModifiers)
    ensures
        text_after(text, restore(m)) == text,
{
    let s0 = Seq::<KeyInput>::empty();
    let s1 = s0 + only_if(m.lalt, stroke(VK_LMENU, false));
    let s2 = s1 + only_if(m.ralt, stroke(VK_RMENU, false));
    let s3 = s2 + only_if(m.lshift, stroke(VK_LSHIFT, false));
    let s4 = s3 + only_if(m.rshift, stroke(VK_RSHIFT, false));
    let s5 = s4 + only_if(m.lctrl, stroke(VK_LCONTROL, false));
    let s6 = s5 + only_if(m.rctrl, stroke(VK_RCONTROL, false));
    let s7 = s6 + only_if(m.lwin, stroke(VK_LWIN, false));
    assert(s1 =~= only_if(m.lalt, stroke(VK_LMENU, false)));
    lemma_text_still(text, s0, m.lalt, VK_LMENU, false);
    lemma_text_still(text, s1, m.ralt, VK_RMENU, false);
    lemma_text_still(text, s2, m.lshift, VK_LSHIFT, false);
    lemma_text_still(text, s3, m.rshift, VK_RSHIFT, false);
    lemma_text_still(text, s4, m.lctrl, VK_LCONTROL, false);
    lemma_text_still(text, s5, m.rctrl, VK_RCONTROL, false);
    lemma_text_still(text, s6, m.lwin, VK_LWIN, false);
    lemma_text_still(text, s7, m.rwin, VK_RWIN, false);
}

/// Replacing a word takes away as many units as there are characters to erase
/// and puts the new word in their place; the text before stays as it was.
pub proof fn law_text_is_replaced(text: Seq<u16>, r: Replacement, m: HeldModifiers)
    requires
        0 <= r.backspaces <= text.len(),
    ensures
        text_after(text, switch_strokes(r, None, false, m)) == text.take(
            text.len() - r.backspaces,
        ) + units(r.new_word),
{
    let kept = text.take(text.len() - r.backspaces);
    let nothing = Seq::<KeyInput>::empty();
    let s1 = release(m) + erase(r.backspaces, false);
    let s2 = s1 + type_word(r.new_word);
    lemma_text_release(text, m);
    lemma_text_concat(text, release(m), erase(r.backspaces, false));
    lemma_text_back(text, r.backspaces);
    lemma_text_concat(text, s1, type_word(r.new_word));
    lemma_text_word(kept, r.new_word);
    lemma_text_concat(text, s2, nothing);
    lemma_text_concat(text, s2 + nothing, restore(m));
    lemma_text_restore(kept + units(r.new_word), m);
}

} // verus!
