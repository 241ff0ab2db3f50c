//! What the events that replace a word are, one by one.

use vstd::prelude::*;

use crate::bigrams::LanguageModel;
use crate::buffer::{self, Preferences, Replacement, Typed};
use crate::hook::{self, Memory};
use crate::keys::HookHotkey;
use crate::laws;
use crate::layout::{self, Layout};
use crate::rule_laws;
use crate::settings::Configuration;
use crate::switcher::{self, HeldModifiers, KeyInput};
use crate::typing;

verus! {

/// The event of a key that goes down or up, with the mark of the program.
pub open spec fn key_event(vk: u16, up: bool) -> KeyInput {
    KeyInput {
        vk,
        scan: 0,
        flags: if up {
            2
        } else {
            0
        },
        extra_info: 0x5357_4954,
    }
}

/// The event of a UTF-16 unit that is typed, the key going down or up.
pub open spec fn unit_event(unit: u16, up: bool) -> KeyInput {
    KeyInput {
        vk: 0,
        scan: unit,
        flags: if up {
            6
        } else {
            4
        },
        extra_info: 0x5357_4954,
    }
}

/// A modifier is among those that are held.
pub open spec fn is_held(vk: u16, m: HeldModifiers) -> bool {
    match vk {
        0x5B => m.lwin,
        0x5C => m.rwin,
        0xA0 => m.lshift,
        0xA1 => m.rshift,
        0xA2 => m.lctrl,
        0xA3 => m.rctrl,
        0xA4 => m.lalt,
        0xA5 => m.ralt,
        _ => false,
    }
}

/// Those of some modifiers that are held go up, or down again, in their order.
pub open spec fn those_held(order: Seq<u16>, m: HeldModifiers, up: bool) -> Seq<KeyInput>
    decreases order.len(),
{
    if order.len() == 0 {
        Seq::empty()
    } else if is_held(order.last(), m) {
        those_held(order.drop_last(), m, up).push(key_event(order.last(), up))
    } else {
        those_held(order.drop_last(), m, up)
    }
}

/// The modifiers as they are let go of: Win, Ctrl, Shift, Alt.
pub open spec fn release_order() -> Seq<u16> {
    seq![0x5Bu16, 0x5C, 0xA2, 0xA3, 0xA0, 0xA1, 0xA4, 0xA5]
}

/// The modifiers as they are held again: Alt, Shift, Ctrl, Win.
pub open spec fn restore_order() -> Seq<u16> {
    seq![0xA4u16, 0xA5, 0xA0, 0xA1, 0xA2, 0xA3, 0x5B, 0x5C]
}

proof fn lemma_those_held_next(order: Seq<u16>, vk: u16, m: HeldModifiers, up: bool)
    ensures
        those_held(order.push(vk), m, up) == those_held(order, m, up) + switcher::only_if(
            is_held(vk, m),
            key_event(vk, up),
        ),
{
    let more = order.push(vk);
    assert(more.drop_last() =~= order);
    assert(more.last() == vk);
    assert(those_held(more, m, up) =~= those_held(order, m, up) + switcher::only_if(
        is_held(vk, m),
        key_event(vk, up),
    ));
}

/// The events before the word is erased.
pub open spec fn letting_go(m: HeldModifiers) -> Seq<KeyInput> {
    (if m.lwin || m.rwin {
        seq![key_event(0xE8, false), key_event(0xE8, true)]
    } else {
        Seq::empty()
    }) + those_held(release_order(), m, true)
}

/// Where some events are those before and the modifiers so far, they still are
/// with one more modifier.
proof fn lemma_one_more(
    events: Seq<KeyInput>,
    before: Seq<KeyInput>,
    order: Seq<u16>,
    vk: u16,
    m: HeldModifiers,
)
    requires
        events == before + those_held(order, m, true),
    ensures
        events + switcher::only_if(is_held(vk, m), key_event(vk, true)) == before + those_held(
            order.push(vk),
            m,
            true,
        ),
{
    lemma_those_held_next(order, vk, m, true);
    assert(events + switcher::only_if(is_held(vk, m), key_event(vk, true)) =~= before + those_held(
        order.push(vk),
        m,
        true,
    ));
}

proof fn lemma_letting_go(m: HeldModifiers)
    ensures
        switcher::release(m) == letting_go(m),
{
    let before = if m.lwin || m.rwin {
        seq![key_event(0xE8, false), key_event(0xE8, true)]
    } else {
        Seq::empty()
    };
    let o0 = Seq::<u16>::empty();
    let o1 = o0.push(0x5B);
    let o2 = o1.push(0x5C);
    let o3 = o2.push(0xA2);
    let o4 = o3.push(0xA3);
    let o5 = o4.push(0xA0);
    let o6 = o5.push(0xA1);
    let o7 = o6.push(0xA4);
    let s1 = before + switcher::only_if(m.lwin, key_event(0x5B, true));
    let s2 = s1 + switcher::only_if(m.rwin, key_event(0x5C, true));
    let s3 = s2 + switcher::only_if(m.lctrl, key_event(0xA2, true));
    let s4 = s3 + switcher::only_if(m.rctrl, key_event(0xA3, true));
    let s5 = s4 + switcher::only_if(m.lshift, key_event(0xA0, true));
    let s6 = s5 + switcher::only_if(m.rshift, key_event(0xA1, true));
    let s7 = s6 + switcher::only_if(m.lalt, key_event(0xA4, true));
    assert(before =~= before + those_held(o0, m, true));
    lemma_one_more(before, before, o0, 0x5B, m);
    lemma_one_more(s1, before, o1, 0x5C, m);
    lemma_one_more(s2, before, o2, 0xA2, m);
    lemma_one_more(s3, before, o3, 0xA3, m);
    lemma_one_more(s4, before, o4, 0xA0, m);
    lemma_one_more(s5, before, o5, 0xA1, m);
    lemma_one_more(s6, before, o6, 0xA4, m);
    lemma_one_more(s7, before, o7, 0xA5, m);
    assert(o7.push(0xA5) =~= release_order());
}

proof fn lemma_holding_again(m: HeldModifiers)
    ensures
        switcher::restore(m) == those_held(restore_order(), m, false),
{
    let o0 = Seq::<u16>::empty();
    let o1 = o0.push(0xA4);
    let o2 = o1.push(0xA5);
    let o3 = o2.push(0xA0);
    let o4 = o3.push(0xA1);
    let o5 = o4.push(0xA2);
    let o6 = o5.push(0xA3);
    let o7 = o6.push(0x5B);
    lemma_those_held_next(o0, 0xA4, m, false);
    lemma_those_held_next(o1, 0xA5, m, false);
    lemma_those_held_next(o2, 0xA0, m, false);
    lemma_those_held_next(o3, 0xA1, m, false);
    lemma_those_held_next(o4, 0xA2, m, false);
    lemma_those_held_next(o5, 0xA3, m, false);
    lemma_those_held_next(o6, 0x5B, m, false);
    lemma_those_held_next(o7, 0x5C, m, false);
    assert(o7.push(0x5C) =~= restore_order());
    assert(switcher::restore(m) =~= those_held(restore_order(), m, false));
}

/// How many modifiers are held.
pub open spec fn how_many(m: HeldModifiers) -> int {
    (if m.lwin {
        1int
    } else {
        0int
    }) + (if m.rwin {
        1int
    } else {
        0int
    }) + (if m.lctrl {
        1int
    } else {
        0int
    }) + (if m.rctrl {
        1int
    } else {
        0int
    }) + (if m.lshift {
        1int
    } else {
        0int
    }) + (if m.rshift {
        1int
    } else {
        0int
    }) + (if m.lalt {
        1int
    } else {
        0int
    }) + (if m.ralt {
        1int
    } else {
        0int
    })
}

/// The key that ended a word is typed once, after the new word and before the
/// modifiers are held again; apart from it the events are those without such a
/// key.
#[verifier::rlimit(50)]
pub proof fn law_boundary_key_is_typed_once(
    r: Replacement,
    vk: u16,
    by_selection: bool,
    m: HeldModifiers,
)
    ensures
        ({
            let with = switcher::switch_strokes(r, Some(vk), by_selection, m);
            let without = switcher::switch_strokes(r, None, by_selection, m);
            let at = without.len() - how_many(m);
            &&& 0 <= at
            &&& with == without.take(at) + seq![key_event(vk, false), key_event(vk, true)]
                + without.skip(at)
            &&& with.subrange(at, at + 2) == seq![key_event(vk, false), key_event(vk, true)]
            &&& with.skip(at + 2) == those_held(restore_order(), m, false)
            &&& without.skip(at) == those_held(restore_order(), m, false)
        }),
{
    let before = switcher::release(m) + switcher::erase(r.backspaces, by_selection)
        + switcher::type_word(r.new_word);
    lemma_holding_again(m);
    lemma_how_many(m);
    lemma_put_between(
        before,
        switcher::tap(vk),
        switcher::restore(m),
        switcher::switch_strokes(r, Some(vk), by_selection, m),
        switcher::switch_strokes(r, None, by_selection, m),
    );
}

proof fn lemma_how_many(m: HeldModifiers)
    ensures
        switcher::restore(m).len() == how_many(m),
{
}

/// Two events between what comes before and what comes after.
proof fn lemma_put_between(
    before: Seq<KeyInput>,
    two: Seq<KeyInput>,
    after: Seq<KeyInput>,
    with: Seq<KeyInput>,
    without: Seq<KeyInput>,
)
    requires
        two.len() == 2,
        with == before + two + after,
        without == before + Seq::<KeyInput>::empty() + after,
    ensures
        without.len() == before.len() + after.len(),
        with == without.take(before.len() as int) + two + without.skip(before.len() as int),
        with.subrange(before.len() as int, before.len() as int + 2) == two,
        with.skip(before.len() as int + 2) == after,
        without.skip(before.len() as int) == after,
{
    assert(without.take(before.len() as int) =~= before);
    assert(without.skip(before.len() as int) =~= after);
    assert(with.subrange(before.len() as int, before.len() as int + 2) =~= two);
    assert(with.skip(before.len() as int + 2) =~= after);
}

proof fn lemma_taps(vk: u16, n: int, i: int)
    requires
        0 <= n,
    ensures
        switcher::taps(vk, n).len() == 2 * n,
        0 <= i < n ==> switcher::taps(vk, n)[2 * i] == key_event(vk, false) && switcher::taps(
            vk,
            n,
        )[2 * i + 1] == key_event(vk, true),
    decreases n,
{
    if n > 0 {
        lemma_taps(vk, n - 1, i);
    }
}

proof fn lemma_typed(w: Seq<char>, i: int)
    ensures
        switcher::type_word(w).len() == 2 * switcher::units(w).len(),
        0 <= i < switcher::units(w).len() ==> switcher::type_word(w)[2 * i] == unit_event(
            switcher::units(w)[i],
            false,
        ) && switcher::type_word(w)[2 * i + 1] == unit_event(switcher::units(w)[i], true),
    decreases w.len(),
{
    if w.len() > 0 {
        lemma_typed(w.drop_last(), i);
        let before = switcher::units(w.drop_last());
        let u = switcher::utf16(w.last());
        assert(switcher::units(w) =~= before + u);
        assert(switcher::char_taps(w.last()).len() == 2 * u.len());
        if before.len() <= i < before.len() + u.len() {
            let k = i - before.len();
            assert(switcher::char_taps(w.last())[2 * k] == unit_event(u[k], false));
            assert(switcher::char_taps(w.last())[2 * k + 1] == unit_event(u[k], true));
            assert(switcher::type_word(w)[2 * i] == switcher::char_taps(w.last())[2 * k]);
            assert(switcher::type_word(w)[2 * i + 1] == switcher::char_taps(w.last())[2 * k + 1]);
        }
    }
}

/// The events come in this order: the held modifiers go up, after a key that
/// means nothing where Win is among them; Backspace is tapped once for each
/// character to erase, or the word is selected and erased at once; every unit of
/// the new word goes down and up; the modifiers go down again.
#[verifier::rlimit(50)]
pub proof fn law_events_come_in_order(
    r: Replacement,
    by_selection: bool,
    m: HeldModifiers,
    i: int,
)
    requires
        0 <= r.backspaces,
    ensures
        ({
            let events = switcher::switch_strokes(r, None, by_selection, m);
            let first = letting_go(m).len() as int;
            let erased = if r.backspaces == 0 {
                0
            } else if by_selection {
                8
            } else {
                2 * r.backspaces
            };
            let units = switcher::units(r.new_word);
            let next = first + erased;
            &&& events.len() == next + 2 * units.len() + how_many(m)
            &&& events.take(first) == letting_go(m)
            &&& !by_selection && 0 <= i < r.backspaces ==> events[first + 2 * i] == key_event(
                0x08,
                false,
            ) && events[first + 2 * i + 1] == key_event(0x08, true)
            &&& by_selection && 0 < r.backspaces ==> events.subrange(first, next) == seq![
                key_event(0x11, false),
                key_event(0x10, false),
                key_event(0x25, false),
                key_event(0x25, true),
                key_event(0x10, true),
                key_event(0x11, true),
                key_event(0x08, false),
                key_event(0x08, true),
            ]
            &&& 0 <= i < units.len() ==> events[next + 2 * i] == unit_event(units[i], false)
                && events[next + 2 * i + 1] == unit_event(units[i], true)
            &&& events.skip(next + 2 * units.len()) == those_held(restore_order(), m, false)
        }),
{
    let middle = switcher::erase(r.backspaces, by_selection);
    let typed = switcher::type_word(r.new_word);
    lemma_letting_go(m);
    lemma_holding_again(m);
    lemma_how_many(m);
    lemma_typed(r.new_word, i);
    lemma_taps(0x08, r.backspaces, i);
    lemma_four_parts(
        switcher::release(m),
        middle,
        typed,
        switcher::restore(m),
        switcher::switch_strokes(r, None, by_selection, m),
        i,
    );
}

/// The places of four parts that stand one after the other.
proof fn lemma_four_parts(
    a: Seq<KeyInput>,
    b: Seq<KeyInput>,
    c: Seq<KeyInput>,
    d: Seq<KeyInput>,
    all: Seq<KeyInput>,
    i: int,
)
    requires
        all == a + b + c + Seq::<KeyInput>::empty() + d,
    ensures
        all.len() == a.len() + b.len() + c.len() + d.len(),
        all.take(a.len() as int) == a,
        all.subrange(a.len() as int, (a.len() + b.len()) as int) == b,
        all.skip((a.len() + b.len() + c.len()) as int) == d,
        0 <= 2 * i && 2 * i + 1 < b.len() ==> all[a.len() + 2 * i] == b[2 * i] && all[a.len() + 2 * i
            + 1] == b[2 * i + 1],
        0 <= 2 * i && 2 * i + 1 < c.len() ==> all[a.len() + b.len() + 2 * i] == c[2 * i]
            && all[a.len() + b.len() + 2 * i + 1] == c[2 * i + 1],
{
    assert(all.take(a.len() as int) =~= a);
    assert(all.subrange(a.len() as int, (a.len() + b.len()) as int) =~= b);
    assert(all.skip((a.len() + b.len() + c.len()) as int) =~= d);
}

/// A character is read back from its UTF-16 units: it is the only unit, or the
/// two are a high and a low surrogate that stand for it.
pub proof fn law_units_are_read_back(c: char)
    ensures
        ({
            let u = switcher::utf16(c);
            &&& u.len() == 1 || u.len() == 2
            &&& u.len() == 1 <==> c as int <= 0xFFFF
            &&& u.len() == 1 ==> u[0] as int == c as int
            &&& u.len() == 2 ==> {
                &&& 0xD800 <= u[0] < 0xDC00
                &&& 0xDC00 <= u[1] < 0xE000
                &&& 0x1_0000 + (u[0] - 0xD800) * 0x400 + (u[1] - 0xDC00) == c as int
            }
        }),
{
}

/// The units of a word are those of its characters, one after the other.
pub proof fn law_units_add_up(a: Seq<char>, b: Seq<char>)
    ensures
        switcher::units(a + b) == switcher::units(a) + switcher::units(b),
    decreases b.len(),
{
    if b.len() == 0 {
        assert(a + b =~= a);
        assert(switcher::units(a) + switcher::units(b) =~= switcher::units(a));
    } else {
        law_units_add_up(a, b.drop_last());
        assert((a + b).drop_last() =~= a + b.drop_last());
        assert(switcher::units(a + b) =~= switcher::units(a) + switcher::units(b));
    }
}

/// The events that keep the Start menu from opening are the key that means
/// nothing, going down and up.
pub proof fn law_taps_are_down_and_up(vk: u16)
    ensures
        switcher::tap(vk) == seq![key_event(vk, false), key_event(vk, true)],
{
}

/// While a word is replaced, nothing but the program's own mark is on the
/// events, so that the program takes none of them for the user's.
#[verifier::rlimit(50)]
pub proof fn law_events_are_marked(
    r: Replacement,
    boundary_vk: Option<u16>,
    by_selection: bool,
    m: HeldModifiers,
    i: int,
)
    requires
        0 <= i < switcher::switch_strokes(r, boundary_vk, by_selection, m).len(),
    ensures
        switcher::switch_strokes(r, boundary_vk, by_selection, m)[i].extra_info == 0x5357_4954,
        !hook::calls_for_attention(
            0,
            true,
            switcher::switch_strokes(r, boundary_vk, by_selection, m)[i].extra_info,
            0x0100,
        ),
{
    let end = match boundary_vk {
        Some(vk) => switcher::tap(vk),
        None => Seq::empty(),
    };
    let s1 = switcher::release(m) + switcher::erase(r.backspaces, by_selection);
    let s2 = s1 + switcher::type_word(r.new_word);
    let s3 = s2 + end;
    lemma_marked_release(m);
    lemma_marked_restore(m);
    lemma_marked_erase(r.backspaces, by_selection);
    lemma_marked_word(r.new_word);
    assert(marked(end));
    lemma_marked_both(switcher::release(m), switcher::erase(r.backspaces, by_selection));
    lemma_marked_both(s1, switcher::type_word(r.new_word));
    lemma_marked_both(s2, end);
    lemma_marked_both(s3, switcher::restore(m));
}

proof fn lemma_marked_both(a: Seq<KeyInput>, b: Seq<KeyInput>)
    requires
        marked(a),
        marked(b),
    ensures
        marked(a + b),
{
}

proof fn lemma_marked_those(order: Seq<u16>, m: HeldModifiers, up: bool)
    ensures
        marked(those_held(order, m, up)),
    decreases order.len(),
{
    if order.len() > 0 {
        lemma_marked_those(order.drop_last(), m, up);
    }
}

proof fn lemma_marked_release(m: HeldModifiers)
    ensures
        marked(switcher::release(m)),
{
    lemma_letting_go(m);
    lemma_marked_those(release_order(), m, true);
    let before = if m.lwin || m.rwin {
        seq![key_event(0xE8, false), key_event(0xE8, true)]
    } else {
        Seq::empty()
    };
    assert(marked(before));
    lemma_marked_both(before, those_held(release_order(), m, true));
}

proof fn lemma_marked_restore(m: HeldModifiers)
    ensures
        marked(switcher::restore(m)),
{
    lemma_holding_again(m);
    lemma_marked_those(restore_order(), m, false);
}

proof fn lemma_marked_erase(n: int, by_selection: bool)
    ensures
        marked(switcher::erase(n, by_selection)),
{
    lemma_marked_taps(n);
}

spec fn marked(events: Seq<KeyInput>) -> bool {
    forall|i: int| 0 <= i < events.len() ==> (#[trigger] events[i]).extra_info == 0x5357_4954
}

proof fn lemma_marked_taps(n: int)
    ensures
        marked(switcher::taps(crate::keys::VK_BACK, n)),
    decreases n,
{
    if n > 0 {
        lemma_marked_taps(n - 1);
    }
}

proof fn lemma_marked_word(w: Seq<char>)
    ensures
        marked(switcher::type_word(w)),
    decreases w.len(),
{
    if w.len() > 0 {
        lemma_marked_word(w.drop_last());
    }
}

/// The units of a single character are its own.
pub proof fn law_units_of_one_character(c: char)
    ensures
        switcher::units(seq![c]) == switcher::utf16(c),
        switcher::units(Seq::empty()).len() == 0,
{
    reveal_with_fuel(switcher::units, 2);
    let one = seq![c];
    assert(one.drop_last().len() == 0);
    assert(one.last() == c);
    assert(switcher::units(one) =~= switcher::utf16(c));
}

// -- The text on the screen ----------------------------------------------------------------

/// Where no character lies beyond the first plane, a word has one unit per character.
pub proof fn law_one_unit_per_character(w: Seq<char>)
    requires
        forall|i: int| 0 <= i < w.len() ==> #[trigger] w[i] as int <= 0xFFFF,
    ensures
        switcher::units(w).len() == w.len(),
    decreases w.len(),
{
    if w.len() > 0 {
        let rest = w.drop_last();
        assert forall|i: int| 0 <= i < rest.len() implies #[trigger] rest[i] as int <= 0xFFFF by {
            assert(rest[i] == w[i]);
        }
        law_one_unit_per_character(rest);
        assert(w[w.len() - 1] as int <= 0xFFFF);
        law_units_are_read_back(w.last());
        assert(switcher::units(w) =~= switcher::units(rest) + switcher::utf16(w.last()));
    }
}

/// Where detection or the hotkey switches a word, the events put the new word in the
/// place of what stood on the screen: a unit for each key, but for the last one while the
/// word is being typed. The text before it stays.
#[verifier::rlimit(50)]
pub proof fn law_switches_replace_just_the_word(
    text: Seq<u16>,
    screen: Seq<u16>,
    b: Typed,
    active: u16,
    sensitivity: i32,
    on_the_fly: bool,
    config: Preferences,
    model: &LanguageModel,
    m: HeldModifiers,
)
    requires
        screen.len() == (if on_the_fly {
            b.keys.len() - 1
        } else {
            b.keys.len() as int
        }),
    ensures
        buffer::detection_of(b, active, sensitivity, on_the_fly, config, model) matches Some(r)
            ==> switcher::text_after(
            text + screen,
            switcher::switch_strokes(r, None, false, m),
        ) == text + switcher::units(r.new_word),
        !on_the_fly ==> (buffer::forced_of(b, active, config, model) matches Some(r)
            ==> switcher::text_after(
            text + screen,
            switcher::switch_strokes(r, None, false, m),
        ) == text + switcher::units(r.new_word)),
{
    laws::law_one_character_per_key(b, active, sensitivity, on_the_fly, config, model);
    assert((text + screen).take(text.len() as int) =~= text);
    match buffer::detection_of(b, active, sensitivity, on_the_fly, config, model) {
        Some(r) => {
            switcher::law_text_is_replaced(text + screen, r, m);
        },
        None => {},
    }
    if !on_the_fly {
        match buffer::forced_of(b, active, config, model) {
            Some(r) => {
                switcher::law_text_is_replaced(text + screen, r, m);
            },
            None => {},
        }
    }
}

/// A word that was switched by the hotkey and taken back stands on the screen again as it
/// was typed, after the same text.
#[verifier::rlimit(50)]
pub proof fn law_text_comes_back(
    text: Seq<u16>,
    mem: Memory,
    c: Configuration,
    lang: u16,
    prefs: Preferences,
    hk: HookHotkey,
    undo_hk: HookHotkey,
    model: &LanguageModel,
    m: HeldModifiers,
)
    requires
        buffer::forced_of(mem.buf, lang, prefs, model) is Some,
    ensures
        ({
            let there = hook::force_step(mem, c, lang, prefs, hk, model);
            let back = hook::undo_step(there.memory, there.settings, undo_hk);
            let put = there.effect.switch->0;
            let old = text + switcher::units(put.original_word);
            let new = switcher::text_after(old, switcher::switch_strokes(put, None, false, m));
            &&& there.effect.switch is Some && back.effect.switch is Some
            &&& there.effect.boundary_vk is None && back.effect.boundary_vk is None
            &&& new == text + switcher::units(put.new_word)
            &&& switcher::text_after(
                new,
                switcher::switch_strokes(back.effect.switch->0, None, false, m),
            ) == old
        }),
{
    let there = hook::force_step(mem, c, lang, prefs, hk, model);
    let put = there.effect.switch->0;
    let back = hook::undo_step(there.memory, there.settings, undo_hk);
    laws::law_one_character_per_key(mem.buf, lang, 0, false, prefs, model);
    rule_laws::law_switches_retype_the_keys(mem.buf, lang, 0, false, prefs, model);
    let keys = mem.buf.keys;
    let to = rule_laws::layout_to(put.target_lang);
    assert forall|i: int| 0 <= i < put.new_word.len() implies #[trigger] put.new_word[i] as int
        <= 0xFFFF by {
        lemma_first_plane(to, keys[i].vk);
    }
    let from = buffer::layout_of(buffer::typed_under(mem.buf, lang));
    laws::law_force_succeeds(mem.buf, lang, prefs, model);
    assert forall|i: int| 0 <= i < put.original_word.len() implies #[trigger] put.original_word[i]
        as int <= 0xFFFF by {
        typing::lemma_spelled_index(keys, from, true, i);
        lemma_first_plane(from, keys[i].vk);
    }
    law_one_unit_per_character(put.new_word);
    law_one_unit_per_character(put.original_word);
    let old = text + switcher::units(put.original_word);
    switcher::law_text_is_replaced(old, put, m);
    assert(old.take(text.len() as int) =~= text);
    let new = text + switcher::units(put.new_word);
    switcher::law_text_is_replaced(new, back.effect.switch->0, m);
    assert(new.take(text.len() as int) =~= text);
}

/// All characters on the keys lie in the first plane.
proof fn lemma_first_plane(l: Layout, vk: u16)
    ensures
        layout::key_char(l, vk, true) matches Some(c) ==> c as int <= 0xFFFF,
        layout::key_char(l, vk, false) matches Some(c) ==> c as int <= 0xFFFF,
{
}

} // verus!
