//! The settings window of the two-language switcher.

use vstd::prelude::*;

use crate::bilingual::settings::{Configuration, Settings};
use crate::commands::{self, add_name};
use crate::settings::{self, lists};
use crate::text::{chars_of, text_between, trim};

verus! {

// -- Showing and hiding ---------------------------------------------------------------

/// What the window remembers from frame to frame.
#[derive(Debug, Clone, Copy, PartialEq, Eq, Structural)]
pub struct FrameState {
    /// No frame has been drawn yet.
    pub first_frame: bool,
    /// The window has been seen since it was last asked for.
    pub window_visible: bool,
}

/// What there is to do in a frame.
#[derive(Debug, Clone, Copy, PartialEq, Eq, Structural)]
pub struct FrameActions {
    /// Hide the window, as it begins hidden.
    pub begin_hidden: bool,
    /// Keep the window from closing, and hide it.
    pub hide_on_close: bool,
    /// The window is wanted on the screen, after this frame.
    pub show_requested: bool,
    /// Give the window the focus.
    pub focus: bool,
    /// Draw the contents.
    pub draw: bool,
}

/// What a frame does: the window begins hidden unless it was asked for; closing
/// it hides it; once it is asked for, it gets the focus one time and is drawn.
pub open spec fn frame_of(s: FrameState, requested: bool, closed: bool) -> (
    FrameState,
    FrameActions,
) {
    let wanted = requested && !closed;
    let seen = s.window_visible && !closed;
    (
        FrameState { first_frame: false, window_visible: seen || wanted },
        FrameActions {
            begin_hidden: s.first_frame && !requested,
            hide_on_close: closed,
            show_requested: wanted,
            focus: wanted && !seen,
            draw: wanted,
        },
    )
}

/// Goes through a frame, given whether the window was asked for and whether it
/// was closed.
pub fn frame(s: &mut FrameState, requested: bool, closed: bool) -> (r: FrameActions)
    ensures
        *final(s) == frame_of(*old(s), requested, closed).0,
        r == frame_of(*old(s), requested, closed).1,
{
    let begin_hidden: bool = s.first_frame && !requested;
    s.first_frame = false;
    let mut wanted: bool = requested;
    if closed {
        wanted = false;
        s.window_visible = false;
    }
    let mut focus: bool = false;
    if wanted && !s.window_visible {
        s.window_visible = true;
        focus = true;
    }
    FrameActions {
        begin_hidden,
        hide_on_close: closed,
        show_requested: wanted,
        focus,
        draw: wanted,
    }
}

/// As long as the window stays open it gets the focus in its first frame only.
pub proof fn law_focus_comes_once(s: FrameState)
    ensures
        ({
            let next = frame_of(s, true, false).0;
            !frame_of(next, true, false).1.focus
        }),
{
}

/// A window that was closed is hidden, and has the focus again when it is asked
/// for the next time.
pub proof fn law_closed_window_comes_back(s: FrameState, requested: bool)
    ensures
        ({
            let closed = frame_of(s, requested, true);
            &&& !closed.1.draw
            &&& !closed.1.show_requested
            &&& frame_of(closed.0, true, false).1.focus
        }),
{
}

// -- Exceptions ------------------------------------------------------------------------

/// Adds a program that was typed in. Tells whether the field has been taken
/// care of and can be emptied, and whether the program is new.
pub fn add_typed(settings: &mut Settings, typed: &str) -> (r: (bool, bool))
    ensures
        final(settings)@ == (Configuration {
            exceptions: commands::with_name(
                old(settings)@.exceptions,
                commands::listed_name(typed@),
            ),
            ..old(settings)@
        }),
        r.0 == (commands::listed_name(typed@).len() > 0),
        r.1 == (r.0 && !old(settings)@.exceptions.contains(commands::listed_name(typed@))),
{
    let name: String = trim(typed).as_str().to_lowercase();
    if name.as_str().unicode_len() == 0 {
        return (false, false);
    }
    let added: bool = add_name(&mut settings.exceptions, name);
    (true, added)
}

/// Adds a program that was picked from the running ones. Tells whether it is
/// new.
pub fn add_picked(settings: &mut Settings, exe: String) -> (r: bool)
    ensures
        r == !old(settings)@.exceptions.contains(exe@),
        final(settings)@ == (Configuration {
            exceptions: if r {
                old(settings)@.exceptions.push(exe@)
            } else {
                old(settings)@.exceptions
            },
            ..old(settings)@
        }),
{
    if lists(&settings.exceptions, exe.as_str()) {
        return false;
    }
    let ghost name = exe@;
    settings.exceptions.push(exe);
    assert(settings@.exceptions =~= old(settings)@.exceptions.push(name));
    true
}

/// Takes a program out of those in which nothing is switched.
pub fn remove_exception(settings: &mut Settings, index: usize)
    requires
        index < old(settings)@.exceptions.len(),
    ensures
        final(settings)@ == (Configuration {
            exceptions: old(settings)@.exceptions.remove(index as int),
            ..old(settings)@
        }),
{
    let _ = settings.exceptions.remove(index);
    assert(settings@.exceptions =~= old(settings)@.exceptions.remove(index as int));
}

// -- Titles ------------------------------------------------------------------------------

/// How many bytes of a title are shown.
pub const TITLE_BYTES: usize = 38;

/// The bytes of a character in UTF-8.
pub open spec fn utf8_len(c: char) -> int {
    if c as u32 <= 0x7F {
        1
    } else if c as u32 <= 0x7FF {
        2
    } else if c as u32 <= 0xFFFF {
        3
    } else {
        4
    }
}

/// The bytes of a text in UTF-8.
pub open spec fn byte_len(s: Seq<char>) -> int
    decreases s.len(),
{
    if s.len() == 0 {
        0
    } else {
        byte_len(s.drop_last()) + utf8_len(s.last())
    }
}

/// A title can be cut where the limit is: no character lies across it.
pub open spec fn can_be_cut(title: Seq<char>) -> bool {
    byte_len(title) > TITLE_BYTES ==> exists|k: int|
        0 <= k <= title.len() && byte_len(#[trigger] title.take(k)) == TITLE_BYTES
}

fn utf8_bytes(c: char) -> (r: usize)
    ensures
        r == utf8_len(c),
{
    let code: u32 = c as u32;
    if code <= 0x7F {
        1
    } else if code <= 0x7FF {
        2
    } else if code <= 0xFFFF {
        3
    } else {
        4
    }
}

proof fn lemma_bytes_grow(s: Seq<char>, i: int, j: int)
    requires
        0 <= i <= j <= s.len(),
    ensures
        byte_len(s.take(i)) + (j - i) <= byte_len(s.take(j)),
    decreases j - i,
{
    if i < j {
        lemma_bytes_grow(s, i, j - 1);
        assert(s.take(j).drop_last() =~= s.take(j - 1));
    }
}

/// A title as it is shown: no more of it than its first bytes.
pub fn short_title(title: &str) -> (r: String)
    requires
        can_be_cut(title@),
    ensures
        byte_len(title@) <= TITLE_BYTES ==> r@ == title@,
        byte_len(title@) > TITLE_BYTES ==> byte_len(r@) == TITLE_BYTES && r@.is_prefix_of(title@),
{
    let chars: Vec<char> = chars_of(title);
    let mut bytes: usize = 0;
    let mut i: usize = 0;
    assert(title@.take(0) =~= Seq::<char>::empty());
    while i < chars.len() && bytes < TITLE_BYTES
        invariant
            i <= chars@.len(),
            chars@ == title@,
            bytes == byte_len(title@.take(i as int)),
            i > 0 ==> byte_len(title@.take(i - 1)) < TITLE_BYTES,
            bytes <= TITLE_BYTES + 3,
        decreases chars.len() - i,
    {
        proof {
            assert(title@.take(i + 1).drop_last() =~= title@.take(i as int));
            assert(title@.take(i + 1).last() == title@[i as int]);
        }
        bytes = bytes + utf8_bytes(chars[i]);
        i += 1;
    }
    proof {
        let whole = title@.len() as int;
        assert(title@.take(whole) =~= title@);
        lemma_bytes_grow(title@, i as int, whole);
        if byte_len(title@) > TITLE_BYTES {
            let k = choose|k: int|
                0 <= k <= title@.len() && byte_len(#[trigger] title@.take(k)) == TITLE_BYTES;
            if k < i {
                lemma_bytes_grow(title@, k, i - 1);
            } else {
                lemma_bytes_grow(title@, i as int, k);
            }
            assert(bytes == TITLE_BYTES);
        } else if i < whole {
            lemma_bytes_grow(title@, i as int, whole);
            assert(false);
        }
        assert(chars@.subrange(0, i as int) =~= title@.take(i as int));
    }
    text_between(&chars, 0, i)
}

} // verus!
