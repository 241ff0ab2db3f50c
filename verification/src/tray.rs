//! The icon that shows the active layout.

use vstd::prelude::*;

use crate::layout::{self, hkl_is_english, hkl_is_russian, hkl_is_ukrainian};
use crate::switcher::{self, handle_lang};

verus! {

/// The flag of a language.
#[derive(Debug, Clone, Copy, PartialEq, Eq, Structural)]
pub enum LangIcon {
    Ru,
    En,
    Ua,
}

/// The share of its brightness that a dimmed pixel keeps, in hundredths.
pub const DIM_PERCENT: u32 = 35;

/// The size of an icon, in pixels.
pub const ICON_SIZE: usize = 32;

/// A dimmed picture: red, green and blue of each pixel are darkened, its
/// opacity stays.
pub open spec fn dimmed_pixels(rgba: Seq<u8>) -> Seq<u8> {
    Seq::new(
        rgba.len(),
        |i: int|
            if i % 4 == 3 {
                rgba[i]
            } else {
                (rgba[i] as u32 * DIM_PERCENT / 100) as u8
            },
    )
}

/// The picture of an icon, dimmed or not.
pub fn make_lang_icon(bytes: &Vec<u8>, dimmed: bool) -> (r: Vec<u8>)
    requires
        dimmed ==> bytes@.len() % 4 == 0 || bytes@.len() % 4 == 3,
    ensures
        r@ == (if dimmed {
            dimmed_pixels(bytes@)
        } else {
            bytes@
        }),
{
    let mut out: Vec<u8> = Vec::new();
    let mut i: usize = 0;
    while i < bytes.len()
        invariant
            i <= bytes@.len(),
            out@.len() == i,
            forall|j: int|
                0 <= j < i ==> #[trigger] out@[j] == (if dimmed {
                    dimmed_pixels(bytes@)[j]
                } else {
                    bytes@[j]
                }),
        decreases bytes.len() - i,
    {
        let b: u8 = if dimmed && i % 4 != 3 {
            (bytes[i] as u32 * DIM_PERCENT / 100) as u8
        } else {
            bytes[i]
        };
        out.push(b);
        i += 1;
    }
    assert(out@ =~= (if dimmed {
        dimmed_pixels(bytes@)
    } else {
        bytes@
    }));
    out
}

/// The picture of the program, which there is in one size.
pub fn make_app_icon_rgba(size: usize, picture: &Vec<u8>) -> (r: Vec<u8>)
    requires
        size == ICON_SIZE,
    ensures
        r@ == picture@,
{
    make_lang_icon(picture, false)
}

/// The language of a layout handle; zero where no window is in the foreground.
pub fn foreground_lang(hkl: Option<usize>) -> (r: u16)
    ensures
        r == (match hkl {
            Some(h) => switcher::lang_of_handle(h),
            None => 0,
        }),
{
    match hkl {
        Some(h) => handle_lang(h),
        None => 0,
    }
}

/// The flag for a layout, where it has one.
pub open spec fn icon_of(lang: u16) -> Option<LangIcon> {
    if layout::russian(lang) {
        Some(LangIcon::Ru)
    } else if layout::english(lang) {
        Some(LangIcon::En)
    } else if layout::ukrainian(lang) {
        Some(LangIcon::Ua)
    } else {
        None
    }
}

/// The flag for a layout, where it has one.
pub fn lang_icon(lang: u16) -> (r: Option<LangIcon>)
    ensures
        r == icon_of(lang),
{
    if hkl_is_russian(lang) {
        Some(LangIcon::Ru)
    } else if hkl_is_english(lang) {
        Some(LangIcon::En)
    } else if hkl_is_ukrainian(lang) {
        Some(LangIcon::Ua)
    } else {
        None
    }
}

/// The flag to begin with: that of Russian under its layout, else of English.
pub fn initial_icon(lang: u16) -> (r: LangIcon)
    ensures
        r == (if layout::russian(lang) {
            LangIcon::Ru
        } else {
            LangIcon::En
        }),
{
    if hkl_is_russian(lang) {
        LangIcon::Ru
    } else {
        LangIcon::En
    }
}

/// The icon is dimmed where nothing can be switched: in an excepted program,
/// and in one with more rights than this one has.
pub fn is_dimmed(excepted: bool, self_elevated: bool, active_elevated: bool) -> (r: bool)
    ensures
        r == (excepted || (!self_elevated && active_elevated)),
{
    excepted || (!self_elevated && active_elevated)
}

/// The icon to be shown next, where it is another than that which is shown. A
/// layout without a flag changes nothing.
pub open spec fn next_icon(
    shown: Option<(LangIcon, bool)>,
    flag: Option<LangIcon>,
    dimmed: bool,
) -> Option<(LangIcon, bool)> {
    match flag {
        Some(l) => if shown == Some((l, dimmed)) {
            None
        } else {
            Some((l, dimmed))
        },
        None => None,
    }
}

/// Looks at the layout and tells the icon to be shown next, if it changes.
pub fn watch(shown: &mut Option<(LangIcon, bool)>, flag: Option<LangIcon>, dimmed: bool) -> (r:
    Option<(LangIcon, bool)>)
    ensures
        r == next_icon(*old(shown), flag, dimmed),
        *final(shown) == (match r {
            Some(icon) => Some(icon),
            None => *old(shown),
        }),
{
    match flag {
        Some(l) => {
            let same: bool = match *shown {
                Some((k, d)) => k == l && d == dimmed,
                None => false,
            };
            if same {
                None
            } else {
                *shown = Some((l, dimmed));
                Some((l, dimmed))
            }
        },
        None => None,
    }
}

/// After a look at the layout the icon shows it, unless the layout has no flag;
/// another look at the same layout changes nothing.
pub proof fn law_icon_follows_the_layout(
    shown: Option<(LangIcon, bool)>,
    lang: u16,
    dimmed: bool,
)
    ensures
        ({
            let change = next_icon(shown, icon_of(lang), dimmed);
            let now = if change is Some {
                change
            } else {
                shown
            };
            &&& icon_of(lang) is Some ==> now == Some((icon_of(lang)->0, dimmed))
            &&& icon_of(lang) is None ==> now == shown
            &&& next_icon(now, icon_of(lang), dimmed) is None
        }),
{
}

} // verus!
