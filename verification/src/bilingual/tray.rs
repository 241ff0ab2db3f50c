//! The icon that shows which of the two layouts is active.

use vstd::prelude::*;

use crate::layout::{self, hkl_is_english, hkl_is_russian};
use crate::tray::LangIcon;

verus! {

/// The flag for one of the two layouts.
pub fn lang_icon(lang: u16) -> (r: Option<LangIcon>)
    ensures
        r == (if layout::russian(lang) {
            Some(LangIcon::Ru)
        } else if layout::english(lang) {
            Some(LangIcon::En)
        } else {
            None
        }),
{
    if hkl_is_russian(lang) {
        Some(LangIcon::Ru)
    } else if hkl_is_english(lang) {
        Some(LangIcon::En)
    } else {
        None
    }
}

} // verus!
