//! Run styling and font selection.

use vstd::prelude::*;

verus! {

/// Style attributes of a text run.  Bold and italic may both be set.
#[derive(Clone, Copy, Debug, PartialEq, Eq, Structural)]
pub struct RunStyle {
    /// Bold attribute.
    pub bold: bool,
    /// Italic attribute.
    pub italic: bool,
}

/// The font variant a placement command is rendered with.
#[derive(Clone, Copy, Debug, PartialEq, Eq, Structural)]
pub enum FontVariant {
    /// The regular face.
    Regular,
    /// The bold face.
    Bold,
    /// The italic face.
    Italic,
}

/// Font selection policy: bold wins, then italic, then regular.  A run that
/// is both bold and italic deliberately falls back to the bold face, the
/// closest single attribute available in the font set.
pub open spec fn spec_font_of(s: RunStyle) -> FontVariant {
    if s.bold {
        FontVariant::Bold
    } else if s.italic {
        FontVariant::Italic
    } else {
        FontVariant::Regular
    }
}

/// Picks the font variant for a run style.
pub fn font_of(s: RunStyle) -> (f: FontVariant)
    ensures
        f == spec_font_of(s),
{
    if s.bold {
        FontVariant::Bold
    } else if s.italic {
        FontVariant::Italic
    } else {
        FontVariant::Regular
    }
}

} // verus!
