use vstd::prelude::*;

verus! {

/// The four faces of a font family.
#[derive(Copy, Clone, Debug, PartialEq, Eq, Hash, Structural)]
pub enum FontStyle {
    REGULAR,
    ITALIC,
    BOLD,
    BOLDITALIC,
}

/// The style a text run asks for, from whether it is bold and whether it is italic.
pub open spec fn style_of(bold: bool, italic: bool) -> FontStyle {
    if bold {
        if italic { FontStyle::BOLDITALIC } else { FontStyle::BOLD }
    } else if italic {
        FontStyle::ITALIC
    } else {
        FontStyle::REGULAR
    }
}

impl FontStyle {
    /// The style for a run with the given bold and italic flags.
    pub fn from_flags(bold: bool, italic: bool) -> (r: FontStyle)
        ensures
            r == style_of(bold, italic),
    {
        if bold {
            if italic {
                FontStyle::BOLDITALIC
            } else {
                FontStyle::BOLD
            }
        } else if italic {
            FontStyle::ITALIC
        } else {
            FontStyle::REGULAR
        }
    }
}

} // verus!
