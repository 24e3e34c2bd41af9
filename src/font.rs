use crate::metrics::{height_px, Metrics};
use crate::style::FontStyle;
use vstd::prelude::*;

verus! {

/// A font program together with the vertical metrics it reports.
pub struct Face<F> {
    pub font: F,
    pub metrics: Metrics,
}

/// The slant of a face, as a font store describes it.
#[derive(Copy, Clone, Debug, PartialEq, Eq, Structural)]
pub enum Slant {
    Normal,
    Italic,
    Oblique,
}

/// The weight of a face, as far as the four styles care.
#[derive(Copy, Clone, Debug, PartialEq, Eq, Structural)]
pub enum WeightClass {
    Normal,
    Bold,
    Other,
}

/// The style a face of the given slant and weight fills, if any: only the
/// upright and italic faces of normal and bold weight are used.
pub open spec fn spec_classify(slant: Slant, weight: WeightClass) -> Option<FontStyle> {
    match (slant, weight) {
        (Slant::Normal, WeightClass::Normal) => Some(FontStyle::REGULAR),
        (Slant::Normal, WeightClass::Bold) => Some(FontStyle::BOLD),
        (Slant::Italic, WeightClass::Normal) => Some(FontStyle::ITALIC),
        (Slant::Italic, WeightClass::Bold) => Some(FontStyle::BOLDITALIC),
        _ => None,
    }
}

/// The style slot that a face of the given slant and weight goes into.
pub fn classify(slant: Slant, weight: WeightClass) -> (r: Option<FontStyle>)
    ensures
        r == spec_classify(slant, weight),
{
    match slant {
        Slant::Normal => match weight {
            WeightClass::Normal => Some(FontStyle::REGULAR),
            WeightClass::Bold => Some(FontStyle::BOLD),
            WeightClass::Other => None,
        },
        Slant::Italic => match weight {
            WeightClass::Normal => Some(FontStyle::ITALIC),
            WeightClass::Bold => Some(FontStyle::BOLDITALIC),
            WeightClass::Other => None,
        },
        Slant::Oblique => None,
    }
}

/// One font family at one point size: up to four faces, one per style.
/// `size` is in units of 1/`SIZE_SCALE` point.
pub struct ImageFont<F> {
    pub regular: Option<Face<F>>,
    pub italic: Option<Face<F>>,
    pub bold: Option<Face<F>>,
    pub bold_italic: Option<Face<F>>,
    pub size: u32,
}

pub open spec fn face_wf<F>(f: Option<Face<F>>) -> bool {
    f matches Some(face) ==> face.metrics.wf()
}

impl<F> ImageFont<F> {
    /// The face stored for `style`, if any.
    pub open spec fn slot(&self, style: FontStyle) -> Option<Face<F>> {
        match style {
            FontStyle::REGULAR => self.regular,
            FontStyle::ITALIC => self.italic,
            FontStyle::BOLD => self.bold,
            FontStyle::BOLDITALIC => self.bold_italic,
        }
    }

    /// Every stored face has usable metrics.
    pub open spec fn faces_wf(&self) -> bool {
        &&& face_wf(self.regular)
        &&& face_wf(self.italic)
        &&& face_wf(self.bold)
        &&& face_wf(self.bold_italic)
    }

    /// The set can be drawn with: it has a regular face, and its faces have
    /// usable metrics.
    pub open spec fn wf(&self) -> bool {
        &&& self.regular is Some
        &&& self.faces_wf()
    }

    /// The face used for `style`: its own, or the regular one where the set
    /// has none for it.
    pub open spec fn resolved(&self, style: FontStyle) -> Face<F> {
        match self.slot(style) {
            Some(f) => f,
            None => self.regular.unwrap(),
        }
    }

    /// The line height of this set, from its regular face.
    pub open spec fn height(&self) -> int {
        height_px(self.regular.unwrap().metrics, self.size)
    }

    /// An empty set at point size `size`, to be filled with `add_face`.
    pub fn new(size: u32) -> (r: Self)
        ensures
            r.size == size,
            forall|s: FontStyle| r.slot(s) is None,
    {
        ImageFont { regular: None, italic: None, bold: None, bold_italic: None, size }
    }

    /// Stores a face of the given slant and weight in the slot of its style,
    /// replacing what was there; a face that fills no style is dropped.
    pub fn add_face(&mut self, slant: Slant, weight: WeightClass, face: Face<F>)
        ensures
            final(self).size == old(self).size,
            forall|s: FontStyle|
                #[trigger] final(self).slot(s) == if spec_classify(slant, weight) == Some(s) {
                    Some(face)
                } else {
                    old(self).slot(s)
                },
    {
        match classify(slant, weight) {
            Some(FontStyle::REGULAR) => self.regular = Some(face),
            Some(FontStyle::ITALIC) => self.italic = Some(face),
            Some(FontStyle::BOLD) => self.bold = Some(face),
            Some(FontStyle::BOLDITALIC) => self.bold_italic = Some(face),
            None => {},
        }
    }

    /// Whether the set can be drawn with (see `wf`).
    pub fn is_usable(&self) -> (r: bool)
        ensures
            r == self.wf(),
    {
        let ok = |f: &Option<Face<F>>| -> (b: bool)
            ensures
                b == face_wf(*f),
            {
                match f {
                    Some(face) => face.metrics.units_per_em > 0,
                    None => true,
                }
            };
        self.regular.is_some() && ok(&self.regular) && ok(&self.italic) && ok(&self.bold) && ok(
            &self.bold_italic,
        )
    }

    /// The face for `style`, or the regular face where the set has none for it.
    pub fn get_by_style(&self, style: FontStyle) -> (r: &Face<F>)
        requires
            self.regular is Some,
        ensures
            *r == self.resolved(style),
    {
        let slot = match style {
            FontStyle::REGULAR => &self.regular,
            FontStyle::ITALIC => &self.italic,
            FontStyle::BOLD => &self.bold,
            FontStyle::BOLDITALIC => &self.bold_italic,
        };
        match slot {
            Some(f) => f,
            None => self.get_regular(),
        }
    }

    /// The regular face.
    pub fn get_regular(&self) -> (r: &Face<F>)
        requires
            self.regular is Some,
        ensures
            *r == self.regular.unwrap(),
    {
        self.regular.as_ref().unwrap()
    }

    /// The line height of this set in pixels.
    pub fn get_font_height(&self) -> (r: u32)
        requires
            self.wf(),
        ensures
            r == self.height(),
    {
        self.get_regular().metrics.height_at(self.size)
    }
}


/// The largest line height among the sets of a non-empty chain.
pub open spec fn max_height<F>(s: Seq<ImageFont<F>>) -> int
    decreases s.len(),
{
    if s.len() <= 1 {
        if s.len() == 1 { s[0].height() } else { 0 }
    } else {
        let h = max_height(s.drop_last());
        if h >= s.last().height() { h } else { s.last().height() }
    }
}

/// The sets that loaded, in their order.
pub open spec fn loaded_sets<F>(s: Seq<Option<ImageFont<F>>>) -> Seq<ImageFont<F>>
    decreases s.len(),
{
    if s.len() == 0 {
        Seq::empty()
    } else {
        let rest = loaded_sets(s.drop_first());
        match s[0] {
            Some(f) => seq![f] + rest,
            None => rest,
        }
    }
}

/// An ordered chain of font sets: a character is drawn with the first set
/// that has a glyph for it.
pub struct FontCollection<F>(pub Vec<ImageFont<F>>);

impl<F> FontCollection<F> {
    pub open spec fn sets(&self) -> Seq<ImageFont<F>> {
        self.0@
    }

    /// The chain can be drawn with: it has a set, and each set has a
    /// regular face and usable metrics.
    pub open spec fn wf(&self) -> bool {
        &&& self.0@.len() > 0
        &&& forall|i: int| 0 <= i < self.0@.len() ==> #[trigger] self.0@[i].wf()
    }

    /// The chain's line height: the tallest of its sets.
    pub open spec fn height(&self) -> int {
        max_height(self.0@)
    }

    /// The chain of the sets that loaded, in the order given; a set that
    /// failed to load (`None`) is left out. Nothing here fails: where no
    /// set loaded the chain is empty.
    pub fn new(loaded: Vec<Option<ImageFont<F>>>) -> (r: Self)
        ensures
            r.0@ == loaded_sets(loaded@),
    {
        let ghost all = loaded@;
        let mut rest = loaded;
        let mut sets: Vec<ImageFont<F>> = Vec::new();
        while rest.len() > 0
            invariant
                sets@ + loaded_sets(rest@) == loaded_sets(all),
            decreases rest.len(),
        {
            let ghost before = rest@;
            let first = rest.remove(0);
            assert(rest@ == before.drop_first());
            match first {
                Some(f) => {
                    sets.push(f);
                    assert(sets@ + loaded_sets(rest@) == loaded_sets(all)) by {
                        assert(sets@ + loaded_sets(rest@) =~= sets@.drop_last() + (seq![sets@.last()]
                            + loaded_sets(rest@)));
                    }
                },
                None => {},
            }
        }
        assert(sets@ + loaded_sets(rest@) =~= sets@);
        FontCollection(sets)
    }

    /// The chain's line height in pixels: the tallest of its sets.
    pub fn get_font_height(&self) -> (r: u32)
        requires
            self.wf(),
        ensures
            r == self.height(),
    {
        let mut r: u32 = self.0[0].get_font_height();
        let mut i: usize = 1;
        assert(self.0@.subrange(0, 1) =~= seq![self.0@[0]]);
        while i < self.0.len()
            invariant
                self.wf(),
                1 <= i <= self.0@.len(),
                r == max_height(self.0@.subrange(0, i as int)),
            decreases self.0@.len() - i,
        {
            let h = self.0[i].get_font_height();
            assert(self.0@.subrange(0, i + 1).drop_last() =~= self.0@.subrange(0, i as int));
            if h > r {
                r = h;
            }
            i = i + 1;
        }
        assert(self.0@.subrange(0, i as int) =~= self.0@);
        r
    }
}

/// The chain's line height is the height of one of its sets, and no set is
/// taller.
pub proof fn lemma_height_is_max<F>(s: Seq<ImageFont<F>>)
    requires
        s.len() > 0,
    ensures
        forall|i: int| 0 <= i < s.len() ==> #[trigger] s[i].height() <= max_height(s),
        exists|i: int| 0 <= i < s.len() && #[trigger] s[i].height() == max_height(s),
    decreases s.len(),
{
    if s.len() > 1 {
        lemma_height_is_max(s.drop_last());
        let t = s.drop_last();
        assert forall|i: int| 0 <= i < s.len() implies #[trigger] s[i].height() <= max_height(s) by {
            if i < s.len() - 1 {
                assert(s[i] == t[i]);
            }
        }
        if max_height(t) >= s.last().height() {
            let j = choose|j: int| 0 <= j < t.len() && #[trigger] t[j].height() == max_height(t);
            assert(s[j] == t[j]);
        } else {
            assert(s[s.len() - 1].height() == max_height(s));
        }
    } else {
        assert(s[0].height() == max_height(s));
    }
}

/// A chain built from loads that all failed is empty, and is a chain all the
/// same.
pub proof fn lemma_all_failed_is_empty<F>(s: Seq<Option<ImageFont<F>>>)
    requires
        forall|i: int| 0 <= i < s.len() ==> #[trigger] s[i] is None,
    ensures
        loaded_sets(s).len() == 0,
    decreases s.len(),
{
    if s.len() > 0 {
        assert forall|i: int| 0 <= i < s.drop_first().len() implies #[trigger] s.drop_first()[i] is None by {
            assert(s.drop_first()[i] == s[i + 1]);
        }
        lemma_all_failed_is_empty(s.drop_first());
    }
}

} // verus!
