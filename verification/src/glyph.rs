//! What the renderer asks the font stack for: a character in a weight and a slant, and
//! whether the answer is a coverage mask or a colour bitmap.
use vstd::prelude::*;

verus! {

/// A typographic weight on the CSS scale, 100 to 900.
///
/// A number rather than a handful of names, because families that ship real weights use
/// values between the named ones.
#[derive(Clone, Copy, PartialEq, Eq, PartialOrd, Ord, Hash, Debug, Structural)]
pub struct Weight(u16);

/// Regular, as a value.
pub closed spec fn regular() -> Weight {
    Weight(400)
}

/// `value` brought into the scale: below 100 is 100 and above 900 is 900.
pub open spec fn clamped_weight(value: u16) -> u16 {
    if value < 100 { 100 } else if value > 900 { 900 } else { value }
}

impl Weight {
    /// The weight's number.
    pub closed spec fn spec_value(self) -> u16 {
        self.0
    }

    /// Regular, 400.
    pub fn normal() -> (w: Weight)
        ensures
            w.spec_value() == 400,
            w == regular(),
    {
        Weight(400)
    }

    /// Medium, 500.
    pub fn medium() -> (w: Weight)
        ensures
            w.spec_value() == 500,
    {
        Weight(500)
    }

    /// Bold, 700.
    pub fn bold() -> (w: Weight)
        ensures
            w.spec_value() == 700,
    {
        Weight(700)
    }

    /// A weight on the scale, clamped into 100 to 900.
    pub fn new(value: u16) -> (w: Weight)
        ensures
            w.spec_value() == clamped_weight(value),
    {
        Weight(
            if value < 100 {
                100
            } else if value > 900 {
                900
            } else {
                value
            },
        )
    }

    /// The number on the CSS scale.
    pub fn value(self) -> (r: u16)
        ensures
            r == self.spec_value(),
    {
        self.0
    }
}

impl Default for Weight {
    fn default() -> (w: Weight)
        ensures
            w.spec_value() == 400,
    {
        Weight::normal()
    }
}

/// Every weight `new` makes is on the scale, and one already on it is kept as it is.
pub proof fn lemma_weight_on_scale(value: u16)
    ensures
        100 <= clamped_weight(value) <= 900,
        100 <= value <= 900 ==> clamped_weight(value) == value,
{
}

/// One glyph the renderer wants drawn: a character, and the style it is drawn in.
#[derive(Clone, Copy, PartialEq, Eq, Hash, Debug, Structural)]
pub struct GlyphSpec {
    /// The character.
    pub ch: char,
    /// The weight.
    pub weight: Weight,
    /// Whether it is slanted.
    pub italic: bool,
}

impl GlyphSpec {
    /// The character in the regular style.
    pub fn new(ch: char) -> (s: GlyphSpec)
        ensures
            s == (GlyphSpec { ch, weight: regular(), italic: false }),
            s.ch == ch,
            s.weight.spec_value() == 400,
            !s.italic,
    {
        GlyphSpec { ch, weight: Weight::normal(), italic: false }
    }

    /// The character in bold.
    pub fn bold(ch: char) -> (s: GlyphSpec)
        ensures
            s.ch == ch,
            s.weight.spec_value() == 700,
            !s.italic,
    {
        GlyphSpec { ch, weight: Weight::bold(), italic: false }
    }

    /// The character slanted.
    pub fn italic(ch: char) -> (s: GlyphSpec)
        ensures
            s.ch == ch,
            s.weight.spec_value() == 400,
            s.italic,
    {
        GlyphSpec { ch, weight: Weight::normal(), italic: true }
    }

    /// The same glyph in another weight.
    pub fn with_weight(self, weight: Weight) -> (s: GlyphSpec)
        ensures
            s == (GlyphSpec { weight, ..self }),
    {
        GlyphSpec { weight, ..self }
    }

    /// The same glyph, slanted or not.
    pub fn with_italic(self, italic: bool) -> (s: GlyphSpec)
        ensures
            s == (GlyphSpec { italic, ..self }),
    {
        GlyphSpec { italic, ..self }
    }
}

impl From<char> for GlyphSpec {
    fn from(ch: char) -> (s: GlyphSpec)
        ensures
            s == (GlyphSpec { ch, weight: regular(), italic: false }),
    {
        GlyphSpec::new(ch)
    }
}

impl vstd::std_specs::convert::FromSpecImpl<char> for GlyphSpec {
    open spec fn obeys_from_spec() -> bool {
        true
    }

    open spec fn from_spec(ch: char) -> GlyphSpec {
        GlyphSpec { ch, weight: regular(), italic: false }
    }
}

/// What a rasterised glyph's pixels mean.
#[derive(Clone, Copy, PartialEq, Eq, Hash, Debug, Structural)]
pub enum GlyphContent {
    /// A coverage mask, one byte per pixel, tinted by the cell's foreground.
    Alpha,
    /// A colour bitmap, four bytes per pixel, drawn as it is.
    Color,
}

} // verus!
