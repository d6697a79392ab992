//! The chrome's colours: the titlebar, the tabs, the settings panel. A theme is the
//! grid's; a palette is the chrome's, and neither borrows from the other.
use vstd::prelude::*;

use crate::rgb::Rgb;

verus! {

/// The chrome palette, by role.
#[derive(Clone, Copy, Debug, PartialEq, Eq, Structural)]
pub struct Palette {
    /// The window, behind everything.
    pub ground: Rgb,
    /// Panels and bars drawn on the ground.
    pub surface: Rgb,
    /// Menus and popovers, above a surface.
    pub surface_raised: Rgb,
    /// The rule between two surfaces.
    pub hairline: Rgb,
    /// A rule that has to be seen.
    pub hairline_strong: Rgb,
    /// Body text.
    pub ink: Rgb,
    /// Secondary text.
    pub ink_mid: Rgb,
    /// Text that can be missed.
    pub ink_dim: Rgb,
    /// The one accent: focus, the active tab, the cursor.
    pub signal: Rgb,
    /// The accent, receded.
    pub signal_dim: Rgb,
    /// Something went wrong.
    pub danger: Rgb,
    /// Something went right.
    pub ok: Rgb,
}

/// The chrome's own palette: near-black grounds, hairlines a step lighter, and one warm signal colour.
pub open spec fn instrument_palette() -> Palette {
    Palette {
        ground: Rgb { r: 0x0a, g: 0x0b, b: 0x0d },
        surface: Rgb { r: 0x0f, g: 0x11, b: 0x14 },
        surface_raised: Rgb { r: 0x15, g: 0x18, b: 0x1c },
        hairline: Rgb { r: 0x23, g: 0x27, b: 0x2d },
        hairline_strong: Rgb { r: 0x33, g: 0x39, b: 0x41 },
        ink: Rgb { r: 0xe7, g: 0xe9, b: 0xec },
        ink_mid: Rgb { r: 0x99, g: 0xa0, b: 0xa8 },
        ink_dim: Rgb { r: 0x7b, g: 0x83, b: 0x8d },
        signal: Rgb { r: 0xff, g: 0xa6, b: 0x2b },
        signal_dim: Rgb { r: 0x8a, g: 0x5a, b: 0x17 },
        danger: Rgb { r: 0xff, g: 0x6b, b: 0x5e },
        ok: Rgb { r: 0x57, g: 0xd9, b: 0xa3 },
    }
}

/// Forced colours: black and white, with the system's highlight as the one accent.
pub open spec fn high_contrast_palette(highlight: Rgb) -> Palette {
    let black = Rgb { r: 0, g: 0, b: 0 };
    let white = Rgb { r: 0xff, g: 0xff, b: 0xff };
    Palette {
        ground: black,
        surface: black,
        surface_raised: black,
        hairline: white,
        hairline_strong: white,
        ink: white,
        ink_mid: white,
        ink_dim: white,
        signal: highlight,
        signal_dim: highlight,
        danger: white,
        ok: white,
    }
}

impl Palette {
    /// The chrome's own palette.
    pub fn instrument() -> (p: Palette)
        ensures
            p == instrument_palette(),
    {
        Palette {
            ground: Rgb::new(0x0a, 0x0b, 0x0d),
            surface: Rgb::new(0x0f, 0x11, 0x14),
            surface_raised: Rgb::new(0x15, 0x18, 0x1c),
            hairline: Rgb::new(0x23, 0x27, 0x2d),
            hairline_strong: Rgb::new(0x33, 0x39, 0x41),
            ink: Rgb::new(0xe7, 0xe9, 0xec),
            ink_mid: Rgb::new(0x99, 0xa0, 0xa8),
            ink_dim: Rgb::new(0x7b, 0x83, 0x8d),
            signal: Rgb::new(0xff, 0xa6, 0x2b),
            signal_dim: Rgb::new(0x8a, 0x5a, 0x17),
            danger: Rgb::new(0xff, 0x6b, 0x5e),
            ok: Rgb::new(0x57, 0xd9, 0xa3),
        }
    }

    /// The palette under Windows' forced colours: black, white, and the system's highlight.
    pub fn high_contrast(highlight: Rgb) -> (p: Palette)
        ensures
            p == high_contrast_palette(highlight),
    {
        let black = Rgb::black();
        let white = Rgb::white();
        Palette {
            ground: black,
            surface: black,
            surface_raised: black,
            hairline: white,
            hairline_strong: white,
            ink: white,
            ink_mid: white,
            ink_dim: white,
            signal: highlight,
            signal_dim: highlight,
            danger: white,
            ok: white,
        }
    }

    /// Every role with its name as the palette's colours are written down, from the ground up.
    pub fn all(self) -> (r: [(&'static str, Rgb); 12])
        ensures
            r@ == seq![
                ("ground", self.ground),
                ("surface", self.surface),
                ("surface-raised", self.surface_raised),
                ("hairline", self.hairline),
                ("hairline-strong", self.hairline_strong),
                ("ink", self.ink),
                ("ink-mid", self.ink_mid),
                ("ink-dim", self.ink_dim),
                ("signal", self.signal),
                ("signal-dim", self.signal_dim),
                ("danger", self.danger),
                ("ok", self.ok),
            ],
    {
        let a = [
            ("ground", self.ground),
            ("surface", self.surface),
            ("surface-raised", self.surface_raised),
            ("hairline", self.hairline),
            ("hairline-strong", self.hairline_strong),
            ("ink", self.ink),
            ("ink-mid", self.ink_mid),
            ("ink-dim", self.ink_dim),
            ("signal", self.signal),
            ("signal-dim", self.signal_dim),
            ("danger", self.danger),
            ("ok", self.ok),
        ];
        assert(a@ =~= seq![
            ("ground", self.ground),
            ("surface", self.surface),
            ("surface-raised", self.surface_raised),
            ("hairline", self.hairline),
            ("hairline-strong", self.hairline_strong),
            ("ink", self.ink),
            ("ink-mid", self.ink_mid),
            ("ink-dim", self.ink_dim),
            ("signal", self.signal),
            ("signal-dim", self.signal_dim),
            ("danger", self.danger),
            ("ok", self.ok),
        ]);
        a
    }
}

/// The chrome's palette: the forced-colours one while the system forces colours and the
/// settings follow it, the chrome's own otherwise. The grid's theme is left alone, so
/// a program's colours stay the program's.
pub fn palette_for(follow_forced_colors: bool, forced_colors: Option<Rgb>) -> (p: Palette)
    ensures
        p == match forced_colors {
            Some(highlight) => if follow_forced_colors {
                high_contrast_palette(highlight)
            } else {
                instrument_palette()
            },
            None => instrument_palette(),
        },
{
    match forced_colors {
        Some(highlight) => if follow_forced_colors {
            Palette::high_contrast(highlight)
        } else {
            Palette::instrument()
        },
        None => Palette::instrument(),
    }
}

} // verus!
