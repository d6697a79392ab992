//! The grid plane: a theme is a ground, a default foreground and background, and sixteen
//! ANSI colours.
//!
//! Nothing here draws chrome: the chrome has its own palette, and the grid gets exactly
//! what the theme says. Three themes are zet's own and are held to a contrast floor; the
//! rest are imported and ship as their authors published them, marked so the settings
//! panel can say so.
use vstd::prelude::*;

use crate::rgb::Rgb;
use crate::spell::{chars_of, spells};

verus! {

/// How many colours an ANSI palette holds.
pub const ANSI_LEN: usize = 16;

/// The indices exempt from the contrast floor: the two blacks, which programs paint
/// backgrounds with rather than text.
pub const ANSI_EXEMPT: [usize; 2] = [0, 8];

/// A terminal colour scheme.
#[derive(Clone, Copy, Debug)]
pub struct Theme {
    /// The name shown in the settings panel.
    pub name: &'static str,
    /// The value written in the config file.
    pub slug: &'static str,
    /// The window's ground colour, behind the grid.
    pub ground: Rgb,
    /// The default foreground.
    pub foreground: Rgb,
    /// The default background.
    pub background: Rgb,
    /// The cursor.
    pub cursor: Rgb,
    /// The selection's background.
    pub selection: Rgb,
    /// The sixteen ANSI colours.
    pub ansi: [Rgb; 16],
    /// Whether the theme ships as its author published it rather than as one of zet's own.
    pub published: bool,
}

/// A colour as a cell carries it: the default, an index into the 256-colour palette, or
/// a direct colour.
#[derive(Clone, Copy, PartialEq, Eq, Debug, Structural)]
pub enum ColorSpec {
    /// The theme's default foreground or background.
    Default,
    /// An index: the theme's ANSI colours below 16, xterm's table above.
    Indexed(u8),
    /// A direct colour.
    Rgb(u8, u8, u8),
}

/// A level of xterm's 6x6x6 colour cube: 0, then 95 to 255 in steps of 40.
pub open spec fn cube_level(v: int) -> u8 {
    if v == 0 { 0 } else { (55 + 40 * v) as u8 }
}

/// xterm's colour for an index from 16 up: the 6x6x6 cube from 16 to 231, and a ramp of 24
/// greys from 8 to 238 after it.
pub open spec fn xterm_color(index: u8) -> Rgb {
    if index < 232 {
        let n = index - 16;
        Rgb { r: cube_level(n / 36), g: cube_level((n / 6) % 6), b: cube_level(n % 6) }
    } else {
        let v = (8 + 10 * (index - 232)) as u8;
        Rgb { r: v, g: v, b: v }
    }
}

/// The position in the palette of the `k`th colour held to the contrast floor.
pub open spec fn audited_index(k: int) -> int {
    if k < 7 { k + 1 } else { k + 2 }
}

impl Theme {
    /// The colour a cell's colour means under this theme.
    pub open spec fn spec_resolve(self, color: ColorSpec, background: bool) -> Rgb {
        match color {
            ColorSpec::Default => if background {
                self.background
            } else {
                self.foreground
            },
            ColorSpec::Indexed(index) => if index < 16 {
                self.ansi@[index as int]
            } else {
                xterm_color(index)
            },
            ColorSpec::Rgb(r, g, b) => Rgb { r, g, b },
        }
    }

    /// The colour a cell's colour means under this theme: the theme's default for
    /// `Default`, its own ANSI colour below 16, xterm's table above it, and a direct colour
    /// as itself.
    pub fn resolve(&self, color: ColorSpec, background: bool) -> (c: Rgb)
        ensures
            c == self.spec_resolve(color, background),
    {
        match color {
            ColorSpec::Default => if background {
                self.background
            } else {
                self.foreground
            },
            ColorSpec::Indexed(index) => if index < 16 {
                self.ansi[index as usize]
            } else {
                xterm_rgb(index)
            },
            ColorSpec::Rgb(r, g, b) => Rgb::new(r, g, b),
        }
    }

    /// The ANSI colours held to the contrast floor, with their indices: every one but the
    /// exempt two, in order.
    pub fn audited_colors(&self) -> (r: Vec<(usize, Rgb)>)
        ensures
            r@.len() == 14,
            forall|k: int|
                0 <= k < 14 ==> #[trigger] r@[k] == (
                    audited_index(k) as usize,
                    self.ansi@[audited_index(k)],
                ),
    {
        let mut out: Vec<(usize, Rgb)> = Vec::new();
        let mut i: usize = 0;
        while i < 16
            invariant
                i <= 16,
                out@.len() == if i == 0 { 0 } else if i <= 8 { i - 1 } else { i - 2 },
                forall|k: int|
                    0 <= k < out@.len() ==> #[trigger] out@[k] == (
                        audited_index(k) as usize,
                        self.ansi@[audited_index(k)],
                    ),
            decreases 16 - i,
        {
            if i != ANSI_EXEMPT[0] && i != ANSI_EXEMPT[1] {
                out.push((i, self.ansi[i]));
            }
            i += 1;
        }
        out
    }
}

/// xterm's colour for an index from 16 up.
fn xterm_rgb(index: u8) -> (c: Rgb)
    requires
        index >= 16,
    ensures
        c == xterm_color(index),
{
    if index < 232 {
        let n = index - 16;
        Rgb::new(level(n / 36), level((n / 6) % 6), level(n % 6))
    } else {
        let v = 8 + 10 * (index - 232);
        Rgb::new(v, v, v)
    }
}

/// A level of the colour cube.
fn level(v: u8) -> (l: u8)
    requires
        v < 6,
    ensures
        l == cube_level(v as int),
{
    if v == 0 {
        0
    } else {
        55 + 40 * v
    }
}

/// The colours of the theme `zet_dark` returns.
pub open spec fn spec_zet_dark() -> Theme {
    Theme {
        name: "zet dark",
        slug: "zet-dark",
        ground: Rgb { r: 0x0a, g: 0x0b, b: 0x0d },
        foreground: Rgb { r: 0xe7, g: 0xe9, b: 0xec },
        background: Rgb { r: 0x0a, g: 0x0b, b: 0x0d },
        cursor: Rgb { r: 0xff, g: 0xa6, b: 0x2b },
        selection: Rgb { r: 0x23, g: 0x2a, b: 0x33 },
        ansi: [
            Rgb { r: 0x2b, g: 0x30, b: 0x38 },
            Rgb { r: 0xf0, g: 0x77, b: 0x6c },
            Rgb { r: 0x8f, g: 0xbf, b: 0x7f },
            Rgb { r: 0xe0, g: 0xb3, b: 0x57 },
            Rgb { r: 0x79, g: 0xa8, b: 0xd8 },
            Rgb { r: 0xc3, g: 0x9a, b: 0xc9 },
            Rgb { r: 0x6f, g: 0xbf, b: 0xbf },
            Rgb { r: 0xc9, g: 0xce, b: 0xd6 },
            Rgb { r: 0x76, g: 0x7d, b: 0x87 },
            Rgb { r: 0xff, g: 0x9b, b: 0x90 },
            Rgb { r: 0xa8, g: 0xd6, b: 0x9a },
            Rgb { r: 0xf5, g: 0xcd, b: 0x7a },
            Rgb { r: 0x9c, g: 0xc4, b: 0xea },
            Rgb { r: 0xdc, g: 0xb6, b: 0xe0 },
            Rgb { r: 0x8f, g: 0xd6, b: 0xd6 },
            Rgb { r: 0xee, g: 0xf1, b: 0xf5 },
        ],
        published: false,
    }
}

/// The default. Graphite ground, one amber signal, and an ANSI set chosen to be
/// neutral rather than saturated: the brief is an instrument, and an instrument's
/// indicator lamps are not primary colours.
pub fn zet_dark() -> (t: Theme)
    ensures
        t == spec_zet_dark(),
{
    let t = Theme {
        name: "zet dark",
        slug: "zet-dark",
        ground: Rgb::new(0x0a, 0x0b, 0x0d),
        foreground: Rgb::new(0xe7, 0xe9, 0xec),
        background: Rgb::new(0x0a, 0x0b, 0x0d),
        cursor: Rgb::new(0xff, 0xa6, 0x2b),
        selection: Rgb::new(0x23, 0x2a, 0x33),
        ansi: [
            Rgb::new(0x2b, 0x30, 0x38),
            Rgb::new(0xf0, 0x77, 0x6c),
            Rgb::new(0x8f, 0xbf, 0x7f),
            Rgb::new(0xe0, 0xb3, 0x57),
            Rgb::new(0x79, 0xa8, 0xd8),
            Rgb::new(0xc3, 0x9a, 0xc9),
            Rgb::new(0x6f, 0xbf, 0xbf),
            Rgb::new(0xc9, 0xce, 0xd6),
            Rgb::new(0x76, 0x7d, 0x87),
            Rgb::new(0xff, 0x9b, 0x90),
            Rgb::new(0xa8, 0xd6, 0x9a),
            Rgb::new(0xf5, 0xcd, 0x7a),
            Rgb::new(0x9c, 0xc4, 0xea),
            Rgb::new(0xdc, 0xb6, 0xe0),
            Rgb::new(0x8f, 0xd6, 0xd6),
            Rgb::new(0xee, 0xf1, 0xf5),
        ],
        published: false,
    };
    assert(t.ansi@ =~= spec_zet_dark().ansi@);
    t
}

/// The colours of the theme `zet_light` returns.
pub open spec fn spec_zet_light() -> Theme {
    Theme {
        name: "zet light",
        slug: "zet-light",
        ground: Rgb { r: 0xfa, g: 0xf9, b: 0xf7 },
        foreground: Rgb { r: 0x14, g: 0x16, b: 0x1a },
        background: Rgb { r: 0xfa, g: 0xf9, b: 0xf7 },
        cursor: Rgb { r: 0xa3, g: 0x5f, b: 0x00 },
        selection: Rgb { r: 0xdd, g: 0xda, b: 0xd4 },
        ansi: [
            Rgb { r: 0x3a, g: 0x3d, b: 0x43 },
            Rgb { r: 0xb3, g: 0x2a, b: 0x1f },
            Rgb { r: 0x3f, g: 0x6b, b: 0x2a },
            Rgb { r: 0x8a, g: 0x5f, b: 0x00 },
            Rgb { r: 0x1f, g: 0x4f, b: 0x8a },
            Rgb { r: 0x7a, g: 0x2f, b: 0x7a },
            Rgb { r: 0x1a, g: 0x62, b: 0x66 },
            Rgb { r: 0x5c, g: 0x61, b: 0x69 },
            Rgb { r: 0x8a, g: 0x8f, b: 0x97 },
            Rgb { r: 0xd0, g: 0x3a, b: 0x2c },
            Rgb { r: 0x46, g: 0x7a, b: 0x2c },
            Rgb { r: 0x98, g: 0x68, b: 0x00 },
            Rgb { r: 0x27, g: 0x5f, b: 0xa8 },
            Rgb { r: 0x93, g: 0x3c, b: 0x93 },
            Rgb { r: 0x20, g: 0x75, b: 0x7a },
            Rgb { r: 0x14, g: 0x16, b: 0x1a },
        ],
        published: false,
    }
}

/// Warm paper. The same palette re-tuned for a light ground: the signal colour is
/// darkened because amber at `#ffa62b` on paper fails the floor, and every ANSI colour
/// is taken down to match.
pub fn zet_light() -> (t: Theme)
    ensures
        t == spec_zet_light(),
{
    let t = Theme {
        name: "zet light",
        slug: "zet-light",
        ground: Rgb::new(0xfa, 0xf9, 0xf7),
        foreground: Rgb::new(0x14, 0x16, 0x1a),
        background: Rgb::new(0xfa, 0xf9, 0xf7),
        cursor: Rgb::new(0xa3, 0x5f, 0x00),
        selection: Rgb::new(0xdd, 0xda, 0xd4),
        ansi: [
            Rgb::new(0x3a, 0x3d, 0x43),
            Rgb::new(0xb3, 0x2a, 0x1f),
            Rgb::new(0x3f, 0x6b, 0x2a),
            Rgb::new(0x8a, 0x5f, 0x00),
            Rgb::new(0x1f, 0x4f, 0x8a),
            Rgb::new(0x7a, 0x2f, 0x7a),
            Rgb::new(0x1a, 0x62, 0x66),
            Rgb::new(0x5c, 0x61, 0x69),
            Rgb::new(0x8a, 0x8f, 0x97),
            Rgb::new(0xd0, 0x3a, 0x2c),
            Rgb::new(0x46, 0x7a, 0x2c),
            Rgb::new(0x98, 0x68, 0x00),
            Rgb::new(0x27, 0x5f, 0xa8),
            Rgb::new(0x93, 0x3c, 0x93),
            Rgb::new(0x20, 0x75, 0x7a),
            Rgb::new(0x14, 0x16, 0x1a),
        ],
        published: false,
    };
    assert(t.ansi@ =~= spec_zet_light().ansi@);
    t
}

/// The colours of the theme `zet_contrast` returns.
pub open spec fn spec_zet_contrast() -> Theme {
    Theme {
        name: "zet contrast",
        slug: "zet-contrast",
        ground: Rgb { r: 0x00, g: 0x00, b: 0x00 },
        foreground: Rgb { r: 0xff, g: 0xff, b: 0xff },
        background: Rgb { r: 0x00, g: 0x00, b: 0x00 },
        cursor: Rgb { r: 0xff, g: 0xff, b: 0xff },
        selection: Rgb { r: 0x40, g: 0x40, b: 0x40 },
        ansi: [
            Rgb { r: 0x40, g: 0x40, b: 0x40 },
            Rgb { r: 0xff, g: 0x8a, b: 0x80 },
            Rgb { r: 0x8a, g: 0xff, b: 0x8a },
            Rgb { r: 0xff, g: 0xe0, b: 0x6a },
            Rgb { r: 0x8a, g: 0xbd, b: 0xff },
            Rgb { r: 0xf0, g: 0xa0, b: 0xf0 },
            Rgb { r: 0x7a, g: 0xff, b: 0xff },
            Rgb { r: 0xff, g: 0xff, b: 0xff },
            Rgb { r: 0x9a, g: 0x9a, b: 0x9a },
            Rgb { r: 0xff, g: 0xb3, b: 0xab },
            Rgb { r: 0xb3, g: 0xff, b: 0xb3 },
            Rgb { r: 0xff, g: 0xef, b: 0xab },
            Rgb { r: 0xb3, g: 0xd6, b: 0xff },
            Rgb { r: 0xf8, g: 0xc8, b: 0xf8 },
            Rgb { r: 0xb3, g: 0xff, b: 0xff },
            Rgb { r: 0xff, g: 0xff, b: 0xff },
        ],
        published: false,
    }
}

/// Pure black, pure white, and an ANSI set with as much headroom as the space allows.
/// Not the default, and not a theme in the same sense as the others: when Windows
/// reports forced colours, zet switches to this and ignores the user's choice, because
/// forced colours are an accessibility requirement rather than a preference.
pub fn zet_contrast() -> (t: Theme)
    ensures
        t == spec_zet_contrast(),
{
    let t = Theme {
        name: "zet contrast",
        slug: "zet-contrast",
        ground: Rgb::new(0x00, 0x00, 0x00),
        foreground: Rgb::new(0xff, 0xff, 0xff),
        background: Rgb::new(0x00, 0x00, 0x00),
        cursor: Rgb::new(0xff, 0xff, 0xff),
        selection: Rgb::new(0x40, 0x40, 0x40),
        ansi: [
            Rgb::new(0x40, 0x40, 0x40),
            Rgb::new(0xff, 0x8a, 0x80),
            Rgb::new(0x8a, 0xff, 0x8a),
            Rgb::new(0xff, 0xe0, 0x6a),
            Rgb::new(0x8a, 0xbd, 0xff),
            Rgb::new(0xf0, 0xa0, 0xf0),
            Rgb::new(0x7a, 0xff, 0xff),
            Rgb::new(0xff, 0xff, 0xff),
            Rgb::new(0x9a, 0x9a, 0x9a),
            Rgb::new(0xff, 0xb3, 0xab),
            Rgb::new(0xb3, 0xff, 0xb3),
            Rgb::new(0xff, 0xef, 0xab),
            Rgb::new(0xb3, 0xd6, 0xff),
            Rgb::new(0xf8, 0xc8, 0xf8),
            Rgb::new(0xb3, 0xff, 0xff),
            Rgb::new(0xff, 0xff, 0xff),
        ],
        published: false,
    };
    assert(t.ansi@ =~= spec_zet_contrast().ansi@);
    t
}

/// Every theme zet ships, in the order the settings panel lists them: zet's own three, then
/// the imported ones.
pub open spec fn spec_builtin() -> Seq<Theme> {
    seq![
        spec_zet_dark(),
        spec_zet_light(),
        spec_zet_contrast(),
        crate::imported::spec_nord(),
        crate::imported::spec_gruvbox_dark(),
        crate::imported::spec_tokyo_night(),
        crate::imported::spec_catppuccin_mocha(),
        crate::imported::spec_solarized_light(),
    ]
}

/// Every theme zet ships, in the order the settings panel lists them.
pub fn builtin() -> (r: Vec<Theme>)
    ensures
        r@ == spec_builtin(),
{
    let mut r: Vec<Theme> = Vec::new();
    r.push(zet_dark());
    r.push(zet_light());
    r.push(zet_contrast());
    r.push(crate::imported::nord());
    r.push(crate::imported::gruvbox_dark());
    r.push(crate::imported::tokyo_night());
    r.push(crate::imported::catppuccin_mocha());
    r.push(crate::imported::solarized_light());
    assert(r@ =~= spec_builtin());
    r
}

/// The theme a config file gets when it names one that does not exist.
pub fn default_theme() -> (t: Theme)
    ensures
        t == spec_zet_dark(),
{
    zet_dark()
}

/// The theme forced colours switches to.
pub fn contrast_theme() -> (t: Theme)
    ensures
        t == spec_zet_contrast(),
{
    zet_contrast()
}

/// The shipped theme whose slug is `slug`, if there is one.
pub open spec fn theme_by_slug(slug: Seq<char>) -> Option<Theme> {
    if exists|i: int| 0 <= i < 8 && (#[trigger] spec_builtin()[i]).slug@ == slug {
        Some(spec_builtin()[choose|i: int| 0 <= i < 8 && (#[trigger] spec_builtin()[i]).slug@ == slug])
    } else {
        None
    }
}

/// The slug of the shipped theme whose name is `name`, if there is one.
pub open spec fn slug_by_name(name: Seq<char>) -> Option<&'static str> {
    if exists|i: int| 0 <= i < 8 && (#[trigger] spec_builtin()[i]).name@ == name {
        Some(spec_builtin()[choose|i: int| 0 <= i < 8 && (#[trigger] spec_builtin()[i]).name@ == name].slug)
    } else {
        None
    }
}

/// Look a theme up by the value written in the config file.
pub fn by_slug(slug: &str) -> (r: Option<Theme>)
    ensures
        r == theme_by_slug(slug@),
{
    let wanted = chars_of(slug);
    let themes = builtin();
    let mut i: usize = 0;
    while i < themes.len()
        invariant
            i <= themes.len(),
            themes@ == spec_builtin(),
            wanted@ == slug@,
            forall|j: int| 0 <= j < i ==> (#[trigger] spec_builtin()[j]).slug@ != slug@,
        decreases themes.len() - i,
    {
        if spells(&wanted, themes[i].slug) {
            proof {
                let k = choose|k: int| 0 <= k < 8 && (#[trigger] spec_builtin()[k]).slug@ == slug@;
                lemma_slugs_differ(k, i as int);
            }
            return Some(themes[i]);
        }
        i += 1;
    }
    None
}

/// The suggested config value for a theme name, for the settings panel's readout.
pub fn slug_of(name: &str) -> (r: Option<&'static str>)
    ensures
        r == slug_by_name(name@),
{
    let wanted = chars_of(name);
    let themes = builtin();
    let mut i: usize = 0;
    while i < themes.len()
        invariant
            i <= themes.len(),
            themes@ == spec_builtin(),
            wanted@ == name@,
            forall|j: int| 0 <= j < i ==> (#[trigger] spec_builtin()[j]).name@ != name@,
        decreases themes.len() - i,
    {
        if spells(&wanted, themes[i].name) {
            proof {
                let k = choose|k: int| 0 <= k < 8 && (#[trigger] spec_builtin()[k]).name@ == name@;
                lemma_names_differ(k, i as int);
            }
            return Some(themes[i].slug);
        }
        i += 1;
    }
    None
}

/// No two shipped themes share a slug.
pub proof fn lemma_slugs_differ(i: int, j: int)
    requires
        0 <= i < 8,
        0 <= j < 8,
    ensures
        spec_builtin()[i].slug@ == spec_builtin()[j].slug@ ==> i == j,
{
    reveal_strlit("zet-dark");
    reveal_strlit("zet-light");
    reveal_strlit("zet-contrast");
    reveal_strlit("nord");
    reveal_strlit("gruvbox-dark");
    reveal_strlit("tokyo-night");
    reveal_strlit("catppuccin-mocha");
    reveal_strlit("solarized-light");
    let s = spec_builtin();
    assert(s[0].slug == "zet-dark");
    assert(s[1].slug == "zet-light");
    assert(s[2].slug == "zet-contrast");
    assert(s[3].slug == "nord");
    assert(s[4].slug == "gruvbox-dark");
    assert(s[5].slug == "tokyo-night");
    assert(s[6].slug == "catppuccin-mocha");
    assert(s[7].slug == "solarized-light");
    if i != j {
        if i == 0 && j == 1 {
            assert("zet-dark"@.len() != "zet-light"@.len());
        } else if i == 0 && j == 2 {
            assert("zet-dark"@.len() != "zet-contrast"@.len());
        } else if i == 0 && j == 3 {
            assert("zet-dark"@.len() != "nord"@.len());
        } else if i == 0 && j == 4 {
            assert("zet-dark"@.len() != "gruvbox-dark"@.len());
        } else if i == 0 && j == 5 {
            assert("zet-dark"@.len() != "tokyo-night"@.len());
        } else if i == 0 && j == 6 {
            assert("zet-dark"@.len() != "catppuccin-mocha"@.len());
        } else if i == 0 && j == 7 {
            assert("zet-dark"@.len() != "solarized-light"@.len());
        } else if i == 1 && j == 0 {
            assert("zet-light"@.len() != "zet-dark"@.len());
        } else if i == 1 && j == 2 {
            assert("zet-light"@.len() != "zet-contrast"@.len());
        } else if i == 1 && j == 3 {
            assert("zet-light"@.len() != "nord"@.len());
        } else if i == 1 && j == 4 {
            assert("zet-light"@.len() != "gruvbox-dark"@.len());
        } else if i == 1 && j == 5 {
            assert("zet-light"@.len() != "tokyo-night"@.len());
        } else if i == 1 && j == 6 {
            assert("zet-light"@.len() != "catppuccin-mocha"@.len());
        } else if i == 1 && j == 7 {
            assert("zet-light"@.len() != "solarized-light"@.len());
        } else if i == 2 && j == 0 {
            assert("zet-contrast"@.len() != "zet-dark"@.len());
        } else if i == 2 && j == 1 {
            assert("zet-contrast"@.len() != "zet-light"@.len());
        } else if i == 2 && j == 3 {
            assert("zet-contrast"@.len() != "nord"@.len());
        } else if i == 2 && j == 4 {
            assert("zet-contrast"@[0] != "gruvbox-dark"@[0]);
        } else if i == 2 && j == 5 {
            assert("zet-contrast"@.len() != "tokyo-night"@.len());
        } else if i == 2 && j == 6 {
            assert("zet-contrast"@.len() != "catppuccin-mocha"@.len());
        } else if i == 2 && j == 7 {
            assert("zet-contrast"@.len() != "solarized-light"@.len());
        } else if i == 3 && j == 0 {
            assert("nord"@.len() != "zet-dark"@.len());
        } else if i == 3 && j == 1 {
            assert("nord"@.len() != "zet-light"@.len());
        } else if i == 3 && j == 2 {
            assert("nord"@.len() != "zet-contrast"@.len());
        } else if i == 3 && j == 4 {
            assert("nord"@.len() != "gruvbox-dark"@.len());
        } else if i == 3 && j == 5 {
            assert("nord"@.len() != "tokyo-night"@.len());
        } else if i == 3 && j == 6 {
            assert("nord"@.len() != "catppuccin-mocha"@.len());
        } else if i == 3 && j == 7 {
            assert("nord"@.len() != "solarized-light"@.len());
        } else if i == 4 && j == 0 {
            assert("gruvbox-dark"@.len() != "zet-dark"@.len());
        } else if i == 4 && j == 1 {
            assert("gruvbox-dark"@.len() != "zet-light"@.len());
        } else if i == 4 && j == 2 {
            assert("gruvbox-dark"@[0] != "zet-contrast"@[0]);
        } else if i == 4 && j == 3 {
            assert("gruvbox-dark"@.len() != "nord"@.len());
        } else if i == 4 && j == 5 {
            assert("gruvbox-dark"@.len() != "tokyo-night"@.len());
        } else if i == 4 && j == 6 {
            assert("gruvbox-dark"@.len() != "catppuccin-mocha"@.len());
        } else if i == 4 && j == 7 {
            assert("gruvbox-dark"@.len() != "solarized-light"@.len());
        } else if i == 5 && j == 0 {
            assert("tokyo-night"@.len() != "zet-dark"@.len());
        } else if i == 5 && j == 1 {
            assert("tokyo-night"@.len() != "zet-light"@.len());
        } else if i == 5 && j == 2 {
            assert("tokyo-night"@.len() != "zet-contrast"@.len());
        } else if i == 5 && j == 3 {
            assert("tokyo-night"@.len() != "nord"@.len());
        } else if i == 5 && j == 4 {
            assert("tokyo-night"@.len() != "gruvbox-dark"@.len());
        } else if i == 5 && j == 6 {
            assert("tokyo-night"@.len() != "catppuccin-mocha"@.len());
        } else if i == 5 && j == 7 {
            assert("tokyo-night"@.len() != "solarized-light"@.len());
        } else if i == 6 && j == 0 {
            assert("catppuccin-mocha"@.len() != "zet-dark"@.len());
        } else if i == 6 && j == 1 {
            assert("catppuccin-mocha"@.len() != "zet-light"@.len());
        } else if i == 6 && j == 2 {
            assert("catppuccin-mocha"@.len() != "zet-contrast"@.len());
        } else if i == 6 && j == 3 {
            assert("catppuccin-mocha"@.len() != "nord"@.len());
        } else if i == 6 && j == 4 {
            assert("catppuccin-mocha"@.len() != "gruvbox-dark"@.len());
        } else if i == 6 && j == 5 {
            assert("catppuccin-mocha"@.len() != "tokyo-night"@.len());
        } else if i == 6 && j == 7 {
            assert("catppuccin-mocha"@.len() != "solarized-light"@.len());
        } else if i == 7 && j == 0 {
            assert("solarized-light"@.len() != "zet-dark"@.len());
        } else if i == 7 && j == 1 {
            assert("solarized-light"@.len() != "zet-light"@.len());
        } else if i == 7 && j == 2 {
            assert("solarized-light"@.len() != "zet-contrast"@.len());
        } else if i == 7 && j == 3 {
            assert("solarized-light"@.len() != "nord"@.len());
        } else if i == 7 && j == 4 {
            assert("solarized-light"@.len() != "gruvbox-dark"@.len());
        } else if i == 7 && j == 5 {
            assert("solarized-light"@.len() != "tokyo-night"@.len());
        } else if i == 7 && j == 6 {
            assert("solarized-light"@.len() != "catppuccin-mocha"@.len());
        }
    }
}

/// No two shipped themes share a name.
pub proof fn lemma_names_differ(i: int, j: int)
    requires
        0 <= i < 8,
        0 <= j < 8,
    ensures
        spec_builtin()[i].name@ == spec_builtin()[j].name@ ==> i == j,
{
    reveal_strlit("zet dark");
    reveal_strlit("zet light");
    reveal_strlit("zet contrast");
    reveal_strlit("Nord");
    reveal_strlit("Gruvbox dark");
    reveal_strlit("Tokyo Night");
    reveal_strlit("Catppuccin Mocha");
    reveal_strlit("Solarized Light");
    let s = spec_builtin();
    assert(s[0].name == "zet dark");
    assert(s[1].name == "zet light");
    assert(s[2].name == "zet contrast");
    assert(s[3].name == "Nord");
    assert(s[4].name == "Gruvbox dark");
    assert(s[5].name == "Tokyo Night");
    assert(s[6].name == "Catppuccin Mocha");
    assert(s[7].name == "Solarized Light");
    if i != j {
        if i == 0 && j == 1 {
            assert("zet dark"@.len() != "zet light"@.len());
        } else if i == 0 && j == 2 {
            assert("zet dark"@.len() != "zet contrast"@.len());
        } else if i == 0 && j == 3 {
            assert("zet dark"@.len() != "Nord"@.len());
        } else if i == 0 && j == 4 {
            assert("zet dark"@.len() != "Gruvbox dark"@.len());
        } else if i == 0 && j == 5 {
            assert("zet dark"@.len() != "Tokyo Night"@.len());
        } else if i == 0 && j == 6 {
            assert("zet dark"@.len() != "Catppuccin Mocha"@.len());
        } else if i == 0 && j == 7 {
            assert("zet dark"@.len() != "Solarized Light"@.len());
        } else if i == 1 && j == 0 {
            assert("zet light"@.len() != "zet dark"@.len());
        } else if i == 1 && j == 2 {
            assert("zet light"@.len() != "zet contrast"@.len());
        } else if i == 1 && j == 3 {
            assert("zet light"@.len() != "Nord"@.len());
        } else if i == 1 && j == 4 {
            assert("zet light"@.len() != "Gruvbox dark"@.len());
        } else if i == 1 && j == 5 {
            assert("zet light"@.len() != "Tokyo Night"@.len());
        } else if i == 1 && j == 6 {
            assert("zet light"@.len() != "Catppuccin Mocha"@.len());
        } else if i == 1 && j == 7 {
            assert("zet light"@.len() != "Solarized Light"@.len());
        } else if i == 2 && j == 0 {
            assert("zet contrast"@.len() != "zet dark"@.len());
        } else if i == 2 && j == 1 {
            assert("zet contrast"@.len() != "zet light"@.len());
        } else if i == 2 && j == 3 {
            assert("zet contrast"@.len() != "Nord"@.len());
        } else if i == 2 && j == 4 {
            assert("zet contrast"@[0] != "Gruvbox dark"@[0]);
        } else if i == 2 && j == 5 {
            assert("zet contrast"@.len() != "Tokyo Night"@.len());
        } else if i == 2 && j == 6 {
            assert("zet contrast"@.len() != "Catppuccin Mocha"@.len());
        } else if i == 2 && j == 7 {
            assert("zet contrast"@.len() != "Solarized Light"@.len());
        } else if i == 3 && j == 0 {
            assert("Nord"@.len() != "zet dark"@.len());
        } else if i == 3 && j == 1 {
            assert("Nord"@.len() != "zet light"@.len());
        } else if i == 3 && j == 2 {
            assert("Nord"@.len() != "zet contrast"@.len());
        } else if i == 3 && j == 4 {
            assert("Nord"@.len() != "Gruvbox dark"@.len());
        } else if i == 3 && j == 5 {
            assert("Nord"@.len() != "Tokyo Night"@.len());
        } else if i == 3 && j == 6 {
            assert("Nord"@.len() != "Catppuccin Mocha"@.len());
        } else if i == 3 && j == 7 {
            assert("Nord"@.len() != "Solarized Light"@.len());
        } else if i == 4 && j == 0 {
            assert("Gruvbox dark"@.len() != "zet dark"@.len());
        } else if i == 4 && j == 1 {
            assert("Gruvbox dark"@.len() != "zet light"@.len());
        } else if i == 4 && j == 2 {
            assert("Gruvbox dark"@[0] != "zet contrast"@[0]);
        } else if i == 4 && j == 3 {
            assert("Gruvbox dark"@.len() != "Nord"@.len());
        } else if i == 4 && j == 5 {
            assert("Gruvbox dark"@.len() != "Tokyo Night"@.len());
        } else if i == 4 && j == 6 {
            assert("Gruvbox dark"@.len() != "Catppuccin Mocha"@.len());
        } else if i == 4 && j == 7 {
            assert("Gruvbox dark"@.len() != "Solarized Light"@.len());
        } else if i == 5 && j == 0 {
            assert("Tokyo Night"@.len() != "zet dark"@.len());
        } else if i == 5 && j == 1 {
            assert("Tokyo Night"@.len() != "zet light"@.len());
        } else if i == 5 && j == 2 {
            assert("Tokyo Night"@.len() != "zet contrast"@.len());
        } else if i == 5 && j == 3 {
            assert("Tokyo Night"@.len() != "Nord"@.len());
        } else if i == 5 && j == 4 {
            assert("Tokyo Night"@.len() != "Gruvbox dark"@.len());
        } else if i == 5 && j == 6 {
            assert("Tokyo Night"@.len() != "Catppuccin Mocha"@.len());
        } else if i == 5 && j == 7 {
            assert("Tokyo Night"@.len() != "Solarized Light"@.len());
        } else if i == 6 && j == 0 {
            assert("Catppuccin Mocha"@.len() != "zet dark"@.len());
        } else if i == 6 && j == 1 {
            assert("Catppuccin Mocha"@.len() != "zet light"@.len());
        } else if i == 6 && j == 2 {
            assert("Catppuccin Mocha"@.len() != "zet contrast"@.len());
        } else if i == 6 && j == 3 {
            assert("Catppuccin Mocha"@.len() != "Nord"@.len());
        } else if i == 6 && j == 4 {
            assert("Catppuccin Mocha"@.len() != "Gruvbox dark"@.len());
        } else if i == 6 && j == 5 {
            assert("Catppuccin Mocha"@.len() != "Tokyo Night"@.len());
        } else if i == 6 && j == 7 {
            assert("Catppuccin Mocha"@.len() != "Solarized Light"@.len());
        } else if i == 7 && j == 0 {
            assert("Solarized Light"@.len() != "zet dark"@.len());
        } else if i == 7 && j == 1 {
            assert("Solarized Light"@.len() != "zet light"@.len());
        } else if i == 7 && j == 2 {
            assert("Solarized Light"@.len() != "zet contrast"@.len());
        } else if i == 7 && j == 3 {
            assert("Solarized Light"@.len() != "Nord"@.len());
        } else if i == 7 && j == 4 {
            assert("Solarized Light"@.len() != "Gruvbox dark"@.len());
        } else if i == 7 && j == 5 {
            assert("Solarized Light"@.len() != "Tokyo Night"@.len());
        } else if i == 7 && j == 6 {
            assert("Solarized Light"@.len() != "Catppuccin Mocha"@.len());
        }
    }
}

/// Every shipped theme is found again by its slug.
pub proof fn lemma_every_theme_is_reachable(i: int)
    requires
        0 <= i < 8,
    ensures
        theme_by_slug(spec_builtin()[i].slug@) == Some(spec_builtin()[i]),
{
    let k = choose|k: int| 0 <= k < 8 && (#[trigger] spec_builtin()[k]).slug@ == spec_builtin()[i].slug@;
    lemma_slugs_differ(k, i);
}

} // verus!
