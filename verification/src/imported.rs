//! Themes that ship exactly as their authors published them.
//!
//! These are not audited against zet's contrast floor and are not adjusted to fit the
//! chrome. A palette that has been recoloured is no longer the palette somebody chose, and
//! the settings panel labels them "as published" for that reason. Every value comes from
//! the palette's own upstream source.
use vstd::prelude::*;

use crate::rgb::Rgb;
use crate::theme::Theme;

verus! {

/// The colours of the theme `nord` returns.
pub open spec fn spec_nord() -> Theme {
    Theme {
        name: "Nord",
        slug: "nord",
        ground: Rgb { r: 0x2e, g: 0x34, b: 0x40 },
        foreground: Rgb { r: 0xd8, g: 0xde, b: 0xe9 },
        background: Rgb { r: 0x2e, g: 0x34, b: 0x40 },
        cursor: Rgb { r: 0xd8, g: 0xde, b: 0xe9 },
        selection: Rgb { r: 0x43, g: 0x4c, b: 0x5e },
        ansi: [
            Rgb { r: 0x3b, g: 0x42, b: 0x52 },
            Rgb { r: 0xbf, g: 0x61, b: 0x6a },
            Rgb { r: 0xa3, g: 0xbe, b: 0x8c },
            Rgb { r: 0xeb, g: 0xcb, b: 0x8b },
            Rgb { r: 0x81, g: 0xa1, b: 0xc1 },
            Rgb { r: 0xb4, g: 0x8e, b: 0xad },
            Rgb { r: 0x88, g: 0xc0, b: 0xd0 },
            Rgb { r: 0xe5, g: 0xe9, b: 0xf0 },
            Rgb { r: 0x4c, g: 0x56, b: 0x6a },
            Rgb { r: 0xbf, g: 0x61, b: 0x6a },
            Rgb { r: 0xa3, g: 0xbe, b: 0x8c },
            Rgb { r: 0xeb, g: 0xcb, b: 0x8b },
            Rgb { r: 0x81, g: 0xa1, b: 0xc1 },
            Rgb { r: 0xb4, g: 0x8e, b: 0xad },
            Rgb { r: 0x8f, g: 0xc0, b: 0xd0 },
            Rgb { r: 0xec, g: 0xef, b: 0xf4 },
        ],
        published: true,
    }
}

/// Nord, by Arctic Ice Studio and Sven Greb.
///
/// Source: `nordtheme/nord`, `src/nord.scss`. The terminal mapping is the one Nord's
/// own documentation publishes, which reuses the four accent colours across both the
/// normal and bright halves rather than inventing brighter variants.
pub fn nord() -> (t: Theme)
    ensures
        t == spec_nord(),
{
    let t = Theme {
        name: "Nord",
        slug: "nord",
        ground: Rgb::new(0x2e, 0x34, 0x40),
        foreground: Rgb::new(0xd8, 0xde, 0xe9),
        background: Rgb::new(0x2e, 0x34, 0x40),
        cursor: Rgb::new(0xd8, 0xde, 0xe9),
        selection: Rgb::new(0x43, 0x4c, 0x5e),
        ansi: [
            Rgb::new(0x3b, 0x42, 0x52),
            Rgb::new(0xbf, 0x61, 0x6a),
            Rgb::new(0xa3, 0xbe, 0x8c),
            Rgb::new(0xeb, 0xcb, 0x8b),
            Rgb::new(0x81, 0xa1, 0xc1),
            Rgb::new(0xb4, 0x8e, 0xad),
            Rgb::new(0x88, 0xc0, 0xd0),
            Rgb::new(0xe5, 0xe9, 0xf0),
            Rgb::new(0x4c, 0x56, 0x6a),
            Rgb::new(0xbf, 0x61, 0x6a),
            Rgb::new(0xa3, 0xbe, 0x8c),
            Rgb::new(0xeb, 0xcb, 0x8b),
            Rgb::new(0x81, 0xa1, 0xc1),
            Rgb::new(0xb4, 0x8e, 0xad),
            Rgb::new(0x8f, 0xc0, 0xd0),
            Rgb::new(0xec, 0xef, 0xf4),
        ],
        published: true,
    };
    assert(t.ansi@ =~= spec_nord().ansi@);
    t
}

/// The colours of the theme `gruvbox_dark` returns.
pub open spec fn spec_gruvbox_dark() -> Theme {
    Theme {
        name: "Gruvbox dark",
        slug: "gruvbox-dark",
        ground: Rgb { r: 0x28, g: 0x28, b: 0x28 },
        foreground: Rgb { r: 0xeb, g: 0xdb, b: 0xb2 },
        background: Rgb { r: 0x28, g: 0x28, b: 0x28 },
        cursor: Rgb { r: 0xeb, g: 0xdb, b: 0xb2 },
        selection: Rgb { r: 0x66, g: 0x5c, b: 0x54 },
        ansi: [
            Rgb { r: 0x28, g: 0x28, b: 0x28 },
            Rgb { r: 0xcc, g: 0x24, b: 0x1d },
            Rgb { r: 0x98, g: 0x97, b: 0x1a },
            Rgb { r: 0xd7, g: 0x99, b: 0x21 },
            Rgb { r: 0x45, g: 0x85, b: 0x88 },
            Rgb { r: 0xb1, g: 0x62, b: 0x86 },
            Rgb { r: 0x68, g: 0x9d, b: 0x6a },
            Rgb { r: 0xa8, g: 0x99, b: 0x84 },
            Rgb { r: 0x92, g: 0x83, b: 0x74 },
            Rgb { r: 0xfb, g: 0x49, b: 0x34 },
            Rgb { r: 0xb8, g: 0xbb, b: 0x26 },
            Rgb { r: 0xfa, g: 0xbd, b: 0x2f },
            Rgb { r: 0x83, g: 0xa5, b: 0x98 },
            Rgb { r: 0xd3, g: 0x86, b: 0x9b },
            Rgb { r: 0x8e, g: 0xc0, b: 0x7c },
            Rgb { r: 0xeb, g: 0xdb, b: 0xb2 },
        ],
        published: true,
    }
}

/// Gruvbox dark, by Pavel Pertsev.
///
/// Source: `morhetz/gruvbox`, the `g:terminal_color_*` block in `colors/gruvbox.vim`.
/// The "dark" variant with the *medium* background, which is the one the scheme's own
/// screenshots show.
pub fn gruvbox_dark() -> (t: Theme)
    ensures
        t == spec_gruvbox_dark(),
{
    let t = Theme {
        name: "Gruvbox dark",
        slug: "gruvbox-dark",
        ground: Rgb::new(0x28, 0x28, 0x28),
        foreground: Rgb::new(0xeb, 0xdb, 0xb2),
        background: Rgb::new(0x28, 0x28, 0x28),
        cursor: Rgb::new(0xeb, 0xdb, 0xb2),
        selection: Rgb::new(0x66, 0x5c, 0x54),
        ansi: [
            Rgb::new(0x28, 0x28, 0x28),
            Rgb::new(0xcc, 0x24, 0x1d),
            Rgb::new(0x98, 0x97, 0x1a),
            Rgb::new(0xd7, 0x99, 0x21),
            Rgb::new(0x45, 0x85, 0x88),
            Rgb::new(0xb1, 0x62, 0x86),
            Rgb::new(0x68, 0x9d, 0x6a),
            Rgb::new(0xa8, 0x99, 0x84),
            Rgb::new(0x92, 0x83, 0x74),
            Rgb::new(0xfb, 0x49, 0x34),
            Rgb::new(0xb8, 0xbb, 0x26),
            Rgb::new(0xfa, 0xbd, 0x2f),
            Rgb::new(0x83, 0xa5, 0x98),
            Rgb::new(0xd3, 0x86, 0x9b),
            Rgb::new(0x8e, 0xc0, 0x7c),
            Rgb::new(0xeb, 0xdb, 0xb2),
        ],
        published: true,
    };
    assert(t.ansi@ =~= spec_gruvbox_dark().ansi@);
    t
}

/// The colours of the theme `tokyo_night` returns.
pub open spec fn spec_tokyo_night() -> Theme {
    Theme {
        name: "Tokyo Night",
        slug: "tokyo-night",
        ground: Rgb { r: 0x1a, g: 0x1b, b: 0x26 },
        foreground: Rgb { r: 0xc0, g: 0xca, b: 0xf5 },
        background: Rgb { r: 0x1a, g: 0x1b, b: 0x26 },
        cursor: Rgb { r: 0xc0, g: 0xca, b: 0xf5 },
        selection: Rgb { r: 0x28, g: 0x34, b: 0x57 },
        ansi: [
            Rgb { r: 0x15, g: 0x16, b: 0x1e },
            Rgb { r: 0xf7, g: 0x76, b: 0x8e },
            Rgb { r: 0x9e, g: 0xce, b: 0x6a },
            Rgb { r: 0xe0, g: 0xaf, b: 0x68 },
            Rgb { r: 0x7a, g: 0xa2, b: 0xf7 },
            Rgb { r: 0xbb, g: 0x9a, b: 0xf7 },
            Rgb { r: 0x7d, g: 0xcf, b: 0xff },
            Rgb { r: 0xa9, g: 0xb1, b: 0xd6 },
            Rgb { r: 0x41, g: 0x48, b: 0x68 },
            Rgb { r: 0xff, g: 0x89, b: 0x9d },
            Rgb { r: 0x9f, g: 0xe0, b: 0x44 },
            Rgb { r: 0xfa, g: 0xba, b: 0x4a },
            Rgb { r: 0x8d, g: 0xb0, b: 0xff },
            Rgb { r: 0xc7, g: 0xa9, b: 0xff },
            Rgb { r: 0xa4, g: 0xda, b: 0xff },
            Rgb { r: 0xc0, g: 0xca, b: 0xf5 },
        ],
        published: true,
    }
}

/// Tokyo Night, by Folke Lemaitre.
///
/// Source: `folke/tokyonight.nvim`, `extras/kitty/tokyonight_night.conf`. The kitty
/// and ghostty extras agree on every one of the twenty values, which matters because
/// the plugin's own `lua/` files do not contain a terminal palette at all — the
/// ANSI table is computed at runtime by blending and brightening the base hues, so
/// there is nothing to read out of them.
///
/// The `night` variant is the one shipped. Storm and moon are different themes that
/// share the name; a picker offering three rows called "Tokyo Night" is worse than one
/// offering the canonical one.
pub fn tokyo_night() -> (t: Theme)
    ensures
        t == spec_tokyo_night(),
{
    let t = Theme {
        name: "Tokyo Night",
        slug: "tokyo-night",
        ground: Rgb::new(0x1a, 0x1b, 0x26),
        foreground: Rgb::new(0xc0, 0xca, 0xf5),
        background: Rgb::new(0x1a, 0x1b, 0x26),
        cursor: Rgb::new(0xc0, 0xca, 0xf5),
        selection: Rgb::new(0x28, 0x34, 0x57),
        ansi: [
            Rgb::new(0x15, 0x16, 0x1e),
            Rgb::new(0xf7, 0x76, 0x8e),
            Rgb::new(0x9e, 0xce, 0x6a),
            Rgb::new(0xe0, 0xaf, 0x68),
            Rgb::new(0x7a, 0xa2, 0xf7),
            Rgb::new(0xbb, 0x9a, 0xf7),
            Rgb::new(0x7d, 0xcf, 0xff),
            Rgb::new(0xa9, 0xb1, 0xd6),
            Rgb::new(0x41, 0x48, 0x68),
            Rgb::new(0xff, 0x89, 0x9d),
            Rgb::new(0x9f, 0xe0, 0x44),
            Rgb::new(0xfa, 0xba, 0x4a),
            Rgb::new(0x8d, 0xb0, 0xff),
            Rgb::new(0xc7, 0xa9, 0xff),
            Rgb::new(0xa4, 0xda, 0xff),
            Rgb::new(0xc0, 0xca, 0xf5),
        ],
        published: true,
    };
    assert(t.ansi@ =~= spec_tokyo_night().ansi@);
    t
}

/// The colours of the theme `catppuccin_mocha` returns.
pub open spec fn spec_catppuccin_mocha() -> Theme {
    Theme {
        name: "Catppuccin Mocha",
        slug: "catppuccin-mocha",
        ground: Rgb { r: 0x1e, g: 0x1e, b: 0x2e },
        foreground: Rgb { r: 0xcd, g: 0xd6, b: 0xf4 },
        background: Rgb { r: 0x1e, g: 0x1e, b: 0x2e },
        cursor: Rgb { r: 0xf5, g: 0xe0, b: 0xdc },
        selection: Rgb { r: 0xf5, g: 0xe0, b: 0xdc },
        ansi: [
            Rgb { r: 0x45, g: 0x47, b: 0x5a },
            Rgb { r: 0xf3, g: 0x8b, b: 0xa8 },
            Rgb { r: 0xa6, g: 0xe3, b: 0xa1 },
            Rgb { r: 0xf9, g: 0xe2, b: 0xaf },
            Rgb { r: 0x89, g: 0xb4, b: 0xfa },
            Rgb { r: 0xf5, g: 0xc2, b: 0xe7 },
            Rgb { r: 0x94, g: 0xe2, b: 0xd5 },
            Rgb { r: 0xba, g: 0xc2, b: 0xde },
            Rgb { r: 0x58, g: 0x5b, b: 0x70 },
            Rgb { r: 0xf3, g: 0x8b, b: 0xa8 },
            Rgb { r: 0xa6, g: 0xe3, b: 0xa1 },
            Rgb { r: 0xf9, g: 0xe2, b: 0xaf },
            Rgb { r: 0x89, g: 0xb4, b: 0xfa },
            Rgb { r: 0xf5, g: 0xc2, b: 0xe7 },
            Rgb { r: 0x94, g: 0xe2, b: 0xd5 },
            Rgb { r: 0xa6, g: 0xad, b: 0xc8 },
        ],
        published: true,
    }
}

/// Catppuccin Mocha, by the Catppuccin contributors.
///
/// Source: `catppuccin/kitty`, `themes/mocha.conf`, cross-checked against
/// `catppuccin/alacritty`. Both official ports agree on all twenty values.
///
/// The plugin's own `groups/terminal.lua` disagrees with them, and so does the style
/// guide in one place — it documents white as Subtext 0 and bright white as Subtext 1,
/// which is the reverse of what both ports ship. The ports win: this theme's job is to
/// look like the Catppuccin people already have.
///
/// The four flavours share a name for every colour and differ only in value, so the
/// flavour is part of the theme's identity rather than a setting.
pub fn catppuccin_mocha() -> (t: Theme)
    ensures
        t == spec_catppuccin_mocha(),
{
    let t = Theme {
        name: "Catppuccin Mocha",
        slug: "catppuccin-mocha",
        ground: Rgb::new(0x1e, 0x1e, 0x2e),
        foreground: Rgb::new(0xcd, 0xd6, 0xf4),
        background: Rgb::new(0x1e, 0x1e, 0x2e),
        cursor: Rgb::new(0xf5, 0xe0, 0xdc),
        selection: Rgb::new(0xf5, 0xe0, 0xdc),
        ansi: [
            Rgb::new(0x45, 0x47, 0x5a),
            Rgb::new(0xf3, 0x8b, 0xa8),
            Rgb::new(0xa6, 0xe3, 0xa1),
            Rgb::new(0xf9, 0xe2, 0xaf),
            Rgb::new(0x89, 0xb4, 0xfa),
            Rgb::new(0xf5, 0xc2, 0xe7),
            Rgb::new(0x94, 0xe2, 0xd5),
            Rgb::new(0xba, 0xc2, 0xde),
            Rgb::new(0x58, 0x5b, 0x70),
            Rgb::new(0xf3, 0x8b, 0xa8),
            Rgb::new(0xa6, 0xe3, 0xa1),
            Rgb::new(0xf9, 0xe2, 0xaf),
            Rgb::new(0x89, 0xb4, 0xfa),
            Rgb::new(0xf5, 0xc2, 0xe7),
            Rgb::new(0x94, 0xe2, 0xd5),
            Rgb::new(0xa6, 0xad, 0xc8),
        ],
        published: true,
    };
    assert(t.ansi@ =~= spec_catppuccin_mocha().ansi@);
    t
}

/// The colours of the theme `solarized_light` returns.
pub open spec fn spec_solarized_light() -> Theme {
    Theme {
        name: "Solarized Light",
        slug: "solarized-light",
        ground: Rgb { r: 0xfd, g: 0xf6, b: 0xe3 },
        foreground: Rgb { r: 0x65, g: 0x7b, b: 0x83 },
        background: Rgb { r: 0xfd, g: 0xf6, b: 0xe3 },
        cursor: Rgb { r: 0x65, g: 0x7b, b: 0x83 },
        selection: Rgb { r: 0xee, g: 0xe8, b: 0xd5 },
        ansi: [
            Rgb { r: 0x07, g: 0x36, b: 0x42 },
            Rgb { r: 0xdc, g: 0x32, b: 0x2f },
            Rgb { r: 0x85, g: 0x99, b: 0x00 },
            Rgb { r: 0xb5, g: 0x89, b: 0x00 },
            Rgb { r: 0x26, g: 0x8b, b: 0xd2 },
            Rgb { r: 0xd3, g: 0x36, b: 0x82 },
            Rgb { r: 0x2a, g: 0xa1, b: 0x98 },
            Rgb { r: 0xee, g: 0xe8, b: 0xd5 },
            Rgb { r: 0x00, g: 0x2b, b: 0x36 },
            Rgb { r: 0xcb, g: 0x4b, b: 0x16 },
            Rgb { r: 0x58, g: 0x6e, b: 0x75 },
            Rgb { r: 0x65, g: 0x7b, b: 0x83 },
            Rgb { r: 0x83, g: 0x94, b: 0x96 },
            Rgb { r: 0x6c, g: 0x71, b: 0xc4 },
            Rgb { r: 0x93, g: 0xa1, b: 0xa1 },
            Rgb { r: 0xfd, g: 0xf6, b: 0xe3 },
        ],
        published: true,
    }
}

/// Solarized Light, by Ethan Schoonover.
///
/// Source: `altercation/solarized`. The accent hexes come from `xresources/solarized`,
/// which is also where the palette's other terminal themes get them; the light variant's slot assignment
/// comes from the 16-colour table in `vim-colors-solarized/colors/solarized.vim`,
/// resolved through that file's own light-mode base swap, because `xresources` only
/// carries the light values in a commented-out block and its live `*colorN` lines are
/// the dark mapping.
///
/// The Apple Terminal and iTerm light profiles in the same repository confirm the
/// result independently; this is the only imported theme whose values were partly
/// worked out rather than read straight out.
///
/// The accent colours are identical between the light and dark variants by design —
/// only the base tones swap — which is why this theme's ANSI 0 is `base02` rather than
/// anything resembling black.
pub fn solarized_light() -> (t: Theme)
    ensures
        t == spec_solarized_light(),
{
    let t = Theme {
        name: "Solarized Light",
        slug: "solarized-light",
        ground: Rgb::new(0xfd, 0xf6, 0xe3),
        foreground: Rgb::new(0x65, 0x7b, 0x83),
        background: Rgb::new(0xfd, 0xf6, 0xe3),
        cursor: Rgb::new(0x65, 0x7b, 0x83),
        selection: Rgb::new(0xee, 0xe8, 0xd5),
        ansi: [
            Rgb::new(0x07, 0x36, 0x42),
            Rgb::new(0xdc, 0x32, 0x2f),
            Rgb::new(0x85, 0x99, 0x00),
            Rgb::new(0xb5, 0x89, 0x00),
            Rgb::new(0x26, 0x8b, 0xd2),
            Rgb::new(0xd3, 0x36, 0x82),
            Rgb::new(0x2a, 0xa1, 0x98),
            Rgb::new(0xee, 0xe8, 0xd5),
            Rgb::new(0x00, 0x2b, 0x36),
            Rgb::new(0xcb, 0x4b, 0x16),
            Rgb::new(0x58, 0x6e, 0x75),
            Rgb::new(0x65, 0x7b, 0x83),
            Rgb::new(0x83, 0x94, 0x96),
            Rgb::new(0x6c, 0x71, 0xc4),
            Rgb::new(0x93, 0xa1, 0xa1),
            Rgb::new(0xfd, 0xf6, 0xe3),
        ],
        published: true,
    };
    assert(t.ansi@ =~= spec_solarized_light().ansi@);
    t
}

} // verus!
