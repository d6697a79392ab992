//! zet's terminal logic, verified: key, mouse, paste and focus encoding; chords, the keymap
//! and the bindings read from it; the settings panel's rows and what a click on one changes;
//! the shipped themes and the chrome palette; the find bar, the picker, the menu, the blink
//! and the synchronized-output hold; reading a selection out of the grid; finding and
//! ordering shells; the command line a child process starts with; and saving the
//! configuration without losing the comments in the file.

pub mod action;
pub mod bindings;
pub mod blink;
pub mod chord;
pub mod cmdline;
pub mod command;
pub mod config;
pub mod discovery;
pub mod encode;
pub mod families;
pub mod find;
pub mod glyph;
pub mod hold;
pub mod imported;
pub mod key;
pub mod keymap;
pub mod menu;
pub mod modes;
pub mod mouse;
pub mod palette;
pub mod picker;
pub mod pty;
pub mod rgb;
pub mod settings;
pub mod spell;
pub mod text;
pub mod theme;
pub mod tomlfile;
pub mod window;
