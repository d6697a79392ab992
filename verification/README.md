# zet

The logic of zet, a terminal for Windows, as a Verus library whose behaviour is stated in
contracts and proved.

- `src/` is the verified library: key, mouse, paste and focus encoding; chords and the
  keymap; the shipped themes and the chrome palette; the settings panel's rows and what a
  click on one changes; the find bar, the profile picker, the menu, the synchronized-output
  hold and the cursor blink; reading a selection out of the grid; the WSL listing, shell
  ranking and de-duplication, `PATHEXT`; the command line a child process is started with,
  and the proof that the C runtime reads its arguments back as they were given; and the
  comment-preserving merge of a freshly written configuration into the file on disk,
  through `toml_edit`.
- `app/` is the ordinary Rust around it: `config.toml` through serde, the
  floating-point colour arithmetic, the font database and rasteriser (`fontique`, `swash`),
  the disk and `wsl.exe` side of shell discovery, and the Windows pseudoconsole.
- `tests/` drives the library from outside.
