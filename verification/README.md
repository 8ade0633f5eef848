# pyroclear

Clears the terminal by burning it down, and lets the user choose how. The library is
written in Verus: its functions are verified against their contracts, which rest on a few
specifications of the standard library in `src/rng.rs` and `src/text.rs`.

- `src/rng.rs`: the xorshift generator.
- `src/heat.rs`, `src/fire.rs`, `src/render.rs`: the heat grid, the turns of the
  animation, and frames as text.
- `src/key.rs`, `src/terminal.rs`: key input, screen size and raw mode.
- `src/text.rs`, `src/ansi.rs`, `src/screen.rs`: strings, control sequences, and what the
  menus have in common.
- `src/settings.rs`: the settings screen.
- `src/prompt.rs`: one-line prompts.
- `src/palette.rs`, `src/picker.rs`, `src/picker_view.rs`, `src/picking.rs`: the palette
  picker, and the picker together with its dialogue for a gradient.
- `src/custom.rs`, `src/custom_view.rs`, `src/manager.rs`: the list of saved palettes, and
  the list together with its dialogue for a new palette.
- `app/`: the loops that read keys, draw, and burn. The program around them supplies its
  palettes and its configuration through the trait `Host`.
