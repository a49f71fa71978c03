# libretro_core

Building blocks for libretro cores, with their behaviour stated as Verus
contracts and proved.

- `src/` is the verified library: typed values of the libretro ABI (`raw`,
  `memory`, `system`, `perf`, `sensors`, `netplay`, `vfs`, `microphone`,
  `midi`, `subsystem`), typed bit-flag sets (`flags`), core option builders
  and the legacy option encoding (`options`), ordered event-listener lists
  (`events`), hardware-render negotiation (`hw_render`), and CPU diagnostics
  (`diagnostics`): the software XRGB8888 error screen with its block font and
  message wrapping, the Elecbyte FNT v1 bitmap font reader, and the OpenGL
  capability decisions of the text overlay.
- `tests/` exercises the library on concrete values.
- `app/` holds what stays outside verification: the C structures and entry
  points of the frontend ABI, C strings and retained tables, frontend
  service handles, logging, the negotiation driver, floating-point glyph
  geometry, and the `glow` text overlay.
