# zaminos

The logic of ZaminOS, a small convergent (phone and desktop) operating system for
aarch64, as a library verified with Verus.

- `src/` — the verified library: the shell's input handling and its apps (terminal,
  calculator, files, music, settings, paint, clock, system monitor, keyboard tester,
  welcome screen), the framebuffer's drawing primitives and text rendering, the line and
  circle walks, and the arithmetic of the drivers (ramfb configuration, fw_cfg directory
  entries and DMA polling, GICv2 register fields, timer ticks, MMU block descriptors,
  UART line endings). Every function states what it returns or draws in terms of a
  mathematical model (`Canvas` for a framebuffer, views for the app states).
- `tests/` — tests of the library on concrete values.
- `app/` — the kernel around it: MMIO and system registers, the heap, interrupt entry,
  the virtio-input bus, and the floating-point parts (the calculator's running total and
  the clock's angles).

## What is not here

The phone and desktop layouts (`Shell::draw` and what it dispatches to: the desktop
wallpaper, task bar, start menu and windows, the phone's home screen, dock and app drawer,
the coloured app icons and home grid) and the drawing of the calculator, files, music and
settings apps are built on framebuffer operations that the kernel's sources never define:
rounded and shadowed rectangles, gradients, filled and anti-aliased circles, blending and
anti-aliased text. Their behaviour is unknown, so those drawings are left out rather than
invented; the state machines of those apps (their keys) are in the library. The glyphs
that use only plain rectangles (`ui::desktop`, `ui::icons::draw_house`) and the rounded
gradient box are here.
