# aurorawm

The window-management core of AuroraWM, a Wayland compositor, written in Verus.

`src/` is the verified library:

- `geometry` — integer rectangles, containment and overlap.
- `layout` — the dwindle, master, spiral, columns, grid and floating layouts,
  each specified exactly, including when its `i32` arithmetic stays in range.
- `fitting` — deciding that range condition at run time (`try_arrange`).
- `tiling` — proofs that tiled layouts keep every window inside the usable area
  without overlap, and the other layout properties.
- `config` — the configuration and its defaults.
- `input` — held keys, key names (xkb key codes), keybinding resolution and
  what a binding's command asks for (`close`, `quit`, `workspace N`,
  `move-to-workspace N`, `focus DIR`, `move DIR`, `fullscreen`, `floating`,
  `cycle-layout`; anything else runs in the shell).
- `output` — the known outputs by name.
- `state` — event-loop decisions: workspace switching, pointer dragging,
  animation targets and easing selection, the nearest window in a direction,
  the layout cycle and which windows are tiled.
- `utils`, `text` — color parsing and duration formatting.
- `laws` — properties that span several calls.

`app/` is the compositor program around it: smithay and Wayland plumbing,
configuration files, rendering, and the floating-point easing and frame timing.
