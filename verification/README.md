# lockrs

The decisions of a screen locker that renders with egui to an
`ext-session-lock-v1` lock screen, written in Verus with their contracts.

- `src/` is the verified library:
  - `session.rs`: the lock loop. What the actions asked for in a pass over the
    outputs mean, when a password check starts, when the lock ends, and the
    queue of surfaces to recreate, with the laws that hold across passes.
  - `state/mod.rs`: the session data (`Pam`), the checks made while setting up
    (globals, input devices of each seat), what a key or mouse button tells
    the ui, and the decisions of a frame (whether to render, what to do with
    the surface's texture).
  - `state/worker.rs`: the worker's events, the layout of a screenshot buffer
    and the conversion of a copied frame into RGBA pixels.
  - `widgets.rs`: where a password box puts its failure text, and what the
    uptime and network interface labels read from the commands behind them.
  - `utils/`: `Late` (a value filled in after its owner is built, with the
    law over a sequence of calls) and `Global`.
- `app/` holds the Wayland, wgpu, egui, PAM and thread work that drives the
  library: `App::init`, `App::ui`, the protocol handlers and the widgets.
- `tests/` runs the library on concrete values.
