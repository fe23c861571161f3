# Drumlin

A drum machine plugin whose decisions are verified with Verus.

- `src/` is the verified library. It holds the generative digs and their
  terrains, factory kits and worlds, recall, presets and kit files, MIDI export
  and MIDI learn, undo and A/B registers, the editor's actions, what a block of
  audio makes the machine do, and the state machines, settings and memories of
  the signal processing.
- `app/` is the plugin around it: the host's callbacks, the window, files, and
  all floating-point arithmetic.
- `tests/` runs the library, with the arithmetic it needs written beside it.

Floating-point values cross the library as `Ieee32`, which holds the bits of an
`f32` and orders, clamps and guards them as `f32` does. What needs arithmetic on
them is computed outside and handed in.

Contracts speak of sequences and plain integers. Properties that span several
functions are public proof functions, named after what they state.
