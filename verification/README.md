# cellular_automata

The logic of a small program that runs cellular automata on the GPU: rock paper
scissors, and life.

- `src/` is the library. All of it is verified with Verus.
  - `board`: boards, how their cells are numbered, and the boards games start with.
  - `stroke`: the cells that a brush covers when it is dragged.
  - `brush`: edits, strokes, the undo history, and the batches sent to the device.
  - `undo`: why painting can be taken back, from the bytes that are read back on.
  - `packing`: words as the bytes of the device's buffers, in a given byte order.
  - `bindings`, `rps`: the device's buffers, and the two boards that take turns.
  - `simulation`, `pacing`, `painting`, `panel`: a game, when its steps are due, what
    the brush does to it, and what the panel does to it.
  - `navigation`, `events`: keys, and what the window does about its events.
  - `startup`, `text`: the command line, and numbers as text.
  - `stats`, `surface`: frame counts, and the choice of a device and a surface.
- `tests/` runs the library on chosen values.
- `app/` is the program around it: the window, the panel, the device, and everything
  in floating point. It reads the device's programs (`rps.wgsl`, `life.wgsl`,
  `rps_render.wgsl`, `brush.wgsl`) from the directory that `CELLULAR_AUTOMATA_SHADERS`
  names, or from `shaders`.

The library trusts three calls without proof: `bytemuck::cast_slice` and
`bytemuck::pod_collect_to_vec` in `packing`, and the `Debug` format of a `str` in `text`.
