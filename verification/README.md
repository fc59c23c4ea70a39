# kintaro

The verified core of kintaro, an audiovisualizer that renders compositions
as audio and as streams of shapes, colours and text on the GPU.

- `src/` is the library, checked by Verus: mixing of 8-bit waveforms,
  hex colour parsing and palettes (`hex`, `indexmap`, `rand`, `regex` are
  called behind small trusted wrappers), frame clocks, the default frame
  passes, the layout of instance records and of the legend of named
  palettes, the decisions of the control windows and of the window's event
  loop.
- `tests/` runs the library on concrete values.
- `app/` holds what Verus does not take: float colours, clock readings and
  legend positions for the renderer, and writing rendered audio to disk.
