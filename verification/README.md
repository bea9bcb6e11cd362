# Crimson

The sample-accurate core of Crimson, a stereo vocal chorus plugin, written
in Verus.

- `src/delay_line.rs`: the per-channel circular delay line (write at the
  head, four interpolation taps, advance with wrap-around, reset), with
  its abstract model and the laws of what a read gives back.
- `src/layout.rs`: voices per bus layout and the delay-line length rule.
- `src/controls.rs`: the LFO shape type and what the editor's waveform
  buttons and knobs send to the host.
- `app/`: the nih-plug plugin and its egui editor; the floating-point
  signal path (LFO shapes, interpolation weights, filters) is there.
- `tests/`: executable tests of the library.
