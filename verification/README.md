# fm-synth

An offline 4-operator FM synthesizer that renders presets to mono WAV files
and writes spectrogram reports, split into a verified library and a thin
command line.

`src/` is the library, verified with Verus:

- `algorithm` — the eight 4-op algorithms: numbering, names, parsing, and the
  operator wiring (who modulates whom, which operators are heard).
- `layers` — `--layers` parsing, which extra voices a preset gets, and the
  offsets a layered render reports.
- `preset` — the factory bank, how a preset name resolves (file, factory id,
  file under `presets/`), preset checks, and the name a render is saved under.
- `wav` — export settings, WAV header checks, PCM sizes.
- `analyze` — STFT layout, category hints, report paths, batch outcomes.
- `raster` — pixels, boxes and Bresenham lines on the spectrogram canvas.
- `spectrogram` — the canvas encoded as PNG bytes with the `png` crate.
- `patch`, `render`, `paths`, `text`, `error` — patch enums, output paths,
  path helpers around `std::path`, text helpers, and the error type.

`app/` is the `fm-synth` command: argument parsing, file I/O, TOML and JSON,
the floating-point engine (operators, envelopes, filter, voice, and the
noise, effects and vocal units), FFT analysis and the drawing of the
spectrogram panels.

`tests/` exercises the library on concrete values.
