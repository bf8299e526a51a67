# felx

The core of a GPU video compositor: the project model, effect parameters,
media bookkeeping, the editor's state, and the command line, written in Verus.
Every function of the library is verified against its contract.

## Layout

- `src/` — the verified library.
  - `model/` — projects, compositions, layers, masks, curves, time, and what is
    done around loading and saving.
  - `params/` — effect manifests, parameter values, presets.
  - `media/` — decoding and encoding steps, sample formats, WAV files,
    waveforms, mixing positions, audio/video sync, the asset library, and the
    settings of the analog signal effect.
  - `studio/` — the editor: playback, panels, graph editor, files, exports,
    render queue, autosave, settings, hot reload.
  - `cli.rs` — arguments of `felx render`.
  - `scalar.rs`, `text.rs`, `paths.rs`, `bytes.rs`, `seqs.rs`, `clock.rs` — what
    the others are built from.
- `tests/` — tests of the library.
- `app/` — the programs around it: window, FFmpeg, sound output, files,
  graphics. Floating-point arithmetic is done there; the library holds 32-bit
  floating-point numbers by their bits (`Scalar`).

Time arithmetic works through pairs of integers: sampling curves, advancing the
playhead and computing media offsets are exact up to one rounding, so long
timelines do not accumulate drift. A denominator of 0 gives what the division
of floating-point numbers gives: more than can be counted, or no number.

Paths are texts with `/` between their parts, as on Unix.

## Trusted

The library relies on a few functions of the standard library without proof:
the clocks (`clock.rs`), `String::push` (`text.rs`) and `str::to_lowercase`
(`studio/settings.rs`). Each is declared where it is used, with what is claimed
of it.
