# cinematography-ir

A layered intermediate representation for cinematography planning, with its
static checks, edit-order rules, sampling and text rules written in Verus and
proved against their specifications.

## Layout

- `src/` — the verified library.
  - `model` — the document: scenes, subjects, axes, blocking, beats, shots,
    takes, edit clips, camera programs. Real numbers are held by their class
    (`Num`: NaN, infinite, below −1, −1, negative fraction, 0, …), which is
    all the checks read of them.
  - `validate`, `timeline`, `analyze` — structural, reference, numeric,
    edit-timeline and continuity checks; every report is specified exactly,
    diagnostic by diagnostic.
  - `order` — edit order (a stable sort by frame range) and its uniqueness.
  - `compiled` — phases, implied phrases and prohibitions, edit relations,
    edit-clip resolution and operation slicing.
  - `sample` — which frames of a timeline become view panels.
  - `emit`, `prompt` — prompt dialects and the shot prompt text.
  - `palette`, `hash` — deterministic subject colours and stable hashes.
  - `grid` — the character raster of the ASCII encoding: Bresenham lines,
    outlines, fills and text in cell coordinates, and its plain-text form.
  - `blender` — the Blender adapter's own rules: options, frame ranges,
    the checks before staging and rendering, and the sidecar records.
  - `view`, `execute`, `compare`, `args`, `report`, `names` — vocabularies,
    parsers and the exact text of reports and summaries.
- `tests/` — tests of the library on concrete values.
- `app/` — the `cine-ir` command line: reading YAML/JSON documents, turning
  them into the library's model, and printing what the library computes
  (`validate`, `analyze`, `inspect`, `normalize`).

What depends on floating-point geometry (solving camera paths, projecting
subjects, rendering panels, measuring generated video) is not part of the
library; where the library needs a measured value (the printed azimuth
change of a cut, the wording of a camera move) it takes it as an argument.
