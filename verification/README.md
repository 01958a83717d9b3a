# frameview_gui

An analyzer for NVIDIA FrameView capture logs: it reads a per-frame CSV log,
computes frame-time statistics and renders six charts (frame-time timeline,
performance report, frame-time histogram, GPU, CPU and latency monitors), as
PNG files and in an interactive viewer.

## Layout

- `src/` — the verified library (Verus):
  - `view.rs` — the six charts: titles, slugs, numbers, output file names.
  - `text.rs` — Unicode whitespace trimming, decimal parsing and printing.
  - `columns.rs` — resolving the log's header into column positions (GPU and
    per-core columns included), refusing files that are not per-frame logs,
    and picking the trimmed cells of a record.
  - `log.rs` — loading a capture log from its CSV text (the CSV syntax is read
    by the `csv` crate): header resolution, then the cells of every record.
  - `cli.rs` — command-line options and what the program does after exporting.
  - `menu.rs` — the terminal menu's decision for a typed line.
  - `layout.rs` — canvas sizes, panel options, per-core series count.
  - `histogram.rs` — tallying frames into histogram bins, finding the peak bin.
- `app/` — the program around it: reading the file, the floating-point
  sample model and statistics, chart drawing with `plotters`, the `eframe`
  viewer and the `rfd` file dialog.
- `tests/` — tests of the library on concrete inputs.
