# bgxiong_clear_helper

A Windows C: drive cleaner (比格熊C盘清理助手): it scans well-known junk locations
(temporary files, the recycle bin, Explorer thumbnails, Prefetch, browser caches,
application caches and logs, orphaned registry entries), lets the user pick what to
delete, and deletes it, backing up registry entries first.

The decisions of the program live in `src/` and are verified with Verus:

- `models` — categories, items and results, with their labels and rules.
- `scanner` — what each category scans and how found files become items: the file,
  browser, application-data and registry scans are state machines that take in what a
  walk of the disk or the registry finds; `gather_results` orders the combined result.
- `cleaner` — a clean as a sequence of actions (backup, registry deletions, file
  deletions, emptying the recycle bin) driven by the outcome of each; the backup
  manifest and its encoding.
- `app` — the state of the window: selection, summaries, filters, the effect of a clean.
- `panel` — every text that the window shows.
- `order`, `text`, `tally`, `util` — path ordering, text handling, counting, sizes and
  environment expansion.
- `laws` — properties that span several functions.

`app/` is the program around the library: the egui window, the disk and registry
walks, the deletions and the calls into Windows.

The window in `app/` is drawn with eframe/egui; `Cargo.toml` lists only the crates
that the library and the walks need, so building the program takes adding `eframe`
under `[dependencies]`.
