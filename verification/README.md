# quote_displayer

The verified core of a desktop app that pops up a quote now and then.

`src/` is the library, checked by Verus:

- `models` – quotes, categories, settings, schedule rules, counters, defaults.
- `state` – the whole state, rebuilt from what was saved (counters of an
  earlier day start again at zero).
- `store` – adding, updating and deleting quotes and categories.
- `selection` – picking the next quote: uniformly among the active quotes, or
  weighted by `1 / (shows + 1)` (64-bit fixed point).
- `popup` – the quote waiting for the next popup window.
- `schedule` – pause, quiet hours, daily limit and the schedule rules.
- `keyboard` – hotkey strings such as `Ctrl+Win+Q`, key presses, clipboard
  collection.
- `tray` – tooltip text and menu commands.
- `text` – trimming, splitting, decimal parsing and printing.
- `random` – the one source of chance (`rand`).
- `laws` – properties that span several operations.

`app/` is the desktop shell (tauri windows and tray, JSON files, threads, the
Windows keyboard hook); it calls the library for every decision.
