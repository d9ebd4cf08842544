# wfinfo

Shows the prices of Warframe relic rewards in an overlay on top of the game.

`src/` is the verified library (Verus):

- `text` — character-level substring search.
- `triggers` — when a detection is requested: log lines that mark the reward screen, hotkey presses.
- `detection` — the best reward of a screen (largest score in `f32::total_cmp` order, the last of equal ones) and what the overlay shows of each reward.
- `overlay` — the overlay's state from frame to frame: which result is shown, for how long, and what each frame does.
- `window` — choosing the game's window among the desktop's windows.

`app/` is the program around it: command line, log and hotkey watchers, screen capture and text recognition, the egui overlay.
