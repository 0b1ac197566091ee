# SDSC Utils

Battery levels, lightbars, a start screen and key macros for DualSense controllers.

`src/` is the library: the rules of the program as verified Verus code. It reads and writes
nothing by itself. What comes from a device, a file or the desktop is an argument; what is to be
done there is a result.

- `controller`: reports of the pads, their identities, batteries and lightbars, and the thread
  that owns them
- `analytics`: learned charge and play times, and estimates from them
- `notify`, `prefs`, `gesture`: notifications, settings, and the chord that opens the start screen
- `games`: the catalog, and the macro language with its library and its runner
- `launch`, `process_match`, `win_path`: starting games and finding their processes
- `platform`, `crash_restart`: paths, log lines, autostart, icons, and the restart budget
- `app`: the program as state and effects: polling, the pads, windows, toasts and the start screen
- `text`, `text_map`: texts, and maps keyed by them

Facts that hold across functions stand as proof functions whose names begin with `law_`.

`app/` is the program around the library: HID, files, logs, threads and the desktop.
`tests/` runs the library on concrete values.
