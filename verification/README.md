# MH Monitoring

An overlay for Windows that shows the readings of the graphics card, the processor, the memory and
the frames of the game in front, with a service that reads them, an installer, and a tool that
times the frames of any program from the events of the system.

## Layout

- `src/` is the library `mh_monitoring`: everything that is decided or computed. Each function
  states what it returns, and Verus proves it.
  - the settings: `settings`, `blocks`, `units`, `placement`, `names`; their file: `json`, `schema`,
    `saved`, `settings_file`, `same`, `alike`;
  - the overlay: `snapshot`, `format`, `theme`, `hud`, `strip`, `chart`, `preview`, `overlay`,
    `tasks`, `controls`, `games`;
  - the windows: `items`, `pages`, `settings_window`, `setup_window`;
  - the installation and the service: `installer`, `service`, `backend`, `remote`, `modes`,
    `resources`, `diag`;
  - the frame tool: `cli`, `etw`, `sys`, `procs`, `collect`, `table`, `ranking`, `stats`,
    `measure`; the presenter it is tried on: `probe`;
  - what they rest on: `text`, `number`, `grid`, `paths`.
- `app/` is the program: windows, drawing, files, the registry, threads and the system. It asks the
  library what to do and does it.
- `tests/` run the compiled library.

## Numbers with a fraction

The library holds them as their bits (`number::Single`, `number::Double`) and proves what it needs
of them: what is finite, how they compare, how they are narrowed, widened and set on a grid. Their
digits are printed in `app/`.

## What is not proved

The library believes what it says of `serde_json` (reading a text into a tree), of `global_hotkey`
(the number of a hotkey) and of a few functions of the standard library on characters. Each of
these is marked in the source, with a comment that says what is claimed.
