# reflect_core

The rules of Reflect, a tray-only desktop journal that nudges you once a day
and keeps one plain text file per day you write, verified with Verus.

- `src/` is the library. Its logic is verified; the handful of calls into
  `chrono` (and the one into std that builds a `String` from characters) sit
  in small trusted wrappers whose contracts state what those functions
  document, and are not themselves proved:
  - `calendar`: days, times of day and wall-clock moments as plain numbers,
    and the calls into `chrono` that write them out and read them back;
  - `schedule`: when the daily reminder is due, catch-ups included, and the
    record of the last one delivered, and what moving the daily time does to it;
  - `settings`: the settings file, read line by line: the daily time, the
    prompt switch and the start-at-login switch;
  - `entries`: what a day's file is called and holds, and which files are days;
  - `notes`: the notes page's save decision;
  - `autostart`: what the start-at-login entry needs, given what is wanted
    and what is registered;
  - `prompts`, `tray_menu`, `notification`: the words Reflect shows;
  - `text`: trimming, case folding and splitting over characters.
- `app/` is the Tauri shell around it: windows, tray, notifications, the
  reminder thread, and the file reads and writes the library asks for.
- `tests/` exercises the library with the real `chrono` linked.
