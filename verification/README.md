# Codex Windows Taskbar

A widget on the Windows taskbar that shows how much of a Codex quota is left.

The rules of the widget are a library whose behaviour is stated in contracts and
proved with Verus. The program around it talks to Windows, to files and to the
network, and does what the library decides.

## The library, `src/`

- `text`, `clock`, `url`: texts, points in time, percent-encoding.
- `localization`, `models`: the texts of a language, and what a usage window is.
- `poller`: countdowns, usage lines, and when they change.
- `codex`, `wsl`: what is sent to the usage service and to Linux distributions,
  and what their answers mean.
- `flow`: the order in which a poll asks for credentials and usage.
- `layout`, `paint`, `draw`, `compact`: where things stand in the widget, their
  colours, and what is drawn.
- `position`, `taskbar`: where the widget stands, how it is dragged, and how it
  stays attached to the taskbar.
- `state`: the state of the widget, and how polls and timers change it.
- `tooltip`, `window`, `startup`: the tooltip, the messages and the menu of the
  window, and the start at login.

Functions whose names start with `law_` state what holds of several functions
together.

A double is never held by the library. Where a percentage counts, the library
holds its place among all doubles; `app/percent.rs` converts.

## The program, `app/`

It runs on Windows 10 and Windows 11 and needs Codex to be installed and
authenticated. With `--diagnose` it writes `%TEMP%\codex-windows-taskbar.log`.
Its settings are in `%APPDATA%\CodexWindowsTaskbar\settings.json`.
