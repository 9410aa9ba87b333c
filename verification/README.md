# blueRat

blueRat is a keyboard-driven Bluetooth manager for the terminal. It wraps
`bluetoothctl` and `pactl`; there are no D-Bus bindings and no daemon.

## Layout

- `src/` is the decision core, verified with Verus. It reads what the tools
  print, decides what to ask them next, keeps the application's state and
  composes what is put on screen. It runs no process and touches no terminal.
  - `text`, `ansi`: strings as sequences of characters; escape sequences.
  - `shell`: a tool call's reply; an operation as a function of the replies so
    far.
  - `bt`: what `bluetoothctl` says: listings, device state, scan events, the
    picker's rows, the ranking of addresses, pairing sessions.
  - `audio`: what `pactl` says: routing, profiles.
  - `diag`: the report on why no sound comes out of a connected device.
  - `worker`: each command as a conversation of actions and events.
  - `app`: the state, and what keys and messages do to it.
  - `ui`: texts, styles, sizes and areas.
- `app/` is the program around it: processes, threads, the terminal.
- `tests/` exercises the core.

Each function's contract is stated over a model of its data (`DeviceModel`,
`AppModel`, `TaskModel` and so on). What holds of several functions together
stands as public proof functions, in `laws` modules or at the end of a file.

What is believed without proof: the few functions of the standard library and of
ratatui that carry a contract without a body here, each with a comment that says
what is claimed of it.
