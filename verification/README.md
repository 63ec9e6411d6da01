# bloop

A terminal client for a BlueBubbles iMessage relay server, whose core is
verified with Verus.

- `src/` is the verified library: the client's state and the decisions it
  takes (keys, pastes, server answers, timers, notifications, drafts, the
  file chooser, the emoji picker, chat search, the first screen), the REST
  endpoints' URLs and the checking of replies, the text helpers, and what the
  screen shows where (compose box, message rows and window, chat rows, status
  bar, notification boxes, the login form's masked password and cursor). Each public function states
  its result in its `ensures`; the `law_*` proof functions state what holds
  across calls.
- `app/` is the program around it: the terminal, HTTP, JSON, files, clocks,
  the local time zone, whether a path is absolute on this platform, and
  drawing. It hands the library plain values and carries out what the library
  asks for.
- `tests/` runs the library on concrete inputs.
