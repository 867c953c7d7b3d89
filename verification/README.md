# wellbeing_gui

The desktop client of the Digital Wellbeing daemon: a dashboard of today's
screen time (pies, top applications and titles, blocked applications, the
day timeline with its hourly breakdown) and the policy editor.

- `src/` is the verified library (Verus). It holds the data model and the
  decisions of the client: the day timeline and hourly buckets, the view
  models, the policy editor's rules and its save/delete steps, the client
  cache, signal coalescing, daemon bus resolution and the background flows'
  state machines. Drawing the screens is not part of it. Calendar
  arithmetic is done by `chrono` behind trusted wrappers in `src/clock.rs`.
- `app/` is the program around it: D-Bus transport (`zbus`), the async
  runtime (`tokio`), logging, and the loops that perform what the library's
  flows decide. It shows the screens as text in the log.
- `tests/` exercise the library on concrete values.
