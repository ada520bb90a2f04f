# challenges

The rules of the Bootstrap Academy challenges service as a library verified
with Verus: how answers to every kind of subtask are checked, what authored
content must satisfy, when hearts are charged and rewards paid, how
leaderboard ranks are assigned, how the coding judge turns a run into a
verdict and a message, and how moderation treats reports.

- `src/` is the library. Every function carries a contract that Verus
  proves; the public proof functions state the laws that hold across calls
  (for example that an author's answers solve their cloze, that a judged
  submission is recorded once, or that ranks follow scores).
- `src/text.rs` and `src/ids.rs` hold the text handling the checks share:
  Unicode whitespace, trimming, normal forms, decimal and UUID text.
- `tests/` runs the library on concrete values.
- `app/` is a small command line around the library: it reads JSON, calls
  the library and prints JSON (for instance the result of a judged solution
  from the step the sandbox reached), and holds the few computations that
  use floating point.

Identifiers are 128 bit numbers (the value of a UUID) and times are
microseconds since the Unix epoch.
