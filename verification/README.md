# matrix_commander_ng

A command line client for [Matrix](https://matrix.org): it sends and receives messages and files,
and works on rooms, devices and the own account.

The project has two parts.

- `src/` is the library: what the program decides, completes, checks and prints, as functions from
  plain values to plain values. Each function has a contract, and Verus proves it. Laws that span
  several functions are the public proof functions whose names begin with `law_`.
- `app/` is the program around it: the command line, files, the terminal and the requests to the
  server. It hands values to the library and prints the texts that come back.

Where many requests are made one after the other, the library holds a state machine that says
which request comes next: `Batch` for operations on rooms and users, `Delivery` for messages,
files and events, `Tail` for the last messages of rooms, `Worklist` for other lists of items, and
`plan` with `RunState` for the run as a whole.

What the library has from other crates (identifiers of Matrix, Markdown, JSON, dates, media types,
emojis, regular expressions, URLs) is called in small functions marked `external_body`. Their doc
comments say what is relied on.

`tests/` runs the library on concrete values.
