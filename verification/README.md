# ashuffle

Keeps the queue of a music player daemon (MPD) going with songs picked at
random, never repeating a song within a window of recent picks, and leaving
out songs that match the user's exclude rules.

Layout:

- `src/` — the library, verified with Verus:
  - `list.rs` — a singly linked list of owned nodes;
  - `cstr.rs` — case-insensitive comparison and search on bytes, and the
    reading of unsigned decimal numbers, as the C library does them;
  - `mpd.rs` — the daemon's protocol numbers and plain-value songs,
    statuses and host settings;
  - `rule.rs` — exclude rules on song tags;
  - `shuffle.rs` — the shuffle chain (window and pool) and its laws;
  - `args.rs` — the command-line state machine;
  - `ashuffle.rs` — the client's decisions: building the song pool,
    keeping the queue filled, idle events, passwords, the host setting.
- `app/` — the program: command line, files, terminal, random numbers and
  the daemon's C client library.
- `tests/` — tests of the library on concrete values.
