# lumen

The logic of a small voice and chat client, verified with Verus.

`src/` is the library. Every function states what it returns or changes, and Verus
proves it, but for the calls into other crates and into parts of the standard
library that Verus has no specification of: their contracts are trusted, not proved.
They stand in `text`, `time`, `json`, `random` and `voice::suppressor`, each with a
comment that says what it claims of the function it calls.

- `time`, `text`, `strmap`, `json`, `random`: ISO 8601 times, text primitives, a map
  by text, and what is taken from the clock, the random generator and JSON answers.
- `protocol`, `event`: the data of the backend and the events of the client.
- `api`, `settings`, `auth`: requests and their answers, stored settings, and the
  session with its rotating tokens.
- `presence`, `state`: the presence socket, and what the shell shows.
- `voice`: signaling, the peers of a session, RTP, the jitter buffer, capture,
  playback, mixing, the send chain, and recordings.

The library makes no connection and opens no device. It decides: a caller performs
the action that a function asks for and hands back what came of it. Public proof
functions whose names start with `law_` state what holds across several of them.

`app/` is ordinary Rust around the library: HTTP, sockets, WebRTC, audio devices,
codecs, and signal processing in floating point.

`tests/` runs the library on concrete values.
