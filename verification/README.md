# rust_labs

A verified library for a handful of small Rust programs: an HTTP demo with
request counters, a websocket chat server and session, a WebRTC signalling
server, a cubic Bézier triangle and a date reader.

- `src/` holds the logic, proved with Verus:
  - `request_counter`: counters, their replies and decimal rendering;
  - `chat_server`: the session registry (fresh random ids, unregister, listing);
  - `chat_session`: what a session does with each websocket event;
  - `webrtc_model`: chunks, the connection table and the reaction to ICE states;
  - `bezier`: the barycentric sample grid in tenths and the Bernstein weights;
  - `date_capture`: the year of a `YYYY-MM-DD` date, found with `regex`.
- `tests/` runs the library on concrete values.
- `app/` holds the programs themselves (servers, actors, threads, windows),
  which call into the library; run one with its name as the first argument.

Notes:

- `WsChatServer::register` draws random ids until one is free, at most 64 of
  them; the id is then `choose_id` of the draws: the free draw, or, if every
  draw was taken, the smallest free id, chosen deterministically. The cap
  keeps the loop bounded (a verified loop must terminate); reaching it is
  practically impossible.
- `app/bezier.rs` draws with `speedy2d`, which is not among the dependencies:
  its windowing stack made the dependency set too large, so that one part of
  `app/` does not build.
