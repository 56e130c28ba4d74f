# shared

Verified logic of the radar dashboard: a web server that hands a browser
client to the user, and a client that talks to the sensor board over
WebSockets.

- `src/cstr.rs` reads NUL-terminated strings (the endpoint paths and text
  fields the board's firmware defines) and builds the WebSocket addresses of
  the board's endpoints.
- `src/embedded.rs` maps a request path onto the web asset it names and builds
  the response that serves it, with the MIME type that `mime_guess` guesses.
- `src/frame_throttle.rs` keeps at most one camera frame in decoding; frames
  that arrive meanwhile are dropped.
- `src/radar_table.rs` holds the column titles of the radar target table.
- `app/main.rs` is the web server itself (axum, tokio), which reads the built
  client from the `web` directory (or the one `WEB_DIR` names).

Everything under `src/` is proved with Verus; `tests/` exercises it on
concrete values.
