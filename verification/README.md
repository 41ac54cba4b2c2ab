# Toucan Camera Server

A REST API for cameras: list them, connect to them, read their settings, take photos and watch
their live view as an MJPEG stream. The decisions are a library that is verified with Verus; what
talks to cameras and to the network is ordinary Rust around it.

## Layout

- `src/` is the library. Every function states what it does, and Verus proves it.
  - `camera/` holds device identifiers, the types that all backends share, and the DirectShow and
    Media Foundation cameras that are known by their place in a list.
  - `backends/` holds Canon EOS cameras and the webcams of macOS and Windows.
  - `native/` takes single photos without a session.
  - `server.rs` decides who is let in and which device a request is for.
  - `jpeg.rs`, `base64url.rs`, `text.rs`, `order.rs`, `packed.rs` and `sessions.rs` are what the
    others are built on.
- `app/` makes the calls: axum in front, the camera SDKs behind. The SDK threads and the COM
  objects live there. The library tells them what to call next and is told what came of it.
- `tests/` runs the library.

## Authentication

Every request must present a token, in the header `Authorization: Bearer <token>` or in the query
parameter `token`. All others are answered with 403. The token is given with `--token <token>`, or
a random one is made; the server prints its URL with the token when it starts.
