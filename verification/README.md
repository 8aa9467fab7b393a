# easyp2p

Peer-to-peer connections over WebRTC data channels, set up through a small signaling server.

- `src/` is the library, written in Verus. It holds what the peers and the server decide and
  compute, with contracts that Verus proves: the text form of session descriptions, the event
  stream, the connection codes, the sessions that the server keeps, and the steps by which two
  peers connect. It does no I/O. What it takes from other crates stands behind a few functions
  whose contracts are stated and not proved; their doc comments say what they claim.
- `app/` carries out what the library asks for: the WebRTC calls, the HTTP requests, the server and
  the terminal. `easyp2p signaling` runs the server, `easyp2p` a chat.
- `tests/` runs the library.
