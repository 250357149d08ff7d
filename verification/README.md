# meeting_minutes_automator

The recording side of a meeting transcriber: it captures audio from one or
two input devices, mixes and buffers it, streams it to a speech-recognition
sidecar over a line-based JSON protocol, and forwards the transcripts to the
user interface and a browser extension.

## Layout

- `src/` — the library, verified with Verus. It holds the rules of the
  application: audio buffering and mixing bookkeeping, the ring buffer, the
  protocol version negotiation, the reconnection state machine, device
  selection and validation, multi-input settings, session storage layout
  and WAV encoding, log masking, and the decisions taken on each sidecar and
  device event. Calls into outside crates (ring buffer, UUID, SHA-256,
  hexadecimal encoding, path joining) stand behind small trusted wrappers
  whose contracts are documented where they are declared.
- `app/` — the program around the library: process and pipe handling, the
  WebSocket server, file I/O, threads and async tasks, floating-point signal
  processing, and the burn-in harness (`burn-in` as first argument). It asks
  the library what to do and performs the I/O.
- `tests/` — tests of the library's public functions.
