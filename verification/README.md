# skry

Mirror an Android screen on the PC with low latency, from the terminal.

The phone captures and encodes its screen; the PC receives the stream over
the adb tunnel, decodes it and paints it in a window.

## Layout

- `src/` is the library, written in Verus: every function carries a
  contract and is proved against it.
  - `wire`, `handshake`, `video`, `control`, `codec`, `gear`, `stream`,
    `error`: the binary protocol between client and server (big-endian), with
    its round-trip and truncation laws.
  - `text`, `model`, `parse`, `wireless`, `adb`, `adb_error`, `messages`:
    reading what `adb` prints, choosing the target device, the commands every
    target runs and the messages shown to the user.
  - `layout`, `ui`, `clock`, `pipeline`: the geometry of the render window,
    the decisions of its event loop, presentation times and the decisions of
    the streaming pipeline.
- `app/` is the program around it: the command line, the `adb` processes,
  the socket, the threads, FFmpeg decoding and the SDL2 window. Started as
  `transport-spike`, the same binary dumps the raw stream instead.
- `tests/` runs the library on concrete values.
