# webshooter

A desktop that is used in the browser: a server captures the screen, encodes it and sends it
over WebTransport; the page decodes it and sends the keyboard, the mouse and the touches back.

- `src/` is the library: the logic of the server, of the page and of the messages between them,
  verified with Verus.
  - `shared/` holds the wire format: the messages of both sides, codecs, log levels and the
    cutting of frames into datagrams.
  - `server/` holds logging in, the commands to a running server, the configuration, the search
    for the graphical session, the course of a capture and the way of input events.
  - `web/` holds what the page does: putting frames and packets together, touch slots, the
    capture of the mouse, gamepads, the time of audio packets and the log.
- `app/` is the program around it: HTTP, WebTransport, the portal, PipeWire, GStreamer and the
  browser's objects. It waits, reads and sends, and asks the library what to do; what it
  computes itself is arithmetic on floating-point numbers.
- `tests/` runs the library on concrete values.
