# wprs

The verified core of wprs, which shows the windows of one host on another. A server sends the state
of its surfaces and their pixels; clients show them in windows of their own, in a terminal, or in a
web browser, and send back what the user does.

- `src/` is the library. Everything in it is verified with Verus: the wire format, the codecs, the
  endpoints and their texts, what a client knows of a server's windows, and what each backend makes
  of that. It opens no sockets and no windows.
- `app/` is the program around the library: sockets, processes, windows and the GPU. It computes
  what needs floating-point numbers. The bridge to remote desktop clients (`app/rdp.rs`) is an
  optional part of it.
- `tests/` runs the library on concrete values.

The image codecs, JSON texts and the names of cursors come from other crates. What the proofs rest
on there is stated in `src/protocols/image/codecs.rs`, `src/utils/json.rs`, `src/utils/text.rs` and
`src/client/backends/winit_wgpu/input.rs`.

Times are numbers of a clock that the caller chooses. Positions and scales that are not integers are
kept by their bits. Pixels are bytes in the order blue, green, red, alpha unless a name says
otherwise.
