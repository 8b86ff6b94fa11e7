# narisha

The decision logic of Narisha, a tiling window manager for the river
compositor, written in Verus and verified.

- `src/` is the library. The window manager's state holds windows, outputs and
  seats as plain values named by the protocol ids of their objects. Each
  compositor event is a call that changes the state; the manage and render
  sequences also append the requests to send back to the compositor to a list.
  Every public function's contract states its outcome exactly over the spec
  functions next to it; `src/laws.rs` proves properties that relate several
  operations.
- `app/` is the process around it: the wayland connection, the conversion of
  protocol events into library calls and of library requests into protocol
  requests, spawning programs, and reading the configuration file.
- `tests/` runs the library on concrete values.
