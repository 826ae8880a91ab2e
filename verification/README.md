# inm

A manager for Incus virtual machines. Every console that is opened is a tab of
one window; consoles in the background stay connected, so that going back to one
is instant.

The library under `src/` holds the rules of the program, with contracts that
Verus proves:

- `incus` and `incus_remote`: the daemon's requests and replies, and the choice
  of the daemon by the configuration of the `incus` command line tool;
- `spice_session`: a console's input, frames and end;
- `scancode`: keys, host layouts and mouse buttons;
- `manager`: the state of the window and everything that changes it;
- `input_source`, `theme`, `text`, `json`: what these need.

Whatever talks to the outside is under `app/`: the window (gpui), the SPICE
sessions (spice-gtk), the daemon's sockets (tokio, hyper, rustls) and the host's
keyboard. It hands events to the library and does what the library answers.

The trusted items, which Verus believes without proof, are the calls into
`serde_json`, `percent-encoding`, `rustls-pemfile` and a few functions of the
standard library. Each has a comment that says what is claimed of it.
