# sutty

A PuTTY-like SSH client. The library in `src/` holds its logic, verified
with Verus; `app/` is the program around it (terminal and graphical front
ends, the SSH connection, reading and writing the sessions file).

Modules of the library:

- `config` — saved sessions, the sealed password, and the store of sessions
  keyed by name (find, upsert, delete, touch), with the laws that relate them.
- `crypto` — sealing passwords with AES-256-GCM under a SHA-256-derived key,
  stored as base64 of nonce and ciphertext.
- `text` — decimal rendering and `u16` parsing (with the error kinds of
  `str::parse`), string search and small string helpers.
- `tui` — the connection dialog: its state, key handling, saving, loading
  and deleting sessions.
- `gui` — the graphical client's state: the form, connecting, remote events,
  automatic reconnection, saved sessions.
- `keys` — key presses of both front ends as the bytes sent over SSH.
- `cli` — where the command line says to connect.
- `term`, `color` — laying out a terminal row into coloured runs.
- `icon` — decoding the largest 32-bit image of an ICO file.
- `ssh` — the events a remote session reports.

The trusted items, whose contracts Verus takes on faith, are the wrappers
around outside calls: `aes-gcm` (encrypt, decrypt), `sha2` (digest), `base64`
(encode, decode), `rand` (the operating system's generator) and `whoami` (the
local user name), together with the std calls `String::from_utf8`,
`String::push` and `String::pop`.

`tests/` runs the library on concrete values.
