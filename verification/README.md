# clipboardwire

Clipboard synchronisation between machines, as a Verus library: the wire
protocol, the client that watches a clipboard and moves files, and the hub's
TLS certificate.

- `src/` is the library. Every function in it is verified against its contract;
  calls into other crates stand behind small wrappers whose contracts are
  believed, each documented where it stands.
  - `protocol`: frames, their validation, error and close codes.
  - `client/clipboard`: the clipboard loop and its echo suppression.
  - `client/frame`, `client/png`: clips as frames and back.
  - `client/file`: sending and receiving files in chunks.
  - `client/assembly`: what a file transfer comes to.
  - `client/names`: MIME types, safe and free file names.
  - `client/supervisor`: the bridge between clipboard and transport.
  - `server/pem`, `server/tls`: the hub's self-signed certificate.
  - `codec`, `digest`, `ident`, `path`, `text`: base64, SHA-256, UUIDs, paths
    and text.
- `tests/` runs the library on concrete values.
- `app/` is the ordinary Rust around it: the hub program, files, the operating
  system's clipboard, JSON and the network.

The library does no I/O. Its loops are machines that are told what happened and
answer what is to be done next; `app/` does it and reports back.
