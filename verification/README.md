# vvd-screen

Live screen stream for the Vega Virtual Device over localhost: the emulator's
gRPC screenshots, encoded as JPEG and served as MJPEG.

`src/` is the library, verified with Verus. It decides; it does no I/O.

- `bringup`: attach to a gRPC server, or relaunch the emulator with gRPC enabled
- `vvd`: reading the output of the device's commands, and the launcher's arguments
- `discovery`: the emulator's discovery files and the token they name
- `poll`: waiting with a deadline
- `capture`: connecting, receiving, encoding, publishing, and backing off
- `server`, `page`: what the HTTP server answers
- `config`, `clock`, `text`: options, time, and text
- `outside`: what is taken from other crates, and what is claimed of it

`app/` performs what the library asks for: sockets, processes, files, HTTP.
`tests/` runs the library on concrete values.
