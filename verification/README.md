# Backflow

Backflow is an input router and message broker. Clients (web pages, plugins, other processes) send
input packets and feedback packets; Backflow remaps the keys of each device, routes the events to
outputs such as `uinput` or `chuniio`, and mirrors packets to the clients that follow an output or a
device.

## Layout

- `src/` is the library. It holds everything that Backflow decides, and its functions are verified
  with [Verus](https://github.com/verus-lang/verus), apart from the four wrappers named below.
  - `text`, `table`, `json` and `environment` are the basics: texts, tables by name, JSON of plain
    values, and what is asked of the machine.
  - `config` is the configuration, its defaults, and the form of key remappings in a file.
  - `device_filter` has key expressions and the filter that remaps the keys of a device.
  - `backend` decides which output an event goes to, parts packets by output, and plans the services
    of a configuration.
  - `input::io_server` is the hub: what each client is subscribed to, and who gets a packet.
  - `input::transport`, `input::unix_socket` and `input::web` decide what the transports do with a
    message.
  - `input::atomic` keeps the packets of a source in order.
  - `output::chuniio_proxy` and `protos::chuniio` are the virtual CHUNITHM controller.
  - `error` has the errors and the forms in which clients see them.
- `app/` is the daemon around it: sockets, channels, files and the wire formats.
- `tests/` are the tests of the library.

## What is trusted

Four wrappers call other crates: two ask `serde_json` for the JSON of a string and of a list of
strings, one asks `nix` for the effective user, and one asks `dirs` for the configuration directory
of the user. They say what is taken for granted of these calls.
