# padre

PADRE lets Vim drive a debugger (LLDB, PDB or Node's inspector) over a
socket. This crate holds its verified core, written in Verus:

- `src/vimcodec.rs`, `src/request.rs`, `src/json.rs`: the wire protocol
  spoken with Vim and the JSON values it carries.
- `src/config.rs`, `src/server.rs`: per-connection settings and the answers
  to requests.
- `src/lldb.rs`, `src/lldb_command.rs`, `src/lldb_events.rs`, `src/lldb_signals.rs`: reading
  LLDB's output and the commands sent to it.
- `src/pdb.rs`, `src/pdb_handler.rs`, `src/pdb_listeners.rs`, `src/python.rs`: the
  same for PDB.
- `src/node.rs`: Node's inspector messages; `src/dlv.rs`: Delve's output.
- `src/notify.rs`, `src/notifier.rs`: events told to every connection.

`app/` is the program around it: arguments, sockets, processes and
websockets, handing plain values to the library and acting on what it
returns.
