# Eternal Terminal

A remote shell whose session survives the loss of its connection.

`src/` is a library of state machines, verified with Verus. None of them does I/O: each says what
is to be read, written, opened, closed or waited for, and is told what came of it. The contracts
state every step exactly; the laws that hold across steps are public proof functions named
`law_...`.

| Modules | What they hold |
| --- | --- |
| `wire`, `decimal`, `text`, `table` | numbers as bytes, numbers as text, text, a table keyed by text |
| `error`, `logging` | errors and their texts, log levels |
| `crypto`, `packet` | sealed messages with one nonce each, packets |
| `backed_reader`, `backed_writer`, `connection`, `session`, `history` | a connection that recovers, and what it keeps across recoveries |
| `socket`, `tcp`, `proto` | transfers and messages, TCP sockets, protocol messages |
| `client_connection`, `terminal_client`, `port_forward`, `ssh_setup` | the client |
| `server_connection`, `terminal_server`, `user_terminal_handler` | the server |
| `console`, `pty`, `relay`, `terminal_info` | terminals |

`app/` is the program around the library: the client, the server (as `etserver`) and the terminal
helper (as `etterminal`), with the sockets, processes and protocol buffers that they need.
