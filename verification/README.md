# tinytun

Public URLs for services that run on a local machine. A server hands out names
and routes visitors; a client keeps one connection to the server open and serves
the streams that arrive through it.

- `src/` is the library: the decisions that the server and the client take,
  verified with Verus.
- `app/` is the program around it: sockets, HTTP, timers and the command line.
- `tests/` runs the library on concrete values.

| Module | What it decides |
| --- | --- |
| `tunnel`, `tunnel_id`, `name` | which names are taken, which tunnels are open |
| `session`, `laws` | what becomes of a tunnel until its end, and what always holds |
| `api`, `reply`, `headers` | how the server answers requests for tunnels |
| `proxy`, `proxy_protocol` | where visitors go |
| `dial`, `stream`, `peers` | how one stream is carried, here or by another server |
| `client`, `uri`, `reconnect`, `config` | how a client asks for a tunnel and keeps it up |
| `exchange` | what client and server make of each other's messages |
| `reverse_proxy` | how a request is passed on |
