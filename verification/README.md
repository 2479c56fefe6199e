# modbus-proxy-rs

A Modbus TCP reverse proxy. It lets many clients talk to devices that accept
one client, or few.

- `src/` holds the conversations of the proxy as verified Rust: frames, opening
  a backend connection, one request and its reply, the task of a device, the
  session of a client, and what is to be brought up for each device. A
  conversation is cut at each wait for the network: what is left to do is a
  value, and its `resume` takes what the wait gave.
- `app/` carries the conversations out over sockets, channels and timers, and
  logs them. It also reads the configuration file, accepts clients, and decides
  when the proxy shuts down.
- `tests/` plays conversations through with scripted networks.

What the proxy promises as a whole stands in `src/` as proof functions whose
names start with `law_`:

- reads take whole frames off a stream, lose nothing and make nothing up
  (`frame.rs`);
- a connection is used no sooner than the delay of its device (`dial.rs`,
  `exchange.rs`);
- a request is tried over the open connection and at most once more over a
  fresh one, and only a reply with its transaction ID is let through
  (`exchange.rs`);
- requests are served one by one, first come, first served, over one shared
  connection that is opened again after a failure (`task.rs`);
- a session announces its client, passes requests and replies on unaltered and
  takes its leave (`client.rs`);
- clients do not get each other's replies; a connection is open only while
  clients are there, and is kept until a request fails on it or the last client
  leaves, as long as there are never more clients at once than a 32-bit counter
  holds (`clients.rs`).
