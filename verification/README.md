# renet2

Networking for games: a message server over pluggable transports, and the sockets it can run on.
The library in `src/` is written in Verus, and its contracts are proved.

- `server` is the message server: who is connected, who may connect, what is sent and received, and
  what happened to whom. `connection` says what it needs from a transport and from connections,
  `recorded` makes those of any implementation, and `control` holds the allow list and the deny
  list. `plugin` is what a server does in every frame.
- `channel` turns the channels of a replication layer into channel configurations.
- `memory_socket` has sockets within one process, and `memory_queue` the queues between them.
- `web_server` and `client_table` are the book-keeping of servers whose clients come through the
  web: pending clients, active clients, and client ids that newcomers take over. `web_transport` and
  `web_socket` are the two servers, and `web_socket_client` is a client.
- `request` and `percent` carry connection requests inside web addresses.
- `destination`, `web_url` and `cert` say where a server is and prove that it is the one.
- `ends` has the ends of channels and tasks, each with an account of what was handed over and what
  came back. Only the functions there that call into other crates add to an account, so a contract
  that speaks of it says which calls were made, whatever the other side did.
- `addr` and `error` are addresses and errors, `channels`, `packet_bytes`, `collections` and
  `slices` are what the rest stands on.

What depends on other crates is behind small functions marked `external_body`, each with what it
claims of the function that it calls.

`app/` is ordinary Rust around the library: UDP sockets, the tasks of the web servers on tokio, the
client in a browser, files, and plugins for bevy. `tests/` has the tests.
