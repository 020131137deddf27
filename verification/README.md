# ardl_socket

Sockets for reliable streams over UDP. Many streams share one UDP socket: every
datagram starts with the 32-bit ID of its stream, and a listener keeps a session
for each ID. The reliability layer itself (`ardl`) decides what the packets
hold; this project carries them between the layer and the sockets.

- `src/` is the library, verified with Verus. It holds the frame header
  (`protocol`), the listener's table of sessions and the connecting side
  (`sockets`), the uploading and downloading tasks of a stream (`streams`), the
  variant with one stream per peer address (`listener`, `stream`), what the
  client programs keep track of (`transfer`), and buffers, addresses, channels
  and time (`utils`). The tasks are state machines: an event goes in, and the
  action to perform comes out.
- `tests/` runs the library.
- `app/` is the runtime around it: the Tokio tasks that perform the actions and
  report the events, the sockets, and the programs.

Proof functions named `law_..` state what holds of the library as a whole.
