# bacnet_sim

A BACnet device simulator whose protocol core is verified with Verus.

- `src/` — the verified library: the wire codecs (MS/TP frames with their
  CRCs, BVLL, NPDU, BACnet/SC, application tags and APDUs), the object
  model with its property read/write rules, the sharded object store, the
  service handlers and dispatcher of a simulated device, the NPDU router,
  the decisions of the transports (MS/TP token passing, BACnet/IP datagram
  handling, the BACnet/SC handshake and hub routing), the schedule and
  alarm logic, the COV subscription table, building a simulation from its configuration, and the
  request parsing of the management API.  Every public function carries a
  contract; the laws of the library (codec round trips, read-after-write,
  store counts, token circulation, ...) are public proof functions.
- `tests/` — executable tests of the library.
- `app/` — the program around it: configuration parsing, the tokio tasks
  that run sockets, channels and WebSockets, the HTTP API, metrics,
  scripting and value models.
