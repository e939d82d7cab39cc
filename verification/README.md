# svudko

The core of a local-network file exchange between devices: devices announce themselves
over mDNS, pair by accepting each other's certificate fingerprints, and send files over
QUIC.

- `src/` is the verified library (Verus): host names, addresses, the application core's
  state machine (`application::update` and `application::view`), the exchange protocol's
  framing and decisions, the client certificate check, and the decisions of the service
  discovery, exchange and storage resolvers.
- `app/` is the command-line shell around it: the mDNS daemon, the QUIC endpoint, the
  SQLite database, and the loop that feeds events to the core and carries out its effects.
- `tests/` runs the library on concrete values.
