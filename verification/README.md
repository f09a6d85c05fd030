# Bloom relay

A relay that gives each installation a permanent public hostname and carries browser connections
to it through a tunnel, without ever holding a certificate key.

- `src/` is the library, verified with Verus: the wire protocol and its signatures, the control
  frames, the durable store and its transitions, the control service's handlers, enrollment,
  credentials, the gateway's routing tables and sessions, the ClientHello reader, ingress quotas,
  the plans for the DNS zones, what is concluded from DNS answers, certificate transparency, the
  restore witness, and the clients' side of all of it.
- `tests/` runs the library on values.
- `app/` is the program around it: sockets, TLS, HTTP, PostgreSQL, DNS lookups, provider calls,
  files, metrics and signals. It performs what the library decides and hands back what came of it.

## Reading the contracts

The store is a set of tables (`src/store/model.rs`). A transaction reads the rows that a step
works on into a `Store`, lets one function of the library change it, and writes the rows back.
Every function on it says what the store is afterwards, for every input. The laws that relate
several functions are public proof functions named `law_*`, next to the functions they speak of
and in `src/store/laws.rs`.

What the library takes from other crates stands behind small functions marked
`external_body`, each with the claim it makes: hashing, signatures and random bytes, the
encodings, canonical JSON, identifiers, the TLS ClientHello parser, URL parsing and wiped memory.

## Time

The library never reads a clock. Times are milliseconds since the Unix epoch; the gateway's
deadlines and quotas are nanoseconds of a monotonic clock.
