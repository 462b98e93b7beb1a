# smesh_authority

The decisions of a durable task authority and of its signed push callbacks, as a
verified library.

- `src/` holds the rules: which requests are admitted, continued, replayed or
  cancelled, what each charges against its quotas, how dispatches are leased,
  retried, delivered and dead-lettered, how transcripts and listings are sealed and
  read back, how an authority opens and how it is operated offline, and how a
  callback destination is checked, signed for and answered. Every function there
  carries a contract that Verus proves. The calls into other crates (digests,
  base64, URL and PEM parsing, the reading of database URLs, dates, JSON and the
  protocol's messages) stand behind small functions whose contracts are stated from
  those crates' sources.
- `tests/` runs the library on concrete values.
- `app/` is ordinary Rust around it: files, sockets, PostgreSQL and the protocol's
  own types. It reads what the rules are asked about and writes what they decide.
  It drives every stage of opening, requests, deliveries, receivers, streams,
  callbacks, quotas and listings, the whole life of artifacts, and what is run
  offline.
- `extras/statements.sql` holds the statements that `app/` runs, by name.
