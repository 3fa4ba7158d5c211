# rudis

The core of a sharded, Redis-compatible server, verified with Verus.

- `src/` is the library. It reads commands off the wire (`resp`, `build`, `readings`), keeps
  subscriptions and delivers messages (`pubsub`, `roster`, `delivery`, `presence`), keeps the
  replication stream and follows one (`replication`, `backlog`, `followers`, `worker`, `report`),
  and decides where keys, slots and batches go (`slots`, `router`, `scatter`, `redirects`,
  `txlocks`, `tiering`, `merging`, `ranking`, `answers`, `pools`). What the plans for several keys
  come to over all shards is proved in `stores`, and which options of a command go together in
  `build/options`. What the library may rely on in outside crates is stated in `octets`, `text`,
  `lists`, `tables`, `hashing`, `slots`, `redirects` and `registries`.
- `tests/` runs it.
- `app/` is the server around it: shards on threads, mailboxes, sockets and clocks. The storage
  engine, the log and the cluster bus are traits there.

Floating-point numbers are carried by their bits; the caller of the parser reads numerals and hands
the readings over. The time is an argument wherever it is needed.
