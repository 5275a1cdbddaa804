# msgbus

A local-first message bus: durable publish and subscribe with replay, FIFO queues, deletion by
tombstones, and copying between daemons. Each topic of each origin node is a log of its own, with
positions that rise by one.

`src/` is the library, written in Verus and verified: what a store holds and what its operations
do to it (`store`, `laws`, `queues`), the operations over ordered tables (`engine`, `table`, `keys`,
`layout`), a store in memory (`memory`), what the SQL store writes and reads (`sqlite`), the answers
of the daemon (`service`, `subscribe`, `wire`, `status`), the rounds of copying from peers (`sync`,
`rounds`), and the client side (`client`).

`app/` is the daemon around it: gRPC, TLS, the redb and SQLite files, JSON, and the command line.

`tests/` runs the library on concrete values.
