# layered_snapshot

Three-layer snapshots for microVMs, verified with Verus.

- **L0** (infrastructure) and **L1** (runtime) are memory files that all VMs share.
- **L2** is private to an instance: a copy-on-write overlay that holds the pages it has changed.

`src/` is the verified library: page bitmaps, overlays and their checkpoints, the table of shared
mappings, page fault handling, and the decisions of the snapshot, restore, reclaim and command
line procedures. A procedure that needs the outside world is a function from an event to the next
step; its contract says which step follows which event.

`app/` performs the steps: files, memory maps, userfaultfd, sockets, threads, JSON and arguments.

`tests/` runs the library on concrete values.
