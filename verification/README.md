# yellowstone_grpc

The logic of a geyser plugin for a Solana validator and of the grpc service around it, written in
Verus: the functions of the library carry contracts, and Verus proves them. (What an implementation
of `Flushable` or `UserServiceInterface` does is up to it, so the methods of these traits carry
none.)

## What it does

- **Messages.** What the validator hands to its plugins (accounts, slots, transactions, entries,
  descriptions of blocks) becomes messages.
- **The account buffer.** Write versions are counted anew for each account and slot, so that they
  are the same from every node. Large accounts are held back until their slot is processed or its
  block is described, and then only the write with the highest version goes out, before the
  message that ends the wait. All else passes at once.
- **The wire.** Updates on accounts, slots, transactions, entries and blocks are read and written in
  the protocol's format, with the names of their filters and the time at which they were made;
  reading what was written gives it back, and fields that are not known are skipped.
- **Compressed account filters.** A client that follows many accounts sends a cuckoo filter in
  place of their keys. It matches every key of the set, and may match others.
- **The server and its clients.** Who may call, what the server is set up with, who gets
  messages, when to disconnect, what is told of latencies, what is recorded as events.

## How it is laid out

- `src/`: the verified library. `src/lib.rs` says what is where. What the library promises as a
  whole stands in public proof functions whose names begin with `law_`.
- `tests/`: tests of the library, one file for each part.
- `app/`: ordinary Rust around the library: the plugin as the validator calls it, the grpc server,
  the sink's task and the clients. It reads, waits and sends; what to do, it asks the library.

## What is trusted

Outside functions are called through items whose contracts are believed: SipHash-2-4 of
`siphasher`, json values of `serde_json`, the clock through `prost-types` and `time`, the capacity
of a vector, and texts read from bytes. The comment above each says what is claimed of it, and what
is left open.
