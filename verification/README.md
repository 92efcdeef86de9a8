# calvera

A lock-free inter-thread ring buffer in the style of the LMAX Disruptor. Verus
proves its arithmetic and its decisions: slot indexing, free slots, the
producer's claims and clearance, the consumers' wait decisions and batch
windows, and the builder's bookkeeping. What is written to and read from the
shared atomics (publication, consumer progress, the shutdown sentinel) is not
covered by any contract: vstd gives std atomics no value semantics.

## Layout

- `src/` — the verified library.
  - `ring_buffer.rs`: the power-of-two ring of slots, the mask indexing
    (proved equal to the sequence modulo the slot count) and the free-slot
    arithmetic, with the laws on slot reuse.
  - `cursor.rs`: the cache-padded atomic sequence counter shared between
    threads.
  - `barrier.rs`, `consumer/mod.rs`, `producer/uni.rs`: the producer and
    consumer barriers; the consumer barrier of a group reads its slowest member.
  - `producer/`: the single producer's claims (with the cached clearance of
    the consumers, proved never to lap the consumer position it rests on),
    single and batch publication, shutdown.
  - `consumer/managed.rs`: one wait step of a consumer thread, the
    processing of an available batch, and the consumer's progress across
    batches (every sequence handed out once, in order); `consumer/unmanaged.rs`: the event
    poller and its batches.
  - `builder.rs`: the builder's bookkeeping — ring buffer, consumer groups,
    thread names and cores; `disruptor.rs`: capacities checked by the type
    system.
- `app/` — the threaded front end: the shared mutable slots, the consumer
  threads and their spin loops, the blocking `publish`, the typestate builder,
  CPU pinning and the error types' `Display`.
- `tests/` — tests of the library. The tests in `loom_tests.rs` run the
  sequence protocol (racing compare-and-swap, publish then read, a single
  producer and consumer round trip, concurrent barrier reads) under
  `loom::model`. The library's cursors and barriers use std atomics, which
  loom does not instrument, so these runs explore the interleavings of loom's
  own atomics in the tests' slots, not of the library's operations.
