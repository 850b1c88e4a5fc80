# tokio_uring

The decision-making half of an `io_uring` runtime, verified with Verus: which buffers
of a registered collection are free, what each operation asks of the kernel, and what
each completion means for the buffers involved.

- `src/` is the verified library. Memory is described by addresses and lengths, requests
  to the kernel by plain values.
  - `buf/`: buffers, windows on buffers, and the collections of registered buffers
    (`fixed/pool.rs` by capacity, `fixed/registry.rs` by index). `fixed/laws.rs` states
    what holds of them over many calls.
  - `driver/`: submissions, completions, what is registered, and how many operations
    are in flight on buffers of a registry.
  - `io/`: the operations. `io/laws.rs` states what holds of them from submission to
    completion.
- `tests/` runs the library, some of it against a small stand-in for the kernel.
- `app/` is a blocking runtime around the library. It owns the memory and the ring,
  shares collections among tasks, and builds the actual queue entries.

A buffer keeps count of the bytes in use in each of its parts. A read puts exactly the
bytes that the kernel wrote to use, filling the parts in order. While a read with
`read_at` is in flight, and if it fails, all the memory of its buffer counts as in use.
