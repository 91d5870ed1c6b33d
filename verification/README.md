# xsk_umem

Frame bookkeeping for an AF_XDP UMEM: how a memory region is cut into
frames (XDP headroom, user headroom, data), which byte range of the region
each frame segment occupies, the queue of available frames, and the small
computations of the scattered-read harness built on them. All of it is
verified with Verus, except two trusted wrappers around `rand` whose
contracts say only what holds of every random draw.

- `src/frame.rs`: frame descriptors, frame layout, byte segments.
- `src/region.rs`: the region, its queue of available frames, the segments it
  hands out, and the laws that hold of them.
- `src/queue.rs`: the queue of available frame indices and its laws.
- `src/umem.rs`: building a region with its descriptors and queue; taking
  frames for a batch of writes.
- `src/uio.rs`: random test data, buffer lengths for scattered reads,
  expected file contents, gathering of read buffers.
- `app/`: the program: memory mapping, sockets, files, threads.
