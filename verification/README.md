# virtio_net

A virtio network device model, verified with Verus.

The device moves Ethernet frames between the virtqueues of a guest and a tap, under rate limits, and
lets a metadata service answer the guest. It performs no I/O of its own: it tells its host the one
thing that it waits for (`Net::request`), the host does it and hands back the answer, and what needs
no answer is collected for the host to carry out (`Net::take_effects`). Frames are copied to and from
guest memory by the device itself, through the `vm-memory` crate.

- `src/` is the library. `src/protocol.rs` gives the transitions of the device as spec functions,
  `src/device.rs` the code that is proved to follow them. `src/laws.rs` holds laws of single events
  and answers, and `src/runs.rs` what holds from an event to the next moment of rest, whatever the
  host answers and whenever it fetches the effects: budgets are settled, frames are delivered and
  sent in order, chains are given back in order, the driver is told of them.
- `tests/` runs the device against a small host with real guest memory.
- `app/` is the host: rings, events, file descriptors and the loop that serves the device.

What is trusted without proof stands in `src/guest.rs` (accesses to guest memory) and at `eagain` in
`src/device.rs`, each with a comment that says what is claimed.
