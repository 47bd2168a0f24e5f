# hopr_utilities

Utilities shared by the node, verified with Verus.

- `statistics::moving::windowed`: the fraction of expected events that were observed, over a sliding
  window of time slices.
- `parallelize`: the accounts of the CPU pool. They decide which tasks are queued, skipped and run, and
  which decode tasks have to wait so that encode tasks are not starved.
- `network_types`: hosts by name or address, and what resolving them takes.
- `testing::blokli`: an emulated chain for tests. `builder` writes its state, `connector` reads it,
  follows it and decides what is submitted to it, and `faults` perturbs both. `roundtrip` states that
  what is written is read back.
- `time` and `text`: spans, instants, numbers and bytes as plain values and as text.

The library holds decisions and data. Clocks, threads, futures and the client of the chain are in
`app/`, which performs what the library decides and hands back what came of it.

What the library has from other crates (digests, keys, payloads, balances, calendar dates, concurrent
maps) it calls in `text`, `testing::blokli::interop` and `testing::blokli::maps`. The contracts of those
calls are taken on trust; the doc comment of each says which function it calls and what is claimed of it.
