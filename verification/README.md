# zebra_devkit

Verified building blocks for Zebra development nodes.

- Structured JSONL tracing: what is collected, which queue an event goes through, when drops
  are warned of, and what the writer does with every event and every I/O error.
- Local Testnet generation: deterministic funded keys, network parameters, coinbase
  transactions, header commitments, and the chain that grows from them. What only a node's own
  types can compute comes from its implementation of `ChainParts`, of which nothing is assumed.
- Network upgrades: which one applies at a height, and from where block templates can be made.
- Benchmark workloads: the cheapest repeated transactions that fill a block with an exact mix
  of shielded actions.
- Peer connections: the labels that stand for them, and the trace of what was sent.

`src/` is the library: Verus proves every function in it against its contract. What it has
from other crates (hashing, secp256k1, hexadecimal, the calendar, timestamps, queues, random
numbers, the clocks) stands behind small functions whose contracts, where there is something to
promise, say what is relied on. `tests/` runs the library. `app/` is the input and output around
it.
