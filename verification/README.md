# krain_aivm

Host operations of the KRAIN AIVM MNIST multilayer perceptron. Tensors
travel as little-endian IEEE-754 binary32 words; the library treats each
word as its `u32` bit pattern, so every step that needs no arithmetic on
values is stated and proved exactly.

- `src/ieee.rs` — NaN, ordering and positivity of binary32 values, read off their bits.
- `src/codec.rs` — little-endian framing of words and its round trips.
- `src/ops.rs` — activation, evaluation-mode dropout, argmax and the 41-byte result.
- `src/layers.rs` — shapes of the fully-connected layers and the checks before them.
- `src/weights.rs` — layout of the weights file.
- `src/host.rs` — what a host call does after each guest-memory access.
- `src/laws.rs` — properties that hold across calls.
- `app/` — weights loading, the binary32 sums of products, and host-call plumbing.
