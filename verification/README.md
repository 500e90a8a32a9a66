# lufloat

Half-precision (IEEE 754 binary16) math on buffers placed in a bump arena,
written in Verus.

- `src/half.rs` — the binary16 encoding as integers (magnitudes in units of
  2^-24) and the bit-level element operations: abs, ReLU, sign masks.
- `src/round.rs` — rounding to nearest, ties to even, with its proof.
- `src/arith.rs` — correctly rounded add, sub, mul, div of single elements.
- `src/memory.rs` — the arena and the buffers.
- `src/elementwise.rs` — element-wise operations over whole buffers.
- `src/load.rs` — buffers of any length, padded to 2048-element blocks.
- `src/plan.rs` — how work is split into kernel launches; shape checks.
- `src/laws.rs` — properties that hold across the operations.
- `app/` — device synchronisation and the floating-point kernels (GELU,
  SiLU, SwiGLU, GEMM, RMSNorm, softmax, sum) launched through ROCm/HIP.
