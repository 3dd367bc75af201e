# tile_layout

Verified layout and configuration logic of accelerated GPU tile kernels.

- `src/attention/fragment.rs`: where the MMA registers of a plane lane sit in a
  tile (`absolute_pos_in_fragment`, `WhiteboxFragmentLayout`), and how a lane's
  fragment splits into local rows for row-wise statistics (`WhiteboxFragment`).
- `src/attention/setup.rs`, `src/attention/attention.rs`: configuration of the
  whitebox accelerated tile attention and the layout of its softmax fragment.
- `src/matmul/interleaved_eager.rs`: storage of the interleaved eager fragments,
  the slot where each plane-summed accumulator element is stored, and the whole
  interleaved matmul on `u64` elements (arithmetic modulo `2^64`).
- `src/matmul/dispatch.rs`: properties and configuration of each dispatchable
  tile matmul; `src/matmul/definition.rs` holds the device's MMA configurations
  as a set without repeats.
- `src/runtime_types.rs`: the runtime types that the logic carries, and the two
  calls it makes into the runtime crates.

`app/` holds the conversions from and to the runtime's own types, the device
queries, and the floating-point fragment arithmetic on the host.
