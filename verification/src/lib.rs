//! Layout and dispatch logic of accelerated tile kernels: where each plane lane's
//! registers sit inside a tile, how row-wise statistics map onto fragment elements,
//! how an interleaved matmul distributes its accumulators over a plane, and how a
//! tile matmul family expands a blueprint into its configuration.
pub mod arith;
pub mod ir;
pub mod matmul;
pub mod runtime_types;
pub mod size;
pub mod attention;
