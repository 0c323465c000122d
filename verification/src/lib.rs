//! Loader and user-space runtime for in-kernel telemetry programs.
//!
//! The crate parses relocatable object files that carry programs for the
//! kernel's restricted virtual machine, materializes the maps they declare,
//! rewrites map references into kernel-assigned descriptors, prepares the
//! programs for submission to the kernel verifier, and drains the per-cpu
//! ring buffers through which loaded programs emit event records.
//!
//! Everything that touches the kernel is expressed as plain request and
//! completion values: the caller performs the syscall and hands the result
//! back, so the decision logic in this crate is verified for every outcome
//! the kernel can produce.

pub mod cpus;
pub mod elf;
pub mod error;
pub mod file;
pub mod insn;
pub mod lifecycle;
pub mod map;
pub mod metrics;
pub mod module;
pub mod perf;
pub mod program;
pub mod release;
pub mod reloc;
pub mod tls;
pub mod wire;

pub use error::LoadError;
pub use insn::Insn;
pub use lifecycle::CloseSet;
pub use map::{KernelMap, MapDef};
pub use module::{Module, Rel};
pub use perf::{PerfMap, RingEvent};
pub use program::{Program, ProgramKind};
