//! Machine-mode SBI firmware runtime for a five-hart RISC-V processor,
//! modelled as verified state machines: the supervisor trap/resume loop,
//! the SBI call dispatch bridge, the multi-hart boot sequencer with its
//! inter-hart synchronization barrier, and the interrupt/exception
//! delegation configuration. Hardware effects (CSR writes, wait-for-interrupt,
//! CLINT stores) are represented by explicit per-hart machine state so that
//! the decisions taken on them are proved; the embedding that performs the
//! real accesses lives outside the library.

pub mod context;
pub mod csr;
pub mod sbi;
pub mod stack;
pub mod clint;
pub mod barrier;
pub mod runtime;
pub mod boot;
pub mod dist;
