//! Runtime support for the ashtOS firmware.
//!
//! The firmware runs on bare metal, before anything like an operating
//! system exists. This crate holds what it needs to get going and what it
//! has to say while it does:
//!
//! - [`sync`]: a spin lock and the guard that reaches the value behind it;
//! - [`single_alloc`]: the allocator of the one block of memory that is
//!   set aside for the first dynamic allocation;
//! - [`local_alloc`]: a bump allocator over a buffer that the caller lends;
//! - [`layout`]: sizes, alignments and padding, shared by the allocators;
//! - [`misa`]: decoding the machine ISA register into extension letters;
//! - [`mtvec`]: the trap-vector register and the check of what it took;
//! - [`uart`]: the polled serial port and the rendering of numbers in hex;
//! - [`report`]: the wording and layout of everything the firmware prints.
//!
//! Every function carries a contract that says what it returns and what it
//! changes. The contracts are proved, but for a handful that are taken on
//! trust: those of the private functions that call into the `riscv` crate,
//! and of the one that asks where a buffer lies in memory. Each of these
//! says in its documentation what it takes for granted.

pub mod layout;
pub mod local_alloc;
pub mod misa;
pub mod mtvec;
pub mod report;
pub mod single_alloc;
pub mod sync;
pub mod uart;
