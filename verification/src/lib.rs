//! Core scaffolding of a post-quantum key-exchange daemon: a write-once
//! secret-memory policy selector with typed secret containers, helpers for
//! adopting externally supplied file descriptors, and the startup sequencing
//! rules that tie them together.

pub mod fd;
pub mod secret_alloc;
pub mod startup;
