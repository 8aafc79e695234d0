//! Cross-process table-mutation transport: a binary record codec, a POSIX
//! message-queue transport for whole encoded records, and a named
//! shared-memory region manager usable as an alternative substrate.

pub mod codec;
pub mod mq;
pub mod shm;
