//! Nuclei: a proactor-based IO system.
//!
//! This crate holds the decision logic of the proactor: the io_uring
//! configuration presets, the operation slots of a handle, the interest
//! registry of the epoll and kqueue backends, the receipt checks of the
//! kqueue backend, the completion dispatch of the io_uring backend, the
//! retry protocol of non-blocking socket operations, the length of Unix
//! socket addresses and the position bookkeeping of ring-driven files.

pub mod completion_handler;
pub mod config;
pub mod epoll;
pub mod iouring;
pub mod kqueue;
pub mod oneshot;
pub mod processor;
pub mod registry;
pub mod ring_channel;
pub mod sockaddr;
pub mod store_file;
pub mod submission_handler;
