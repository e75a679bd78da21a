//! A kernel-bypass packet I/O engine in the AF_XDP style, together with the
//! small services that surround it.
//!
//! The engine owns a frame region (the UMEM), four single-producer /
//! single-consumer descriptor rings (FILL, COMPLETION, RX, TX) and a pool of
//! free frame addresses.  Every burst operation is stated over sequences and
//! multisets of frame addresses, so that the ownership of each frame can be
//! followed through every step.

pub mod api;
pub mod auth;
pub mod client;
pub mod descriptor;
pub mod interface;
pub mod laws;
pub mod limiter;
pub mod loopback;
pub mod mmap;
pub mod nic;
pub mod payload;
pub mod pool;
pub mod ring;
pub mod runtime;
pub mod socket;
pub mod system;
pub mod table;
pub mod text;
pub mod tfa;
pub mod thread;
pub mod umem;
