//! A virtio network device back end: the per-device data plane that moves
//! frames between a host TAP interface, the guest's receive and transmit
//! virtqueues and an in-process metadata service, under two token-bucket
//! rate limiters, together with the device's feature negotiation and
//! configuration space.
//!
//! The collaborators of the data plane (token buckets, virtqueues, guest
//! memory, the TAP endpoint and the metadata stack) are modelled as plain
//! values whose operations carry exact contracts; a host program performs
//! the actual I/O around them.

pub mod device;
pub mod eventfd;
pub mod handler;
pub mod limiter;
pub mod memory;
pub mod metrics;
pub mod mmds;
pub mod model;
pub mod queue;
pub mod tap;
