//! Data-plane core of a network interface card driver: receive and transmit
//! descriptor rings with circular cursors, single-owner packet-buffer
//! transfers between a free pool and the rings, batched reclamation of
//! completed transmissions, and a fixed-capacity flow-filter table.

pub mod structs;
pub mod vector_spec;
pub mod filter;
pub mod tx_rx;
