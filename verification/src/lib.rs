//! Verified core of an RDMA networking and DAQ read-out library: barrier
//! topologies and plans, network configuration validation, endpoint exchange
//! framing, peer routing of work requests, multi-fragment packet parsing,
//! ring-buffer status words, and the decisions around the PCIe40 driver:
//! identifying boards, opening, locking and mapping streams, and reading
//! packets out of their buffers.

pub mod barrier;
pub mod barrier_epochs;
pub mod config;
pub mod endpoints;
pub mod exchange;
pub mod mfp;
pub mod multi_channel;
pub mod old_mfp;
pub mod old_pcie40_reader;
pub mod pcie40;
pub mod pcie40_device;
pub mod pcie40_id;
pub mod pcie40_id_stream;
pub mod pcie40_reader;
pub mod rdma;
pub mod shm_buffer;
pub mod shm_ring;
pub mod text;
pub mod ring_status;
pub mod topology;

use vstd::prelude::*;

verus! {

} // verus!
