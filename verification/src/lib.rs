//! Packet-source subsystem of a local traffic-interception layer.
//!
//! The library models one capture backend: a bidirectional named-pipe
//! transport to a privileged helper process, a length-implicit binary
//! framing protocol spoken over it, an IP packet model with checksum
//! repair, and the event-driven task that multiplexes shutdown,
//! configuration, inbound and outbound traffic without blocking.

pub mod dns_resolver;
pub mod framing;
pub mod intercept_conf;
pub mod messages;
pub mod packet_sources;
pub mod processes;
pub mod queue;
pub mod util;

use vstd::prelude::*;

verus! {

/// Largest IP datagram the embedding network stack exchanges with a
/// packet source, in bytes.
pub const MAX_PACKET_SIZE: usize = 65535;

} // verus!
