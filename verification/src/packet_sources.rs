//! Packet sources: one async worker per capture mechanism, all driven
//! by the same contract — build a transport, then multiplex shutdown,
//! configuration, inbound OS data and outbound application data without
//! ever blocking the process.  The concrete source here speaks the
//! framing protocol over a bidirectional named-pipe transport.

pub mod macos;
