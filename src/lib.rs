//! Guest introspection for virtual machines reached through a control plane:
//! request encoding and reply decoding for the guest agent, the ordered chain of
//! strategies that names a guest's operating system, the two-phase exec poller,
//! a time-to-live cache of probe results, and the formatting of resource metrics.
//!
//! Nothing here performs I/O. The steps that need the control plane are driven by
//! state machines that say which command to run next and take back its outcome.

pub mod text;
pub mod metrics;
pub mod release;
pub mod json;
pub mod rpc;
pub mod poller;
pub mod discovery;
pub mod cache;
pub mod listing;
pub mod speedtest;
