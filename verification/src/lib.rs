//! Network-provisioning core for a commissionable smart-home device.
//!
//! The crate models the shared credential / connection-status state machine
//! (`wifi`), the commissioning cluster that exposes it over the protocol
//! (`wifi::comm`), the background manager that turns connect requests into
//! network actions (`wifi::mgmt`), the persistence codec that serializes the
//! state into a bounded storage blob (`persist`), and the supervisor phase
//! logic that composes the long-running tasks (`stack`).
//!
//! All I/O, radio and protocol-codec work is left to the surrounding runtime;
//! the functions here compute over plain values and carry full contracts.

pub mod persist;
pub mod stack;
pub mod wifi;
