//! Two-factor authentication configuration for Proxmox VE and Proxmox Mail Gateway, with
//! a few helpers of the surrounding services.
//!
//! The library holds the verified logic around the TFA configuration: the reader of the
//! version 1 `tfa.cfg` line format and the projection of current user records back onto it,
//! the queries on user records (factor types, yubico keys, lockout state), the mapping of
//! verification outcomes, and the rules of the per-user challenge store.
//!
//! Beside it: the lookups of notification defaults in the cluster configuration files, the
//! SDN ipsets in the legacy firewall shape, the status of SDN fabrics from their routes, the
//! parameters of a shared cache, and the logging setup of the mail gateway.

pub mod challenge;
pub mod codec;
pub mod firewall;
pub mod json;
pub mod keyed;
pub mod legacy;
pub mod logger;
pub mod model;
pub mod notify;
pub mod project;
pub mod sdn_status;
pub mod shared_cache;
pub mod text;
pub mod tfa;
