//! One MCP server for many Proxmox VE clusters: everything it decides.
//!
//! The library holds the cluster inventory, guest resolution, the
//! authorization spine, the read catalog, the tiered tools and the change-set
//! life cycle. It performs no I/O: a function takes what was read and returns
//! what to send, what to record or what to answer.
//!
//! # The authorization spine
//!
//! Proxmox has no candidate configuration, so change control keys on the
//! identity of the target rather than on a config diff. What the tools do to a
//! guest starts from an [`AuthorizedGuest`](authorized::AuthorizedGuest), a
//! type with no public constructor produced only by [`resolve::authorize`].
//!
//! # Laws
//!
//! What holds across functions is stated as a public proof function whose name
//! begins with `law_`, beside the functions it speaks of.
use vstd::prelude::*;

pub mod authorized;
pub mod catalog;
pub mod client;
pub mod error;
pub mod fingerprint;
pub mod grant;
pub mod guests;
pub mod inventory;
pub mod json;
pub mod order;
pub mod preview;
pub mod protect;
pub mod resolve;
pub mod selector;
pub mod server;
pub mod task;
pub mod text;
pub mod tier;
pub mod token;
pub mod waiver;

pub use error::ProxmoxError;
pub use inventory::{Cluster, ClusterInventory, ClusterPolicy};
pub use selector::{GuestType, Selector};

verus! {

} // verus!
