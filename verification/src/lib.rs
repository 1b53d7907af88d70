//! Core of a sandboxed virtual-machine runtime: resource metering and
//! host-call bridging.
//!
//! The metering half instruments a function body so that every straight-line
//! block deducts its static cost from a per-instance points ledger before any
//! of its operations take effect, trapping the instant the budget would go
//! negative. The bridging half translates guest-supplied offsets and lengths
//! through a bounds-checking address validator before any host resource is
//! touched, so no raw guest integer ever reaches host memory unchecked.

pub mod bridge;
pub mod cost;
pub mod instance;
pub mod instrument;
pub mod memory;
