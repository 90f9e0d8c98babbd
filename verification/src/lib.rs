//! A multi-tenant, lease-based work queue.
//!
//! Rows of an ordered record store represent units of outstanding work
//! (order lifecycle events, marketplace order events, feed documents).
//! Worker processes claim, process, retry, and retire these records
//! without double-processing, across tenants, safely under crash and
//! restart.  Mutual exclusion comes from time-bounded leases with
//! explicit owner tokens; retries are bounded by per-kind attempt
//! budgets; every tenant's records are partitioned behind a router so
//! cross-tenant access is structurally impossible.
//!
//! All queue operations take the current time as an argument, so the
//! library itself performs no I/O and no clock reads.

pub mod claim;
pub mod errors;
pub mod laws;
pub mod lease;
pub mod models;
pub mod policy;
pub mod queue;
pub mod record;
pub mod router;
pub mod session;
pub mod store;
