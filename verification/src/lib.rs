//! Coin selection for a ledger query service.
//!
//! Given an owner, per-asset funding targets and a set of excluded
//! identifiers, the library selects spendable ledger entries (plain coins and
//! bridged message coins) whose amounts cover each target, under a hard cap on
//! the number of entries one transaction may reference.  Selection runs either
//! over a sorted secondary index (deterministic, largest amounts first) or,
//! when no index is available, by a randomized sample-then-improve walk over
//! the full owned-entry domain.

pub mod asset_query;
pub mod coins;
pub mod coins_query;
pub mod graphql_api;
pub mod ids;
pub mod read_view;
pub mod rng;
