//! A ledger of asset leases: lease records keyed by a sequential id, and a
//! running summary of lease counts that every operation keeps consistent
//! with the records.

pub mod lease;
pub mod ledger;
