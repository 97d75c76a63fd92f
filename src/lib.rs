use vstd::prelude::*;

mod error;
mod identity;
mod payout;
mod pool;
mod registry;

pub use error::ErrorCode;
pub use identity::Identity;
pub use payout::{end_race, Payout};
pub use pool::{create_pool, join_race, JoinOrder, Pool, PoolView};
pub use registry::{initialize, RaceAdmin};
