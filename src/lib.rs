//! Three independent betting pools ("tiers"): contributions are gathered while
//! a round is open, and at settlement one contributor is drawn with probability
//! proportional to their share of the pool, a protocol fee is taken, and the
//! rest goes to the winner.

pub mod lcg;
pub mod error;
pub mod msg;
pub mod pool;
pub mod settlement;
pub mod state;
pub mod contract;
