//! Today's step count from a fitness provider: the query window since local
//! midnight, the aggregation request built for it, and the sum of the integer
//! values that the provider's answer holds.

pub mod decimal;
pub mod providers;
