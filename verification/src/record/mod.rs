pub mod amount;
pub mod transaction;
