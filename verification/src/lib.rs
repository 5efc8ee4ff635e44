//! Core of a download manager: byte-range planning, retry policy, transfer
//! bookkeeping and the durable record list, with machine-checked contracts.

pub mod chunks;
pub mod clock;
pub mod engine;
pub mod journal;
pub mod manager;
pub mod progress;
pub mod record;
pub mod request;
pub mod retry;
pub mod segment;
pub mod task;
pub mod text;
pub mod transfer;
pub mod units;
