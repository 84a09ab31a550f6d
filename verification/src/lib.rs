//! Decision logic of a share sniper: what is spotted, what is bought, at which
//! price, and what is said about it.

pub mod announce;
pub mod arrivals;
pub mod chain;
pub mod console;
pub mod hexcode;
pub mod history;
pub mod mempool;
pub mod order;
pub mod poller;
pub mod purchase;
pub mod report;
pub mod run;
pub mod signer;
pub mod slippage;
pub mod text;
pub mod views;
pub mod watcher;
pub mod wei;
