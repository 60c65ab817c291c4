//! Risk engine, account and balance logic of the marginfi lending protocol, with the
//! decisions of its command-line profile handling.

pub mod fixed_point;
pub mod state;
pub mod account;
pub mod price;
pub mod bank;
pub mod risk;
pub mod emode;
pub mod health;
pub mod checks;
pub mod lending;
pub mod wrapper;
pub mod tags;
pub mod cli;
pub mod rate_point;
pub mod admin;
pub mod cache;
pub mod output;
