pub mod command;
pub mod filter;
pub mod search;
