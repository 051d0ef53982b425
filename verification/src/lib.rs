pub mod app_state;
pub mod command;
pub mod error;
pub mod filter;
pub mod input;
pub mod log;
pub mod log_file;
pub mod log_line;
pub mod logline;
pub mod mode;
pub mod pattern;
pub mod style;
pub mod text;
pub mod time;
