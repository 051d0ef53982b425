pub mod log_file;
pub mod log_level;
pub mod log_line;
