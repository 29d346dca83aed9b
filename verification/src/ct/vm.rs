pub mod key;
pub mod memory;
pub mod parser;
pub mod utils;
pub mod value_handler;
pub mod visitors;
