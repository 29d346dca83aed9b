pub mod payload;
pub mod vm;
