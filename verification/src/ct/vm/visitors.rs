pub mod opcodes;
pub mod values;
