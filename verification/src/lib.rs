pub mod cd;
pub mod ct;
pub mod text;
