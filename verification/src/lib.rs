pub mod analyzer;
pub mod collector;
