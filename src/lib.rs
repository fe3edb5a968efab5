//! Reverse-lookup tables from integer ranges to SHA-256 digests of composite decimal values.
pub mod decimal;
pub mod assembler;
pub mod digest;
pub mod resolve;
pub mod generation;
pub mod input;
