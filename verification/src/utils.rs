pub mod error;
pub mod string;
