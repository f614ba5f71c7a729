pub mod messages;
pub mod numbers;
pub mod parse;
