pub mod bytes;
pub mod logger;
