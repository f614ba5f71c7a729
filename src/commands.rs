pub mod command;
pub mod config;
pub mod echo;
pub mod get;
pub mod info;
pub mod keys;
pub mod ping;
pub mod psync;
pub mod replconf;
pub mod set;
pub mod traits;
