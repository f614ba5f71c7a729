pub mod data_store;
pub mod db_file;
