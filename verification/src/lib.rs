pub mod decimal;
pub mod models;
pub mod nic_converter;
pub mod nic_lemmas;
pub mod search;
pub mod text;
