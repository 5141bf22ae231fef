pub mod gateway;
pub mod ident;
pub mod service;
pub mod store;
pub mod todo;
