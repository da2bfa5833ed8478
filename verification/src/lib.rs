pub mod activity;
pub mod aggregates;
pub mod auth;
pub mod budget;
pub mod domain;
pub mod errors;
pub mod federation;
pub mod resolve;
pub mod store;
