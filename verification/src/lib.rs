pub mod client;
pub mod config;
pub mod decimal;
pub mod model;
pub mod random;
pub mod session;
pub mod text;
pub mod time;
pub mod urlcode;
pub mod user;
pub mod web;
