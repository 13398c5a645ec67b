pub mod config;
pub mod pow;
pub mod session;
