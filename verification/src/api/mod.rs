//! The operations offered to user interfaces.

pub mod route;
