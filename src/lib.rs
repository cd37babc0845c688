//! A personal contact registry: records keyed by small integer identifiers,
//! where a freed identifier is always the next one handed out.

pub mod command;
pub mod data;
pub mod gui;
pub mod user;
pub mod write;

pub use data::Data;
pub use user::User;
