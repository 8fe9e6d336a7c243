//! The forms that account records take in the flat rows of a relational
//! store: width conversions for integers, the text form of roots, row framing,
//! and the order in which schema migrations are applied.

pub mod account;
pub mod config;
pub mod digest;
pub mod error;
pub mod json;
pub mod migration;
pub mod row;
pub mod text;
pub mod width;
