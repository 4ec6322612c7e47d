//! Card data extraction, card queries and the class selection session of a
//! deck builder.

pub mod casing;
pub mod extract;
pub mod pattern;
pub mod query;
pub mod repository;
pub mod session;
pub mod text;
pub mod value;
