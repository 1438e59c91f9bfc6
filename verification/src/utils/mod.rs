//! small containers shared by the rest of the library

pub mod global;
pub mod late;
