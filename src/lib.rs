//! People and processor catalogs: small records, their text forms, and the
//! operations on them (ordering, filtering, keyed lookup), each with a
//! machine-checked contract.

pub mod text;
pub mod person;
pub mod ordering;
pub mod roster;
pub mod catalog;
pub mod demos;
