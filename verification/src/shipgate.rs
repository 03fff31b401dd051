//! The directory service through which ships find each other.

pub mod convert;
pub mod msg;
