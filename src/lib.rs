//! Browse the local branches of a git repository and switch the working tree
//! to one of them with a checkout that never discards local changes.

pub mod names;
pub mod repo;
pub mod session;
