//! Compares two directory trees by entry identity (name and size) and plans
//! the copies that bring the entries missing from one tree over to the other.
//!
//! The library holds the decisions; reading directories and copying bytes are
//! left to the caller, which hands the library plain values and performs the
//! actions that the library returns.

pub mod entry;
pub mod paths;
pub mod entry_set;
pub mod walk;
pub mod compare;
pub mod copy;
pub mod selection;
