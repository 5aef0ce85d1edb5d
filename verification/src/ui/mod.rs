//! Placement of user-interface elements.

pub mod anchor;

pub use anchor::Anchor;
