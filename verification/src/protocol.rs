//! Protocol kinds under their older module path.

pub use crate::proto::{L3Protocol, L4Protocol};
