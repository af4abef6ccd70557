//! Follows the chain of "first links" between encyclopedia articles until a
//! terminal article is reached or an article repeats.

pub mod article;
pub mod page;
pub mod trail;
pub mod walk;
