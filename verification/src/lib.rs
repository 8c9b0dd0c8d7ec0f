//! Target resolution and pixel selection for an agent that converges a shared
//! pixel canvas toward a tree of reference images.

pub mod json;
pub mod palette;
pub mod canvas;
pub mod select;
pub mod descriptor;
pub mod image;
pub mod job;
pub mod traversal;
pub mod session;
pub mod engine;
