//! Rendering of concrete syntax trees as indented, position-annotated listings.

pub mod adapter;
pub mod node;
pub mod preorder;
pub mod render;
pub mod report;
pub mod text;
