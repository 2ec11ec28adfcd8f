//! The inspector of the selected node.

pub mod attrs;
pub mod connections;
pub mod deform;
pub mod geometry;
pub mod selection;
pub mod use_wrap;
