//! The panels around the viewport.

pub mod animation;
pub mod diagnostics;
pub mod editor;
pub mod gradient;
pub mod materials;
pub mod summary;
pub mod tabs;
pub mod textures;
pub mod viewport;
