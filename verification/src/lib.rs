//! Verified core of the studio.

pub mod edits;
pub mod ids;
pub mod inspector;
pub mod literal;
pub mod naming;
pub mod panels;
pub mod paths;
pub mod pick;
pub mod rewrite;
pub mod scene;
pub mod span;
pub mod studio;
pub mod text;
pub mod wizard;
