//! Core of a document-layout engine: a geometric shape model with
//! axis-aligned bounding boxes, and the resolution of page-configuration
//! directives into an updated page style plus engine commands.

pub mod geom;
pub mod page;
pub mod shape;
