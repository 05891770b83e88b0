pub mod cache;
pub mod engine;
pub mod geometry;
pub mod inspection;
pub mod kinship;
pub mod laws;
pub mod layout_style;
pub mod mapping_laws;
pub mod number;
pub mod placement_laws;
pub mod reading;
pub mod run;
pub mod scale_laws;
pub mod snapping;
pub mod space;
pub mod style;
pub mod style_laws;
pub mod to_taffy;
pub mod tree;
pub mod tree_laws;
