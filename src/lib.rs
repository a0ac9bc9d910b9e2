//! Mesh indexing and grid placement for a decoded 3-D model.
//!
//! The library indexes every sub-mesh of a decoded model by its node name,
//! lays the sub-meshes out on a ten-column grid, and gates that one-shot step
//! behind a two-state loading latch.
pub mod index;
pub mod lemmas;
pub mod model;
pub mod placement;
pub mod scene;
