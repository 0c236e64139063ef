//! Recipes: typed training configuration, validation against a model family,
//! built-in presets and the recipe file's metadata.

pub mod file;
pub mod preset;
pub mod schema;
pub mod validate;
