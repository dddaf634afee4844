pub mod text;
pub mod notebook;
pub mod archive;
pub mod paths;
pub mod config;
pub mod models;
pub mod reactions;
pub mod json;
pub mod bounds;
pub mod scripts;
pub mod companion;
pub mod model_laws;
pub mod reaction_laws;
pub mod notebook_laws;
