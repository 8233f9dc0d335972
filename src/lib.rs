//! Builds a model of the structs declared in Rust source files (their fields,
//! methods and parameters) and renders it as a PlantUML class diagram with
//! dependency edges between the declared types.
use vstd::prelude::*;

pub mod files;
pub mod parser;
pub mod render;
pub mod syntax;
pub mod types;

pub use parser::file_parser;
pub use render::{render_plantuml, PlantUml};
pub use types::{Entity, EntityType, Visibility};

verus! {

} // verus!
