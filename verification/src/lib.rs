//! Turns a resolved dependency graph and a project's manifest metadata into
//! the text of an ebuild.
//!
//! The library works on plain values: the packages a resolver delivered, the
//! metadata a manifest held, and a template with named slots. Reading the
//! project and writing the file are left to the caller.

pub mod aggregate;
pub mod clock;
pub mod document;
pub mod lines;
pub mod metadata;
pub mod recipe;
pub mod render;
pub mod source;
pub mod template;
pub mod text;

pub use aggregate::{aggregate, Aggregate, Diagnostic, Problem, ResolvedPackage};
pub use document::{Generator, RecipeDocument};
pub use metadata::{resolve_metadata, MetadataError, ProjectMetadata, ResolvedMetadata};
pub use recipe::{build_recipe, real_main, run_cargo_ebuild};
pub use recipe::{Command, Project, Recipe, RecipeError};
pub use render::{render, RenderError};
pub use source::{classify, ClassifyError, OriginDescriptor, SourceOrigin};
pub use template::Slot;
