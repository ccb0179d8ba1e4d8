//! A shader-module composition engine.
//!
//! A caller registers named, reusable shader fragments ("composable modules")
//! in a [`registry::ModuleRegistry`], then asks for a composition of a main
//! source against that registry.  Composition resolves import directives
//! transitively, applies each unit's own conditional-compilation symbols,
//! merges the surviving top-level declarations into one namespace, validates
//! the merged unit, and returns either a [`compose::CompiledArtifact`] or a
//! structured [`diagnostic::Diagnostic`].

pub mod align;
pub mod compose;
pub mod defines;
pub mod diagnostic;
pub mod laws;
pub mod lines;
pub mod registry;
pub mod text;
