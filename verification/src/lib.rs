//! Detection of unused imports in a single JavaScript/TypeScript module.
//!
//! The analysis works on an already-built syntax tree ([`ast::Module`]) and is
//! made of three independent steps:
//!
//! 1. [`bindings`] records every local name that a top-level import
//!    declaration introduces, together with the form of the import;
//! 2. [`usages`] records every identifier name that the module body refers
//!    to in one of the recognised positions;
//! 3. [`reconcile`] reports the bound names that are never referred to.
//!
//! Every function is verified against a mathematical description of its
//! result; [`theorems`] states what follows for whole modules.

pub mod ast;
pub mod bindings;
pub mod reconcile;
pub mod theorems;
pub mod usages;
