//! Extraction and closure lifting of functions marked as server actions.
//!
//! The pass walks a module once. It finds the functions that a leading `"use server"`
//! marks as actions, for a whole file or for one function, gives each a stable name,
//! hoists the nested ones to the top of the module with what they capture passed in an
//! array, assigns the annotations to each, and makes the comment that lists them.
//!
//! - [`ast`]: the syntax tree and its model.
//! - [`binders`]: which identifiers a pattern binds.
//! - [`directive`]: recognizing and taking away the directive.
//! - [`capture`]: what a nested action captures.
//! - [`rewrite`]: reads of captured bindings become reads of the capture array.
//! - [`annotate`]: the statements and items that are synthesized.
//! - [`marker`]: the text of the marker comment.
//! - [`transform`]: the traversal, and [`server_actions`], the pass as a whole.
//! - [`record`], [`hoisting`], [`reports`], [`shadowing`], [`idempotence`]: what holds
//!   of the pass.
pub mod annotate;
pub mod ast;
pub mod binders;
pub mod capture;
pub mod directive;
pub mod hoisting;
pub mod idempotence;
pub mod marker;
pub mod record;
pub mod reports;
pub mod rewrite;
pub mod shadowing;
pub mod transform;

pub use transform::{server_actions, Config, Transformed};
