//! Which translation keys does a front-end module reference?
//!
//! A module declares its labels once, as `const LABELS = translate({...})`, and
//! reads them elsewhere through member chains such as `LABELS.bird.size`. This
//! crate finds that declaration, builds a tree from its literal, resolves each
//! chain against the tree, and records the keys under the top-level construct
//! that reads them.
//!
//! - [`syntax`]: the syntax tree that the analysis reads.
//! - [`key_set`], [`string_map`]: the collections that the results are held in.
//! - [`labels`]: the label tree and its model.
//! - [`builder`]: from an object literal to a label tree.
//! - [`resolve`]: from a member chain to the keys it denotes.
//! - [`label_visitor`]: locating the declaration of the labels.
//! - [`usage_visitor`]: walking a module and attributing keys to owners.
//! - [`usage`]: merging usage maps.
//! - [`analysis`]: the analysis of one module, from end to end.

pub mod analysis;
pub mod builder;
pub mod key_set;
pub mod label_visitor;
pub mod labels;
pub mod resolve;
pub mod string_map;
pub mod syntax;
pub mod usage;
pub mod usage_visitor;
