//! A browser for the schemas of an API description: the tree of display
//! nodes that a schema gives, and the navigator that expands, collapses and
//! selects its rows.
//!
//! `builder` turns the description of a schema into its node; `document`
//! loads the named schemas of a document in alphabetical order; `tree` holds
//! the nodes and the navigator; `app` adds the two panes and the key
//! bindings; `rows` says what each pane shows. `model` is the mathematics
//! that the contracts speak of, and `laws` what holds of it in every tree.

pub mod app;
pub mod builder;
pub mod document;
pub mod json;
pub mod laws;
pub mod model;
pub mod named;
pub mod order;
pub mod paths;
pub mod rows;
pub mod schema;
pub mod text;
pub mod tree;
pub mod yaml;
