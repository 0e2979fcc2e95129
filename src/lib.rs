//! An HTML tree builder for a widget-based page view.
//!
//! [`sink::Sink`] takes the tree-construction events of an HTML parser and
//! builds a tree of elements linked by integer ids, recording on the way the
//! stylesheets and scripts it meets ([`resource`]). [`render`] classifies the
//! finished tree into generic blocks and text labels, and [`node`] decides how
//! each widget composes its children: blocks stack them vertically, a text
//! label becomes a row on its first child. [`algorithm_queue`] and
//! [`parallel_queue`] hold and run deferred steps in order.
pub mod algorithm_queue;
pub mod name;
pub mod node;
pub mod parallel_queue;
pub mod render;
pub mod resource;
pub mod sink;
