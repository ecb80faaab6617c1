//! A header-driven reader of Apache-style directory listings.
//!
//! The column layout of a listing is read from its header row, honouring
//! `colspan`, and applied to every data row. Each entry gives its link, its
//! size in bytes and its last-modified date, each of them only when it is
//! there and well formed.
//!
//! - [`listing`] reads a parsed document into entries;
//! - [`layout`] finds the columns and the cell over a column;
//! - [`size`] and [`timestamp`] decode the text of a cell;
//! - [`selection`], [`address`] and [`workflow`] hold what a caller decides
//!   with a listing in hand;
//! - [`text`] holds the work on characters that the others share;
//! - [`dom`] is the boundary to the HTML tree.

pub mod address;
pub mod dom;
pub mod layout;
pub mod listing;
pub mod selection;
pub mod size;
pub mod text;
pub mod timestamp;
pub mod workflow;

pub use layout::{Cell, CellKind, ColumnLayout, Field};
pub use listing::{apache_grzyby_index_iter, Element};
pub use timestamp::Timestamp;
