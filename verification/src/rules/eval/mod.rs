//! Walking a message with its evaluators.
//!
//! The walk runs the message's own rules, then its fields' rules, then the
//! same for every set message-typed field. Violations are collected with
//! their paths built
//! leaf first -- each level appends the element that led to it -- and the
//! paths are reversed once at the end.
//!
//! The message is read through [`crate::protobuf`], so the walk is generic
//! over the runtime holding it. CEL sees messages through a [`LazyFrame`]:
//! the root is handed to the CEL runtime only if some custom rule needs a
//! message, list or map bound to `this`. A field of the root is reached
//! inside that one parse; a message the walk descends into is encoded on
//! its own, again only if a rule asks.

mod checks;
mod field;
mod items;
mod message;
mod report;
mod values;
mod walker;

pub use message::{element_at, reports, subscript_of};
pub use values::{has, is_empty_item, is_set};
pub use walker::{added, evaluators_of, setting_of, LazyFrame, Walker};
