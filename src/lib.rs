//! Text flow and pagination for a small fixed-size display: paragraphs are
//! measured, split into pages that fit a rectangular area, and any page can be
//! reached directly from its index.
pub mod arrange;
pub mod checklist;
pub mod fido;
pub mod geometry;
pub mod layout;
pub mod laws;
pub mod object;
pub mod page;
pub mod pagination;
pub mod paragraph;
