//! A small personal site: markdown documents with a metadata block rendered
//! to styled pages, a chronological index of them, and a page of music
//! recommendations.

pub mod machine;
pub mod markup;
pub mod meta;
pub mod order;
pub mod page;
pub mod registry;
pub mod stream;
pub mod style;
pub mod text;
pub mod timestamp;
