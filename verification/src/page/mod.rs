//! The pages of the site.

pub mod music;
pub mod nav;
pub mod sync;
pub mod words;
