//! Wiki links between plain-text notes: parsing, resolution against a
//! snapshot of the note directories, and the reverse index of backlinks.

pub mod backlinks;
pub mod context;
pub mod errors;
pub mod links;
pub mod notes;
pub mod paths;
pub mod resolve;
pub mod store;
pub mod templates;
pub mod text;
pub mod title;
