//! The catalog's entities: files, tags, and the links between them.

mod file;
pub mod relationships;
mod tag;

pub use file::File;
pub use tag::Tag;

pub(crate) use tag::tags_include_name;
