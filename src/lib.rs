use vstd::prelude::*;

pub mod date;
pub mod error;
pub mod filename;
pub mod id;
pub mod note;
pub mod paths;
pub mod repository;
pub mod text;
pub mod yaml;

pub use error::{Error, Result};
pub use filename::{parse_file_name, FileInfo};
pub use id::Id;
pub use note::{FrontMatter, Metadata, Note};
pub use repository::NotesRepository;

verus! {

} // verus!
