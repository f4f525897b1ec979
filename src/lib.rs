//! Extracts media files from a portable player's hashed storage layout into a
//! plain directory, naming each file after its tag title where one exists.
//!
//! The filesystem walk, tag reading and byte copies are done by the caller;
//! this crate holds every decision taken along the way.

pub mod extractor;
pub mod naming;

pub use extractor::{
    select_media_roots, search_paths, CopyPlan, ExtractError, Extractor, ExtractorBuilder,
    ExtractorBuilderError,
};
pub use naming::{destination_name, extension, resolve_collision, tagged_name, TagTitle};
