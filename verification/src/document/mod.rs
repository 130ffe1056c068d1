//! The HWPX document model: header tables, body sections and the run
//! stream the validators read.

pub mod archive;
pub mod header;
pub mod run_type;
pub mod section;

pub use archive::{Document, HwpxArchive, Part};
pub use header::HeaderTables;
pub use run_type::RunTypeInfo;
pub use section::Section;
