//! HWPX document validation: the validation spec, the OWPML document
//! model and its readers, the validators and their error records.

pub mod checker;
pub mod container;
pub mod document;
pub mod error;
pub mod laws;
pub mod messages;
pub mod output;
pub mod spec;
pub mod text;
pub mod xml;

pub use error::{DvcError, DvcResult, ErrorCode};
pub use messages::{error_string, ErrorContext};
