//! The macro check: a document whose manifest declares a script fails
//! when the spec forbids macros.

use vstd::prelude::*;
use crate::checker::{error_views, located, located_error, DvcErrorInfo, ErrorView};
use crate::document::archive::{parts_have_macro, Part};
use crate::document::Document;
use crate::error::MACRO_PERMISSION;
use crate::spec::MacroSpec;

verus! {

/// The message of the macro finding.
pub open spec fn macro_message() -> Seq<char> {
    "macro script found but macro permission is false"@
}

/// The macro findings: one, with code `MACRO_PERMISSION`, when macros
/// are forbidden and the document declares a script; none otherwise.
pub open spec fn macro_errors(spec: MacroSpec, parts: Seq<Part>) -> Seq<ErrorView> {
    if spec.permission || !parts_have_macro(parts) {
        Seq::empty()
    } else {
        seq![located_error(MACRO_PERMISSION, 0, false, false, 0, 0, macro_message())]
    }
}

/// Run the macro check.
pub fn check(spec: &MacroSpec, document: &Document) -> (r: Vec<DvcErrorInfo>)
    ensures
        error_views(r@) == macro_errors(*spec, document.archive.parts@),
{
    let mut errors: Vec<DvcErrorInfo> = Vec::new();
    if spec.permission || !document.has_macro() {
        assert(error_views(errors@) =~= Seq::<ErrorView>::empty());
        return errors;
    }
    let e = located(
        MACRO_PERMISSION,
        0,
        false,
        false,
        0,
        0,
        String::from_str("macro script found but macro permission is false"),
    );
    errors.push(e);
    assert(error_views(errors@) =~= seq![e@]);
    errors
}

} // verus!
