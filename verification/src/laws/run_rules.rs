//! What the run-by-run checks report: one finding per run whose style
//! kind is not allowed, one per run of a non-default style when styles
//! are forbidden, and one per hyperlink run when hyperlinks are
//! forbidden, and one per run whose text holds a character outside the
//! allowed range, each placed at its run.

use vstd::prelude::*;
use crate::checker::ErrorView;
use crate::checker::hyperlink::hyperlink_run_errors;
use crate::checker::special_character::{logical_text, run_range_error, special_errors};
use crate::laws::numbering_rules::{law_run_range_error, out_of_range};
use crate::spec::SpecialCharacterSpec;
use crate::checker::style::{style_permission_errors, style_type_errors};
use crate::document::run_type::RunView;
use crate::error::{HYPERLINK_PERMISSION, STYLE_PERMISSION, STYLE_TYPE};
use crate::spec::{style_korean_name, StyleType};

verus! {

/// Finding `e` stands at run `r`: same shapes, text, page, line and
/// table place.
pub open spec fn placed_at(e: ErrorView, r: RunView) -> bool {
    &&& e.char_pr_id_ref == r.char_pr_id_ref
    &&& e.para_pr_id_ref == r.para_pr_id_ref
    &&& e.text == r.text
    &&& e.page_no == r.page_no
    &&& e.line_no == r.line_no
    &&& e.table_id == r.table_id
    &&& e.is_in_table == r.is_in_table
    &&& e.is_in_table_in_table == r.is_in_table_in_table
    &&& e.table_row == r.table_row
    &&& e.table_col == r.table_col
    &&& e.is_in_shape == r.is_in_shape
}

/// Whether run `r`'s style is named by none of the kinds of `allowed`.
pub open spec fn kind_refused(allowed: Seq<StyleType>, r: RunView) -> bool {
    forall|i: int| 0 <= i < allowed.len() ==> style_korean_name(#[trigger] allowed[i]) != r.style_name
}

/// The kind findings are those of the runs whose style name is none of
/// the allowed kinds' names, one each, in run order, each placed at its
/// run with the style-kind code.
pub proof fn law_style_type_findings(allowed: Seq<StyleType>, rs: Seq<RunView>)
    ensures
        style_type_errors(allowed, rs).len() == rs.filter(|r: RunView| kind_refused(allowed, r)).len(),
        forall|i: int|
            0 <= i < style_type_errors(allowed, rs).len() ==> {
                let e = #[trigger] style_type_errors(allowed, rs)[i];
                &&& placed_at(e, rs.filter(|r: RunView| kind_refused(allowed, r))[i])
                &&& e.error_code == STYLE_TYPE
                &&& e.use_style
            },
    decreases rs.len(),
{
    reveal_with_fuel(Seq::filter, 1);
    let pred = |r: RunView| kind_refused(allowed, r);
    if rs.len() > 0 {
        law_style_type_findings(allowed, rs.drop_last());
        let pre = style_type_errors(allowed, rs.drop_last());
        let all = style_type_errors(allowed, rs);
        let fpre = rs.drop_last().filter(pred);
        let f = rs.filter(pred);
        assert(f == if pred(rs.last()) { fpre.push(rs.last()) } else { fpre });
        assert forall|i: int| 0 <= i < all.len() implies {
            let e = #[trigger] all[i];
            &&& placed_at(e, f[i])
            &&& e.error_code == STYLE_TYPE
            &&& e.use_style
        } by {
            if i < pre.len() {
                assert(all[i] == pre[i]);
                assert(f[i] == fpre[i]);
            }
        }
    }
}

/// The permission findings are those of the runs of a non-default style,
/// one each, in run order, each placed at its run with the permission
/// code.
pub proof fn law_style_permission_findings(rs: Seq<RunView>)
    ensures
        style_permission_errors(rs).len() == rs.filter(|r: RunView| r.is_style).len(),
        forall|i: int|
            0 <= i < style_permission_errors(rs).len() ==> {
                let e = #[trigger] style_permission_errors(rs)[i];
                &&& placed_at(e, rs.filter(|r: RunView| r.is_style)[i])
                &&& e.error_code == STYLE_PERMISSION
                &&& e.use_style
            },
    decreases rs.len(),
{
    reveal_with_fuel(Seq::filter, 1);
    let pred = |r: RunView| r.is_style;
    if rs.len() > 0 {
        law_style_permission_findings(rs.drop_last());
        let pre = style_permission_errors(rs.drop_last());
        let all = style_permission_errors(rs);
        let fpre = rs.drop_last().filter(pred);
        let f = rs.filter(pred);
        assert(f == if pred(rs.last()) { fpre.push(rs.last()) } else { fpre });
        assert forall|i: int| 0 <= i < all.len() implies {
            let e = #[trigger] all[i];
            &&& placed_at(e, f[i])
            &&& e.error_code == STYLE_PERMISSION
            &&& e.use_style
        } by {
            if i < pre.len() {
                assert(all[i] == pre[i]);
                assert(f[i] == fpre[i]);
            }
        }
    }
}

/// The hyperlink findings are those of the hyperlink runs, one each, in
/// run order, each placed at its run with the hyperlink code.
pub proof fn law_hyperlink_findings_placed(rs: Seq<RunView>)
    ensures
        hyperlink_run_errors(rs).len() == rs.filter(|r: RunView| r.is_hyperlink).len(),
        forall|i: int|
            0 <= i < hyperlink_run_errors(rs).len() ==> {
                let e = #[trigger] hyperlink_run_errors(rs)[i];
                &&& placed_at(e, rs.filter(|r: RunView| r.is_hyperlink)[i])
                &&& e.error_code == HYPERLINK_PERMISSION
                &&& e.use_hyperlink
            },
    decreases rs.len(),
{
    reveal_with_fuel(Seq::filter, 1);
    let pred = |r: RunView| r.is_hyperlink;
    if rs.len() > 0 {
        law_hyperlink_findings_placed(rs.drop_last());
        let pre = hyperlink_run_errors(rs.drop_last());
        let all = hyperlink_run_errors(rs);
        let fpre = rs.drop_last().filter(pred);
        let f = rs.filter(pred);
        assert(f == if pred(rs.last()) { fpre.push(rs.last()) } else { fpre });
        assert forall|i: int| 0 <= i < all.len() implies {
            let e = #[trigger] all[i];
            &&& placed_at(e, f[i])
            &&& e.error_code == HYPERLINK_PERMISSION
            &&& e.use_hyperlink
        } by {
            if i < pre.len() {
                assert(all[i] == pre[i]);
                assert(f[i] == fpre[i]);
            }
        }
    }
}

/// Whether run `r`'s text, read as the range check reads it, holds a
/// character outside `[min, max]`.
pub open spec fn text_out_of_range(r: RunView, min: u32, max: u32) -> bool {
    exists|i: int| 0 <= i < logical_text(r.text).len() && out_of_range(#[trigger] logical_text(r.text)[i], min, max)
}

/// The range findings are those of the runs whose text holds a character
/// outside the spec's range, one each, in run order, each placed at its
/// run.
pub proof fn law_special_findings_placed(spec: SpecialCharacterSpec, rs: Seq<RunView>)
    ensures
        special_errors(spec, rs).len() == rs.filter(|r: RunView| text_out_of_range(r, spec.minimum, spec.maximum)).len(),
        forall|i: int|
            0 <= i < special_errors(spec, rs).len() ==> placed_at(
                #[trigger] special_errors(spec, rs)[i],
                rs.filter(|r: RunView| text_out_of_range(r, spec.minimum, spec.maximum))[i],
            ),
    decreases rs.len(),
{
    reveal_with_fuel(Seq::filter, 1);
    let pred = |r: RunView| text_out_of_range(r, spec.minimum, spec.maximum);
    if rs.len() > 0 {
        law_special_findings_placed(spec, rs.drop_last());
        let r = rs.last();
        law_run_range_error(spec, r, logical_text(r.text));
        let pre = special_errors(spec, rs.drop_last());
        let one = run_range_error(spec, r, logical_text(r.text));
        let all = special_errors(spec, rs);
        let fpre = rs.drop_last().filter(pred);
        let f = rs.filter(pred);
        assert(f == if pred(r) { fpre.push(r) } else { fpre });
        assert(pred(r) == (one.len() == 1));
        assert forall|i: int| 0 <= i < all.len() implies placed_at(#[trigger] all[i], f[i]) by {
            if i < pre.len() {
                assert(all[i] == pre[i]);
                assert(f[i] == fpre[i]);
            } else {
                assert(all[i] == one[0]);
            }
        }
    }
}

} // verus!
