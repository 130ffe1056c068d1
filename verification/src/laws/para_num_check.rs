//! What the paragraph-numbering and paragraph-shape checks report over a
//! whole document: a finding with a code exactly when some paragraph
//! breaks the spec's rule for that code, whatever else the spec sets.

use vstd::prelude::*;
use crate::checker::{first_runs, ErrorView};
use crate::checker::para_num_bullet::{para_num_codes, para_num_errors, para_num_reps_errors, para_num_run_errors};
use crate::document::header::HeaderTables;
use crate::document::header::types::HeadingType;
use crate::document::run_type::RunView;
use crate::laws::numbering_rules::{law_para_num_codes, para_num_breaks};
use crate::laws::outline_rules::{has_err, lemma_code_errors_has, lemma_has_err_add};
use crate::laws::para_shape_rules::holds;
use crate::checker::para_shape::{para_shape_codes, para_shape_errors, para_shape_reps_errors, para_shape_run_errors};
use crate::laws::para_shape_rules::{law_para_shape_code_iff_rule_broken, para_breaks};
use crate::spec::{ParaNumBulletSpec, ParaShapeSpec};

verus! {

/// Whether run `r` lies in a numbered paragraph whose numbering the
/// header knows, and that paragraph breaks the spec's rule for `code`.
pub open spec fn numbered_breaks(spec: ParaNumBulletSpec, h: HeaderTables, r: RunView, code: u32) -> bool {
    &&& h.para_shapes@.contains_key(r.para_pr_id_ref)
    &&& h.para_shapes@[r.para_pr_id_ref].heading_type == HeadingType::Number
    &&& h.numberings@.contains_key(h.para_shapes@[r.para_pr_id_ref].heading_id_ref)
    &&& para_num_breaks(
        spec,
        h.numberings@[h.para_shapes@[r.para_pr_id_ref].heading_id_ref],
        h.para_shapes@[r.para_pr_id_ref].heading_level,
        code,
    )
}

proof fn lemma_holds_contains(s: Seq<u32>, k: u32)
    ensures
        holds(s, k) == s.contains(k),
{
    reveal(holds);
}

proof fn lemma_reps_code(spec: ParaNumBulletSpec, h: HeaderTables, reps: Seq<RunView>, code: u32)
    ensures
        has_err(para_num_reps_errors(spec, h, reps), code) <==> exists|k: int|
            0 <= k < reps.len() && numbered_breaks(spec, h, #[trigger] reps[k], code),
    decreases reps.len(),
{
    if reps.len() == 0 {
        assert(!has_err(Seq::<ErrorView>::empty(), code));
    } else {
        let pre = reps.drop_last();
        let r = reps.last();
        lemma_reps_code(spec, h, pre, code);
        let one = para_num_run_errors(spec, h, r);
        lemma_has_err_add(para_num_reps_errors(spec, h, pre), one, code);
        if h.para_shapes@.contains_key(r.para_pr_id_ref) && h.para_shapes@[r.para_pr_id_ref].heading_type == HeadingType::Number
            && h.numberings@.contains_key(h.para_shapes@[r.para_pr_id_ref].heading_id_ref) {
            let n = h.numberings@[h.para_shapes@[r.para_pr_id_ref].heading_id_ref];
            let lv = h.para_shapes@[r.para_pr_id_ref].heading_level;
            lemma_code_errors_has(r, para_num_codes(spec, n, lv), code);
            lemma_holds_contains(para_num_codes(spec, n, lv), code);
            law_para_num_codes(spec, n, lv, code);
        } else {
            assert(!has_err(Seq::<ErrorView>::empty(), code));
        }
        if exists|k: int| 0 <= k < reps.len() && numbered_breaks(spec, h, #[trigger] reps[k], code) {
            let k = choose|k: int| 0 <= k < reps.len() && numbered_breaks(spec, h, #[trigger] reps[k], code);
            if k < pre.len() {
                assert(pre[k] == reps[k]);
            }
        }
        if exists|k: int| 0 <= k < pre.len() && numbered_breaks(spec, h, #[trigger] pre[k], code) {
            let k = choose|k: int| 0 <= k < pre.len() && numbered_breaks(spec, h, #[trigger] pre[k], code);
            assert(pre[k] == reps[k]);
        }
        if numbered_breaks(spec, h, r, code) {
            assert(reps[reps.len() - 1] == r);
        }
    }
}

/// When the spec sets any rule (a level type, a start number or a
/// value), the paragraph-numbering check reports a finding with code
/// `code` exactly when the first run of some paragraph shape lies in a
/// numbered paragraph that breaks the spec's rule for `code`; a spec set
/// only by its start number or value is checked like any other.
pub proof fn law_para_num_check_codes(spec: ParaNumBulletSpec, h: HeaderTables, rs: Seq<RunView>, code: u32)
    requires
        spec.leveltype@.len() > 0 || spec.start_number is Some || spec.value is Some,
    ensures
        has_err(para_num_errors(spec, Some(h), rs), code) <==> exists|k: int|
            0 <= k < first_runs(rs).len() && numbered_breaks(spec, h, #[trigger] first_runs(rs)[k], code),
{
    lemma_reps_code(spec, h, first_runs(rs), code);
}

/// Whether run `r` lies in a paragraph whose shape the header knows and
/// breaks the spec's rule for `code`.
pub open spec fn shaped_breaks(spec: ParaShapeSpec, h: HeaderTables, r: RunView, code: u32) -> bool {
    h.para_shapes@.contains_key(r.para_pr_id_ref) && para_breaks(spec, h.para_shapes@[r.para_pr_id_ref], code)
}

proof fn lemma_shape_reps_code(spec: ParaShapeSpec, h: HeaderTables, reps: Seq<RunView>, code: u32)
    ensures
        has_err(para_shape_reps_errors(spec, h, reps), code) <==> exists|k: int|
            0 <= k < reps.len() && shaped_breaks(spec, h, #[trigger] reps[k], code),
    decreases reps.len(),
{
    if reps.len() == 0 {
        assert(!has_err(Seq::<ErrorView>::empty(), code));
    } else {
        let pre = reps.drop_last();
        let r = reps.last();
        lemma_shape_reps_code(spec, h, pre, code);
        lemma_has_err_add(para_shape_reps_errors(spec, h, pre), para_shape_run_errors(spec, h, r), code);
        if h.para_shapes@.contains_key(r.para_pr_id_ref) {
            let ps = h.para_shapes@[r.para_pr_id_ref];
            lemma_code_errors_has(r, para_shape_codes(spec, ps), code);
            lemma_holds_contains(para_shape_codes(spec, ps), code);
            law_para_shape_code_iff_rule_broken(spec, ps, code);
        } else {
            assert(!has_err(Seq::<ErrorView>::empty(), code));
        }
        if exists|k: int| 0 <= k < reps.len() && shaped_breaks(spec, h, #[trigger] reps[k], code) {
            let k = choose|k: int| 0 <= k < reps.len() && shaped_breaks(spec, h, #[trigger] reps[k], code);
            if k < pre.len() {
                assert(pre[k] == reps[k]);
            }
        }
        if exists|k: int| 0 <= k < pre.len() && shaped_breaks(spec, h, #[trigger] pre[k], code) {
            let k = choose|k: int| 0 <= k < pre.len() && shaped_breaks(spec, h, #[trigger] pre[k], code);
            assert(pre[k] == reps[k]);
        }
        if shaped_breaks(spec, h, r, code) {
            assert(reps[reps.len() - 1] == r);
        }
    }
}

/// The paragraph-shape check reports a finding with code `code` exactly
/// when the first run of some paragraph shape lies in a paragraph whose
/// shape breaks the spec's rule for `code`.
pub proof fn law_para_shape_check_codes(spec: ParaShapeSpec, h: HeaderTables, rs: Seq<RunView>, code: u32)
    ensures
        has_err(para_shape_errors(spec, Some(h), rs), code) <==> exists|k: int|
            0 <= k < first_runs(rs).len() && shaped_breaks(spec, h, #[trigger] first_runs(rs)[k], code),
{
    lemma_shape_reps_code(spec, h, first_runs(rs), code);
}

} // verus!
