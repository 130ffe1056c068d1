//! When the outline check reports a start-number finding (whenever the
//! spec sets a start number, whatever else it sets) and when it reports
//! a per-level finding.

use vstd::prelude::*;
use crate::checker::{code_errors, first_runs, ErrorView};
use crate::checker::numbering::level_sequence_errors;
use crate::checker::outline_shape::{outline_errors, outline_fold, outline_level_codes, outline_level_errors, outline_top_errors};
use crate::checker::para_shape::push_if;
use crate::document::header::{header_wf, HeaderTables};
use crate::document::header::types::HeadingType;
use crate::document::run_type::RunView;
use crate::error::{
    OUTLINESHAPE_LEVELTYPE, OUTLINESHAPE_LEVELTYPE_LEVEL, OUTLINESHAPE_LEVEL_NUMBERSHAPE, OUTLINESHAPE_LEVEL_NUMBERTYPE,
    OUTLINESHAPE_STARTNUMBER, OUTLINESHAPE_VALUE,
};
use crate::checker::numbering::num_shape_name;
use crate::checker::outline_shape::{find_level, next_level};
use crate::document::header::types::{find_head, ParaHead};
use crate::laws::numbering_rules::law_outline_level_codes;
use crate::laws::para_shape_rules::holds;
use crate::spec::LevelType;
use crate::spec::OutlineShapeSpec;

verus! {

/// Whether some finding of `errs` has code `code`.
pub open spec fn has_err(errs: Seq<ErrorView>, code: u32) -> bool {
    exists|i: int| 0 <= i < errs.len() && (#[trigger] errs[i]).error_code == code
}

/// Whether run `r` is in an outline paragraph whose section has a known
/// outline numbering.
pub open spec fn outline_run(h: HeaderTables, r: RunView) -> bool {
    &&& h.para_shapes@.contains_key(r.para_pr_id_ref)
    &&& h.para_shapes@[r.para_pr_id_ref].heading_type == HeadingType::Outline
    &&& h.numberings@.contains_key(r.outline_shape_id_ref)
}

/// Whether run `r` is in an outline paragraph whose numbering starts
/// elsewhere than `s`.
pub open spec fn start_off(h: HeaderTables, r: RunView, s: u32) -> bool {
    outline_run(h, r) && h.numberings@[r.outline_shape_id_ref].start != s
}

/// Whether some run of `reps` is in an outline paragraph whose numbering
/// starts elsewhere than `s`.
pub open spec fn any_start_off(h: HeaderTables, reps: Seq<RunView>, s: u32) -> bool {
    exists|k: int| 0 <= k < reps.len() && start_off(h, #[trigger] reps[k], s)
}

pub(crate) proof fn lemma_has_err_add(a: Seq<ErrorView>, b: Seq<ErrorView>, code: u32)
    ensures
        has_err(a + b, code) == (has_err(a, code) || has_err(b, code)),
{
    let ab = a + b;
    if has_err(a, code) {
        let i = choose|i: int| 0 <= i < a.len() && (#[trigger] a[i]).error_code == code;
        assert(ab[i] == a[i]);
    }
    if has_err(b, code) {
        let i = choose|i: int| 0 <= i < b.len() && (#[trigger] b[i]).error_code == code;
        assert(ab[a.len() + i] == b[i]);
    }
    if has_err(ab, code) {
        let i = choose|i: int| 0 <= i < ab.len() && (#[trigger] ab[i]).error_code == code;
        if i < a.len() {
            assert(ab[i] == a[i]);
        } else {
            assert(ab[i] == b[i - a.len()]);
        }
    }
}

pub(crate) proof fn lemma_code_errors_has(r: RunView, codes: Seq<u32>, code: u32)
    ensures
        has_err(code_errors(r, codes), code) == codes.contains(code),
{
    let es = code_errors(r, codes);
    if codes.contains(code) {
        let i = choose|i: int| 0 <= i < codes.len() && codes[i] == code;
        assert(es[i].error_code == code);
    }
    if has_err(es, code) {
        let i = choose|i: int| 0 <= i < es.len() && (#[trigger] es[i]).error_code == code;
        assert(codes[i] == code);
    }
}

/// The start-number code comes only from the template-wide findings.
proof fn lemma_top_start(spec: OutlineShapeSpec, r: RunView, n: crate::document::header::types::Numbering)
    ensures
        has_err(outline_top_errors(spec, r, n), OUTLINESHAPE_STARTNUMBER) == (spec.start_number matches Some(s)
            && n.start != s),
{
    let codes = push_if(
        Seq::empty(),
        match spec.start_number {
            Some(s) => n.start != s,
            None => false,
        },
        OUTLINESHAPE_STARTNUMBER,
    );
    lemma_code_errors_has(r, codes, OUTLINESHAPE_STARTNUMBER);
    if codes.len() > 0 {
        assert(codes[0] == OUTLINESHAPE_STARTNUMBER);
    }
    let ls = level_sequence_errors(r, n, spec.leveltype@, OUTLINESHAPE_LEVELTYPE, OUTLINESHAPE_LEVELTYPE_LEVEL);
    assert(!has_err(ls, OUTLINESHAPE_STARTNUMBER)) by {
        if has_err(ls, OUTLINESHAPE_STARTNUMBER) {
            let i = choose|i: int| 0 <= i < ls.len() && (#[trigger] ls[i]).error_code == OUTLINESHAPE_STARTNUMBER;
        }
    }
    lemma_has_err_add(code_errors(r, codes), ls, OUTLINESHAPE_STARTNUMBER);
}

proof fn lemma_level_no_start(spec: OutlineShapeSpec, r: RunView, n: crate::document::header::types::Numbering, level: u32)
    ensures
        !has_err(outline_level_errors(spec, r, n, level), OUTLINESHAPE_STARTNUMBER),
{
    match crate::document::header::types::find_head(n.para_heads@, level) {
        Some(head) => match crate::checker::outline_shape::find_level(spec.leveltype@, level) {
            Some(lt) => {
                let codes = outline_level_codes(spec, head, lt);
                lemma_code_errors_has(r, codes, OUTLINESHAPE_STARTNUMBER);
                assert(!codes.contains(OUTLINESHAPE_STARTNUMBER)) by {
                    if codes.contains(OUTLINESHAPE_STARTNUMBER) {
                        let i = choose|i: int| 0 <= i < codes.len() && codes[i] == OUTLINESHAPE_STARTNUMBER;
                    }
                }
            },
            None => {},
        },
        None => {},
    }
}

proof fn lemma_fold_start(spec: OutlineShapeSpec, h: HeaderTables, reps: Seq<RunView>, s: u32)
    requires
        header_wf(h),
        spec.start_number == Some(s),
    ensures
        has_err(outline_fold(spec, h, reps).0, OUTLINESHAPE_STARTNUMBER) == any_start_off(h, reps, s),
        forall|id: u32| #[trigger] outline_fold(spec, h, reps).1.contains(id) ==> exists|k: int|
            0 <= k < reps.len() && outline_run(h, #[trigger] reps[k]) && reps[k].outline_shape_id_ref == id,
    decreases reps.len(),
{
    if reps.len() == 0 {
        assert(!has_err(Seq::<ErrorView>::empty(), OUTLINESHAPE_STARTNUMBER));
    } else {
        let pre = reps.drop_last();
        let r = reps.last();
        lemma_fold_start(spec, h, pre, s);
        let prev = outline_fold(spec, h, pre);
        assert forall|k: int| 0 <= k < pre.len() implies #[trigger] pre[k] == reps[k] by {}
        assert(any_start_off(h, reps, s) == (any_start_off(h, pre, s) || start_off(h, r, s))) by {
            if any_start_off(h, reps, s) {
                let k = choose|k: int| 0 <= k < reps.len() && start_off(h, #[trigger] reps[k], s);
                if k < pre.len() {
                    assert(start_off(h, pre[k], s));
                }
            }
            if any_start_off(h, pre, s) {
                let k = choose|k: int| 0 <= k < pre.len() && start_off(h, #[trigger] pre[k], s);
                assert(start_off(h, reps[k], s));
            }
            if start_off(h, r, s) {
                assert(start_off(h, reps[reps.len() - 1], s));
            }
        }
        if outline_run(h, r) {
            let n = h.numberings@[r.outline_shape_id_ref];
            assert(n.id == r.outline_shape_id_ref);
            let top = if !prev.1.contains(n.id) {
                outline_top_errors(spec, r, n)
            } else {
                Seq::empty()
            };
            let level = crate::checker::outline_shape::next_level(h.para_shapes@[r.para_pr_id_ref].heading_level);
            lemma_top_start(spec, r, n);
            lemma_level_no_start(spec, r, n, level);
            lemma_has_err_add(prev.0, top, OUTLINESHAPE_STARTNUMBER);
            lemma_has_err_add(prev.0 + top, outline_level_errors(spec, r, n, level), OUTLINESHAPE_STARTNUMBER);
            if prev.1.contains(n.id) {
                assert(!has_err(Seq::<ErrorView>::empty(), OUTLINESHAPE_STARTNUMBER));
                let k = choose|k: int| 0 <= k < pre.len() && outline_run(h, #[trigger] pre[k]) && pre[k].outline_shape_id_ref == n.id;
                if start_off(h, r, s) {
                    assert(start_off(h, pre[k], s));
                }
            }
            let cur = outline_fold(spec, h, reps);
            assert forall|id: u32| #[trigger] cur.1.contains(id) implies exists|k: int|
                0 <= k < reps.len() && outline_run(h, #[trigger] reps[k]) && reps[k].outline_shape_id_ref == id by {
                if id == n.id {
                    assert(outline_run(h, reps[reps.len() - 1]));
                } else {
                    assert(prev.1.contains(id));
                    let k = choose|k: int| 0 <= k < pre.len() && outline_run(h, #[trigger] pre[k]) && pre[k].outline_shape_id_ref == id;
                    assert(outline_run(h, reps[k]));
                }
            }
        } else {
            let cur = outline_fold(spec, h, reps);
            assert forall|id: u32| #[trigger] cur.1.contains(id) implies exists|k: int|
                0 <= k < reps.len() && outline_run(h, #[trigger] reps[k]) && reps[k].outline_shape_id_ref == id by {
                let k = choose|k: int| 0 <= k < pre.len() && outline_run(h, #[trigger] pre[k]) && pre[k].outline_shape_id_ref == id;
                assert(outline_run(h, reps[k]));
            }
        }
    }
}

/// When the spec sets start number `s`, the outline check reports a
/// start-number finding exactly when some paragraph shape's first run
/// lies in an outline paragraph whose section numbering starts elsewhere
/// than `s`, whether or not the spec lists level types or a value.
pub proof fn law_outline_start_number(spec: OutlineShapeSpec, h: HeaderTables, rs: Seq<RunView>, s: u32)
    requires
        header_wf(h),
        spec.start_number == Some(s),
    ensures
        has_err(outline_errors(spec, Some(h), rs), OUTLINESHAPE_STARTNUMBER) <==> any_start_off(h, first_runs(rs), s),
{
    lemma_fold_start(spec, h, first_runs(rs), s);
}

/// Whether level template `head` breaks spec entry `lt` for level code
/// `code`: its start against the spec's value, its format text against
/// the entry's number type, or its format against the entry's number
/// shape.
pub open spec fn level_breaks(spec: OutlineShapeSpec, head: ParaHead, lt: LevelType, code: u32) -> bool {
    ||| code == OUTLINESHAPE_VALUE && (spec.value matches Some(v) && head.start != v)
    ||| code == OUTLINESHAPE_LEVEL_NUMBERTYPE && (lt.numbertype matches Some(t) && head.num_format_text@ != t@)
    ||| code == OUTLINESHAPE_LEVEL_NUMBERSHAPE && head.num_format@ != match num_shape_name(lt.numbershape) {
        Some(s) => s,
        None => Seq::empty(),
    }
}

/// Whether run `r` lies in an outline paragraph whose level has both a
/// template in the section's numbering and an entry in the spec, and the
/// template breaks the entry for `code`.
pub open spec fn level_off(spec: OutlineShapeSpec, h: HeaderTables, r: RunView, code: u32) -> bool {
    &&& outline_run(h, r)
    &&& find_head(h.numberings@[r.outline_shape_id_ref].para_heads@, next_level(h.para_shapes@[r.para_pr_id_ref].heading_level)) matches Some(head)
    &&& find_level(spec.leveltype@, next_level(h.para_shapes@[r.para_pr_id_ref].heading_level)) matches Some(lt)
    &&& level_breaks(spec, head, lt, code)
}

/// Whether `code` is one of the per-level outline codes.
pub open spec fn is_level_code(code: u32) -> bool {
    code == OUTLINESHAPE_VALUE || code == OUTLINESHAPE_LEVEL_NUMBERTYPE || code == OUTLINESHAPE_LEVEL_NUMBERSHAPE
}

proof fn lemma_top_no_level_code(spec: OutlineShapeSpec, r: RunView, n: crate::document::header::types::Numbering, code: u32)
    requires
        is_level_code(code),
    ensures
        !has_err(outline_top_errors(spec, r, n), code),
{
    let codes = push_if(
        Seq::empty(),
        match spec.start_number {
            Some(s) => n.start != s,
            None => false,
        },
        OUTLINESHAPE_STARTNUMBER,
    );
    lemma_code_errors_has(r, codes, code);
    assert(!codes.contains(code)) by {
        if codes.contains(code) {
            let i = choose|i: int| 0 <= i < codes.len() && codes[i] == code;
        }
    }
    let ls = level_sequence_errors(r, n, spec.leveltype@, OUTLINESHAPE_LEVELTYPE, OUTLINESHAPE_LEVELTYPE_LEVEL);
    assert(!has_err(ls, code)) by {
        if has_err(ls, code) {
            let i = choose|i: int| 0 <= i < ls.len() && (#[trigger] ls[i]).error_code == code;
        }
    }
    lemma_has_err_add(code_errors(r, codes), ls, code);
}

proof fn lemma_level_errors_code(spec: OutlineShapeSpec, h: HeaderTables, r: RunView, code: u32)
    requires
        outline_run(h, r),
    ensures
        has_err(
            outline_level_errors(spec, r, h.numberings@[r.outline_shape_id_ref], next_level(h.para_shapes@[r.para_pr_id_ref].heading_level)),
            code,
        ) == level_off(spec, h, r, code),
{
    let n = h.numberings@[r.outline_shape_id_ref];
    let lv = next_level(h.para_shapes@[r.para_pr_id_ref].heading_level);
    match find_head(n.para_heads@, lv) {
        Some(head) => match find_level(spec.leveltype@, lv) {
            Some(lt) => {
                let codes = outline_level_codes(spec, head, lt);
                lemma_code_errors_has(r, codes, code);
                law_outline_level_codes(spec, head, lt, code);
                reveal(holds);
            },
            None => {
                assert(!has_err(Seq::<ErrorView>::empty(), code));
            },
        },
        None => {
            assert(!has_err(Seq::<ErrorView>::empty(), code));
        },
    }
}

proof fn lemma_fold_level(spec: OutlineShapeSpec, h: HeaderTables, reps: Seq<RunView>, code: u32)
    requires
        is_level_code(code),
    ensures
        has_err(outline_fold(spec, h, reps).0, code) <==> exists|k: int| 0 <= k < reps.len() && level_off(spec, h, #[trigger] reps[k], code),
    decreases reps.len(),
{
    if reps.len() == 0 {
        assert(!has_err(Seq::<ErrorView>::empty(), code));
    } else {
        let pre = reps.drop_last();
        let r = reps.last();
        lemma_fold_level(spec, h, pre, code);
        let prev = outline_fold(spec, h, pre);
        if outline_run(h, r) {
            let n = h.numberings@[r.outline_shape_id_ref];
            let top = if !prev.1.contains(n.id) {
                outline_top_errors(spec, r, n)
            } else {
                Seq::empty()
            };
            let level = next_level(h.para_shapes@[r.para_pr_id_ref].heading_level);
            lemma_top_no_level_code(spec, r, n, code);
            assert(!has_err(Seq::<ErrorView>::empty(), code));
            assert(!has_err(top, code));
            lemma_level_errors_code(spec, h, r, code);
            lemma_has_err_add(prev.0, top, code);
            lemma_has_err_add(prev.0 + top, outline_level_errors(spec, r, n, level), code);
        }
        if exists|k: int| 0 <= k < reps.len() && level_off(spec, h, #[trigger] reps[k], code) {
            let k = choose|k: int| 0 <= k < reps.len() && level_off(spec, h, #[trigger] reps[k], code);
            if k < pre.len() {
                assert(pre[k] == reps[k]);
            }
        }
        if exists|k: int| 0 <= k < pre.len() && level_off(spec, h, #[trigger] pre[k], code) {
            let k = choose|k: int| 0 <= k < pre.len() && level_off(spec, h, #[trigger] pre[k], code);
            assert(pre[k] == reps[k]);
        }
        if level_off(spec, h, r, code) {
            assert(reps[reps.len() - 1] == r);
        }
    }
}

/// When the spec sets any rule, the outline check reports a per-level
/// finding with code `code` (value, number type or number shape) exactly
/// when the first run of some paragraph shape lies in an outline
/// paragraph whose level template breaks the spec's entry for that
/// level.
pub proof fn law_outline_level_findings(spec: OutlineShapeSpec, h: HeaderTables, rs: Seq<RunView>, code: u32)
    requires
        spec.leveltype@.len() > 0 || spec.start_number is Some || spec.value is Some,
        is_level_code(code),
    ensures
        has_err(outline_errors(spec, Some(h), rs), code) <==> exists|k: int|
            0 <= k < first_runs(rs).len() && level_off(spec, h, #[trigger] first_runs(rs)[k], code),
{
    lemma_fold_level(spec, h, first_runs(rs), code);
}

} // verus!
