//! Laws of the checks that report once per paragraph shape: at most one
//! finding per paragraph shape and code, each with its category's code.

use vstd::prelude::*;
use crate::checker::{ErrorView, code_errors, first_runs};
use crate::checker::numbering::{level_sequence_errors, levels_sequential, num_shape_name, numbering_error};
use crate::checker::outline_shape::{find_level, next_level, outline_errors, outline_fold, outline_level_codes, outline_level_errors, outline_spec_empty, outline_step, outline_top_errors};
use crate::checker::para_num_bullet::{lemma_para_num_codes_inc, para_num_codes, para_num_errors, para_num_reps_errors, para_num_run_errors, para_num_spec_empty};
use crate::checker::para_shape::{lemma_para_shape_codes_inc, para_shape_codes, para_shape_errors, para_shape_reps_errors, para_shape_run_errors, push_if};
use crate::document::header::HeaderTables;
use crate::document::header::types::{HeadingType, Numbering, find_head};
use crate::document::run_type::RunView;
use crate::error::{OUTLINESHAPE_LEVELTYPE, OUTLINESHAPE_LEVELTYPE_LEVEL, OUTLINESHAPE_LEVEL_NUMBERSHAPE, OUTLINESHAPE_LEVEL_NUMBERTYPE, OUTLINESHAPE_STARTNUMBER, OUTLINESHAPE_TYPE, OUTLINESHAPE_VALUE, PARANUM_LEVEL_NUMBERSHAPE, PARANUM_TYPE, PARASHAPE_HORIZONTAL, PARASHAPE_SPACINGIGNORE};
use crate::laws::{codes_within, fold_errors, lemma_code_errors_ok, lemma_fold_codes, lemma_fold_unique, lemma_inc_empty, lemma_inc_widen, lemma_push_if_inc, one_per_shape_and_code, per_run_ok};
use crate::laws::validators::law_representatives_dedup;
use crate::spec::{OutlineShapeSpec, ParaNumBulletSpec, ParaShapeSpec};

verus! {

/// The per-run findings of the paragraph-shape check.
pub open spec fn para_shape_f(spec: ParaShapeSpec, h: HeaderTables) -> spec_fn(RunView) -> Seq<ErrorView> {
    |r: RunView| para_shape_run_errors(spec, h, r)
}

proof fn lemma_para_shape_fold(spec: ParaShapeSpec, h: HeaderTables, reps: Seq<RunView>)
    ensures
        para_shape_reps_errors(spec, h, reps) == fold_errors(reps, para_shape_f(spec, h)),
    decreases reps.len(),
{
    if reps.len() > 0 {
        lemma_para_shape_fold(spec, h, reps.drop_last());
    }
}

proof fn lemma_para_shape_run_ok(spec: ParaShapeSpec, h: HeaderTables, r: RunView)
    ensures
        per_run_ok(para_shape_f(spec, h), r),
        codes_within(para_shape_f(spec, h)(r), PARASHAPE_HORIZONTAL, (PARASHAPE_SPACINGIGNORE + 1) as u32),
{
    if h.para_shapes@.contains_key(r.para_pr_id_ref) {
        let codes = para_shape_codes(spec, h.para_shapes@[r.para_pr_id_ref]);
        lemma_para_shape_codes_inc(spec, h.para_shapes@[r.para_pr_id_ref]);
        lemma_code_errors_ok(r, codes, PARASHAPE_HORIZONTAL as int, (PARASHAPE_SPACINGIGNORE + 1) as int);
    }
}

/// The paragraph-shape check reports each code at most once per
/// paragraph shape, however many runs use the shape, and every finding
/// carries a paragraph-shape code.
pub proof fn law_para_shape_one_finding_per_shape(spec: ParaShapeSpec, header: Option<HeaderTables>, rs: Seq<RunView>)
    ensures
        one_per_shape_and_code(para_shape_errors(spec, header, rs)),
        codes_within(para_shape_errors(spec, header, rs), PARASHAPE_HORIZONTAL, (PARASHAPE_SPACINGIGNORE + 1) as u32),
{
    if let Some(h) = header {
        let reps = first_runs(rs);
        let f = para_shape_f(spec, h);
        law_representatives_dedup(rs);
        assert forall|k: int| 0 <= k < reps.len() implies per_run_ok(f, #[trigger] reps[k]) && codes_within(
            f(reps[k]),
            PARASHAPE_HORIZONTAL,
            (PARASHAPE_SPACINGIGNORE + 1) as u32,
        ) by {
            lemma_para_shape_run_ok(spec, h, reps[k]);
        }
        lemma_fold_unique(reps, f);
        lemma_para_shape_fold(spec, h, reps);
        lemma_fold_codes(reps, f, PARASHAPE_HORIZONTAL, (PARASHAPE_SPACINGIGNORE + 1) as u32);
    }
}

/// The per-run findings of the paragraph-numbering check.
pub open spec fn para_num_f(spec: ParaNumBulletSpec, h: HeaderTables) -> spec_fn(RunView) -> Seq<ErrorView> {
    |r: RunView| para_num_run_errors(spec, h, r)
}

proof fn lemma_para_num_fold(spec: ParaNumBulletSpec, h: HeaderTables, reps: Seq<RunView>)
    ensures
        para_num_reps_errors(spec, h, reps) == fold_errors(reps, para_num_f(spec, h)),
    decreases reps.len(),
{
    if reps.len() > 0 {
        lemma_para_num_fold(spec, h, reps.drop_last());
    }
}

proof fn lemma_para_num_run_ok(spec: ParaNumBulletSpec, h: HeaderTables, r: RunView)
    ensures
        per_run_ok(para_num_f(spec, h), r),
        codes_within(para_num_f(spec, h)(r), PARANUM_TYPE, (PARANUM_LEVEL_NUMBERSHAPE + 1) as u32),
{
    if h.para_shapes@.contains_key(r.para_pr_id_ref) && h.para_shapes@[r.para_pr_id_ref].heading_type
        == HeadingType::Number && h.numberings@.contains_key(h.para_shapes@[r.para_pr_id_ref].heading_id_ref) {
        let ps = h.para_shapes@[r.para_pr_id_ref];
        let n = h.numberings@[ps.heading_id_ref];
        lemma_para_num_codes_inc(spec, n, ps.heading_level);
        lemma_code_errors_ok(r, para_num_codes(spec, n, ps.heading_level), PARANUM_TYPE as int, (PARANUM_LEVEL_NUMBERSHAPE + 1) as int);
    }
}

/// The paragraph-numbering check reports each code at most once per
/// paragraph shape, however many runs use the shape, and every finding
/// carries a paragraph-numbering code.
pub proof fn law_para_num_one_finding_per_shape(spec: ParaNumBulletSpec, header: Option<HeaderTables>, rs: Seq<RunView>)
    ensures
        one_per_shape_and_code(para_num_errors(spec, header, rs)),
        codes_within(para_num_errors(spec, header, rs), PARANUM_TYPE, (PARANUM_LEVEL_NUMBERSHAPE + 1) as u32),
{
    if !para_num_spec_empty(spec) {
        if let Some(h) = header {
            let reps = first_runs(rs);
            let f = para_num_f(spec, h);
            law_representatives_dedup(rs);
            assert forall|k: int| 0 <= k < reps.len() implies per_run_ok(f, #[trigger] reps[k]) && codes_within(
                f(reps[k]),
                PARANUM_TYPE,
                (PARANUM_LEVEL_NUMBERSHAPE + 1) as u32,
            ) by {
                lemma_para_num_run_ok(spec, h, reps[k]);
            }
            lemma_fold_unique(reps, f);
            lemma_para_num_fold(spec, h, reps);
            lemma_fold_codes(reps, f, PARANUM_TYPE, (PARANUM_LEVEL_NUMBERSHAPE + 1) as u32);
        }
    }
}

/// The template-wide outline findings of run `r` belong to its
/// paragraph shape and carry the start-number, level-count or
/// level-sequence code, in that order.
proof fn lemma_outline_top(spec: OutlineShapeSpec, r: RunView, n: Numbering)
    ensures
        forall|i: int|
            0 <= i < outline_top_errors(spec, r, n).len() ==> {
                let e = #[trigger] outline_top_errors(spec, r, n)[i];
                &&& e.para_pr_id_ref == r.para_pr_id_ref
                &&& OUTLINESHAPE_STARTNUMBER <= e.error_code <= OUTLINESHAPE_LEVELTYPE_LEVEL
                &&& e.error_code != OUTLINESHAPE_VALUE
            },
        forall|i: int, j: int|
            0 <= i < j < outline_top_errors(spec, r, n).len() ==> (#[trigger] outline_top_errors(spec, r, n)[i]).error_code
                < (#[trigger] outline_top_errors(spec, r, n)[j]).error_code,
{
    let b = match spec.start_number {
        Some(s) => n.start != s,
        None => false,
    };
    let p = push_if(Seq::empty(), b, OUTLINESHAPE_STARTNUMBER);
    let a = code_errors(r, p);
    let l = level_sequence_errors(r, n, spec.leveltype@, OUTLINESHAPE_LEVELTYPE, OUTLINESHAPE_LEVELTYPE_LEVEL);
    let t = outline_top_errors(spec, r, n);
    assert(t == a + l);
    assert forall|i: int| 0 <= i < a.len() implies (#[trigger] a[i]).error_code == OUTLINESHAPE_STARTNUMBER
        && a[i].para_pr_id_ref == r.para_pr_id_ref by {
        assert(p[i] == OUTLINESHAPE_STARTNUMBER);
    }
    let l1 = if spec.leveltype@.len() > 0 && spec.leveltype@.len() != n.para_heads@.len() {
        seq![numbering_error(r, OUTLINESHAPE_LEVELTYPE)]
    } else {
        Seq::empty()
    };
    let l2 = if !levels_sequential(spec.leveltype@) {
        seq![numbering_error(r, OUTLINESHAPE_LEVELTYPE_LEVEL)]
    } else {
        Seq::empty()
    };
    assert(l == l1 + l2);
    assert forall|i: int| 0 <= i < t.len() implies {
        let e = #[trigger] t[i];
        &&& e.para_pr_id_ref == r.para_pr_id_ref
        &&& OUTLINESHAPE_STARTNUMBER <= e.error_code <= OUTLINESHAPE_LEVELTYPE_LEVEL
        &&& e.error_code != OUTLINESHAPE_VALUE
    } by {
        if i < a.len() {
            assert(t[i] == a[i]);
        } else if i < a.len() + l1.len() {
            assert(t[i] == l1[i - a.len()]);
        } else {
            assert(t[i] == l2[i - a.len() - l1.len()]);
        }
    }
    assert forall|i: int, j: int| 0 <= i < j < t.len() implies (#[trigger] t[i]).error_code < (#[trigger] t[j]).error_code by {
        if j < a.len() {
            assert(false);
        } else if i < a.len() {
            assert(t[i] == a[i]);
            if j < a.len() + l1.len() {
                assert(t[j] == l1[j - a.len()]);
            } else {
                assert(t[j] == l2[j - a.len() - l1.len()]);
            }
        } else if j < a.len() + l1.len() {
            assert(false);
        } else if i < a.len() + l1.len() {
            assert(t[i] == l1[i - a.len()]);
            assert(t[j] == l2[j - a.len() - l1.len()]);
        } else {
            assert(false);
        }
    }
}

/// The per-level outline findings of run `r` belong to its paragraph
/// shape and carry the value, number-type or number-shape code, in that
/// order.
proof fn lemma_outline_level(spec: OutlineShapeSpec, r: RunView, n: Numbering, level: u32)
    ensures
        forall|i: int|
            0 <= i < outline_level_errors(spec, r, n, level).len() ==> {
                let e = #[trigger] outline_level_errors(spec, r, n, level)[i];
                &&& e.para_pr_id_ref == r.para_pr_id_ref
                &&& e.error_code == OUTLINESHAPE_VALUE || OUTLINESHAPE_LEVEL_NUMBERTYPE <= e.error_code
                    <= OUTLINESHAPE_LEVEL_NUMBERSHAPE
            },
        forall|i: int, j: int|
            0 <= i < j < outline_level_errors(spec, r, n, level).len() ==> (#[trigger] outline_level_errors(
                spec,
                r,
                n,
                level,
            )[i]).error_code != (#[trigger] outline_level_errors(spec, r, n, level)[j]).error_code,
{
    if let Some(head) = find_head(n.para_heads@, level) {
        if let Some(lt) = find_level(spec.leveltype@, level) {
            let b1 = match spec.value {
                Some(v) => head.start != v,
                None => false,
            };
            let b2 = match lt.numbertype {
                Some(t) => head.num_format_text@ != t@,
                None => false,
            };
            let b3 = head.num_format@ != match num_shape_name(lt.numbershape) {
                Some(s) => s,
                None => Seq::empty(),
            };
            let c0 = Seq::<u32>::empty();
            let c1 = push_if(c0, b1, OUTLINESHAPE_VALUE);
            let c2 = push_if(c1, b2, OUTLINESHAPE_LEVEL_NUMBERTYPE);
            let c3 = push_if(c2, b3, OUTLINESHAPE_LEVEL_NUMBERSHAPE);
            assert(c3 == outline_level_codes(spec, head, lt));
            lemma_inc_empty(OUTLINESHAPE_VALUE as int, OUTLINESHAPE_VALUE as int);
            lemma_push_if_inc(c0, b1, OUTLINESHAPE_VALUE, OUTLINESHAPE_VALUE as int);
            lemma_inc_widen(c1, OUTLINESHAPE_VALUE as int, (OUTLINESHAPE_VALUE + 1) as int, OUTLINESHAPE_VALUE as int, OUTLINESHAPE_LEVEL_NUMBERTYPE as int);
            lemma_push_if_inc(c1, b2, OUTLINESHAPE_LEVEL_NUMBERTYPE, OUTLINESHAPE_VALUE as int);
            lemma_push_if_inc(c2, b3, OUTLINESHAPE_LEVEL_NUMBERSHAPE, OUTLINESHAPE_VALUE as int);
            lemma_code_errors_ok(r, c3, OUTLINESHAPE_VALUE as int, (OUTLINESHAPE_LEVEL_NUMBERSHAPE + 1) as int);
            let e = code_errors(r, c3);
            assert forall|i: int| 0 <= i < e.len() implies {
                let x = #[trigger] e[i];
                x.error_code == OUTLINESHAPE_VALUE || OUTLINESHAPE_LEVEL_NUMBERTYPE <= x.error_code
                    <= OUTLINESHAPE_LEVEL_NUMBERSHAPE
            } by {
                assert(e[i].error_code == c3[i]);
                if i < c2.len() {
                    assert(c3[i] == c2[i]);
                    if i < c1.len() {
                        assert(c2[i] == c1[i]);
                    }
                }
            }
        }
    }
}

proof fn lemma_outline_step(
    spec: OutlineShapeSpec,
    h: HeaderTables,
    errs: Seq<ErrorView>,
    checked: Set<u32>,
    r: RunView,
)
    ensures
        ({
            let out = outline_step(spec, h, errs, checked, r).0;
            &&& out.len() >= errs.len()
            &&& forall|i: int| 0 <= i < errs.len() ==> out[i] == errs[i]
            &&& forall|i: int| errs.len() <= i < out.len() ==> (#[trigger] out[i]).para_pr_id_ref == r.para_pr_id_ref
                && OUTLINESHAPE_TYPE <= out[i].error_code <= OUTLINESHAPE_LEVEL_NUMBERSHAPE
            &&& forall|i: int, j: int|
                errs.len() <= i < j < out.len() ==> (#[trigger] out[i]).error_code != (#[trigger] out[j]).error_code
        }),
{
    if h.para_shapes@.contains_key(r.para_pr_id_ref) && h.para_shapes@[r.para_pr_id_ref].heading_type
        == HeadingType::Outline && h.numberings@.contains_key(r.outline_shape_id_ref) {
        let n = h.numberings@[r.outline_shape_id_ref];
        let top = if !checked.contains(n.id) {
            outline_top_errors(spec, r, n)
        } else {
            Seq::empty()
        };
        let level = next_level(h.para_shapes@[r.para_pr_id_ref].heading_level);
        let lv = outline_level_errors(spec, r, n, level);
        lemma_outline_top(spec, r, n);
        lemma_outline_level(spec, r, n, level);
        let out = outline_step(spec, h, errs, checked, r).0;
        assert(out == errs + top + lv);
        assert forall|i: int| errs.len() <= i < out.len() implies (#[trigger] out[i]).para_pr_id_ref
            == r.para_pr_id_ref && OUTLINESHAPE_TYPE <= out[i].error_code <= OUTLINESHAPE_LEVEL_NUMBERSHAPE by {
            if i < errs.len() + top.len() {
                assert(out[i] == top[i - errs.len()]);
            } else {
                assert(out[i] == lv[i - errs.len() - top.len()]);
            }
        }
        assert forall|i: int, j: int| errs.len() <= i < j < out.len() implies (#[trigger] out[i]).error_code
            != (#[trigger] out[j]).error_code by {
            let k = errs.len() + top.len();
            if j < k {
                assert(out[i] == top[i - errs.len()] && out[j] == top[j - errs.len()]);
            } else if i < k {
                assert(out[i] == top[i - errs.len()] && out[j] == lv[j - k]);
            } else {
                assert(out[i] == lv[i - k] && out[j] == lv[j - k]);
            }
        }
    }
}

proof fn lemma_outline_fold(spec: OutlineShapeSpec, h: HeaderTables, reps: Seq<RunView>)
    requires
        forall|i: int, j: int|
            0 <= i < j < reps.len() ==> (#[trigger] reps[i]).para_pr_id_ref != (#[trigger] reps[j]).para_pr_id_ref,
    ensures
        one_per_shape_and_code(outline_fold(spec, h, reps).0),
        codes_within(outline_fold(spec, h, reps).0, OUTLINESHAPE_TYPE, (OUTLINESHAPE_LEVEL_NUMBERSHAPE + 1) as u32),
        forall|i: int|
            0 <= i < outline_fold(spec, h, reps).0.len() ==> exists|k: int|
                0 <= k < reps.len() && (#[trigger] outline_fold(spec, h, reps).0[i]).para_pr_id_ref == (#[trigger] reps[k]).para_pr_id_ref,
    decreases reps.len(),
{
    if reps.len() > 0 {
        let pre = reps.drop_last();
        assert forall|i: int, j: int| 0 <= i < j < pre.len() implies (#[trigger] pre[i]).para_pr_id_ref
            != (#[trigger] pre[j]).para_pr_id_ref by {
            assert(pre[i] == reps[i] && pre[j] == reps[j]);
        }
        lemma_outline_fold(spec, h, pre);
        let prev = outline_fold(spec, h, pre);
        let a = prev.0;
        let last = reps.last();
        lemma_outline_step(spec, h, a, prev.1, last);
        let out = outline_fold(spec, h, reps).0;
        assert(out == outline_step(spec, h, a, prev.1, last).0);
        assert(reps[reps.len() - 1] == last);
        assert forall|i: int| 0 <= i < out.len() implies exists|k: int|
            0 <= k < reps.len() && (#[trigger] out[i]).para_pr_id_ref == (#[trigger] reps[k]).para_pr_id_ref by {
            if i < a.len() {
                let k = choose|k: int| 0 <= k < pre.len() && a[i].para_pr_id_ref == (#[trigger] pre[k]).para_pr_id_ref;
                assert(reps[k] == pre[k]);
            }
        }
        assert forall|i: int| 0 <= i < out.len() implies OUTLINESHAPE_TYPE <= (#[trigger] out[i]).error_code
            < OUTLINESHAPE_LEVEL_NUMBERSHAPE + 1 by {
            if i < a.len() {
                assert(out[i] == a[i]);
            }
        }
        assert forall|i: int, j: int|
            0 <= i < j < out.len() && (#[trigger] out[i]).para_pr_id_ref == (#[trigger] out[j]).para_pr_id_ref implies out[i].error_code
            != out[j].error_code by {
            if j < a.len() {
                assert(out[i] == a[i] && out[j] == a[j]);
            } else if i < a.len() {
                let k = choose|k: int| 0 <= k < pre.len() && a[i].para_pr_id_ref == (#[trigger] pre[k]).para_pr_id_ref;
                assert(reps[k] == pre[k]);
            }
        }
    }
}

/// The outline check reports each code at most once per paragraph
/// shape, however many runs use the shape, and every finding carries an
/// outline code.
pub proof fn law_outline_one_finding_per_shape(spec: OutlineShapeSpec, header: Option<HeaderTables>, rs: Seq<RunView>)
    ensures
        one_per_shape_and_code(outline_errors(spec, header, rs)),
        codes_within(outline_errors(spec, header, rs), OUTLINESHAPE_TYPE, (OUTLINESHAPE_LEVEL_NUMBERSHAPE + 1) as u32),
{
    if !outline_spec_empty(spec) {
        if let Some(h) = header {
            law_representatives_dedup(rs);
            lemma_outline_fold(spec, h, first_runs(rs));
        }
    }
}


/// The level-sequence check reports at most two findings, each the run's
/// finding for its code: the count code when the spec lists levels and
/// their number differs from the numbering's, then the level code when
/// some listed level is not its position plus one.
pub proof fn law_level_sequence(
    r: RunView,
    n: Numbering,
    levels: Seq<crate::spec::LevelType>,
    leveltype_code: u32,
    leveltype_level_code: u32,
)
    ensures
        ({
            let es = level_sequence_errors(r, n, levels, leveltype_code, leveltype_level_code);
            let count_bad = levels.len() > 0 && levels.len() != n.para_heads@.len();
            let order_bad = exists|i: int| 0 <= i < levels.len() && (#[trigger] levels[i]).level != i + 1;
            &&& es.len() <= 2
            &&& es.len() == (if count_bad { 1int } else { 0int }) + (if order_bad { 1int } else { 0int })
            &&& count_bad ==> es[0] == numbering_error(r, leveltype_code)
            &&& order_bad ==> es.last() == numbering_error(r, leveltype_level_code)
            &&& forall|i: int| 0 <= i < es.len() ==> #[trigger] es[i] == numbering_error(r, es[i].error_code)
        }),
{
    let order_bad = exists|i: int| 0 <= i < levels.len() && (#[trigger] levels[i]).level != i + 1;
    assert(order_bad <==> !levels_sequential(levels));
}

} // verus!
