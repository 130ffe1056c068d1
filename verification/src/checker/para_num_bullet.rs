//! Paragraph numbering: for every distinct numbered paragraph shape, its
//! numbering template and level are compared with the spec.

use vstd::prelude::*;
use crate::laws::{inc_between, lemma_inc_concat, lemma_inc_empty, lemma_inc_widen, lemma_push_if_inc};
use crate::checker::numbering::{num_shape_name, num_shape_to_str};
use crate::checker::outline_shape::{find_level, find_level_exec, next_level};
use crate::checker::para_shape::push_if;
use crate::checker::{code_errors, error_views, first_runs, push_code_errors, representative_runs, DvcErrorInfo, ErrorView};
use crate::document::archive::Document;
use crate::document::header::HeaderTables;
use crate::document::header::types::{find_head, HeadingType, Numbering, ParaHead};
use crate::document::run_type::{run_views, RunTypeInfo, RunView};
use crate::document::section::derefs;
use crate::error::{PARANUM_TYPE, PARANUM_LEVELTYPE, PARANUM_LEVELTYPE_LEVEL, PARANUM_LEVEL_NUMBERSHAPE, PARANUM_LEVEL_NUMBERTYPE, PARANUM_STARTNUMBER, PARANUM_VALUE};
use crate::spec::ParaNumBulletSpec;
use crate::text::str_eq;

verus! {

broadcast use vstd::std_specs::hash::group_hash_axioms;

/// Whether the spec sets no rule at all.
pub open spec fn para_num_spec_empty(spec: ParaNumBulletSpec) -> bool {
    spec.leveltype@.len() == 0 && spec.start_number is None && spec.value is None
}

/// The start of the first level template, 0 when there is none.
pub open spec fn first_head_start(n: Numbering) -> u32 {
    if n.para_heads@.len() > 0 {
        n.para_heads@[0].start
    } else {
        0
    }
}

/// The codes of level template `head` against the spec.
pub open spec fn para_head_codes(spec: ParaNumBulletSpec, head: ParaHead) -> Seq<u32> {
    match find_level(spec.leveltype@, head.level) {
        None => Seq::empty(),
        Some(lt) => {
            let c = push_if(Seq::empty(), lt.level != head.level, PARANUM_LEVELTYPE_LEVEL);
            let c = push_if(
                c,
                match lt.numbertype {
                    Some(t) => t@ != head.num_format@,
                    None => false,
                },
                PARANUM_LEVEL_NUMBERTYPE,
            );
            push_if(
                c,
                match num_shape_name(lt.numbershape) {
                    Some(s) => s != head.num_format@,
                    None => false,
                },
                PARANUM_LEVEL_NUMBERSHAPE,
            )
        },
    }
}

/// The codes for a numbered paragraph shape of level `heading_level` in
/// numbering `n`.
pub open spec fn para_num_codes(spec: ParaNumBulletSpec, n: Numbering, heading_level: u32) -> Seq<u32> {
    let c = push_if(
        Seq::empty(),
        match spec.start_number {
            Some(b) => (n.start != 0) != b,
            None => false,
        },
        PARANUM_STARTNUMBER,
    );
    let c = push_if(
        c,
        match spec.value {
            Some(v) => first_head_start(n) != v,
            None => false,
        },
        PARANUM_VALUE,
    );
    if spec.leveltype@.len() == 0 {
        c
    } else {
        match find_head(n.para_heads@, next_level(heading_level)) {
            None => c.push(PARANUM_LEVELTYPE),
            Some(head) => c + para_head_codes(spec, head),
        }
    }
}

/// The codes of one level template come in increasing order.
pub proof fn lemma_para_head_codes_inc(spec: ParaNumBulletSpec, head: ParaHead)
    ensures
        inc_between(para_head_codes(spec, head), PARANUM_LEVELTYPE_LEVEL as int, (PARANUM_LEVEL_NUMBERSHAPE + 1) as int),
{
    lemma_inc_empty(PARANUM_LEVELTYPE_LEVEL as int, PARANUM_LEVELTYPE_LEVEL as int);
    if let Some(lt) = find_level(spec.leveltype@, head.level) {
        let lo = PARANUM_LEVELTYPE_LEVEL as int;
        let c0 = Seq::<u32>::empty();
        let b1 = lt.level != head.level;
        let c1 = push_if(c0, b1, PARANUM_LEVELTYPE_LEVEL);
        lemma_push_if_inc(c0, b1, PARANUM_LEVELTYPE_LEVEL, lo);
        let b2 = match lt.numbertype {
            Some(t) => t@ != head.num_format@,
            None => false,
        };
        let c2 = push_if(c1, b2, PARANUM_LEVEL_NUMBERTYPE);
        lemma_push_if_inc(c1, b2, PARANUM_LEVEL_NUMBERTYPE, lo);
        let b3 = match num_shape_name(lt.numbershape) {
            Some(s) => s != head.num_format@,
            None => false,
        };
        lemma_push_if_inc(c2, b3, PARANUM_LEVEL_NUMBERSHAPE, lo);
    } else {
        lemma_inc_empty(PARANUM_LEVELTYPE_LEVEL as int, (PARANUM_LEVEL_NUMBERSHAPE + 1) as int);
    }
}

/// The codes of a numbered paragraph shape come in increasing order.
pub proof fn lemma_para_num_codes_inc(spec: ParaNumBulletSpec, n: Numbering, heading_level: u32)
    ensures
        inc_between(para_num_codes(spec, n, heading_level), PARANUM_TYPE as int, (PARANUM_LEVEL_NUMBERSHAPE + 1) as int),
{
    let lo = PARANUM_TYPE as int;
    lemma_inc_empty(lo, PARANUM_STARTNUMBER as int);
    let c0 = Seq::<u32>::empty();
    let b1 = match spec.start_number {
        Some(b) => (n.start != 0) != b,
        None => false,
    };
    let c1 = push_if(c0, b1, PARANUM_STARTNUMBER);
    lemma_push_if_inc(c0, b1, PARANUM_STARTNUMBER, lo);
    let b2 = match spec.value {
        Some(v) => first_head_start(n) != v,
        None => false,
    };
    let c2 = push_if(c1, b2, PARANUM_VALUE);
    lemma_push_if_inc(c1, b2, PARANUM_VALUE, lo);
    if spec.leveltype@.len() == 0 {
        lemma_inc_widen(c2, lo, (PARANUM_VALUE + 1) as int, lo, (PARANUM_LEVEL_NUMBERSHAPE + 1) as int);
    } else {
        match find_head(n.para_heads@, next_level(heading_level)) {
            None => {
                lemma_push_if_inc(c2, true, PARANUM_LEVELTYPE, lo);
                assert(push_if(c2, true, PARANUM_LEVELTYPE) == c2.push(PARANUM_LEVELTYPE));
                lemma_inc_widen(c2.push(PARANUM_LEVELTYPE), lo, (PARANUM_LEVELTYPE + 1) as int, lo, (PARANUM_LEVEL_NUMBERSHAPE + 1) as int);
            },
            Some(head) => {
                lemma_para_head_codes_inc(spec, head);
                lemma_inc_widen(c2, lo, (PARANUM_VALUE + 1) as int, lo, PARANUM_LEVELTYPE_LEVEL as int);
                lemma_inc_concat(c2, para_head_codes(spec, head), lo, PARANUM_LEVELTYPE_LEVEL as int, (PARANUM_LEVEL_NUMBERSHAPE + 1) as int);
            },
        }
    }
}

/// The findings for one representative run.
pub open spec fn para_num_run_errors(spec: ParaNumBulletSpec, h: HeaderTables, r: RunView) -> Seq<ErrorView> {
    if !h.para_shapes@.contains_key(r.para_pr_id_ref) {
        Seq::empty()
    } else if h.para_shapes@[r.para_pr_id_ref].heading_type != HeadingType::Number {
        Seq::empty()
    } else if !h.numberings@.contains_key(h.para_shapes@[r.para_pr_id_ref].heading_id_ref) {
        Seq::empty()
    } else {
        code_errors(
            r,
            para_num_codes(
                spec,
                h.numberings@[h.para_shapes@[r.para_pr_id_ref].heading_id_ref],
                h.para_shapes@[r.para_pr_id_ref].heading_level,
            ),
        )
    }
}

/// The findings for representative runs `reps`, in order.
pub open spec fn para_num_reps_errors(spec: ParaNumBulletSpec, h: HeaderTables, reps: Seq<RunView>) -> Seq<
    ErrorView,
>
    decreases reps.len(),
{
    if reps.len() == 0 {
        Seq::empty()
    } else {
        para_num_reps_errors(spec, h, reps.drop_last()) + para_num_run_errors(spec, h, reps.last())
    }
}

/// The findings of the paragraph-numbering check.
pub open spec fn para_num_errors(spec: ParaNumBulletSpec, header: Option<HeaderTables>, rs: Seq<RunView>) -> Seq<
    ErrorView,
> {
    if para_num_spec_empty(spec) {
        Seq::empty()
    } else {
        match header {
            Some(h) => para_num_reps_errors(spec, h, first_runs(rs)),
            None => Seq::empty(),
        }
    }
}

/// The first level template with level `heading_level + 1` (heading
/// levels count from 0, template levels from 1).
pub fn find_para_head(numbering: &Numbering, heading_level: u32) -> (r: Option<&ParaHead>)
    ensures
        match r {
            Some(h) => find_head(numbering.para_heads@, next_level(heading_level)) == Some(*h),
            None => find_head(numbering.para_heads@, next_level(heading_level)) is None,
        },
{
    let level = if heading_level == u32::MAX {
        0
    } else {
        heading_level + 1
    };
    numbering.by_level(level)
}

/// The codes of one level template against the spec's entry for its level.
pub fn check_para_head(head: &ParaHead, spec: &ParaNumBulletSpec, codes: &mut Vec<u32>)
    ensures
        final(codes)@ == old(codes)@ + para_head_codes(*spec, *head),
{
    let ghost start = codes@;
    match find_level_exec(&spec.leveltype, head.level) {
        None => {
            assert(codes@ =~= start + para_head_codes(*spec, *head));
        },
        Some(lt) => {
            if lt.level != head.level {
                codes.push(PARANUM_LEVELTYPE_LEVEL);
            }
            match &lt.numbertype {
                Some(t) => if !str_eq(t.as_str(), head.num_format.as_str()) {
                    codes.push(PARANUM_LEVEL_NUMBERTYPE);
                },
                None => {},
            }
            match num_shape_to_str(lt.numbershape) {
                Some(s) => if !str_eq(s, head.num_format.as_str()) {
                    codes.push(PARANUM_LEVEL_NUMBERSHAPE);
                },
                None => {},
            }
            assert(codes@ =~= start + para_head_codes(*spec, *head));
        },
    }
}

fn numbering_codes(spec: &ParaNumBulletSpec, numbering: &Numbering, heading_level: u32) -> (codes: Vec<u32>)
    ensures
        codes@ == para_num_codes(*spec, *numbering, heading_level),
{
    let mut codes: Vec<u32> = Vec::new();
    match spec.start_number {
        Some(b) => if (numbering.start != 0) != b {
            codes.push(PARANUM_STARTNUMBER);
        },
        None => {},
    }
    match spec.value {
        Some(v) => {
            let first = if numbering.para_heads.len() > 0 {
                numbering.para_heads[0].start
            } else {
                0
            };
            if first != v {
                codes.push(PARANUM_VALUE);
            }
        },
        None => {},
    }
    let ghost c2 = codes@;
    if spec.leveltype.len() == 0 {
        assert(codes@ =~= para_num_codes(*spec, *numbering, heading_level));
        return codes;
    }
    match find_para_head(numbering, heading_level) {
        None => {
            codes.push(PARANUM_LEVELTYPE);
        },
        Some(head) => {
            check_para_head(head, spec, &mut codes);
        },
    }
    assert(codes@ =~= para_num_codes(*spec, *numbering, heading_level));
    codes
}

/// Compare every distinct numbered paragraph shape used by the document's
/// runs with the spec.
pub fn check(document: &Document, spec: &ParaNumBulletSpec) -> (r: Vec<DvcErrorInfo>)
    ensures
        error_views(r@) == para_num_errors(*spec, document.header, run_views(document.run_type_infos@)),
{
    let mut errors: Vec<DvcErrorInfo> = Vec::new();
    if spec.leveltype.len() == 0 && spec.start_number.is_none() && spec.value.is_none() {
        assert(error_views(errors@) =~= Seq::<ErrorView>::empty());
        return errors;
    }
    let header = match &document.header {
        Some(h) => h,
        None => {
            assert(error_views(errors@) =~= Seq::<ErrorView>::empty());
            return errors;
        },
    };
    let reps = representative_runs(document.run_type_infos.as_slice());
    let ghost rv = run_views(derefs(reps@));
    let mut i: usize = 0;
    assert(error_views(errors@) =~= para_num_reps_errors(*spec, *header, rv.take(0)));
    while i < reps.len()
        invariant
            i <= reps@.len(),
            rv == run_views(derefs(reps@)),
            error_views(errors@) == para_num_reps_errors(*spec, *header, rv.take(i as int)),
        decreases reps.len() - i,
    {
        let run = reps[i];
        let ghost before = error_views(errors@);
        match header.para_shapes.get(&run.para_pr_id_ref) {
            Some(ps) => {
                if ps.heading_type == HeadingType::Number {
                    match header.numberings.get(&ps.heading_id_ref) {
                        Some(numbering) => {
                            let codes = numbering_codes(spec, numbering, ps.heading_level);
                            push_code_errors(run, &codes, &mut errors);
                        },
                        None => {},
                    }
                }
            },
            None => {},
        }
        proof {
            assert(rv.take(i + 1).drop_last() =~= rv.take(i as int));
            assert(rv.take(i + 1).last() == run@);
            assert(error_views(errors@) =~= before + para_num_run_errors(*spec, *header, run@));
        }
        i = i + 1;
    }
    assert(rv.take(rv.len() as int) =~= rv);
    errors
}

} // verus!
