//! Outline numbering: for every distinct outline paragraph shape, its
//! numbering template (the section's outline shape) is compared with the
//! spec — once per template for the template-wide rules, and per
//! paragraph for the rules of its level.

use vstd::prelude::*;
use crate::checker::numbering::{level_sequence_errors, check_level_sequence, make_error, num_shape_name, num_shape_to_str, numbering_error};
use crate::checker::para_shape::push_if;
use crate::checker::{code_errors, error_views, first_runs, lemma_error_views_push, push_code_errors, representative_runs, vec_contains_u32, DvcErrorInfo, ErrorView};
use crate::document::archive::Document;
use crate::document::header::HeaderTables;
use crate::document::header::types::{find_head, HeadingType, Numbering, ParaHead};
use crate::document::run_type::{run_views, RunTypeInfo, RunView};
use crate::document::section::derefs;
use crate::error::{OUTLINESHAPE_LEVELTYPE, OUTLINESHAPE_LEVELTYPE_LEVEL, OUTLINESHAPE_LEVEL_NUMBERSHAPE, OUTLINESHAPE_LEVEL_NUMBERTYPE, OUTLINESHAPE_STARTNUMBER, OUTLINESHAPE_VALUE};
use crate::spec::{LevelType, OutlineShapeSpec};
use crate::text::str_eq;

verus! {

broadcast use vstd::std_specs::hash::group_hash_axioms;

/// The first spec entry with level `level`.
pub open spec fn find_level(levels: Seq<LevelType>, level: u32) -> Option<LevelType>
    decreases levels.len(),
{
    if levels.len() == 0 {
        None
    } else if levels[0].level == level {
        Some(levels[0])
    } else {
        find_level(levels.drop_first(), level)
    }
}

/// The first spec entry with level `level`.
pub fn find_level_exec(levels: &Vec<LevelType>, level: u32) -> (r: Option<&LevelType>)
    ensures
        match r {
            Some(l) => find_level(levels@, level) == Some(*l),
            None => find_level(levels@, level) is None,
        },
{
    let mut i: usize = 0;
    assert(levels@.subrange(0, levels@.len() as int) =~= levels@);
    while i < levels.len()
        invariant
            i <= levels@.len(),
            find_level(levels@, level) == find_level(levels@.subrange(i as int, levels@.len() as int), level),
        decreases levels.len() - i,
    {
        assert(levels@.subrange(i as int, levels@.len() as int).drop_first() =~= levels@.subrange(
            i + 1,
            levels@.len() as int,
        ));
        if levels[i].level == level {
            assert(levels@.subrange(i as int, levels@.len() as int)[0] == levels@[i as int]);
            return Some(&levels[i]);
        }
        i = i + 1;
    }
    None
}

/// The level template of heading level `l` (heading levels count from
/// 0, template levels from 1); wraps at the top of the range.
pub open spec fn next_level(l: u32) -> u32 {
    if l == u32::MAX {
        0
    } else {
        (l + 1) as u32
    }
}

/// Whether the outline spec sets no rule at all.
pub open spec fn outline_spec_empty(spec: OutlineShapeSpec) -> bool {
    spec.leveltype@.len() == 0 && spec.start_number is None && spec.value is None
}

/// The template-wide findings for numbering `n`, reported on run `r`.
pub open spec fn outline_top_errors(spec: OutlineShapeSpec, r: RunView, n: Numbering) -> Seq<ErrorView> {
    code_errors(
        r,
        push_if(
            Seq::empty(),
            match spec.start_number {
                Some(s) => n.start != s,
                None => false,
            },
            OUTLINESHAPE_STARTNUMBER,
        ),
    ) + level_sequence_errors(r, n, spec.leveltype@, OUTLINESHAPE_LEVELTYPE, OUTLINESHAPE_LEVELTYPE_LEVEL)
}

/// The per-level codes for level template `head` and spec entry `lt`.
pub open spec fn outline_level_codes(spec: OutlineShapeSpec, head: ParaHead, lt: LevelType) -> Seq<u32> {
    let c = push_if(
        Seq::empty(),
        match spec.value {
            Some(v) => head.start != v,
            None => false,
        },
        OUTLINESHAPE_VALUE,
    );
    let c = push_if(
        c,
        match lt.numbertype {
            Some(t) => head.num_format_text@ != t@,
            None => false,
        },
        OUTLINESHAPE_LEVEL_NUMBERTYPE,
    );
    push_if(
        c,
        head.num_format@ != match num_shape_name(lt.numbershape) {
            Some(s) => s,
            None => Seq::empty(),
        },
        OUTLINESHAPE_LEVEL_NUMBERSHAPE,
    )
}

/// The per-level findings for run `r` of level `level` in numbering `n`.
pub open spec fn outline_level_errors(spec: OutlineShapeSpec, r: RunView, n: Numbering, level: u32) -> Seq<
    ErrorView,
> {
    match find_head(n.para_heads@, level) {
        Some(head) => match find_level(spec.leveltype@, level) {
            Some(lt) => code_errors(r, outline_level_codes(spec, head, lt)),
            None => Seq::empty(),
        },
        None => Seq::empty(),
    }
}

/// The findings and checked-template ids after representative run `r`.
pub open spec fn outline_step(
    spec: OutlineShapeSpec,
    h: HeaderTables,
    errs: Seq<ErrorView>,
    checked: Set<u32>,
    r: RunView,
) -> (Seq<ErrorView>, Set<u32>) {
    if !h.para_shapes@.contains_key(r.para_pr_id_ref) {
        (errs, checked)
    } else if h.para_shapes@[r.para_pr_id_ref].heading_type != HeadingType::Outline {
        (errs, checked)
    } else if !h.numberings@.contains_key(r.outline_shape_id_ref) {
        (errs, checked)
    } else {
        let n = h.numberings@[r.outline_shape_id_ref];
        let top = if !checked.contains(n.id) {
            outline_top_errors(spec, r, n)
        } else {
            Seq::empty()
        };
        let level = next_level(h.para_shapes@[r.para_pr_id_ref].heading_level);
        (errs + top + outline_level_errors(spec, r, n, level), checked.insert(n.id))
    }
}

/// The findings and checked-template ids after representative runs `reps`.
pub open spec fn outline_fold(spec: OutlineShapeSpec, h: HeaderTables, reps: Seq<RunView>) -> (
    Seq<ErrorView>,
    Set<u32>,
)
    decreases reps.len(),
{
    if reps.len() == 0 {
        (Seq::empty(), Set::empty())
    } else {
        let prev = outline_fold(spec, h, reps.drop_last());
        outline_step(spec, h, prev.0, prev.1, reps.last())
    }
}

/// The findings of the outline check.
pub open spec fn outline_errors(spec: OutlineShapeSpec, header: Option<HeaderTables>, rs: Seq<RunView>) -> Seq<
    ErrorView,
> {
    if outline_spec_empty(spec) {
        Seq::empty()
    } else {
        match header {
            Some(h) => outline_fold(spec, h, first_runs(rs)).0,
            None => Seq::empty(),
        }
    }
}

fn level_codes(spec: &OutlineShapeSpec, head: &ParaHead, lt: &LevelType) -> (codes: Vec<u32>)
    ensures
        codes@ == outline_level_codes(*spec, *head, *lt),
{
    let mut codes: Vec<u32> = Vec::new();
    match spec.value {
        Some(v) => if head.start != v {
            codes.push(OUTLINESHAPE_VALUE);
        },
        None => {},
    }
    match &lt.numbertype {
        Some(t) => if !str_eq(head.num_format_text.as_str(), t.as_str()) {
            codes.push(OUTLINESHAPE_LEVEL_NUMBERTYPE);
        },
        None => {},
    }
    let expected = match num_shape_to_str(lt.numbershape) {
        Some(s) => s,
        None => "",
    };
    proof {
        reveal_strlit("");
        assert(""@ =~= Seq::<char>::empty());
    }
    if !str_eq(head.num_format.as_str(), expected) {
        codes.push(OUTLINESHAPE_LEVEL_NUMBERSHAPE);
    }
    assert(codes@ =~= outline_level_codes(*spec, *head, *lt));
    codes
}

fn top_level(run: &RunTypeInfo, numbering: &Numbering, spec: &OutlineShapeSpec, errors: &mut Vec<DvcErrorInfo>)
    ensures
        error_views(final(errors)@) == error_views(old(errors)@) + outline_top_errors(*spec, run@, *numbering),
{
    let mut codes: Vec<u32> = Vec::new();
    match spec.start_number {
        Some(s) => if numbering.start != s {
            codes.push(OUTLINESHAPE_STARTNUMBER);
        },
        None => {},
    }
    assert(codes@ =~= push_if(
        Seq::empty(),
        match spec.start_number {
            Some(s) => numbering.start != s,
            None => false,
        },
        OUTLINESHAPE_STARTNUMBER,
    ));
    let ghost e0 = error_views(errors@);
    push_code_errors(run, &codes, errors);
    let ghost e1 = error_views(errors@);
    check_level_sequence(
        run,
        numbering,
        spec.leveltype.as_slice(),
        OUTLINESHAPE_LEVELTYPE,
        OUTLINESHAPE_LEVELTYPE_LEVEL,
        errors,
    );
    assert(error_views(errors@) =~= e0 + outline_top_errors(*spec, run@, *numbering));
}

/// Compare the outline numbering of every distinct outline paragraph
/// shape used by the document's runs with the spec.
pub fn check(document: &Document, spec: &OutlineShapeSpec) -> (r: Vec<DvcErrorInfo>)
    ensures
        error_views(r@) == outline_errors(*spec, document.header, run_views(document.run_type_infos@)),
{
    let mut errors: Vec<DvcErrorInfo> = Vec::new();
    if spec.leveltype.len() == 0 && spec.start_number.is_none() && spec.value.is_none() {
        assert(error_views(errors@) =~= Seq::<ErrorView>::empty());
        return errors;
    }
    let header = match &document.header {
        Some(h) => h,
        None => {
            assert(error_views(errors@) =~= Seq::<ErrorView>::empty());
            return errors;
        },
    };
    let reps = representative_runs(document.run_type_infos.as_slice());
    let ghost rv = run_views(derefs(reps@));
    let mut checked: Vec<u32> = Vec::new();
    let mut i: usize = 0;
    assert(error_views(errors@) =~= outline_fold(*spec, *header, rv.take(0)).0);
    while i < reps.len()
        invariant
            i <= reps@.len(),
            rv == run_views(derefs(reps@)),
            error_views(errors@) == outline_fold(*spec, *header, rv.take(i as int)).0,
            forall|id: u32| checked@.contains(id) <==> outline_fold(*spec, *header, rv.take(i as int)).1.contains(id),
        decreases reps.len() - i,
    {
        let run = reps[i];
        let ghost before = error_views(errors@);
        let ghost st = outline_fold(*spec, *header, rv.take(i as int));
        let ghost c0 = checked@;
        proof {
            assert(rv.take(i + 1).drop_last() =~= rv.take(i as int));
            assert(rv.take(i + 1).last() == run@);
        }
        match header.para_shapes.get(&run.para_pr_id_ref) {
            Some(ps) => {
                if ps.heading_type == HeadingType::Outline {
                    match header.numberings.get(&run.outline_shape_id_ref) {
                        Some(numbering) => {
                            let seen = vec_contains_u32(&checked, numbering.id);
                            if !seen {
                                top_level(run, numbering, spec, &mut errors);
                                let ghost old_checked = checked@;
                                checked.push(numbering.id);
                                proof {
                                    assert forall|id: u32| checked@.contains(id) <==> (old_checked.contains(id) || id == numbering.id) by {
                                        if old_checked.contains(id) {
                                            let m = choose|m: int| 0 <= m < old_checked.len() && old_checked[m] == id;
                                            assert(checked@[m] == id);
                                        }
                                        if id == numbering.id {
                                            assert(checked@[old_checked.len() as int] == id);
                                        }
                                        if checked@.contains(id) {
                                            let m = choose|m: int| 0 <= m < checked@.len() && checked@[m] == id;
                                            if m < old_checked.len() {
                                                assert(old_checked[m] == id);
                                            }
                                        }
                                    }
                                }
                            }
                            let ghost mid = error_views(errors@);
                            let level = if ps.heading_level == u32::MAX {
                                0
                            } else {
                                ps.heading_level + 1
                            };
                            match numbering.by_level(level) {
                                Some(head) => match find_level_exec(&spec.leveltype, level) {
                                    Some(lt) => {
                                        let codes = level_codes(spec, head, lt);
                                        push_code_errors(run, &codes, &mut errors);
                                    },
                                    None => {},
                                },
                                None => {},
                            }
                            proof {
                                assert(level == next_level(ps.heading_level));
                                assert(error_views(errors@) == mid + outline_level_errors(*spec, run@, *numbering, level));
                                assert(mid =~= before + (if !st.1.contains(numbering.id) {
                                    outline_top_errors(*spec, run@, *numbering)
                                } else {
                                    Seq::empty()
                                }));
                                assert(error_views(errors@) =~= outline_step(*spec, *header, st.0, st.1, run@).0);
                                assert forall|id: u32| checked@.contains(id) <==> outline_step(*spec, *header, st.0, st.1, run@).1.contains(id) by {
                                    assert(c0.contains(id) <==> st.1.contains(id));
                                    if !seen {
                                        assert(checked@.contains(id) <==> (c0.contains(id) || id == numbering.id));
                                    } else {
                                        assert(checked@ == c0);
                                    }
                                }
                            }
                        },
                        None => {},
                    }
                }
            },
            None => {},
        }
        i = i + 1;
    }
    assert(rv.take(rv.len() as int) =~= rv);
    errors
}

} // verus!
