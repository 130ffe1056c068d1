//! Character-shape rules: every character shape of the header is
//! compared with the spec, and each violation is reported on every run
//! that uses the shape.

use vstd::prelude::*;
use crate::checker::para_shape::differs;
use crate::checker::bullet::{enumerates, pair_values};
use crate::checker::{error_from_run, error_views, lemma_error_views_push, run_error, CheckLevel, DvcErrorInfo, ErrorView};
use crate::document::header::HeaderTables;
use crate::document::header::types::{char_font_names, string_views, CharShape, FontFace};
use crate::document::run_type::{run_views, RunTypeInfo, RunView};
use crate::error::{CHARSHAPE_BG_BORDER, CHARSHAPE_BOLD, CHARSHAPE_EMBOSS, CHARSHAPE_EMPTYSPACE, CHARSHAPE_ENGRAVE, CHARSHAPE_FONT, CHARSHAPE_FONTSIZE, CHARSHAPE_ITALIC, CHARSHAPE_KERNING, CHARSHAPE_OUTLINE, CHARSHAPE_POINT, CHARSHAPE_POSITION, CHARSHAPE_RATIO, CHARSHAPE_RSIZE, CHARSHAPE_SHADOW, CHARSHAPE_SPACING, CHARSHAPE_STRIKEOUT, CHARSHAPE_SUBSCRIPT, CHARSHAPE_SUPSCRIPT, CHARSHAPE_UNDERLINE};
use crate::messages::{error_string, message, ErrorContext};
use crate::spec::CharShapeSpec;
use crate::text::str_eq;

verus! {

broadcast use vstd::std_specs::hash::group_hash_axioms;

/// A violation of one character shape, before it is reported on runs.
pub struct ShapeViolation {
    pub char_pr_id: u32,
    pub error_code: u32,
    /// The shape's first font name, for the font message.
    pub font_name: Option<String>,
}

/// A violation with its font name taken as characters.
pub struct ViolationView {
    pub char_pr_id: u32,
    pub error_code: u32,
    pub font_name: Option<Seq<char>>,
}

impl View for ShapeViolation {
    type V = ViolationView;

    open spec fn view(&self) -> ViolationView {
        ViolationView {
            char_pr_id: self.char_pr_id,
            error_code: self.error_code,
            font_name: match self.font_name {
                Some(s) => Some(s@),
                None => None,
            },
        }
    }
}

/// The views of a sequence of violations.
pub open spec fn violation_views(v: Seq<ShapeViolation>) -> Seq<ViolationView> {
    v.map_values(|x: ShapeViolation| x@)
}

/// `acc` with violation `(id, code)` appended when `b`.
pub open spec fn push_violation(acc: Seq<ViolationView>, b: bool, id: u32, code: u32) -> Seq<ViolationView> {
    if b {
        acc.push(ViolationView { char_pr_id: id, error_code: code, font_name: None })
    } else {
        acc
    }
}

/// Whether some of `names` is in the allow-list.
pub open spec fn any_font_allowed(names: Seq<Seq<char>>, allowed: Seq<String>) -> bool {
    exists|i: int, j: int| 0 <= i < names.len() && 0 <= j < allowed.len() && names[i] == allowed[j]@
}

/// The font violation of a shape with font names `names`.
pub open spec fn push_font_violation(
    acc: Seq<ViolationView>,
    spec: CharShapeSpec,
    id: u32,
    names: Seq<Seq<char>>,
) -> Seq<ViolationView> {
    if spec.font@.len() > 0 && !any_font_allowed(names, spec.font@) {
        acc.push(
            ViolationView {
                char_pr_id: id,
                error_code: CHARSHAPE_FONT,
                font_name: if names.len() > 0 {
                    Some(names[0])
                } else {
                    None
                },
            },
        )
    } else {
        acc
    }
}

/// Whether a height (1/100 pt) is more than 0.05 pt from `point_centi`.
pub open spec fn point_differs(height: u32, point_centi: u32) -> bool {
    height - point_centi > 5 || point_centi - height > 5
}

/// Part of [`char_shape_violations`].
pub open spec fn violations_part1(acc: Seq<ViolationView>, cs: CharShape, spec: CharShapeSpec, faces: Seq<FontFace>) -> Seq<ViolationView> {
    let c = acc;
    let c = push_violation(c, differs(spec.fontsize, cs.height), cs.id, CHARSHAPE_FONTSIZE);
    let c = push_font_violation(c, spec, cs.id, char_font_names(cs, faces));
    let c = push_violation(c, differs(spec.rsize, cs.rel_sz.values@[0]), cs.id, CHARSHAPE_RSIZE);
    let c = push_violation(c, differs(spec.position, cs.offset.values@[0]), cs.id, CHARSHAPE_POSITION);
    let c = push_violation(
        c,
        match spec.ratio {
            Some(r) => cs.ratio.values@[0] != r as u32,
            None => false,
        },
        cs.id,
        CHARSHAPE_RATIO,
    );
    let c = push_violation(c, differs(spec.spacing, cs.spacing.values@[0]), cs.id, CHARSHAPE_SPACING);
    c
}

/// Part of [`char_shape_violations`].
pub open spec fn violations_part2(acc: Seq<ViolationView>, cs: CharShape, spec: CharShapeSpec) -> Seq<ViolationView> {
    let c = acc;
    let c = push_violation(c, differs(spec.bold, cs.bold), cs.id, CHARSHAPE_BOLD);
    let c = push_violation(c, differs(spec.italic, cs.italic), cs.id, CHARSHAPE_ITALIC);
    let c = push_violation(c, differs(spec.underline, cs.underline), cs.id, CHARSHAPE_UNDERLINE);
    let c = push_violation(c, differs(spec.strikeout, cs.strikeout), cs.id, CHARSHAPE_STRIKEOUT);
    let c = push_violation(c, differs(spec.outline, cs.outline), cs.id, CHARSHAPE_OUTLINE);
    let c = push_violation(c, differs(spec.emboss, cs.emboss), cs.id, CHARSHAPE_EMBOSS);
    let c = push_violation(c, differs(spec.engrave, cs.engrave), cs.id, CHARSHAPE_ENGRAVE);
    let c = push_violation(c, differs(spec.shadow, cs.shadow), cs.id, CHARSHAPE_SHADOW);
    let c = push_violation(c, differs(spec.supscript, cs.supscript), cs.id, CHARSHAPE_SUPSCRIPT);
    let c = push_violation(c, differs(spec.subscript, cs.subscript), cs.id, CHARSHAPE_SUBSCRIPT);
    let c = push_violation(c, differs(spec.emptyspace, cs.use_font_space), cs.id, CHARSHAPE_EMPTYSPACE);
    let c = push_violation(
        c,
        match spec.point_centi {
            Some(p) => point_differs(cs.height, p),
            None => false,
        },
        cs.id,
        CHARSHAPE_POINT,
    );
    let c = push_violation(c, differs(spec.kerning, cs.use_kerning), cs.id, CHARSHAPE_KERNING);
    push_violation(c, spec.border is Some && cs.border_fill_id_ref == 0, cs.id, CHARSHAPE_BG_BORDER)
}

/// The violations of shape `cs`, in check order.
pub open spec fn char_shape_violations(cs: CharShape, spec: CharShapeSpec, faces: Seq<FontFace>) -> Seq<
    ViolationView,
> {
    violations_part2(violations_part1(Seq::empty(), cs, spec, faces), cs, spec)
}

fn push_if_bool(v: &mut Vec<ShapeViolation>, expected: Option<bool>, actual: bool, id: u32, code: u32)
    ensures
        violation_views(final(v)@) == push_violation(violation_views(old(v)@), differs(expected, actual), id, code),
{
    match expected {
        Some(e) => if e != actual {
            let x = ShapeViolation { char_pr_id: id, error_code: code, font_name: None };
            proof {
                assert(violation_views(v@.push(x)) =~= violation_views(v@).push(x@));
            }
            v.push(x);
        },
        None => {},
    }
}

fn push_if_u32(v: &mut Vec<ShapeViolation>, expected: Option<u32>, actual: u32, id: u32, code: u32)
    ensures
        violation_views(final(v)@) == push_violation(violation_views(old(v)@), differs(expected, actual), id, code),
{
    match expected {
        Some(e) => if e != actual {
            let x = ShapeViolation { char_pr_id: id, error_code: code, font_name: None };
            proof {
                assert(violation_views(v@.push(x)) =~= violation_views(v@).push(x@));
            }
            v.push(x);
        },
        None => {},
    }
}

fn push_if_i32(v: &mut Vec<ShapeViolation>, expected: Option<i32>, actual: i32, id: u32, code: u32)
    ensures
        violation_views(final(v)@) == push_violation(violation_views(old(v)@), differs(expected, actual), id, code),
{
    match expected {
        Some(e) => if e != actual {
            let x = ShapeViolation { char_pr_id: id, error_code: code, font_name: None };
            proof {
                assert(violation_views(v@.push(x)) =~= violation_views(v@).push(x@));
            }
            v.push(x);
        },
        None => {},
    }
}

fn push_if_cond(v: &mut Vec<ShapeViolation>, b: bool, id: u32, code: u32)
    ensures
        violation_views(final(v)@) == push_violation(violation_views(old(v)@), b, id, code),
{
    if b {
        let x = ShapeViolation { char_pr_id: id, error_code: code, font_name: None };
        proof {
            assert(violation_views(v@.push(x)) =~= violation_views(v@).push(x@));
        }
        v.push(x);
    }
}

fn font_violation(cs: &CharShape, spec: &CharShapeSpec, faces: &[FontFace], v: &mut Vec<ShapeViolation>)
    ensures
        violation_views(final(v)@) == push_font_violation(
            violation_views(old(v)@),
            *spec,
            cs.id,
            char_font_names(*cs, faces@),
        ),
{
    if spec.font.len() == 0 {
        return;
    }
    let names = cs.font_names(faces);
    let ghost nv = string_views(names@);
    let mut any = false;
    let mut i: usize = 0;
    while i < names.len()
        invariant
            i <= names@.len(),
            nv == string_views(names@),
            any <==> exists|a: int, j: int| 0 <= a < i && 0 <= j < spec.font@.len() && nv[a] == spec.font@[j]@,
        decreases names.len() - i,
    {
        let mut j: usize = 0;
        let ghost any0 = any;
        while j < spec.font.len()
            invariant
                j <= spec.font@.len(),
                i < names@.len(),
                nv == string_views(names@),
                any <==> (any0 || exists|b: int| 0 <= b < j && nv[i as int] == spec.font@[b]@),
            decreases spec.font.len() - j,
        {
            if str_eq(names[i].as_str(), spec.font[j].as_str()) {
                any = true;
            }
            j = j + 1;
        }
        proof {
            assert(any <==> exists|a: int, b: int| 0 <= a < i + 1 && 0 <= b < spec.font@.len() && nv[a] == spec.font@[b]@) by {
                if any0 {
                    let (a, b) = choose|a: int, b: int| 0 <= a < i && 0 <= b < spec.font@.len() && nv[a] == spec.font@[b]@;
                    assert(0 <= a < i + 1 && 0 <= b < spec.font@.len() && nv[a] == spec.font@[b]@);
                }
                if exists|b: int| 0 <= b < spec.font@.len() && nv[i as int] == spec.font@[b]@ {
                    let b = choose|b: int| 0 <= b < spec.font@.len() && nv[i as int] == spec.font@[b]@;
                    assert(0 <= i < i + 1 && 0 <= b < spec.font@.len() && nv[i as int] == spec.font@[b]@);
                }
            }
        }
        i = i + 1;
    }
    if !any {
        let first = if names.len() > 0 {
            Some(names[0].clone())
        } else {
            None
        };
        let x = ShapeViolation { char_pr_id: cs.id, error_code: CHARSHAPE_FONT, font_name: first };
        proof {
            assert(violation_views(v@.push(x)) =~= violation_views(v@).push(x@));
            if names@.len() > 0 {
                assert(nv[0] == names@[0]@);
            }
        }
        v.push(x);
    }
}

fn violations_exec_part1(cs: &CharShape, spec: &CharShapeSpec, font_faces: &[FontFace], v: &mut Vec<ShapeViolation>)
    ensures
        violation_views(final(v)@) == violations_part1(violation_views(old(v)@), *cs, *spec, font_faces@),
{
    push_if_u32(v, spec.fontsize, cs.height, cs.id, CHARSHAPE_FONTSIZE);
    font_violation(cs, spec, font_faces, v);
    push_if_u32(v, spec.rsize, cs.rel_sz.values[0], cs.id, CHARSHAPE_RSIZE);
    push_if_i32(v, spec.position, cs.offset.values[0], cs.id, CHARSHAPE_POSITION);
    let ratio_bad = match spec.ratio {
        Some(r) => cs.ratio.values[0] != r as u32,
        None => false,
    };
    push_if_cond(v, ratio_bad, cs.id, CHARSHAPE_RATIO);
    push_if_i32(v, spec.spacing, cs.spacing.values[0], cs.id, CHARSHAPE_SPACING);
}

fn violations_exec_part2(cs: &CharShape, spec: &CharShapeSpec, v: &mut Vec<ShapeViolation>)
    ensures
        violation_views(final(v)@) == violations_part2(violation_views(old(v)@), *cs, *spec),
{
    push_if_bool(v, spec.bold, cs.bold, cs.id, CHARSHAPE_BOLD);
    push_if_bool(v, spec.italic, cs.italic, cs.id, CHARSHAPE_ITALIC);
    push_if_bool(v, spec.underline, cs.underline, cs.id, CHARSHAPE_UNDERLINE);
    push_if_bool(v, spec.strikeout, cs.strikeout, cs.id, CHARSHAPE_STRIKEOUT);
    push_if_bool(v, spec.outline, cs.outline, cs.id, CHARSHAPE_OUTLINE);
    push_if_bool(v, spec.emboss, cs.emboss, cs.id, CHARSHAPE_EMBOSS);
    push_if_bool(v, spec.engrave, cs.engrave, cs.id, CHARSHAPE_ENGRAVE);
    push_if_bool(v, spec.shadow, cs.shadow, cs.id, CHARSHAPE_SHADOW);
    push_if_bool(v, spec.supscript, cs.supscript, cs.id, CHARSHAPE_SUPSCRIPT);
    push_if_bool(v, spec.subscript, cs.subscript, cs.id, CHARSHAPE_SUBSCRIPT);
    push_if_bool(v, spec.emptyspace, cs.use_font_space, cs.id, CHARSHAPE_EMPTYSPACE);
    let point_bad = match spec.point_centi {
        Some(p) => {
            let d: i64 = cs.height as i64 - p as i64;
            d > 5 || d < -5
        },
        None => false,
    };
    push_if_cond(v, point_bad, cs.id, CHARSHAPE_POINT);
    push_if_bool(v, spec.kerning, cs.use_kerning, cs.id, CHARSHAPE_KERNING);
    push_if_cond(v, spec.border.is_some() && cs.border_fill_id_ref == 0, cs.id, CHARSHAPE_BG_BORDER);

}

/// Append the violations of shape `cs` to `errors`, in check order.
pub fn check_char_shape_to_check_list(
    cs: &CharShape,
    spec: &CharShapeSpec,
    font_faces: &[FontFace],
    errors: &mut Vec<ShapeViolation>,
)
    ensures
        violation_views(final(errors)@) == violation_views(old(errors)@) + char_shape_violations(
            *cs,
            *spec,
            font_faces@,
        ),
{
    let ghost start = violation_views(errors@);
    let mut v: Vec<ShapeViolation> = Vec::new();
    violations_exec_part1(cs, spec, font_faces, &mut v);
    violations_exec_part2(cs, spec, &mut v);
    assert(violation_views(Seq::<ShapeViolation>::empty()) =~= Seq::<ViolationView>::empty());
    let ghost vv = violation_views(v@);
    errors.append(&mut v);
    assert(violation_views(errors@) =~= start + vv);
}

/// The violations of the shapes listed by `s`, in that order.
pub open spec fn shapes_violations(s: Seq<(u32, CharShape)>, spec: CharShapeSpec, faces: Seq<FontFace>) -> Seq<
    ViolationView,
>
    decreases s.len(),
{
    if s.len() == 0 {
        Seq::empty()
    } else {
        shapes_violations(s.drop_last(), spec, faces) + char_shape_violations(s.last().1, spec, faces)
    }
}

/// The report of violation `v` on each run of `rs` using its shape.
pub open spec fn violation_on_runs(v: ViolationView, rs: Seq<RunView>) -> Seq<ErrorView>
    decreases rs.len(),
{
    if rs.len() == 0 {
        Seq::empty()
    } else {
        violation_on_runs(v, rs.drop_last()) + if rs.last().char_pr_id_ref == v.char_pr_id {
            seq![
                run_error(
                    rs.last(),
                    v.error_code,
                    rs.last().is_hyperlink,
                    rs.last().is_style,
                    message(v.error_code, v.font_name, None, false),
                ),
            ]
        } else {
            Seq::empty()
        }
    }
}

/// The reports of violations `vs` on runs `rs`, violation by violation.
pub open spec fn violations_on_runs(vs: Seq<ViolationView>, rs: Seq<RunView>) -> Seq<ErrorView>
    decreases vs.len(),
{
    if vs.len() == 0 {
        Seq::empty()
    } else {
        violations_on_runs(vs.drop_last(), rs) + violation_on_runs(vs.last(), rs)
    }
}

/// At the simple level only the first report is kept.
pub open spec fn apply_level(errs: Seq<ErrorView>, level: CheckLevel) -> Seq<ErrorView> {
    if level == CheckLevel::Simple && errs.len() > 1 {
        errs.take(1)
    } else {
        errs
    }
}

fn report_violation(v: &ShapeViolation, runs: &[RunTypeInfo], out: &mut Vec<DvcErrorInfo>)
    ensures
        error_views(final(out)@) == error_views(old(out)@) + violation_on_runs(v@, run_views(runs@)),
{
    let ghost start = error_views(out@);
    let mut i: usize = 0;
    assert(start + violation_on_runs(v@, run_views(runs@.take(0))) =~= start);
    while i < runs.len()
        invariant
            i <= runs@.len(),
            error_views(out@) == start + violation_on_runs(v@, run_views(runs@.take(i as int))),
        decreases runs.len() - i,
    {
        let run = &runs[i];
        proof {
            crate::checker::lemma_run_views_take(runs@, i as int);
        }
        if run.char_pr_id_ref == v.char_pr_id {
            let ctx = match &v.font_name {
                Some(f) => ErrorContext::with_font(f.as_str()),
                None => ErrorContext::none(),
            };
            let e = error_from_run(run, v.error_code, run.is_hyperlink, run.is_style, error_string(v.error_code, ctx));
            proof {
                lemma_error_views_push(out@, e);
            }
            out.push(e);
        }
        proof {
            let rv = run_views(runs@.take(i + 1));
            assert(error_views(out@) =~= start + violation_on_runs(v@, rv));
        }
        i = i + 1;
    }
    assert(runs@.take(runs@.len() as int) =~= runs@);
}

/// Check every character shape of the header against the spec and
/// report each violation on every run that uses the shape. At the
/// simple level only the first report is kept. Shapes are visited in
/// the table's iteration order.
pub fn check(
    spec: &CharShapeSpec,
    tables: &HeaderTables,
    run_type_infos: &[RunTypeInfo],
    level: CheckLevel,
) -> (r: Vec<DvcErrorInfo>)
    ensures
        exists|s: Seq<(u32, CharShape)>|
            enumerates(s, tables.char_shapes@) && error_views(r@) == apply_level(
                violations_on_runs(
                    shapes_violations(s, *spec, tables.font_faces@),
                    run_views(run_type_infos@),
                ),
                level,
            ),
{
    let mut inter: Vec<ShapeViolation> = Vec::new();
    let ghost mut hist: Seq<(u32, CharShape)> = Seq::empty();
    assert(violation_views(inter@) =~= Seq::<ViolationView>::empty());
    for kv in it: tables.char_shapes.iter()
        invariant
            hist == pair_values(it.history()),
            violation_views(inter@) == shapes_violations(hist, *spec, tables.font_faces@),
            it.seq().no_duplicates(),
            forall|j: int|
                0 <= j < it.seq().len() ==> tables.char_shapes@.contains_key(*(#[trigger] it.seq()[j]).0)
                    && tables.char_shapes@[*it.seq()[j].0] == *it.seq()[j].1,
            forall|k: u32|
                #[trigger] tables.char_shapes@.contains_key(k) ==> it.seq().contains((&k, &tables.char_shapes@[k])),
            it.index() == it.seq().len() ==> enumerates(hist, tables.char_shapes@),
    {
        let (k, cs) = kv;
        check_char_shape_to_check_list(cs, spec, tables.font_faces.as_slice(), &mut inter);
        proof {
            let h2 = pair_values(it.history().push(kv));
            assert(h2.drop_last() =~= hist);
            hist = h2;
        }
        assert(it.index() + 1 == it.seq().len() ==> enumerates(hist, tables.char_shapes@)) by {
            if it.index() + 1 == it.seq().len() {
                let sv = pair_values(it.seq());
                assert(it.history().push(kv) =~= it.seq());
                assert(hist =~= sv);
                assert forall|x: int, y: int| 0 <= x < y < sv.len() implies sv[x] != sv[y] by {
                    assert(it.seq()[x] != it.seq()[y]);
                }
                assert forall|kk: u32| #[trigger] tables.char_shapes@.contains_key(kk) implies sv.contains((kk, tables.char_shapes@[kk])) by {
                    let j = choose|j: int| 0 <= j < it.seq().len() && it.seq()[j] == (&kk, &tables.char_shapes@[kk]);
                    assert(sv[j] == (kk, tables.char_shapes@[kk]));
                }
            }
        }
    }
    let ghost vv = violation_views(inter@);
    let mut results: Vec<DvcErrorInfo> = Vec::new();
    let mut i: usize = 0;
    assert(error_views(results@) =~= violations_on_runs(vv.take(0), run_views(run_type_infos@)));
    while i < inter.len()
        invariant
            i <= inter@.len(),
            vv == violation_views(inter@),
            error_views(results@) == violations_on_runs(vv.take(i as int), run_views(run_type_infos@)),
        decreases inter.len() - i,
    {
        report_violation(&inter[i], run_type_infos, &mut results);
        proof {
            assert(vv.take(i + 1).drop_last() =~= vv.take(i as int));
            assert(vv.take(i + 1).last() == inter@[i as int]@);
        }
        i = i + 1;
    }
    assert(vv.take(vv.len() as int) =~= vv);
    if level == CheckLevel::Simple && results.len() > 1 {
        results.truncate(1);
    }
    assert(enumerates(hist, tables.char_shapes@));
    assert(error_views(results@) =~= apply_level(
        violations_on_runs(shapes_violations(hist, *spec, tables.font_faces@), run_views(run_type_infos@)),
        level,
    ));
    results
}

} // verus!
