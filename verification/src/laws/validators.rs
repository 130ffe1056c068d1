//! Laws of the run-based validators: permission gates, one finding per
//! run or per link, the codes each reports, the simple level, the
//! output scope and the representatives of paragraph shapes.

use vstd::prelude::*;
use crate::checker::{run_errors, CheckLevel, ErrorView, OutputScope, ScopeCategory, first_runs, scope_allows, seen_para};
use crate::document::Document;
use crate::checker::bullet::bullet_seq_errors;
use crate::checker::char_shape::{ViolationView, apply_level, char_shape_violations, push_font_violation, push_violation, shapes_violations, violation_on_runs, violations_on_runs, violations_part1};
use crate::checker::hyperlink::{hyperlink_errors, hyperlink_run_errors};
use crate::checker::macro_::macro_errors;
use crate::checker::para_shape::differs;
use crate::checker::special_character::{first_out_of_range, logical_text, special_errors};
use crate::checker::style::{style_errors, style_permission_errors, style_type_errors};
use crate::document::archive::{Part, parts_have_macro};
use crate::document::header::types::{Bullet, CharShape, FontFace, char_font_names};
use crate::document::run_type::RunView;
use crate::error::{BULLET_SHAPES, CHARSHAPE_BG_PATTONTYPE, CHARSHAPE_FONTSIZE, HYPERLINK_PERMISSION, MACRO_PERMISSION, SPECIALCHAR_MAX, SPECIALCHAR_MIN, STYLE_PERMISSION, STYLE_TYPE};
use crate::laws::codes_within;
use crate::messages::message;
use crate::spec::{DvcSpec, CharShapeSpec, HyperlinkSpec, MacroSpec, SpecialCharacterSpec, StyleSpec};

verus! {

/// The number of hyperlink runs of `rs`.
pub open spec fn hyperlink_count(rs: Seq<RunView>) -> nat
    decreases rs.len(),
{
    if rs.len() == 0 {
        0
    } else {
        hyperlink_count(rs.drop_last()) + if rs.last().is_hyperlink {
            1nat
        } else {
            0nat
        }
    }
}

/// The number of runs of `rs` whose paragraph uses a non-default style.
pub open spec fn styled_count(rs: Seq<RunView>) -> nat
    decreases rs.len(),
{
    if rs.len() == 0 {
        0
    } else {
        styled_count(rs.drop_last()) + if rs.last().is_style {
            1nat
        } else {
            0nat
        }
    }
}

/// When hyperlinks are permitted the hyperlink check reports nothing.
pub proof fn law_hyperlink_permitted_is_silent(spec: HyperlinkSpec, rs: Seq<RunView>)
    requires
        spec.permission,
    ensures
        hyperlink_errors(spec, rs).len() == 0,
{
}

/// When hyperlinks are forbidden, the hyperlink check reports exactly
/// one finding per hyperlink run, each with the hyperlink code and the
/// hyperlink flag set.
pub proof fn law_hyperlink_one_finding_per_link(rs: Seq<RunView>)
    ensures
        hyperlink_run_errors(rs).len() == hyperlink_count(rs),
        codes_within(hyperlink_run_errors(rs), HYPERLINK_PERMISSION, (HYPERLINK_PERMISSION + 1) as u32),
        forall|i: int|
            0 <= i < hyperlink_run_errors(rs).len() ==> (#[trigger] hyperlink_run_errors(rs)[i]).use_hyperlink,
    decreases rs.len(),
{
    if rs.len() > 0 {
        law_hyperlink_one_finding_per_link(rs.drop_last());
        let pre = hyperlink_run_errors(rs.drop_last());
        let all = hyperlink_run_errors(rs);
        assert forall|i: int| 0 <= i < all.len() implies HYPERLINK_PERMISSION <= (#[trigger] all[i]).error_code
            < HYPERLINK_PERMISSION + 1 && all[i].use_hyperlink by {
            if i < pre.len() {
                assert(all[i] == pre[i]);
            }
        }
    }
}

/// Every style finding carries one of the two style codes and the style
/// flag.
pub proof fn law_style_findings_are_style_codes(spec: StyleSpec, rs: Seq<RunView>)
    ensures
        forall|i: int|
            0 <= i < style_errors(spec, rs).len() ==> {
                let e = #[trigger] style_errors(spec, rs)[i];
                (e.error_code == STYLE_TYPE || e.error_code == STYLE_PERMISSION) && e.use_style
            },
{
    let t = match spec.allowed_types {
        Some(a) => if a@.len() > 0 {
            style_type_errors(a@, rs)
        } else {
            Seq::empty()
        },
        None => Seq::empty(),
    };
    let p = if !spec.permission {
        style_permission_errors(rs)
    } else {
        Seq::empty()
    };
    lemma_style_type_codes(spec, rs);
    lemma_style_permission_codes(rs);
    let all = style_errors(spec, rs);
    assert(all == t + p);
    assert forall|i: int| 0 <= i < all.len() implies {
        let e = #[trigger] all[i];
        (e.error_code == STYLE_TYPE || e.error_code == STYLE_PERMISSION) && e.use_style
    } by {
        if i < t.len() {
            assert(all[i] == t[i]);
        } else {
            assert(all[i] == p[i - t.len()]);
        }
    }
}

proof fn lemma_style_type_codes(spec: StyleSpec, rs: Seq<RunView>)
    ensures
        spec.allowed_types matches Some(a) ==> forall|i: int|
            0 <= i < style_type_errors(a@, rs).len() ==> (#[trigger] style_type_errors(a@, rs)[i]).error_code
                == STYLE_TYPE && style_type_errors(a@, rs)[i].use_style,
    decreases rs.len(),
{
    if let Some(a) = spec.allowed_types {
        if rs.len() > 0 {
            lemma_style_type_codes(spec, rs.drop_last());
            let pre = style_type_errors(a@, rs.drop_last());
            let all = style_type_errors(a@, rs);
            assert forall|i: int| 0 <= i < all.len() implies (#[trigger] all[i]).error_code == STYLE_TYPE
                && all[i].use_style by {
                if i < pre.len() {
                    assert(all[i] == pre[i]);
                }
            }
        }
    }
}

proof fn lemma_style_permission_codes(rs: Seq<RunView>)
    ensures
        forall|i: int|
            0 <= i < style_permission_errors(rs).len() ==> (#[trigger] style_permission_errors(rs)[i]).error_code
                == STYLE_PERMISSION && style_permission_errors(rs)[i].use_style,
        style_permission_errors(rs).len() == styled_count(rs),
    decreases rs.len(),
{
    if rs.len() > 0 {
        lemma_style_permission_codes(rs.drop_last());
        let pre = style_permission_errors(rs.drop_last());
        let all = style_permission_errors(rs);
        assert forall|i: int| 0 <= i < all.len() implies (#[trigger] all[i]).error_code == STYLE_PERMISSION
            && all[i].use_style by {
            if i < pre.len() {
                assert(all[i] == pre[i]);
            }
        }
    }
}

/// With styles permitted and no allow-list of kinds, the style check
/// reports nothing; with styles forbidden and no allow-list, it reports
/// one finding per run of a non-default style.
pub proof fn law_style_permission_gate(spec: StyleSpec, rs: Seq<RunView>)
    requires
        spec.allowed_types matches Some(a) ==> a@.len() == 0,
    ensures
        spec.permission ==> style_errors(spec, rs).len() == 0,
        !spec.permission ==> style_errors(spec, rs).len() == styled_count(rs),
{
    lemma_style_permission_codes(rs);
    assert(Seq::<ErrorView>::empty() + style_permission_errors(rs) =~= style_permission_errors(rs));
    assert(Seq::<ErrorView>::empty() + Seq::<ErrorView>::empty() =~= Seq::<ErrorView>::empty());
}

/// The macro check reports nothing when macros are permitted, and
/// otherwise exactly one finding, with the macro code, when the
/// document declares a script.
pub proof fn law_macro_permission(spec: MacroSpec, parts: Seq<Part>)
    ensures
        spec.permission ==> macro_errors(spec, parts).len() == 0,
        !spec.permission ==> macro_errors(spec, parts).len() == (if parts_have_macro(parts) {
            1int
        } else {
            0int
        }),
        codes_within(macro_errors(spec, parts), MACRO_PERMISSION, (MACRO_PERMISSION + 1) as u32),
{
}

/// The special-character check reports at most one finding per run,
/// each with the below-minimum or above-maximum code; a run stream whose
/// texts all lie in range gives no finding.
pub proof fn law_special_characters_one_per_run(spec: SpecialCharacterSpec, rs: Seq<RunView>)
    ensures
        special_errors(spec, rs).len() <= rs.len(),
        forall|i: int|
            0 <= i < special_errors(spec, rs).len() ==> {
                let c = (#[trigger] special_errors(spec, rs)[i]).error_code;
                c == SPECIALCHAR_MIN || c == SPECIALCHAR_MAX
            },
        (forall|j: int|
            0 <= j < rs.len() ==> first_out_of_range(logical_text((#[trigger] rs[j]).text), spec.minimum, spec.maximum)
                is None) ==> special_errors(spec, rs).len() == 0,
    decreases rs.len(),
{
    if rs.len() > 0 {
        law_special_characters_one_per_run(spec, rs.drop_last());
        let pre = special_errors(spec, rs.drop_last());
        let all = special_errors(spec, rs);
        assert forall|i: int| 0 <= i < all.len() implies {
            let c = (#[trigger] all[i]).error_code;
            c == SPECIALCHAR_MIN || c == SPECIALCHAR_MAX
        } by {
            if i < pre.len() {
                assert(all[i] == pre[i]);
            }
        }
        if forall|j: int|
            0 <= j < rs.len() ==> first_out_of_range(logical_text((#[trigger] rs[j]).text), spec.minimum, spec.maximum)
                is None {
            assert forall|j: int| 0 <= j < rs.drop_last().len() implies first_out_of_range(
                logical_text((#[trigger] rs.drop_last()[j]).text),
                spec.minimum,
                spec.maximum,
            ) is None by {
                assert(rs.drop_last()[j] == rs[j]);
            }
            assert(first_out_of_range(logical_text(rs[rs.len() - 1].text), spec.minimum, spec.maximum) is None);
        }
    }
}

/// At the simple level only the first finding is kept; at the full
/// level every finding is.
pub proof fn law_simple_level_keeps_first(errs: Seq<ErrorView>)
    ensures
        apply_level(errs, CheckLevel::All) == errs,
        apply_level(errs, CheckLevel::Simple).len() <= 1,
        errs.len() > 0 ==> apply_level(errs, CheckLevel::Simple) == seq![errs[0]],
{
    if errs.len() > 0 {
        assert(apply_level(errs, CheckLevel::Simple) =~= seq![errs[0]]);
    }
}

/// The representative runs carry each paragraph shape of the stream
/// exactly once: no two share a paragraph shape, and every paragraph
/// shape of the stream has one.
pub proof fn law_representatives_dedup(rs: Seq<RunView>)
    ensures
        forall|i: int, j: int|
            0 <= i < j < first_runs(rs).len() ==> (#[trigger] first_runs(rs)[i]).para_pr_id_ref != (#[trigger] first_runs(
                rs,
            )[j]).para_pr_id_ref,
        forall|id: u32| seen_para(rs, id) <==> #[trigger] seen_para(first_runs(rs), id),
    decreases rs.len(),
{
    if rs.len() > 0 {
        let pre = rs.drop_last();
        law_representatives_dedup(pre);
        let fp = first_runs(pre);
        let f = first_runs(rs);
        let last = rs.last();
        assert forall|id: u32| seen_para(rs, id) <==> (seen_para(pre, id) || last.para_pr_id_ref == id) by {
            if seen_para(rs, id) {
                let m = choose|m: int| 0 <= m < rs.len() && (#[trigger] rs[m]).para_pr_id_ref == id;
                if m < pre.len() {
                    assert(pre[m] == rs[m]);
                }
            }
            if seen_para(pre, id) {
                let m = choose|m: int| 0 <= m < pre.len() && (#[trigger] pre[m]).para_pr_id_ref == id;
                assert(rs[m] == pre[m]);
            }
            if last.para_pr_id_ref == id {
                assert(rs[rs.len() - 1] == last);
            }
        }
        if !seen_para(pre, last.para_pr_id_ref) {
            assert(f == fp.push(last));
            assert forall|id: u32| seen_para(f, id) <==> (seen_para(fp, id) || last.para_pr_id_ref == id) by {
                if seen_para(f, id) {
                    let m = choose|m: int| 0 <= m < f.len() && (#[trigger] f[m]).para_pr_id_ref == id;
                    if m < fp.len() {
                        assert(fp[m] == f[m]);
                    }
                }
                if seen_para(fp, id) {
                    let m = choose|m: int| 0 <= m < fp.len() && (#[trigger] fp[m]).para_pr_id_ref == id;
                    assert(f[m] == fp[m]);
                }
                if last.para_pr_id_ref == id {
                    assert(f[fp.len() as int] == last);
                }
            }
            assert forall|i: int, j: int| 0 <= i < j < f.len() implies (#[trigger] f[i]).para_pr_id_ref
                != (#[trigger] f[j]).para_pr_id_ref by {
                if j < fp.len() {
                    assert(f[i] == fp[i] && f[j] == fp[j]);
                } else {
                    assert(f[i] == fp[i]);
                    assert(f[j] == last);
                    if fp[i].para_pr_id_ref == last.para_pr_id_ref {
                        assert(seen_para(fp, last.para_pr_id_ref));
                    }
                }
            }
        } else {
            assert(f == fp);
        }
    }
}

/// With no scope flag set, or with the all flag, every category is
/// reported.
pub proof fn law_default_scope_reports_everything(s: OutputScope, c: ScopeCategory)
    requires
        !s.table && !s.table_detail && !s.shape && !s.style && !s.hyperlink,
    ensures
        scope_allows(s, c),
{
}

/// Image bullets, empty bullets and bullets whose characters are all
/// allowed give no finding; any other finding carries the bullet-shape
/// code and the bullet's characters as its message.
pub proof fn law_bullet_findings(s: Seq<(u32, Bullet)>, allowed: Seq<char>)
    ensures
        forall|i: int|
            0 <= i < bullet_seq_errors(s, allowed).len() ==> (#[trigger] bullet_seq_errors(s, allowed)[i]).error_code
                == BULLET_SHAPES,
        bullet_seq_errors(s, allowed).len() <= s.len(),
        (forall|j: int| 0 <= j < s.len() ==> (#[trigger] s[j]).1.use_image) ==> bullet_seq_errors(s, allowed).len()
            == 0,
    decreases s.len(),
{
    if s.len() > 0 {
        law_bullet_findings(s.drop_last(), allowed);
        let pre = bullet_seq_errors(s.drop_last(), allowed);
        let all = bullet_seq_errors(s, allowed);
        assert forall|i: int| 0 <= i < all.len() implies (#[trigger] all[i]).error_code == BULLET_SHAPES by {
            if i < pre.len() {
                assert(all[i] == pre[i]);
            }
        }
        if forall|j: int| 0 <= j < s.len() ==> (#[trigger] s[j]).1.use_image {
            assert forall|j: int| 0 <= j < s.drop_last().len() implies (#[trigger] s.drop_last()[j]).1.use_image by {
                assert(s.drop_last()[j] == s[j]);
            }
            assert(s[s.len() - 1].1.use_image);
        }
    }
}

/// Every violation of `vs` carries a character-shape code.
pub open spec fn shape_codes_ok(vs: Seq<ViolationView>) -> bool {
    forall|i: int| 0 <= i < vs.len() ==> CHARSHAPE_FONTSIZE <= (#[trigger] vs[i]).error_code <= CHARSHAPE_BG_PATTONTYPE
}

broadcast proof fn lemma_push_violation_ok(acc: Seq<ViolationView>, b: bool, id: u32, code: u32)
    requires
        shape_codes_ok(acc),
        CHARSHAPE_FONTSIZE <= code <= CHARSHAPE_BG_PATTONTYPE,
    ensures
        shape_codes_ok(#[trigger] push_violation(acc, b, id, code)),
{
    let r = push_violation(acc, b, id, code);
    assert forall|i: int| 0 <= i < r.len() implies CHARSHAPE_FONTSIZE <= (#[trigger] r[i]).error_code
        <= CHARSHAPE_BG_PATTONTYPE by {
        if i < acc.len() {
            assert(r[i] == acc[i]);
        }
    }
}

proof fn lemma_shape_violations_ok(cs: CharShape, spec: CharShapeSpec, faces: Seq<FontFace>)
    ensures
        shape_codes_ok(char_shape_violations(cs, spec, faces)),
{
    broadcast use lemma_push_violation_ok;

    let c0 = Seq::<ViolationView>::empty();
    let c1 = push_violation(c0, differs(spec.fontsize, cs.height), cs.id, CHARSHAPE_FONTSIZE);
    let c2 = push_font_violation(c1, spec, cs.id, char_font_names(cs, faces));
    assert forall|i: int| 0 <= i < c2.len() implies CHARSHAPE_FONTSIZE <= (#[trigger] c2[i]).error_code
        <= CHARSHAPE_BG_PATTONTYPE by {
        if i < c1.len() {
            assert(c2[i] == c1[i]);
        }
    }
    assert(shape_codes_ok(violations_part1(c0, cs, spec, faces)));
}

proof fn lemma_shapes_violations_ok(s: Seq<(u32, CharShape)>, spec: CharShapeSpec, faces: Seq<FontFace>)
    ensures
        shape_codes_ok(shapes_violations(s, spec, faces)),
    decreases s.len(),
{
    if s.len() > 0 {
        lemma_shapes_violations_ok(s.drop_last(), spec, faces);
        lemma_shape_violations_ok(s.last().1, spec, faces);
        let a = shapes_violations(s.drop_last(), spec, faces);
        let b = char_shape_violations(s.last().1, spec, faces);
        let r = shapes_violations(s, spec, faces);
        assert forall|i: int| 0 <= i < r.len() implies CHARSHAPE_FONTSIZE <= (#[trigger] r[i]).error_code
            <= CHARSHAPE_BG_PATTONTYPE by {
            if i < a.len() {
                assert(r[i] == a[i]);
            } else {
                assert(r[i] == b[i - a.len()]);
            }
        }
    }
}

proof fn lemma_violation_on_runs(v: ViolationView, rs: Seq<RunView>)
    ensures
        forall|i: int|
            0 <= i < violation_on_runs(v, rs).len() ==> (#[trigger] violation_on_runs(v, rs)[i]).error_code
                == v.error_code && violation_on_runs(v, rs)[i].char_pr_id_ref == v.char_pr_id,
        violation_on_runs(v, rs).len() <= rs.len(),
    decreases rs.len(),
{
    if rs.len() > 0 {
        lemma_violation_on_runs(v, rs.drop_last());
        let a = violation_on_runs(v, rs.drop_last());
        let r = violation_on_runs(v, rs);
        assert forall|i: int| 0 <= i < r.len() implies (#[trigger] r[i]).error_code == v.error_code
            && r[i].char_pr_id_ref == v.char_pr_id by {
            if i < a.len() {
                assert(r[i] == a[i]);
            }
        }
    }
}

proof fn lemma_violations_on_runs(vs: Seq<ViolationView>, rs: Seq<RunView>)
    requires
        shape_codes_ok(vs),
    ensures
        codes_within(violations_on_runs(vs, rs), CHARSHAPE_FONTSIZE, (CHARSHAPE_BG_PATTONTYPE + 1) as u32),
    decreases vs.len(),
{
    if vs.len() > 0 {
        assert(shape_codes_ok(vs.drop_last())) by {
            assert forall|i: int| 0 <= i < vs.drop_last().len() implies CHARSHAPE_FONTSIZE
                <= (#[trigger] vs.drop_last()[i]).error_code <= CHARSHAPE_BG_PATTONTYPE by {
                assert(vs.drop_last()[i] == vs[i]);
            }
        }
        lemma_violations_on_runs(vs.drop_last(), rs);
        lemma_violation_on_runs(vs.last(), rs);
        assert(vs.last() == vs[vs.len() - 1]);
        let a = violations_on_runs(vs.drop_last(), rs);
        let b = violation_on_runs(vs.last(), rs);
        let r = violations_on_runs(vs, rs);
        assert forall|i: int| 0 <= i < r.len() implies CHARSHAPE_FONTSIZE <= (#[trigger] r[i]).error_code
            < CHARSHAPE_BG_PATTONTYPE + 1 by {
            if i < a.len() {
                assert(r[i] == a[i]);
            } else {
                assert(r[i] == b[i - a.len()]);
            }
        }
    }
}

/// Every finding of the character-shape check carries a character-shape
/// code, at either level.
pub proof fn law_char_shape_codes(
    s: Seq<(u32, CharShape)>,
    spec: CharShapeSpec,
    faces: Seq<FontFace>,
    rs: Seq<RunView>,
    level: CheckLevel,
)
    ensures
        codes_within(
            apply_level(violations_on_runs(shapes_violations(s, spec, faces), rs), level),
            CHARSHAPE_FONTSIZE,
            (CHARSHAPE_BG_PATTONTYPE + 1) as u32,
        ),
{
    lemma_shapes_violations_ok(s, spec, faces);
    let e = violations_on_runs(shapes_violations(s, spec, faces), rs);
    lemma_violations_on_runs(shapes_violations(s, spec, faces), rs);
    if level == CheckLevel::Simple && e.len() > 1 {
        let r = apply_level(e, level);
        assert forall|i: int| 0 <= i < r.len() implies CHARSHAPE_FONTSIZE <= (#[trigger] r[i]).error_code
            < CHARSHAPE_BG_PATTONTYPE + 1 by {
            assert(r[i] == e[i]);
        }
    }
}

/// A category left out of the output scope reports what the same run
/// reports with that category's rules removed from the spec: leaving
/// out hyperlinks, styles, shapes or tables drops exactly their findings.
pub proof fn law_scope_drops_category(
    spec: DvcSpec,
    doc: Document,
    level: CheckLevel,
    scope: OutputScope,
    shapes: Seq<(u32, CharShape)>,
    bullets: Seq<(u32, Bullet)>,
)
    ensures
        !scope_allows(scope, ScopeCategory::Hyperlink) ==> run_errors(spec, doc, level, scope, shapes, bullets)
            == run_errors(DvcSpec { hyperlink: None, ..spec }, doc, level, scope, shapes, bullets),
        !scope_allows(scope, ScopeCategory::Style) ==> run_errors(spec, doc, level, scope, shapes, bullets)
            == run_errors(DvcSpec { style: None, ..spec }, doc, level, scope, shapes, bullets),
        !scope_allows(scope, ScopeCategory::Shape) ==> run_errors(spec, doc, level, scope, shapes, bullets)
            == run_errors(DvcSpec { charshape: None, parashape: None, ..spec }, doc, level, scope, shapes, bullets),
        !scope_allows(scope, ScopeCategory::Table) ==> run_errors(spec, doc, level, scope, shapes, bullets)
            == run_errors(DvcSpec { table: None, ..spec }, doc, level, scope, shapes, bullets),
{
}

} // verus!
