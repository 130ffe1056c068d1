//! Laws of the character-shape check: every violation of a shape names
//! that shape, and the font and border rules fire exactly when the spec
//! says.

use vstd::prelude::*;
use crate::checker::char_shape::{
    any_font_allowed, char_shape_violations, push_font_violation, push_violation, violations_part1,
    violations_part2, ViolationView,
};
use crate::document::header::types::{char_font_name, char_font_names, font_names_upto, lang_at, CharShape, FontFace};
use crate::error::{CHARSHAPE_BG_BORDER, CHARSHAPE_BOLD, CHARSHAPE_EMBOSS, CHARSHAPE_EMPTYSPACE, CHARSHAPE_ENGRAVE, CHARSHAPE_FONT, CHARSHAPE_FONTSIZE, CHARSHAPE_ITALIC, CHARSHAPE_KERNING, CHARSHAPE_OUTLINE, CHARSHAPE_POINT, CHARSHAPE_POSITION, CHARSHAPE_RATIO, CHARSHAPE_RSIZE, CHARSHAPE_SHADOW, CHARSHAPE_SPACING, CHARSHAPE_STRIKEOUT, CHARSHAPE_SUBSCRIPT, CHARSHAPE_SUPSCRIPT, CHARSHAPE_UNDERLINE};
use crate::spec::CharShapeSpec;

verus! {

/// Whether `vs` holds violation `v`.
pub open spec fn has_violation(vs: Seq<ViolationView>, v: ViolationView) -> bool {
    exists|i: int| 0 <= i < vs.len() && #[trigger] vs[i] == v
}

/// Every violation of `vs` names shape `id`.
pub open spec fn all_name(vs: Seq<ViolationView>, id: u32) -> bool {
    forall|i: int| 0 <= i < vs.len() ==> (#[trigger] vs[i]).char_pr_id == id
}

/// The font violation of shape `id` whose resolved font names are `names`.
pub open spec fn font_violation_of(id: u32, names: Seq<Seq<char>>) -> ViolationView {
    ViolationView {
        char_pr_id: id,
        error_code: CHARSHAPE_FONT,
        font_name: if names.len() > 0 {
            Some(names[0])
        } else {
            None
        },
    }
}

broadcast proof fn lemma_push_has(acc: Seq<ViolationView>, b: bool, id: u32, code: u32, v: ViolationView)
    ensures
        #[trigger] has_violation(push_violation(acc, b, id, code), v) == (has_violation(acc, v) || (b && v
            == ViolationView { char_pr_id: id, error_code: code, font_name: None })),
{
    let r = push_violation(acc, b, id, code);
    if b {
        if has_violation(acc, v) {
            let i = choose|i: int| 0 <= i < acc.len() && #[trigger] acc[i] == v;
            assert(r[i] == v);
        }
        if has_violation(r, v) && !has_violation(acc, v) {
            let i = choose|i: int| 0 <= i < r.len() && #[trigger] r[i] == v;
            assert(i == acc.len());
        }
        if v == (ViolationView { char_pr_id: id, error_code: code, font_name: None }) {
            assert(r[acc.len() as int] == v);
        }
    }
}

broadcast proof fn lemma_push_names(acc: Seq<ViolationView>, b: bool, id: u32, code: u32)
    ensures
        #[trigger] all_name(push_violation(acc, b, id, code), id) == all_name(acc, id),
{
    let r = push_violation(acc, b, id, code);
    if b {
        if all_name(r, id) {
            assert forall|i: int| 0 <= i < acc.len() implies (#[trigger] acc[i]).char_pr_id == id by {
                assert(r[i] == acc[i]);
            }
        }
    }
}

proof fn lemma_font_push(acc: Seq<ViolationView>, spec: CharShapeSpec, id: u32, names: Seq<Seq<char>>, v: ViolationView)
    ensures
        has_violation(push_font_violation(acc, spec, id, names), v) == (has_violation(acc, v) || (spec.font@.len()
            > 0 && !any_font_allowed(names, spec.font@) && v == font_violation_of(id, names))),
        all_name(push_font_violation(acc, spec, id, names), id) == all_name(acc, id),
{
    let r = push_font_violation(acc, spec, id, names);
    if spec.font@.len() > 0 && !any_font_allowed(names, spec.font@) {
        assert(r == acc.push(font_violation_of(id, names)));
        if has_violation(acc, v) {
            let i = choose|i: int| 0 <= i < acc.len() && #[trigger] acc[i] == v;
            assert(r[i] == v);
        }
        if has_violation(r, v) && !has_violation(acc, v) {
            let i = choose|i: int| 0 <= i < r.len() && #[trigger] r[i] == v;
            assert(i == acc.len());
        }
        if v == font_violation_of(id, names) {
            assert(r[acc.len() as int] == v);
        }
        if all_name(r, id) {
            assert forall|i: int| 0 <= i < acc.len() implies (#[trigger] acc[i]).char_pr_id == id by {
                assert(r[i] == acc[i]);
            }
        }
    }
}

/// Every violation of a character shape names that shape. The font
/// violation, carrying the shape's first resolved font name, is among
/// them exactly when the spec lists fonts and none of the shape's font
/// names is listed, so a shape that resolves no font name is flagged
/// whenever the spec lists fonts. The background-border violation is
/// among them exactly when the spec has a border rule and the shape has
/// no border fill.
pub proof fn law_char_shape_font_and_border(cs: CharShape, spec: CharShapeSpec, faces: Seq<FontFace>)
    ensures
        all_name(char_shape_violations(cs, spec, faces), cs.id),
        has_violation(char_shape_violations(cs, spec, faces), font_violation_of(cs.id, char_font_names(cs, faces)))
            <==> (spec.font@.len() > 0 && !any_font_allowed(char_font_names(cs, faces), spec.font@)),
        (char_font_names(cs, faces).len() == 0 && spec.font@.len() > 0) ==> has_violation(
            char_shape_violations(cs, spec, faces),
            font_violation_of(cs.id, char_font_names(cs, faces)),
        ),
        has_violation(
            char_shape_violations(cs, spec, faces),
            ViolationView { char_pr_id: cs.id, error_code: CHARSHAPE_BG_BORDER, font_name: None },
        ) <==> (spec.border is Some && cs.border_fill_id_ref == 0),
{
    broadcast use lemma_push_has, lemma_push_names;

    let names = char_font_names(cs, faces);
    let fv = font_violation_of(cs.id, names);
    let bv = ViolationView { char_pr_id: cs.id, error_code: CHARSHAPE_BG_BORDER, font_name: None };
    let e = Seq::<ViolationView>::empty();
    assert(!has_violation(e, fv));
    assert(!has_violation(e, bv));
    assert(all_name(e, cs.id));
    let a1 = push_violation(e, crate::checker::para_shape::differs(spec.fontsize, cs.height), cs.id, crate::error::CHARSHAPE_FONTSIZE);
    lemma_font_push(a1, spec, cs.id, names, fv);
    lemma_font_push(a1, spec, cs.id, names, bv);
    let p1 = violations_part1(e, cs, spec, faces);
    assert(has_violation(p1, fv) <==> (spec.font@.len() > 0 && !any_font_allowed(names, spec.font@)));
    assert(!has_violation(p1, bv));
    assert(all_name(p1, cs.id));
    let p2 = violations_part2(p1, cs, spec);
    assert(has_violation(p2, fv) == has_violation(p1, fv));
    assert(has_violation(p2, bv) <==> (spec.border is Some && cs.border_fill_id_ref == 0));
    assert(all_name(p2, cs.id));
    if names.len() == 0 {
        assert(!any_font_allowed(names, spec.font@));
    }
}


/// The font name of language slot `m` of shape `cs`.
pub open spec fn slot_name(cs: CharShape, faces: Seq<FontFace>, m: int) -> Option<Seq<char>> {
    char_font_name(cs, lang_at(m), faces)
}

/// The first of the first `k` slots that gives name `n`, or `k` when
/// none does.
pub open spec fn first_slot(cs: CharShape, faces: Seq<FontFace>, n: Seq<char>, k: int) -> int
    decreases k,
{
    if k <= 0 {
        0
    } else if first_slot(cs, faces, n, k - 1) < k - 1 {
        first_slot(cs, faces, n, k - 1)
    } else if slot_name(cs, faces, k - 1) == Some(n) {
        k - 1
    } else {
        k
    }
}

/// What the first `k` slots give: no name twice; each slot's name is
/// there; each name comes from a slot; and the names stand in the order
/// of the first slot that gives each.
pub open spec fn first_seen(names: Seq<Seq<char>>, cs: CharShape, faces: Seq<FontFace>, k: int) -> bool {
    &&& names.no_duplicates()
    &&& forall|m: int| 0 <= m < k && #[trigger] slot_name(cs, faces, m) is Some ==> names.contains(
        slot_name(cs, faces, m)->0,
    )
    &&& forall|i: int| 0 <= i < names.len() ==> #[trigger] first_slot(cs, faces, names[i], k) < k
    &&& forall|i: int, j: int|
        0 <= i < j < names.len() ==> #[trigger] first_slot(cs, faces, names[i], k) < #[trigger] first_slot(
            cs,
            faces,
            names[j],
            k,
        )
}

/// The first slot giving a name, when there is one, gives it, and no
/// earlier slot does.
proof fn lemma_first_slot(cs: CharShape, faces: Seq<FontFace>, n: Seq<char>, k: int)
    requires
        0 <= k,
    ensures
        0 <= first_slot(cs, faces, n, k) <= k,
        first_slot(cs, faces, n, k) < k ==> slot_name(cs, faces, first_slot(cs, faces, n, k)) == Some(n),
        forall|m: int| 0 <= m < first_slot(cs, faces, n, k) ==> slot_name(cs, faces, m) != Some(n),
    decreases k,
{
    if k > 0 {
        lemma_first_slot(cs, faces, n, k - 1);
    }
}

proof fn lemma_font_names_upto(cs: CharShape, faces: Seq<FontFace>, k: int)
    requires
        0 <= k,
    ensures
        first_seen(font_names_upto(cs, faces, k), cs, faces, k),
    decreases k,
{
    if k > 0 {
        lemma_font_names_upto(cs, faces, k - 1);
        let prev = font_names_upto(cs, faces, k - 1);
        let cur = font_names_upto(cs, faces, k);
        assert(slot_name(cs, faces, k - 1) == char_font_name(cs, lang_at(k - 1), faces));
        // Names already seen keep their first slot.
        assert forall|i: int| 0 <= i < prev.len() implies #[trigger] first_slot(cs, faces, prev[i], k) == first_slot(cs, faces, prev[i], k - 1) by {
            assert(first_slot(cs, faces, prev[i], k - 1) < k - 1);
        }
        if slot_name(cs, faces, k - 1) is Some && !prev.contains(slot_name(cs, faces, k - 1)->0) {
            let n = slot_name(cs, faces, k - 1)->0;
            assert(cur == prev.push(n));
            lemma_first_slot(cs, faces, n, k - 1);
            if first_slot(cs, faces, n, k - 1) < k - 1 {
                assert(slot_name(cs, faces, first_slot(cs, faces, n, k - 1)) is Some);
            }
            assert(first_slot(cs, faces, n, k) == k - 1);
            assert(cur.no_duplicates()) by {
                assert forall|a: int, b: int| 0 <= a < b < cur.len() implies cur[a] != cur[b] by {
                    if b == prev.len() {
                        assert(prev[a] == cur[a]);
                        assert(prev.contains(prev[a]));
                    } else {
                        assert(prev[a] == cur[a] && prev[b] == cur[b]);
                    }
                }
            }
            assert forall|m: int| 0 <= m < k && #[trigger] slot_name(cs, faces, m) is Some implies cur.contains(
                slot_name(cs, faces, m)->0,
            ) by {
                if m < k - 1 {
                    let x = slot_name(cs, faces, m)->0;
                    let a = choose|a: int| 0 <= a < prev.len() && prev[a] == x;
                    assert(cur[a] == x);
                } else {
                    assert(cur[prev.len() as int] == n);
                }
            }
            assert forall|i: int| 0 <= i < cur.len() implies #[trigger] first_slot(cs, faces, cur[i], k) < k by {
                if i < prev.len() {
                    assert(cur[i] == prev[i]);
                    assert(first_slot(cs, faces, prev[i], k) == first_slot(cs, faces, prev[i], k - 1));
                }
            }
            assert forall|i: int, j: int|
                0 <= i < j < cur.len() implies #[trigger] first_slot(cs, faces, cur[i], k) < #[trigger] first_slot(cs, faces, cur[j], k) by {
                assert(cur[i] == prev[i]);
                assert(first_slot(cs, faces, prev[i], k) == first_slot(cs, faces, prev[i], k - 1));
                if j < prev.len() {
                    assert(cur[j] == prev[j]);
                    assert(first_slot(cs, faces, prev[j], k) == first_slot(cs, faces, prev[j], k - 1));
                }
            }
        } else {
            assert(cur == prev);
            assert forall|m: int| 0 <= m < k && #[trigger] slot_name(cs, faces, m) is Some implies cur.contains(
                slot_name(cs, faces, m)->0,
            ) by {
                if m < k - 1 {
                    assert(slot_name(cs, faces, m) is Some);
                }
            }
            assert forall|i: int| 0 <= i < cur.len() implies #[trigger] first_slot(cs, faces, cur[i], k) < k by {
                assert(first_slot(cs, faces, prev[i], k) == first_slot(cs, faces, prev[i], k - 1));
            }
            assert forall|i: int, j: int|
                0 <= i < j < cur.len() implies #[trigger] first_slot(cs, faces, cur[i], k) < #[trigger] first_slot(cs, faces, cur[j], k) by {
                assert(first_slot(cs, faces, prev[i], k) == first_slot(cs, faces, prev[i], k - 1));
                assert(first_slot(cs, faces, prev[j], k) == first_slot(cs, faces, prev[j], k - 1));
            }
        }
    }
}

/// A shape's font names hold no name twice; each language slot's name
/// (in the order Hangul, Latin, Hanja, Japanese, Other, Symbol, User) is
/// among them; each comes from some slot; and they stand in the order of
/// the first slot that gives each.
pub proof fn law_font_names_first_seen(cs: CharShape, faces: Seq<FontFace>)
    ensures
        first_seen(char_font_names(cs, faces), cs, faces, 7),
{
    lemma_font_names_upto(cs, faces, 7);
}


/// A set value that the shape's value is not.
pub open spec fn set_differs<T>(e: Option<T>, a: T) -> bool {
    match e {
        Some(x) => x != a,
        None => false,
    }
}

/// A set ratio that the shape's ratio is not.
pub open spec fn ratio_differs(e: Option<i32>, a: u32) -> bool {
    match e {
        Some(x) => x as u32 != a,
        None => false,
    }
}

/// A set point size (hundredths of a point) that a height is more than
/// 0.05 pt away from.
pub open spec fn point_off(e: Option<u32>, height: u32) -> bool {
    match e {
        Some(p) => height - p > 5 || p - height > 5,
        None => false,
    }
}

/// The violation of shape `id` for `code` that quotes no font.
pub open spec fn plain_violation(id: u32, code: u32) -> ViolationView {
    ViolationView { char_pr_id: id, error_code: code, font_name: None }
}

/// Whether shape `cs` breaks the spec's rule reported with code `code`,
/// other than the font rule: each rule reads the shape's own field for
/// it (the first language slot for the per-language values).
pub open spec fn shape_breaks(cs: CharShape, spec: CharShapeSpec, code: u32) -> bool {
    ||| code == CHARSHAPE_FONTSIZE && set_differs(spec.fontsize, cs.height)
    ||| code == CHARSHAPE_RSIZE && set_differs(spec.rsize, cs.rel_sz.values@[0])
    ||| code == CHARSHAPE_POSITION && set_differs(spec.position, cs.offset.values@[0])
    ||| code == CHARSHAPE_RATIO && ratio_differs(spec.ratio, cs.ratio.values@[0])
    ||| code == CHARSHAPE_SPACING && set_differs(spec.spacing, cs.spacing.values@[0])
    ||| code == CHARSHAPE_BOLD && set_differs(spec.bold, cs.bold)
    ||| code == CHARSHAPE_ITALIC && set_differs(spec.italic, cs.italic)
    ||| code == CHARSHAPE_UNDERLINE && set_differs(spec.underline, cs.underline)
    ||| code == CHARSHAPE_STRIKEOUT && set_differs(spec.strikeout, cs.strikeout)
    ||| code == CHARSHAPE_OUTLINE && set_differs(spec.outline, cs.outline)
    ||| code == CHARSHAPE_EMBOSS && set_differs(spec.emboss, cs.emboss)
    ||| code == CHARSHAPE_ENGRAVE && set_differs(spec.engrave, cs.engrave)
    ||| code == CHARSHAPE_SHADOW && set_differs(spec.shadow, cs.shadow)
    ||| code == CHARSHAPE_SUPSCRIPT && set_differs(spec.supscript, cs.supscript)
    ||| code == CHARSHAPE_SUBSCRIPT && set_differs(spec.subscript, cs.subscript)
    ||| code == CHARSHAPE_EMPTYSPACE && set_differs(spec.emptyspace, cs.use_font_space)
    ||| code == CHARSHAPE_POINT && point_off(spec.point_centi, cs.height)
    ||| code == CHARSHAPE_KERNING && set_differs(spec.kerning, cs.use_kerning)
    ||| code == CHARSHAPE_BG_BORDER && spec.border is Some && cs.border_fill_id_ref == 0
}

/// Every rule of the character-shape check but the font rule: a shape's
/// violations hold the violation for `code` exactly when the shape's own
/// field for that rule differs from the spec's setting (a point size by
/// more than 0.05 pt), so the italic violation, say, is there exactly
/// when the spec sets italic and the shape's italic flag is not it.
pub proof fn law_char_shape_rule_codes(cs: CharShape, spec: CharShapeSpec, faces: Seq<FontFace>, code: u32)
    requires
        code != CHARSHAPE_FONT,
    ensures
        has_violation(char_shape_violations(cs, spec, faces), plain_violation(cs.id, code)) <==> shape_breaks(cs, spec, code),
{
    broadcast use lemma_push_has;

    let names = char_font_names(cs, faces);
    let v = plain_violation(cs.id, code);
    let e = Seq::<ViolationView>::empty();
    assert(!has_violation(e, v));
    let a1 = push_violation(e, crate::checker::para_shape::differs(spec.fontsize, cs.height), cs.id, crate::error::CHARSHAPE_FONTSIZE);
    lemma_font_push(a1, spec, cs.id, names, v);
    assert(v != font_violation_of(cs.id, names));
    let p1 = violations_part1(e, cs, spec, faces);
    let p2 = violations_part2(p1, cs, spec);
    assert(has_violation(p1, v) == (
        (code == CHARSHAPE_FONTSIZE && set_differs(spec.fontsize, cs.height))
        || (code == CHARSHAPE_RSIZE && set_differs(spec.rsize, cs.rel_sz.values@[0]))
        || (code == CHARSHAPE_POSITION && set_differs(spec.position, cs.offset.values@[0]))
        || (code == CHARSHAPE_RATIO && ratio_differs(spec.ratio, cs.ratio.values@[0]))
        || (code == CHARSHAPE_SPACING && set_differs(spec.spacing, cs.spacing.values@[0]))));
}

} // verus!
