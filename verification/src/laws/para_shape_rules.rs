//! Which code the paragraph-shape check gives for which paragraph shape:
//! each rule reads the shape's own field for it.

use vstd::prelude::*;
use crate::checker::para_shape::{
    para_shape_codes, push_if, spec_h_align_ordinal, spec_heading_type_ordinal, spec_line_break_latin_ordinal,
    spec_line_spacing_ordinal, spec_v_align_ordinal,
};
use crate::document::header::types::{LineBreakWord, ParaShape};
use crate::error::{
    PARASHAPE_AUTOSPACEEASIANENG, PARASHAPE_AUTOSPACEEASIANNUM, PARASHAPE_FONTLINEHEIGHT, PARASHAPE_HORIZONTAL,
    PARASHAPE_INDENT, PARASHAPE_KEEPLINESTOGETHER, PARASHAPE_KEEPWITHNEXT, PARASHAPE_LINEBREAKCONDENSE,
    PARASHAPE_LINEBREAKENGLISH, PARASHAPE_LINEBREAKKOREAN, PARASHAPE_LINESPACING, PARASHAPE_LINESPACINGVALUE,
    PARASHAPE_LINEWRAP, PARASHAPE_MARGINLEFT, PARASHAPE_MARGINRIGHT, PARASHAPE_OUTDENT, PARASHAPE_PAGEBREAKBEFORE,
    PARASHAPE_PARATYPE, PARASHAPE_PARATYPEVALUE, PARASHAPE_SPACINGGRIDPAPER, PARASHAPE_SPACINGIGNORE,
    PARASHAPE_SPACINGPARABOTTOM, PARASHAPE_SPACINGPARAUP, PARASHAPE_VERTICALALIGN, PARASHAPE_WIDOWORPHAN,
};
use crate::laws::char_shape::set_differs;
use crate::spec::ParaShapeSpec;

verus! {

/// Whether paragraph shape `ps` breaks the spec's rule reported with code
/// `code`: each rule reads the shape's own field for it (the outdent
/// rule, like the left-margin rule, reads the left margin).
pub open spec fn para_breaks(spec: ParaShapeSpec, ps: ParaShape, code: u32) -> bool {
    ||| code == PARASHAPE_HORIZONTAL && set_differs(spec.horizontal, spec_h_align_ordinal(ps.h_align))
    ||| code == PARASHAPE_MARGINLEFT && set_differs(spec.margin_left, ps.margin.left)
    ||| code == PARASHAPE_MARGINRIGHT && set_differs(spec.margin_right, ps.margin.right)
    ||| code == PARASHAPE_INDENT && set_differs(spec.indent, ps.margin.indent)
    ||| code == PARASHAPE_OUTDENT && set_differs(spec.outdent, ps.margin.left)
    ||| code == PARASHAPE_LINESPACING && set_differs(spec.linespacing, spec_line_spacing_ordinal(ps.line_spacing.type_))
    ||| code == PARASHAPE_LINESPACINGVALUE && set_differs(spec.linespacingvalue, ps.line_spacing.value)
    ||| code == PARASHAPE_SPACINGPARAUP && set_differs(spec.spacing_paraup, ps.margin.prev)
    ||| code == PARASHAPE_SPACINGPARABOTTOM && set_differs(spec.spacing_parabottom, ps.margin.next)
    ||| code == PARASHAPE_SPACINGGRIDPAPER && set_differs(spec.spacing_gridpaper, ps.snap_to_grid)
    ||| code == PARASHAPE_LINEBREAKKOREAN && set_differs(
        spec.linebreak_korean,
        ps.break_non_latin_word == LineBreakWord::BreakWord,
    )
    ||| code == PARASHAPE_LINEBREAKENGLISH && set_differs(spec.linebreak_english, spec_line_break_latin_ordinal(ps.break_latin_word))
    ||| code == PARASHAPE_LINEBREAKCONDENSE && set_differs(spec.linebreak_condense, ps.condense as i32)
    ||| code == PARASHAPE_PARATYPE && set_differs(spec.paratype, spec_heading_type_ordinal(ps.heading_type))
    ||| code == PARASHAPE_PARATYPEVALUE && set_differs(spec.paratype_value, ps.heading_id_ref)
    ||| code == PARASHAPE_WIDOWORPHAN && set_differs(spec.widow_orphan, ps.widow_orphan)
    ||| code == PARASHAPE_KEEPWITHNEXT && set_differs(spec.keep_with_next, ps.keep_with_next)
    ||| code == PARASHAPE_KEEPLINESTOGETHER && set_differs(spec.keep_lines_together, ps.keep_lines)
    ||| code == PARASHAPE_PAGEBREAKBEFORE && set_differs(spec.pagebreak_before, ps.page_break_before)
    ||| code == PARASHAPE_FONTLINEHEIGHT && set_differs(spec.fontlineheight, ps.font_line_height)
    ||| code == PARASHAPE_LINEWRAP && set_differs(spec.linewrap, ps.line_wrap)
    ||| code == PARASHAPE_AUTOSPACEEASIANENG && set_differs(spec.autospace_easian_eng, ps.auto_spacing_eng)
    ||| code == PARASHAPE_AUTOSPACEEASIANNUM && set_differs(spec.autospace_easian_num, ps.auto_spacing_num)
    ||| code == PARASHAPE_VERTICALALIGN && set_differs(spec.verticalalign, spec_v_align_ordinal(ps.v_align))
    ||| code == PARASHAPE_SPACINGIGNORE && set_differs(spec.spacing_ignore, ps.ignore_margin)
}

/// Whether `s` holds `k`.
#[verifier::opaque]
pub open spec fn holds(s: Seq<u32>, k: u32) -> bool {
    exists|i: int| 0 <= i < s.len() && #[trigger] s[i] == k
}

pub broadcast proof fn lemma_push_if_holds(acc: Seq<u32>, b: bool, c: u32, k: u32)
    ensures
        #[trigger] holds(push_if(acc, b, c), k) == (holds(acc, k) || (b && c == k)),
{
    reveal(holds);
    if b {
        let r = acc.push(c);
        if holds(acc, k) {
            let i = choose|i: int| 0 <= i < acc.len() && #[trigger] acc[i] == k;
            assert(r[i] == k);
        }
        if holds(r, k) && !holds(acc, k) {
            let i = choose|i: int| 0 <= i < r.len() && #[trigger] r[i] == k;
            if i < acc.len() {
                assert(r[i] == acc[i]);
            }
        }
        if c == k {
            assert(r[acc.len() as int] == k);
        }
    }
}

/// A sequence joined to another holds what either holds.
pub proof fn lemma_holds_add(a: Seq<u32>, b: Seq<u32>, k: u32)
    ensures
        holds(a + b, k) == (holds(a, k) || holds(b, k)),
{
    reveal(holds);
    let ab = a + b;
    if holds(a, k) {
        let i = choose|i: int| 0 <= i < a.len() && #[trigger] a[i] == k;
        assert(ab[i] == a[i]);
    }
    if holds(b, k) {
        let i = choose|i: int| 0 <= i < b.len() && #[trigger] b[i] == k;
        assert(ab[a.len() + i] == b[i]);
    }
    if holds(ab, k) {
        let i = choose|i: int| 0 <= i < ab.len() && #[trigger] ab[i] == k;
        if i < a.len() {
            assert(ab[i] == a[i]);
        } else {
            assert(ab[i] == b[i - a.len()]);
        }
    }
}

/// A sequence with `x` pushed holds what it held, and `x`.
pub proof fn lemma_holds_push(a: Seq<u32>, x: u32, k: u32)
    ensures
        holds(a.push(x), k) == (holds(a, k) || x == k),
{
    lemma_push_if_holds(a, true, x, k);
}

/// The empty sequence holds nothing.
pub proof fn lemma_holds_empty(k: u32)
    ensures
        !holds(Seq::<u32>::empty(), k),
{
    reveal(holds);
}

/// A paragraph shape's codes hold `code` exactly when the shape's own
/// field for that rule differs from the spec's setting: the keep-with-next
/// code, say, exactly when the spec sets keep-with-next and the shape's
/// keep-with-next flag is not it.
pub proof fn law_para_shape_code_iff_rule_broken(spec: ParaShapeSpec, ps: ParaShape, code: u32)
    ensures
        holds(para_shape_codes(spec, ps), code) <==> para_breaks(spec, ps, code),
{
    broadcast use lemma_push_if_holds;

    assert(!holds(Seq::<u32>::empty(), code)) by {
        reveal(holds);
    }
}

} // verus!
