//! Paragraph-shape rules: each distinct paragraph shape used by the runs
//! is compared once, field by field, against the spec.

use vstd::prelude::*;
use crate::laws::{inc_between, lemma_inc_empty, lemma_inc_widen, lemma_push_if_inc};
use crate::checker::{error_views, first_runs, push_code_errors, code_errors, representative_runs, ErrorView, DvcErrorInfo};
use crate::document::archive::Document;
use crate::document::header::HeaderTables;
use crate::document::header::types::{HAlign, HeadingType, LineBreakWord, LineSpacingType, ParaShape, VAlign};
use crate::document::run_type::{run_views, RunView};
use crate::document::section::derefs;
use crate::error::{PARASHAPE_AUTOSPACEEASIANENG,PARASHAPE_AUTOSPACEEASIANNUM,PARASHAPE_FONTLINEHEIGHT,PARASHAPE_HORIZONTAL,PARASHAPE_INDENT,PARASHAPE_KEEPLINESTOGETHER,PARASHAPE_KEEPWITHNEXT,PARASHAPE_LINEBREAKCONDENSE,PARASHAPE_LINEBREAKENGLISH,PARASHAPE_LINEBREAKKOREAN,PARASHAPE_LINESPACING,PARASHAPE_LINESPACINGVALUE,PARASHAPE_LINEWRAP,PARASHAPE_MARGINLEFT,PARASHAPE_MARGINRIGHT,PARASHAPE_OUTDENT,PARASHAPE_PAGEBREAKBEFORE,PARASHAPE_PARATYPE,PARASHAPE_PARATYPEVALUE,PARASHAPE_SPACINGGRIDPAPER,PARASHAPE_SPACINGIGNORE,PARASHAPE_SPACINGPARABOTTOM,PARASHAPE_SPACINGPARAUP,PARASHAPE_VERTICALALIGN,PARASHAPE_WIDOWORPHAN};
use crate::spec::ParaShapeSpec;

verus! {

broadcast use vstd::std_specs::hash::group_hash_axioms;

/// The spec ordinal of a line-spacing kind (-1 for an unknown one).
pub open spec fn spec_line_spacing_ordinal(t: LineSpacingType) -> i32 {
    match t {
        LineSpacingType::Percent => 0,
        LineSpacingType::Fixed => 1,
        LineSpacingType::BetweenLines => 2,
        LineSpacingType::Minimum => 3,
        LineSpacingType::Other => -1i32,
    }
}

/// The spec ordinal of a horizontal alignment (-1 for an unknown one).
pub open spec fn spec_h_align_ordinal(a: HAlign) -> i32 {
    match a {
        HAlign::Justify => 0,
        HAlign::Left => 1,
        HAlign::Center => 2,
        HAlign::Right => 3,
        HAlign::Distribute => 4,
        HAlign::DistributeSpace => 5,
        HAlign::Other => -1i32,
    }
}

/// The spec ordinal of a vertical alignment (-1 for an unknown one).
pub open spec fn spec_v_align_ordinal(a: VAlign) -> i32 {
    match a {
        VAlign::Baseline => 0,
        VAlign::Top => 1,
        VAlign::Center => 2,
        VAlign::Bottom => 3,
        VAlign::Other => -1i32,
    }
}

/// The spec ordinal of a heading kind (-1 for an unknown one).
pub open spec fn spec_heading_type_ordinal(t: HeadingType) -> i32 {
    match t {
        HeadingType::NoHeading => 0,
        HeadingType::Outline => 1,
        HeadingType::Number => 2,
        HeadingType::Bullet => 3,
        HeadingType::Other => -1i32,
    }
}

/// The spec ordinal of a Latin word-break rule.
pub open spec fn spec_line_break_latin_ordinal(w: LineBreakWord) -> i32 {
    match w {
        LineBreakWord::KeepWord => 0,
        LineBreakWord::Other => 1,
        LineBreakWord::BreakWord => 2,
    }
}

/// Map a line-spacing kind to its spec ordinal.
pub fn line_spacing_type_ordinal(t: LineSpacingType) -> (r: i32)
    ensures
        r == spec_line_spacing_ordinal(t),
{
    match t {
        LineSpacingType::Percent => 0,
        LineSpacingType::Fixed => 1,
        LineSpacingType::BetweenLines => 2,
        LineSpacingType::Minimum => 3,
        LineSpacingType::Other => -1,
    }
}

/// Map a horizontal alignment to its spec ordinal.
pub fn h_align_ordinal(a: HAlign) -> (r: i32)
    ensures
        r == spec_h_align_ordinal(a),
{
    match a {
        HAlign::Justify => 0,
        HAlign::Left => 1,
        HAlign::Center => 2,
        HAlign::Right => 3,
        HAlign::Distribute => 4,
        HAlign::DistributeSpace => 5,
        HAlign::Other => -1,
    }
}

/// Map a vertical alignment to its spec ordinal.
pub fn v_align_ordinal(a: VAlign) -> (r: i32)
    ensures
        r == spec_v_align_ordinal(a),
{
    match a {
        VAlign::Baseline => 0,
        VAlign::Top => 1,
        VAlign::Center => 2,
        VAlign::Bottom => 3,
        VAlign::Other => -1,
    }
}

/// Map a heading kind to its spec ordinal.
pub fn heading_type_ordinal(t: HeadingType) -> (r: i32)
    ensures
        r == spec_heading_type_ordinal(t),
{
    match t {
        HeadingType::NoHeading => 0,
        HeadingType::Outline => 1,
        HeadingType::Number => 2,
        HeadingType::Bullet => 3,
        HeadingType::Other => -1,
    }
}

/// Map a Latin word-break rule to its spec ordinal.
pub fn line_break_latin_ordinal(w: LineBreakWord) -> (r: i32)
    ensures
        r == spec_line_break_latin_ordinal(w),
{
    match w {
        LineBreakWord::KeepWord => 0,
        LineBreakWord::Other => 1,
        LineBreakWord::BreakWord => 2,
    }
}

/// Whether the spec sets a value and the document's differs.
pub open spec fn differs<T>(expected: Option<T>, actual: T) -> bool {
    match expected {
        Some(e) => e != actual,
        None => false,
    }
}

/// `acc` with `code` appended when `b`.
pub open spec fn push_if(acc: Seq<u32>, b: bool, code: u32) -> Seq<u32> {
    if b {
        acc.push(code)
    } else {
        acc
    }
}

/// Push `code` when the spec sets a value and the document's differs.
fn push_if_differs_i32(codes: &mut Vec<u32>, expected: Option<i32>, actual: i32, code: u32)
    ensures
        final(codes)@ == push_if(old(codes)@, differs(expected, actual), code),
{
    match expected {
        Some(e) => if e != actual {
            codes.push(code);
        },
        None => {},
    }
}

/// Push `code` when the spec sets a value and the document's differs.
fn push_if_differs_u32(codes: &mut Vec<u32>, expected: Option<u32>, actual: u32, code: u32)
    ensures
        final(codes)@ == push_if(old(codes)@, differs(expected, actual), code),
{
    match expected {
        Some(e) => if e != actual {
            codes.push(code);
        },
        None => {},
    }
}

/// Push `code` when the spec sets a value and the document's differs.
fn push_if_differs_bool(codes: &mut Vec<u32>, expected: Option<bool>, actual: bool, code: u32)
    ensures
        final(codes)@ == push_if(old(codes)@, differs(expected, actual), code),
{
    match expected {
        Some(e) => if e != actual {
            codes.push(code);
        },
        None => {},
    }
}

/// The codes of the fields of `ps` that differ from the spec, in check
/// order.
pub open spec fn para_shape_codes(spec: ParaShapeSpec, ps: ParaShape) -> Seq<u32> {
    let c = Seq::<u32>::empty();
    let c = push_if(c, differs(spec.horizontal, spec_h_align_ordinal(ps.h_align)), PARASHAPE_HORIZONTAL);
    let c = push_if(c, differs(spec.margin_left, ps.margin.left), PARASHAPE_MARGINLEFT);
    let c = push_if(c, differs(spec.margin_right, ps.margin.right), PARASHAPE_MARGINRIGHT);
    let c = push_if(c, differs(spec.indent, ps.margin.indent), PARASHAPE_INDENT);
    let c = push_if(c, differs(spec.outdent, ps.margin.left), PARASHAPE_OUTDENT);
    let c = push_if(c, differs(spec.linespacing, spec_line_spacing_ordinal(ps.line_spacing.type_)), PARASHAPE_LINESPACING);
    let c = push_if(c, differs(spec.linespacingvalue, ps.line_spacing.value), PARASHAPE_LINESPACINGVALUE);
    let c = push_if(c, differs(spec.spacing_paraup, ps.margin.prev), PARASHAPE_SPACINGPARAUP);
    let c = push_if(c, differs(spec.spacing_parabottom, ps.margin.next), PARASHAPE_SPACINGPARABOTTOM);
    let c = push_if(c, differs(spec.spacing_gridpaper, ps.snap_to_grid), PARASHAPE_SPACINGGRIDPAPER);
    let c = push_if(c, differs(spec.linebreak_korean, (ps.break_non_latin_word == LineBreakWord::BreakWord)), PARASHAPE_LINEBREAKKOREAN);
    let c = push_if(c, differs(spec.linebreak_english, spec_line_break_latin_ordinal(ps.break_latin_word)), PARASHAPE_LINEBREAKENGLISH);
    let c = push_if(c, differs(spec.linebreak_condense, (ps.condense as i32)), PARASHAPE_LINEBREAKCONDENSE);
    let c = push_if(c, differs(spec.paratype, spec_heading_type_ordinal(ps.heading_type)), PARASHAPE_PARATYPE);
    let c = push_if(c, differs(spec.paratype_value, ps.heading_id_ref), PARASHAPE_PARATYPEVALUE);
    let c = push_if(c, differs(spec.widow_orphan, ps.widow_orphan), PARASHAPE_WIDOWORPHAN);
    let c = push_if(c, differs(spec.keep_with_next, ps.keep_with_next), PARASHAPE_KEEPWITHNEXT);
    let c = push_if(c, differs(spec.keep_lines_together, ps.keep_lines), PARASHAPE_KEEPLINESTOGETHER);
    let c = push_if(c, differs(spec.pagebreak_before, ps.page_break_before), PARASHAPE_PAGEBREAKBEFORE);
    let c = push_if(c, differs(spec.fontlineheight, ps.font_line_height), PARASHAPE_FONTLINEHEIGHT);
    let c = push_if(c, differs(spec.linewrap, ps.line_wrap), PARASHAPE_LINEWRAP);
    let c = push_if(c, differs(spec.autospace_easian_eng, ps.auto_spacing_eng), PARASHAPE_AUTOSPACEEASIANENG);
    let c = push_if(c, differs(spec.autospace_easian_num, ps.auto_spacing_num), PARASHAPE_AUTOSPACEEASIANNUM);
    let c = push_if(c, differs(spec.verticalalign, spec_v_align_ordinal(ps.v_align)), PARASHAPE_VERTICALALIGN);
    let c = push_if(c, differs(spec.spacing_ignore, ps.ignore_margin), PARASHAPE_SPACINGIGNORE);
    c
}

/// The codes of one paragraph shape come in increasing order.
pub proof fn lemma_para_shape_codes_inc(spec: ParaShapeSpec, ps: ParaShape)
    ensures
        inc_between(para_shape_codes(spec, ps), PARASHAPE_HORIZONTAL as int, (PARASHAPE_SPACINGIGNORE + 1) as int),
{
    let c0 = Seq::<u32>::empty();
    lemma_inc_empty(PARASHAPE_HORIZONTAL as int, PARASHAPE_HORIZONTAL as int);
    let c1 = push_if(c0, differs(spec.horizontal, spec_h_align_ordinal(ps.h_align)), PARASHAPE_HORIZONTAL);
    lemma_push_if_inc(c0, differs(spec.horizontal, spec_h_align_ordinal(ps.h_align)), PARASHAPE_HORIZONTAL, PARASHAPE_HORIZONTAL as int);
    lemma_inc_widen(c1, PARASHAPE_HORIZONTAL as int, (PARASHAPE_HORIZONTAL + 1) as int, PARASHAPE_HORIZONTAL as int, PARASHAPE_MARGINLEFT as int);
    let c2 = push_if(c1, differs(spec.margin_left, ps.margin.left), PARASHAPE_MARGINLEFT);
    lemma_push_if_inc(c1, differs(spec.margin_left, ps.margin.left), PARASHAPE_MARGINLEFT, PARASHAPE_HORIZONTAL as int);
    lemma_inc_widen(c2, PARASHAPE_HORIZONTAL as int, (PARASHAPE_MARGINLEFT + 1) as int, PARASHAPE_HORIZONTAL as int, PARASHAPE_MARGINRIGHT as int);
    let c3 = push_if(c2, differs(spec.margin_right, ps.margin.right), PARASHAPE_MARGINRIGHT);
    lemma_push_if_inc(c2, differs(spec.margin_right, ps.margin.right), PARASHAPE_MARGINRIGHT, PARASHAPE_HORIZONTAL as int);
    lemma_inc_widen(c3, PARASHAPE_HORIZONTAL as int, (PARASHAPE_MARGINRIGHT + 1) as int, PARASHAPE_HORIZONTAL as int, PARASHAPE_INDENT as int);
    let c4 = push_if(c3, differs(spec.indent, ps.margin.indent), PARASHAPE_INDENT);
    lemma_push_if_inc(c3, differs(spec.indent, ps.margin.indent), PARASHAPE_INDENT, PARASHAPE_HORIZONTAL as int);
    lemma_inc_widen(c4, PARASHAPE_HORIZONTAL as int, (PARASHAPE_INDENT + 1) as int, PARASHAPE_HORIZONTAL as int, PARASHAPE_OUTDENT as int);
    let c5 = push_if(c4, differs(spec.outdent, ps.margin.left), PARASHAPE_OUTDENT);
    lemma_push_if_inc(c4, differs(spec.outdent, ps.margin.left), PARASHAPE_OUTDENT, PARASHAPE_HORIZONTAL as int);
    lemma_inc_widen(c5, PARASHAPE_HORIZONTAL as int, (PARASHAPE_OUTDENT + 1) as int, PARASHAPE_HORIZONTAL as int, PARASHAPE_LINESPACING as int);
    let c6 = push_if(c5, differs(spec.linespacing, spec_line_spacing_ordinal(ps.line_spacing.type_)), PARASHAPE_LINESPACING);
    lemma_push_if_inc(c5, differs(spec.linespacing, spec_line_spacing_ordinal(ps.line_spacing.type_)), PARASHAPE_LINESPACING, PARASHAPE_HORIZONTAL as int);
    lemma_inc_widen(c6, PARASHAPE_HORIZONTAL as int, (PARASHAPE_LINESPACING + 1) as int, PARASHAPE_HORIZONTAL as int, PARASHAPE_LINESPACINGVALUE as int);
    let c7 = push_if(c6, differs(spec.linespacingvalue, ps.line_spacing.value), PARASHAPE_LINESPACINGVALUE);
    lemma_push_if_inc(c6, differs(spec.linespacingvalue, ps.line_spacing.value), PARASHAPE_LINESPACINGVALUE, PARASHAPE_HORIZONTAL as int);
    lemma_inc_widen(c7, PARASHAPE_HORIZONTAL as int, (PARASHAPE_LINESPACINGVALUE + 1) as int, PARASHAPE_HORIZONTAL as int, PARASHAPE_SPACINGPARAUP as int);
    let c8 = push_if(c7, differs(spec.spacing_paraup, ps.margin.prev), PARASHAPE_SPACINGPARAUP);
    lemma_push_if_inc(c7, differs(spec.spacing_paraup, ps.margin.prev), PARASHAPE_SPACINGPARAUP, PARASHAPE_HORIZONTAL as int);
    lemma_inc_widen(c8, PARASHAPE_HORIZONTAL as int, (PARASHAPE_SPACINGPARAUP + 1) as int, PARASHAPE_HORIZONTAL as int, PARASHAPE_SPACINGPARABOTTOM as int);
    let c9 = push_if(c8, differs(spec.spacing_parabottom, ps.margin.next), PARASHAPE_SPACINGPARABOTTOM);
    lemma_push_if_inc(c8, differs(spec.spacing_parabottom, ps.margin.next), PARASHAPE_SPACINGPARABOTTOM, PARASHAPE_HORIZONTAL as int);
    lemma_inc_widen(c9, PARASHAPE_HORIZONTAL as int, (PARASHAPE_SPACINGPARABOTTOM + 1) as int, PARASHAPE_HORIZONTAL as int, PARASHAPE_SPACINGGRIDPAPER as int);
    let c10 = push_if(c9, differs(spec.spacing_gridpaper, ps.snap_to_grid), PARASHAPE_SPACINGGRIDPAPER);
    lemma_push_if_inc(c9, differs(spec.spacing_gridpaper, ps.snap_to_grid), PARASHAPE_SPACINGGRIDPAPER, PARASHAPE_HORIZONTAL as int);
    lemma_inc_widen(c10, PARASHAPE_HORIZONTAL as int, (PARASHAPE_SPACINGGRIDPAPER + 1) as int, PARASHAPE_HORIZONTAL as int, PARASHAPE_LINEBREAKKOREAN as int);
    let c11 = push_if(c10, differs(spec.linebreak_korean, (ps.break_non_latin_word == LineBreakWord::BreakWord)), PARASHAPE_LINEBREAKKOREAN);
    lemma_push_if_inc(c10, differs(spec.linebreak_korean, (ps.break_non_latin_word == LineBreakWord::BreakWord)), PARASHAPE_LINEBREAKKOREAN, PARASHAPE_HORIZONTAL as int);
    lemma_inc_widen(c11, PARASHAPE_HORIZONTAL as int, (PARASHAPE_LINEBREAKKOREAN + 1) as int, PARASHAPE_HORIZONTAL as int, PARASHAPE_LINEBREAKENGLISH as int);
    let c12 = push_if(c11, differs(spec.linebreak_english, spec_line_break_latin_ordinal(ps.break_latin_word)), PARASHAPE_LINEBREAKENGLISH);
    lemma_push_if_inc(c11, differs(spec.linebreak_english, spec_line_break_latin_ordinal(ps.break_latin_word)), PARASHAPE_LINEBREAKENGLISH, PARASHAPE_HORIZONTAL as int);
    lemma_inc_widen(c12, PARASHAPE_HORIZONTAL as int, (PARASHAPE_LINEBREAKENGLISH + 1) as int, PARASHAPE_HORIZONTAL as int, PARASHAPE_LINEBREAKCONDENSE as int);
    let c13 = push_if(c12, differs(spec.linebreak_condense, (ps.condense as i32)), PARASHAPE_LINEBREAKCONDENSE);
    lemma_push_if_inc(c12, differs(spec.linebreak_condense, (ps.condense as i32)), PARASHAPE_LINEBREAKCONDENSE, PARASHAPE_HORIZONTAL as int);
    lemma_inc_widen(c13, PARASHAPE_HORIZONTAL as int, (PARASHAPE_LINEBREAKCONDENSE + 1) as int, PARASHAPE_HORIZONTAL as int, PARASHAPE_PARATYPE as int);
    let c14 = push_if(c13, differs(spec.paratype, spec_heading_type_ordinal(ps.heading_type)), PARASHAPE_PARATYPE);
    lemma_push_if_inc(c13, differs(spec.paratype, spec_heading_type_ordinal(ps.heading_type)), PARASHAPE_PARATYPE, PARASHAPE_HORIZONTAL as int);
    lemma_inc_widen(c14, PARASHAPE_HORIZONTAL as int, (PARASHAPE_PARATYPE + 1) as int, PARASHAPE_HORIZONTAL as int, PARASHAPE_PARATYPEVALUE as int);
    let c15 = push_if(c14, differs(spec.paratype_value, ps.heading_id_ref), PARASHAPE_PARATYPEVALUE);
    lemma_push_if_inc(c14, differs(spec.paratype_value, ps.heading_id_ref), PARASHAPE_PARATYPEVALUE, PARASHAPE_HORIZONTAL as int);
    lemma_inc_widen(c15, PARASHAPE_HORIZONTAL as int, (PARASHAPE_PARATYPEVALUE + 1) as int, PARASHAPE_HORIZONTAL as int, PARASHAPE_WIDOWORPHAN as int);
    let c16 = push_if(c15, differs(spec.widow_orphan, ps.widow_orphan), PARASHAPE_WIDOWORPHAN);
    lemma_push_if_inc(c15, differs(spec.widow_orphan, ps.widow_orphan), PARASHAPE_WIDOWORPHAN, PARASHAPE_HORIZONTAL as int);
    lemma_inc_widen(c16, PARASHAPE_HORIZONTAL as int, (PARASHAPE_WIDOWORPHAN + 1) as int, PARASHAPE_HORIZONTAL as int, PARASHAPE_KEEPWITHNEXT as int);
    let c17 = push_if(c16, differs(spec.keep_with_next, ps.keep_with_next), PARASHAPE_KEEPWITHNEXT);
    lemma_push_if_inc(c16, differs(spec.keep_with_next, ps.keep_with_next), PARASHAPE_KEEPWITHNEXT, PARASHAPE_HORIZONTAL as int);
    lemma_inc_widen(c17, PARASHAPE_HORIZONTAL as int, (PARASHAPE_KEEPWITHNEXT + 1) as int, PARASHAPE_HORIZONTAL as int, PARASHAPE_KEEPLINESTOGETHER as int);
    let c18 = push_if(c17, differs(spec.keep_lines_together, ps.keep_lines), PARASHAPE_KEEPLINESTOGETHER);
    lemma_push_if_inc(c17, differs(spec.keep_lines_together, ps.keep_lines), PARASHAPE_KEEPLINESTOGETHER, PARASHAPE_HORIZONTAL as int);
    lemma_inc_widen(c18, PARASHAPE_HORIZONTAL as int, (PARASHAPE_KEEPLINESTOGETHER + 1) as int, PARASHAPE_HORIZONTAL as int, PARASHAPE_PAGEBREAKBEFORE as int);
    let c19 = push_if(c18, differs(spec.pagebreak_before, ps.page_break_before), PARASHAPE_PAGEBREAKBEFORE);
    lemma_push_if_inc(c18, differs(spec.pagebreak_before, ps.page_break_before), PARASHAPE_PAGEBREAKBEFORE, PARASHAPE_HORIZONTAL as int);
    lemma_inc_widen(c19, PARASHAPE_HORIZONTAL as int, (PARASHAPE_PAGEBREAKBEFORE + 1) as int, PARASHAPE_HORIZONTAL as int, PARASHAPE_FONTLINEHEIGHT as int);
    let c20 = push_if(c19, differs(spec.fontlineheight, ps.font_line_height), PARASHAPE_FONTLINEHEIGHT);
    lemma_push_if_inc(c19, differs(spec.fontlineheight, ps.font_line_height), PARASHAPE_FONTLINEHEIGHT, PARASHAPE_HORIZONTAL as int);
    lemma_inc_widen(c20, PARASHAPE_HORIZONTAL as int, (PARASHAPE_FONTLINEHEIGHT + 1) as int, PARASHAPE_HORIZONTAL as int, PARASHAPE_LINEWRAP as int);
    let c21 = push_if(c20, differs(spec.linewrap, ps.line_wrap), PARASHAPE_LINEWRAP);
    lemma_push_if_inc(c20, differs(spec.linewrap, ps.line_wrap), PARASHAPE_LINEWRAP, PARASHAPE_HORIZONTAL as int);
    lemma_inc_widen(c21, PARASHAPE_HORIZONTAL as int, (PARASHAPE_LINEWRAP + 1) as int, PARASHAPE_HORIZONTAL as int, PARASHAPE_AUTOSPACEEASIANENG as int);
    let c22 = push_if(c21, differs(spec.autospace_easian_eng, ps.auto_spacing_eng), PARASHAPE_AUTOSPACEEASIANENG);
    lemma_push_if_inc(c21, differs(spec.autospace_easian_eng, ps.auto_spacing_eng), PARASHAPE_AUTOSPACEEASIANENG, PARASHAPE_HORIZONTAL as int);
    lemma_inc_widen(c22, PARASHAPE_HORIZONTAL as int, (PARASHAPE_AUTOSPACEEASIANENG + 1) as int, PARASHAPE_HORIZONTAL as int, PARASHAPE_AUTOSPACEEASIANNUM as int);
    let c23 = push_if(c22, differs(spec.autospace_easian_num, ps.auto_spacing_num), PARASHAPE_AUTOSPACEEASIANNUM);
    lemma_push_if_inc(c22, differs(spec.autospace_easian_num, ps.auto_spacing_num), PARASHAPE_AUTOSPACEEASIANNUM, PARASHAPE_HORIZONTAL as int);
    lemma_inc_widen(c23, PARASHAPE_HORIZONTAL as int, (PARASHAPE_AUTOSPACEEASIANNUM + 1) as int, PARASHAPE_HORIZONTAL as int, PARASHAPE_VERTICALALIGN as int);
    let c24 = push_if(c23, differs(spec.verticalalign, spec_v_align_ordinal(ps.v_align)), PARASHAPE_VERTICALALIGN);
    lemma_push_if_inc(c23, differs(spec.verticalalign, spec_v_align_ordinal(ps.v_align)), PARASHAPE_VERTICALALIGN, PARASHAPE_HORIZONTAL as int);
    lemma_inc_widen(c24, PARASHAPE_HORIZONTAL as int, (PARASHAPE_VERTICALALIGN + 1) as int, PARASHAPE_HORIZONTAL as int, PARASHAPE_SPACINGIGNORE as int);
    let c25 = push_if(c24, differs(spec.spacing_ignore, ps.ignore_margin), PARASHAPE_SPACINGIGNORE);
    lemma_push_if_inc(c24, differs(spec.spacing_ignore, ps.ignore_margin), PARASHAPE_SPACINGIGNORE, PARASHAPE_HORIZONTAL as int);
    assert(c25 == para_shape_codes(spec, ps));
}

fn shape_codes(spec: &ParaShapeSpec, ps: &ParaShape) -> (codes: Vec<u32>)
    ensures
        codes@ == para_shape_codes(*spec, *ps),
{
    let mut codes: Vec<u32> = Vec::new();
    push_if_differs_i32(&mut codes, spec.horizontal, h_align_ordinal(ps.h_align), PARASHAPE_HORIZONTAL);
    push_if_differs_i32(&mut codes, spec.margin_left, ps.margin.left, PARASHAPE_MARGINLEFT);
    push_if_differs_i32(&mut codes, spec.margin_right, ps.margin.right, PARASHAPE_MARGINRIGHT);
    push_if_differs_i32(&mut codes, spec.indent, ps.margin.indent, PARASHAPE_INDENT);
    push_if_differs_i32(&mut codes, spec.outdent, ps.margin.left, PARASHAPE_OUTDENT);
    push_if_differs_i32(&mut codes, spec.linespacing, line_spacing_type_ordinal(ps.line_spacing.type_), PARASHAPE_LINESPACING);
    push_if_differs_i32(&mut codes, spec.linespacingvalue, ps.line_spacing.value, PARASHAPE_LINESPACINGVALUE);
    push_if_differs_i32(&mut codes, spec.spacing_paraup, ps.margin.prev, PARASHAPE_SPACINGPARAUP);
    push_if_differs_i32(&mut codes, spec.spacing_parabottom, ps.margin.next, PARASHAPE_SPACINGPARABOTTOM);
    push_if_differs_bool(&mut codes, spec.spacing_gridpaper, ps.snap_to_grid, PARASHAPE_SPACINGGRIDPAPER);
    push_if_differs_bool(&mut codes, spec.linebreak_korean, (ps.break_non_latin_word == LineBreakWord::BreakWord), PARASHAPE_LINEBREAKKOREAN);
    push_if_differs_i32(&mut codes, spec.linebreak_english, line_break_latin_ordinal(ps.break_latin_word), PARASHAPE_LINEBREAKENGLISH);
    push_if_differs_i32(&mut codes, spec.linebreak_condense, (ps.condense as i32), PARASHAPE_LINEBREAKCONDENSE);
    push_if_differs_i32(&mut codes, spec.paratype, heading_type_ordinal(ps.heading_type), PARASHAPE_PARATYPE);
    push_if_differs_u32(&mut codes, spec.paratype_value, ps.heading_id_ref, PARASHAPE_PARATYPEVALUE);
    push_if_differs_bool(&mut codes, spec.widow_orphan, ps.widow_orphan, PARASHAPE_WIDOWORPHAN);
    push_if_differs_bool(&mut codes, spec.keep_with_next, ps.keep_with_next, PARASHAPE_KEEPWITHNEXT);
    push_if_differs_bool(&mut codes, spec.keep_lines_together, ps.keep_lines, PARASHAPE_KEEPLINESTOGETHER);
    push_if_differs_bool(&mut codes, spec.pagebreak_before, ps.page_break_before, PARASHAPE_PAGEBREAKBEFORE);
    push_if_differs_bool(&mut codes, spec.fontlineheight, ps.font_line_height, PARASHAPE_FONTLINEHEIGHT);
    push_if_differs_bool(&mut codes, spec.linewrap, ps.line_wrap, PARASHAPE_LINEWRAP);
    push_if_differs_bool(&mut codes, spec.autospace_easian_eng, ps.auto_spacing_eng, PARASHAPE_AUTOSPACEEASIANENG);
    push_if_differs_bool(&mut codes, spec.autospace_easian_num, ps.auto_spacing_num, PARASHAPE_AUTOSPACEEASIANNUM);
    push_if_differs_i32(&mut codes, spec.verticalalign, v_align_ordinal(ps.v_align), PARASHAPE_VERTICALALIGN);
    push_if_differs_bool(&mut codes, spec.spacing_ignore, ps.ignore_margin, PARASHAPE_SPACINGIGNORE);
    codes
}

/// The findings for one representative run.
pub open spec fn para_shape_run_errors(spec: ParaShapeSpec, h: HeaderTables, r: RunView) -> Seq<
    ErrorView,
> {
    if h.para_shapes@.contains_key(r.para_pr_id_ref) {
        code_errors(r, para_shape_codes(spec, h.para_shapes@[r.para_pr_id_ref]))
    } else {
        Seq::empty()
    }
}

/// The findings for representative runs `reps`, in order.
pub open spec fn para_shape_reps_errors(spec: ParaShapeSpec, h: HeaderTables, reps: Seq<RunView>) -> Seq<
    ErrorView,
>
    decreases reps.len(),
{
    if reps.len() == 0 {
        Seq::empty()
    } else {
        para_shape_reps_errors(spec, h, reps.drop_last()) + para_shape_run_errors(spec, h, reps.last())
    }
}

/// The findings of the paragraph-shape check.
pub open spec fn para_shape_errors(spec: ParaShapeSpec, header: Option<HeaderTables>, rs: Seq<RunView>) -> Seq<
    ErrorView,
> {
    match header {
        Some(h) => para_shape_reps_errors(spec, h, first_runs(rs)),
        None => Seq::empty(),
    }
}

/// Compare every distinct paragraph shape used by the document's runs
/// with the spec; the first run of each shape carries the findings.
pub fn check(document: &Document, spec: &ParaShapeSpec) -> (r: Vec<DvcErrorInfo>)
    ensures
        error_views(r@) == para_shape_errors(*spec, document.header, run_views(document.run_type_infos@)),
{
    let mut errors: Vec<DvcErrorInfo> = Vec::new();
    let header = match &document.header {
        Some(h) => h,
        None => {
            assert(error_views(errors@) =~= Seq::<ErrorView>::empty());
            return errors;
        },
    };
    let reps = representative_runs(document.run_type_infos.as_slice());
    let ghost rv = run_views(derefs(reps@));
    let mut i: usize = 0;
    assert(error_views(errors@) =~= para_shape_reps_errors(*spec, *header, rv.take(0)));
    while i < reps.len()
        invariant
            i <= reps@.len(),
            rv == run_views(derefs(reps@)),
            error_views(errors@) == para_shape_reps_errors(*spec, *header, rv.take(i as int)),
        decreases reps.len() - i,
    {
        let run = reps[i];
        let ghost before = error_views(errors@);
        match header.para_shapes.get(&run.para_pr_id_ref) {
            Some(ps) => {
                let codes = shape_codes(spec, ps);
                push_code_errors(run, &codes, &mut errors);
            },
            None => {},
        }
        proof {
            assert(rv.take(i + 1).drop_last() =~= rv.take(i as int));
            assert(rv.take(i + 1).last() == run@);
            assert(error_views(errors@) =~= before + para_shape_run_errors(*spec, *header, run@));
        }
        i = i + 1;
    }
    assert(rv.take(rv.len() as int) =~= rv);
    errors
}

} // verus!
