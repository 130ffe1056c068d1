//! Which finding the table check gives for which table: at the full
//! level, each table code is reported exactly when the table's own field
//! for that rule breaks the spec's setting.

use vstd::prelude::*;
use crate::checker::{CheckLevel, ErrorView};
use crate::checker::table::{
    bail, border_at, borders_rules, caption_pos_of, emit, horz_align_of, horz_rel_to_of, line_type_of,
    num_type_of, pos_type_of, table_rules, text_pos_of, vert_align_of, vert_rel_to_of, WalkState,
};
use crate::document::header::HeaderTables;
use crate::document::header::types::{Border, BorderFill};
use crate::document::section::Table;
use crate::error::{TABLE_BGFILL_FACECOLOR, TABLE_BGFILL_PATTONCOLOR, TABLE_BGFILL_TYPE, TABLE_BGGRADATION_BLURCENTER, TABLE_BGGRADATION_BLURLEVEL, TABLE_BGGRADATION_ENDCOLOR, TABLE_BGGRADATION_GRADATIONANGLE, TABLE_BGGRADATION_HEIGHTCENTER, TABLE_BGGRADATION_STARTCOLOR, TABLE_BGGRADATION_TYPE, TABLE_BGGRADATION_WIDTHCENTER, TABLE_BORDER_CELL_SPACING, TABLE_BORDER_COLOR, TABLE_BORDER_SIZE, TABLE_BORDER_TYPE, TABLE_CAPTION_LINE_WRAP, TABLE_CAPTION_POSITION, TABLE_CAPTION_SIZE, TABLE_CAPTION_SOCAP_FULL_SIZE, TABLE_CAPTION_SPACING, TABLE_EFFECT_TYPE, TABLE_EFFECT_VALUE, TABLE_HDIRECTION, TABLE_HTYPE, TABLE_HVALUE, TABLE_IN_TABLE, TABLE_MARGIN_BOTTOM, TABLE_MARGIN_LEFT, TABLE_MARGIN_RIGHT, TABLE_MARGIN_TOP, TABLE_NUM_VER_TYPE, TABLE_OBJ_PROTECT, TABLE_PARALLEL, TABLE_PICTUREFILL_TYPE, TABLE_PICTUREFILL_VALUE, TABLE_PICTURE_FILE, TABLE_PICTURE_INCLUDE, TABLE_POS, TABLE_SIZE_FIXED, TABLE_SIZE_HEIGHT, TABLE_SIZE_WIDTH, TABLE_SOALLOW_OVERLAP, TABLE_SOFLOW_WITH_TEXT, TABLE_SOHOLD_ANCHOR_OBJ, TABLE_TEXT_POS, TABLE_TREAT_AS_CHAR, TABLE_VDIRECTION, TABLE_VTYPE, TABLE_VVALUE, TABLE_WATERMARK};
use crate::spec::{BorderSpec, IntRange, TableSpec};
use crate::text::{eq_ignore_case, hash_hex6, trim, upper_eq};
use crate::checker::table_detail::{canon_grad, cell_rules};
use crate::document::header::types::CellFillBrush;
use crate::document::section::Cell;
use crate::laws::char_shape::set_differs;

verus! {

/// Whether some finding of `errs` from position `n` on has code `code`.
pub open spec fn has_code_from(errs: Seq<ErrorView>, n: int, code: u32) -> bool {
    exists|i: int| n <= i < errs.len() && (#[trigger] errs[i]).error_code == code
}

/// A set range that `v` lies outside of.
pub open spec fn outside(r: Option<IntRange>, v: int) -> bool {
    r matches Some(rr) && (v < rr.min || rr.max < v)
}

/// A set flag that the document's flag is not.
pub open spec fn flag_mismatch(e: Option<bool>, a: bool) -> bool {
    e matches Some(x) && x != a
}

/// A set kind that the document's kind, when it has a known one, is not.
pub open spec fn kind_mismatch(e: Option<u32>, a: Option<u32>) -> bool {
    e matches Some(x) && a matches Some(y) && x != y
}

/// Whether border edge `b` breaks border rule `bs` for code `code`: its
/// line type, its width (by more than 0.005 mm) or its colour (compared
/// upper-cased).
pub open spec fn edge_breaks(b: Border, bs: BorderSpec, code: u32) -> bool {
    ||| code == TABLE_BORDER_TYPE && b.line_type != line_type_of(bs.bordertype)
    ||| code == TABLE_BORDER_SIZE && (b.width_nm - bs.size_nm > 5000 || bs.size_nm - b.width_nm > 5000)
    ||| code == TABLE_BORDER_COLOR && !upper_eq(b.color@, hash_hex6((bs.color % 0x100_0000) as nat))
}

/// Whether the border fill has the edge of rule `bs` and it breaks the
/// rule for code `code`.
pub open spec fn edge_at_breaks(bf: BorderFill, bs: BorderSpec, code: u32) -> bool {
    match border_at(bf, bs.position) {
        Some(b) => edge_breaks(b, bs, code),
        None => false,
    }
}

/// Whether some border rule of the spec, at a position the border fill
/// has, is broken for code `code`.
pub open spec fn borders_break(bf: BorderFill, bss: Seq<BorderSpec>, code: u32) -> bool {
    exists|k: int| 0 <= k < bss.len() && #[trigger] edge_at_breaks(bf, bss[k], code)
}

/// The size, position and flow rules a table breaks.
pub open spec fn breaks_placement(t: Table, spec: TableSpec, code: u32) -> bool {
    ||| code == TABLE_SIZE_WIDTH && outside(spec.size_width, t.width as int)
    ||| code == TABLE_SIZE_HEIGHT && outside(spec.size_height, t.height as int)
    ||| code == TABLE_SIZE_FIXED && flag_mismatch(spec.fixed, t.size_protect)
    ||| code == TABLE_TREAT_AS_CHAR && spec.treat_as_char == Some(true) && !t.treat_as_char
    ||| code == TABLE_POS && kind_mismatch(spec.pos, pos_type_of(t.text_wrap@))
    ||| code == TABLE_TEXT_POS && kind_mismatch(spec.textpos, text_pos_of(t.text_flow@))
    ||| code == TABLE_HTYPE && kind_mismatch(spec.horizontal_type, horz_rel_to_of(t.horz_rel_to@))
}

/// The alignment and object-flow rules a table breaks.
pub open spec fn breaks_alignment(t: Table, spec: TableSpec, code: u32) -> bool {
    ||| code == TABLE_HDIRECTION && kind_mismatch(spec.horizontal_direction, horz_align_of(t.horz_align@))
    ||| code == TABLE_HVALUE && outside(spec.horizontal_value, t.horz_offset as int)
    ||| code == TABLE_VTYPE && kind_mismatch(spec.vertical_type, vert_rel_to_of(t.vert_rel_to@))
    ||| code == TABLE_VDIRECTION && kind_mismatch(spec.vertical_direction, vert_align_of(t.vert_align@))
    ||| code == TABLE_VVALUE && outside(spec.vertical_value, t.vert_offset as int)
    ||| code == TABLE_SOFLOW_WITH_TEXT && flag_mismatch(spec.soflowwithtext, t.flow_with_text)
    ||| code == TABLE_SOALLOW_OVERLAP && flag_mismatch(spec.soallowoverlap, t.allow_overlap)
    ||| code == TABLE_SOHOLD_ANCHOR_OBJ && flag_mismatch(spec.soholdanchorobj, t.hold_anchor_and_so)
    ||| code == TABLE_PARALLEL && flag_mismatch(spec.parallel, t.affect_l_spacing)
}

/// The numbering, protection and outer-margin rules a table breaks.
pub open spec fn breaks_margins(t: Table, spec: TableSpec, code: u32) -> bool {
    ||| code == TABLE_NUM_VER_TYPE && kind_mismatch(spec.numbertype, num_type_of(t.numbering_type@))
    ||| code == TABLE_OBJ_PROTECT && flag_mismatch(spec.objprotect, t.no_adjust != 0)
    ||| code == TABLE_MARGIN_LEFT && outside(spec.margin_left, t.out_margin_left as int)
    ||| code == TABLE_MARGIN_RIGHT && outside(spec.margin_right, t.out_margin_right as int)
    ||| code == TABLE_MARGIN_TOP && outside(spec.margin_top, t.out_margin_top as int)
    ||| code == TABLE_MARGIN_BOTTOM && outside(spec.margin_bottom, t.out_margin_bottom as int)
}

/// The caption rules a table with a caption breaks.
pub open spec fn breaks_caption(t: Table, spec: TableSpec, code: u32) -> bool {
    &&& t.has_caption
    &&& {
        ||| code == TABLE_CAPTION_POSITION && kind_mismatch(spec.caption_position, caption_pos_of(t.caption_side@))
        ||| code == TABLE_CAPTION_SIZE && outside(spec.caption_size, t.caption_size as int)
        ||| code == TABLE_CAPTION_SPACING && outside(spec.caption_spacing, t.caption_spacing as int)
        ||| code == TABLE_CAPTION_SOCAP_FULL_SIZE && flag_mismatch(spec.caption_socapfullsize, t.caption_full_size)
        ||| code == TABLE_CAPTION_LINE_WRAP && flag_mismatch(spec.caption_linewrap, t.caption_line_wrap)
    }
}

/// The border, cell-spacing and nesting rules a table breaks.
pub open spec fn breaks_borders(t: Table, spec: TableSpec, h: HeaderTables, code: u32) -> bool {
    ||| spec.border@.len() > 0 && h.border_fills@.contains_key(t.border_fill_id_ref) && borders_break(
        h.border_fills@[t.border_fill_id_ref],
        spec.border@,
        code,
    )
    ||| code == TABLE_BORDER_CELL_SPACING && outside(spec.border_cellspacing, t.cell_spacing as int)
    ||| code == TABLE_IN_TABLE && spec.table_in_table == Some(false) && t.nesting_depth >= 1
}

/// Whether table `t` breaks the spec's rule reported with code `code`:
/// each rule reads the table's own field for it.
pub open spec fn table_breaks(t: Table, spec: TableSpec, h: HeaderTables, code: u32) -> bool {
    ||| breaks_placement(t, spec, code)
    ||| breaks_alignment(t, spec, code)
    ||| breaks_margins(t, spec, code)
    ||| breaks_caption(t, spec, code)
    ||| breaks_borders(t, spec, h, code)
}

broadcast proof fn lemma_emit_code(st: WalkState, level: CheckLevel, cond: bool, e: ErrorView, n: int, code: u32)
    requires
        !st.stopped,
        level != CheckLevel::Simple,
        0 <= n <= st.errs.len(),
    ensures
        #[trigger] has_code_from(emit(st, level, cond, e).errs, n, code) == (has_code_from(st.errs, n, code) || (cond
            && e.error_code == code)),
{
    let r = emit(st, level, cond, e);
    if cond {
        if has_code_from(st.errs, n, code) {
            let i = choose|i: int| n <= i < st.errs.len() && (#[trigger] st.errs[i]).error_code == code;
            assert(r.errs[i] == st.errs[i]);
        }
        if has_code_from(r.errs, n, code) && !has_code_from(st.errs, n, code) {
            let i = choose|i: int| n <= i < r.errs.len() && (#[trigger] r.errs[i]).error_code == code;
            if i < st.errs.len() {
                assert(r.errs[i] == st.errs[i]);
            }
        }
        if e.error_code == code {
            assert(r.errs[st.errs.len() as int] == e);
        }
    }
}

broadcast proof fn lemma_emit_runs(st: WalkState, level: CheckLevel, cond: bool, e: ErrorView)
    requires
        level != CheckLevel::Simple,
    ensures
        #[trigger] emit(st, level, cond, e).stopped == st.stopped,
        emit(st, level, cond, e).errs.len() >= st.errs.len(),
{
}

broadcast proof fn lemma_bail_runs(st: WalkState, level: CheckLevel)
    requires
        !st.stopped,
        level != CheckLevel::Simple,
    ensures
        #[trigger] bail(st, level) == st,
{
}

proof fn lemma_borders_code(st: WalkState, t: Table, bf: BorderFill, bss: Seq<BorderSpec>, level: CheckLevel, n: int, code: u32)
    requires
        !st.stopped,
        level != CheckLevel::Simple,
        0 <= n <= st.errs.len(),
    ensures
        !borders_rules(st, t, bf, bss, level).stopped,
        borders_rules(st, t, bf, bss, level).errs.len() >= st.errs.len(),
        has_code_from(borders_rules(st, t, bf, bss, level).errs, n, code) == (has_code_from(st.errs, n, code)
            || borders_break(bf, bss, code)),
    decreases bss.len(),
{
    broadcast use lemma_emit_code, lemma_emit_runs, lemma_bail_runs;

    if bss.len() == 0 {
        assert(!borders_break(bf, bss, code));
    } else {
        let pre = bss.drop_last();
        lemma_borders_code(st, t, bf, pre, level, n, code);
        if borders_break(bf, bss, code) {
            let k = choose|k: int| 0 <= k < bss.len() && #[trigger] edge_at_breaks(bf, bss[k], code);
            if k < pre.len() {
                assert(pre[k] == bss[k]);
                assert(edge_at_breaks(bf, pre[k], code));
            }
        }
        if borders_break(bf, pre, code) {
            let k = choose|k: int| 0 <= k < pre.len() && #[trigger] edge_at_breaks(bf, pre[k], code);
            assert(pre[k] == bss[k]);
            assert(edge_at_breaks(bf, bss[k], code));
        }
        let last = bss.last();
        assert(last == bss[bss.len() - 1]);
        assert(borders_break(bf, bss, code) == (borders_break(bf, pre, code) || edge_at_breaks(bf, last, code)));
        let s = borders_rules(st, t, bf, pre, level);
        match border_at(bf, last.position) {
            Some(b) => {
                let r = crate::checker::table::border_rules(s, t, b, last, level);
                assert(has_code_from(r.errs, n, code) == (has_code_from(s.errs, n, code) || edge_breaks(b, last, code)));
                assert(!r.stopped);
            },
            None => {},
        }
    }
}

proof fn lemma_part_1a(st: WalkState, t: Table, spec: TableSpec, n: int, code: u32)
    requires
        !st.stopped,
        0 <= n <= st.errs.len(),
    ensures
        !crate::checker::table::table_rules_1a(st, t, spec, CheckLevel::All).stopped,
        crate::checker::table::table_rules_1a(st, t, spec, CheckLevel::All).errs.len() >= st.errs.len(),
        has_code_from(crate::checker::table::table_rules_1a(st, t, spec, CheckLevel::All).errs, n, code) == (
        has_code_from(st.errs, n, code) || breaks_placement(t, spec, code)),
{
    broadcast use lemma_emit_code, lemma_emit_runs;

}

proof fn lemma_part_1b(st: WalkState, t: Table, spec: TableSpec, n: int, code: u32)
    requires
        !st.stopped,
        0 <= n <= st.errs.len(),
    ensures
        !crate::checker::table::table_rules_1b(st, t, spec, CheckLevel::All).stopped,
        crate::checker::table::table_rules_1b(st, t, spec, CheckLevel::All).errs.len() >= st.errs.len(),
        has_code_from(crate::checker::table::table_rules_1b(st, t, spec, CheckLevel::All).errs, n, code) == (
        has_code_from(st.errs, n, code) || breaks_alignment(t, spec, code)),
{
    broadcast use lemma_emit_code, lemma_emit_runs;

}

proof fn lemma_part_1(st: WalkState, t: Table, spec: TableSpec, n: int, code: u32)
    requires
        !st.stopped,
        0 <= n <= st.errs.len(),
    ensures
        !crate::checker::table::table_rules_1(st, t, spec, CheckLevel::All).stopped,
        crate::checker::table::table_rules_1(st, t, spec, CheckLevel::All).errs.len() >= st.errs.len(),
        has_code_from(crate::checker::table::table_rules_1(st, t, spec, CheckLevel::All).errs, n, code) == (
        has_code_from(st.errs, n, code) || breaks_placement(t, spec, code) || breaks_alignment(t, spec, code)),
{
    lemma_part_1a(st, t, spec, n, code);
    lemma_part_1b(crate::checker::table::table_rules_1a(st, t, spec, CheckLevel::All), t, spec, n, code);
}

proof fn lemma_part_2(st: WalkState, t: Table, spec: TableSpec, n: int, code: u32)
    requires
        !st.stopped,
        0 <= n <= st.errs.len(),
    ensures
        !crate::checker::table::table_rules_2(st, t, spec, CheckLevel::All).stopped,
        crate::checker::table::table_rules_2(st, t, spec, CheckLevel::All).errs.len() >= st.errs.len(),
        has_code_from(crate::checker::table::table_rules_2(st, t, spec, CheckLevel::All).errs, n, code) == (
        has_code_from(st.errs, n, code) || breaks_margins(t, spec, code)),
        !crate::checker::table::table_rules_caption(st, t, spec, CheckLevel::All).stopped,
        crate::checker::table::table_rules_caption(st, t, spec, CheckLevel::All).errs.len() >= st.errs.len(),
        has_code_from(crate::checker::table::table_rules_caption(st, t, spec, CheckLevel::All).errs, n, code) == (
        has_code_from(st.errs, n, code) || breaks_caption(t, spec, code)),
{
    broadcast use lemma_emit_code, lemma_emit_runs, lemma_bail_runs;

}

proof fn lemma_part_3(st: WalkState, t: Table, spec: TableSpec, h: HeaderTables, n: int, code: u32)
    requires
        !st.stopped,
        0 <= n <= st.errs.len(),
    ensures
        has_code_from(crate::checker::table::table_rules_3(st, t, spec, h, CheckLevel::All).errs, n, code) == (
        has_code_from(st.errs, n, code) || breaks_borders(t, spec, h, code)),
{
    broadcast use lemma_emit_code, lemma_emit_runs, lemma_bail_runs;

    if spec.border@.len() > 0 && h.border_fills@.contains_key(t.border_fill_id_ref) {
        lemma_borders_code(st, t, h.border_fills@[t.border_fill_id_ref], spec.border@, CheckLevel::All, n, code);
    }
}

/// At the full level, checking a table on a running walk reports code
/// `code` among the findings it appends exactly when the table breaks
/// the spec's rule for that code, each rule reading the table's own
/// field: its size, flags, placement kinds and offsets, its four outer
/// margins, its caption (when it has one), its border edges, its cell
/// spacing and its nesting.
pub proof fn law_table_code_iff_rule_broken(base: Seq<ErrorView>, t: Table, spec: TableSpec, h: HeaderTables, code: u32)
    ensures
        has_code_from(
            table_rules(WalkState { errs: base, stopped: false }, t, spec, h, CheckLevel::All).errs,
            base.len() as int,
            code,
        ) <==> table_breaks(t, spec, h, code),
{
    let st = WalkState { errs: base, stopped: false };
    let n = base.len() as int;
    assert(!has_code_from(st.errs, n, code));
    lemma_part_1(st, t, spec, n, code);
    let s1 = crate::checker::table::table_rules_1(st, t, spec, CheckLevel::All);
    lemma_part_2(s1, t, spec, n, code);
    let s2 = crate::checker::table::table_rules_2(s1, t, spec, CheckLevel::All);
    lemma_part_2(s2, t, spec, n, code);
    let s3 = crate::checker::table::table_rules_caption(s2, t, spec, CheckLevel::All);
    lemma_part_3(s3, t, spec, h, n, code);
}

/// At the full level, a table's left-margin finding is reported exactly
/// when the spec sets a left-margin range and the table's left outer
/// margin lies outside it, whatever its other margins.
pub proof fn law_table_margin_left(base: Seq<ErrorView>, t: Table, spec: TableSpec, h: HeaderTables)
    ensures
        has_code_from(
            table_rules(WalkState { errs: base, stopped: false }, t, spec, h, CheckLevel::All).errs,
            base.len() as int,
            TABLE_MARGIN_LEFT,
        ) <==> (spec.margin_left matches Some(r) && (t.out_margin_left < r.min || r.max < t.out_margin_left)),
{
    law_table_code_iff_rule_broken(base, t, spec, h, TABLE_MARGIN_LEFT);
    if spec.border@.len() > 0 && h.border_fills@.contains_key(t.border_fill_id_ref) {
        let bf = h.border_fills@[t.border_fill_id_ref];
        if borders_break(bf, spec.border@, TABLE_MARGIN_LEFT) {
            let k = choose|k: int| 0 <= k < spec.border@.len() && #[trigger] edge_at_breaks(bf, spec.border@[k], TABLE_MARGIN_LEFT);
        }
    }
}


/// A set colour that an observed colour (`#RRGGBB` or `none`) is not,
/// compared case-insensitively; `none` is no colour.
pub open spec fn colour_off(e: Option<u32>, observed: Seq<char>) -> bool {
    match e {
        Some(x) => eq_ignore_case(observed, "none"@) || !eq_ignore_case(observed, hash_hex6((x % 0x100_0000) as nat)),
        None => false,
    }
}

/// A set text that an observed text is not, ignoring case and
/// surrounding whitespace.
pub open spec fn text_off(e: Option<String>, observed: Seq<char>) -> bool {
    match e {
        Some(x) => !eq_ignore_case(trim(observed), trim(x@)),
        None => false,
    }
}

/// The kind of fill a cell shows: `none` without a brush or with a solid
/// face of `none`, `gradation` for a gradient, `color` otherwise.
pub open spec fn shown_fill(brush: Option<CellFillBrush>) -> Seq<char> {
    match brush {
        None => "none"@,
        Some(CellFillBrush::Solid { face, .. }) => if eq_ignore_case(face@, "none"@) {
            "none"@
        } else {
            "color"@
        },
        Some(CellFillBrush::Gradation { .. }) => "gradation"@,
        Some(CellFillBrush::Image { .. }) => "color"@,
    }
}

/// The rules of the cell's brush it breaks, for code `code`: each reads
/// the brush's own field for it.
pub open spec fn brush_breaks(brush: Option<CellFillBrush>, spec: TableSpec, code: u32) -> bool {
    match brush {
        Some(CellFillBrush::Solid { face, hatch, .. }) => {
            ||| code == TABLE_BGFILL_FACECOLOR && colour_off(spec.bgfill_facecolor, face@) && !eq_ignore_case(face@, "none"@)
            ||| code == TABLE_BGFILL_PATTONCOLOR && colour_off(spec.bgfill_pattoncolor, hatch@)
        },
        Some(CellFillBrush::Gradation { gradation_type, start_color, end_color, width_center, height_center, angle, blur_level, blur_center }) => {
            ||| code == TABLE_BGGRADATION_STARTCOLOR && colour_off(spec.bggradation_startcolor, start_color@)
            ||| code == TABLE_BGGRADATION_ENDCOLOR && colour_off(spec.bggradation_endcolor, end_color@)
            ||| code == TABLE_BGGRADATION_TYPE && (spec.bggradation_type matches Some(e) && !eq_ignore_case(canon_grad(gradation_type@), canon_grad(e@)))
            ||| code == TABLE_BGGRADATION_WIDTHCENTER && set_differs(spec.bggradation_widthcenter, width_center)
            ||| code == TABLE_BGGRADATION_HEIGHTCENTER && set_differs(spec.bggradation_heightcenter, height_center)
            ||| code == TABLE_BGGRADATION_GRADATIONANGLE && set_differs(spec.bggradation_gradationangle, angle)
            ||| code == TABLE_BGGRADATION_BLURLEVEL && set_differs(spec.bggradation_blurlevel, blur_level)
            ||| code == TABLE_BGGRADATION_BLURCENTER && set_differs(spec.bggradation_blurcenter, blur_center)
        },
        Some(CellFillBrush::Image { file, included, fill_type, fill_value, effect_type, effect_value, watermark }) => {
            ||| code == TABLE_PICTURE_FILE && (spec.picture_file matches Some(e) && file@ != e@)
            ||| code == TABLE_PICTURE_INCLUDE && set_differs(spec.picture_include, included)
            ||| code == TABLE_PICTUREFILL_TYPE && text_off(spec.picturefill_type, fill_type@)
            ||| code == TABLE_PICTUREFILL_VALUE && set_differs(spec.picturefill_value, fill_value)
            ||| code == TABLE_EFFECT_TYPE && text_off(spec.effect_type, effect_type@)
            ||| code == TABLE_EFFECT_VALUE && set_differs(spec.effect_value, effect_value)
            ||| code == TABLE_WATERMARK && set_differs(spec.watermark, watermark)
        },
        None => false,
    }
}

proof fn lemma_after_type(s0: WalkState, t: Table, c: Cell, bf: BorderFill, spec: TableSpec, n: int, code: u32)
    requires
        !s0.stopped,
        0 <= n <= s0.errs.len(),
    ensures
        has_code_from(crate::checker::table_detail::cell_rules_after_type(s0, t, c, bf, spec, CheckLevel::All).errs, n, code)
            == (has_code_from(s0.errs, n, code) || brush_breaks(bf.fill_brush, spec, code)),
{
    broadcast use lemma_emit_code, lemma_emit_runs;

    match bf.fill_brush {
        Some(CellFillBrush::Solid { .. }) => {},
        Some(CellFillBrush::Gradation { .. }) => {},
        Some(CellFillBrush::Image { .. }) => {},
        None => {},
    }
}

/// At the full level, checking one cell on a running walk reports code
/// `code` exactly when the cell's fill breaks the spec's rule for it: the
/// fill-kind rule against the kind the cell shows, and the rules of its
/// brush, each reading the brush's own field (a solid face of `none`
/// breaks no face-colour rule).
pub proof fn law_cell_code_iff_rule_broken(
    base: Seq<ErrorView>,
    t: Table,
    c: Cell,
    bf: BorderFill,
    spec: TableSpec,
    code: u32,
)
    ensures
        has_code_from(cell_rules(WalkState { errs: base, stopped: false }, t, c, bf, spec, CheckLevel::All).errs, base.len() as int, code)
            <==> ((code == TABLE_BGFILL_TYPE && (spec.bgfill_type matches Some(k) && !eq_ignore_case(shown_fill(bf.fill_brush), k@)))
            || brush_breaks(bf.fill_brush, spec, code)),
{
    broadcast use lemma_emit_code, lemma_emit_runs;

    let st = WalkState { errs: base, stopped: false };
    let n = base.len() as int;
    assert(!has_code_from(st.errs, n, code));
    assert(shown_fill(bf.fill_brush) == crate::checker::table_detail::fill_kind_of(bf.fill_brush));
    let s0 = emit(
        st,
        CheckLevel::All,
        match spec.bgfill_type {
            Some(e) => !eq_ignore_case(crate::checker::table_detail::fill_kind_of(bf.fill_brush), e@),
            None => false,
        },
        crate::checker::table_detail::cell_error(t, c, TABLE_BGFILL_TYPE),
    );
    lemma_after_type(s0, t, c, bf, spec, n, code);
}

} // verus!
