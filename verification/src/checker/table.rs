//! Table rules: size, position, flow, margins, caption, borders and
//! nesting of every table, and (in detail mode) the fill of every cell.
//!
//! At the simple level the walk stops at the first finding. The state
//! of a walk is the findings so far and whether it has stopped.

use vstd::prelude::*;
use crate::checker::{error_views, lemma_error_views_push, located, located_error, CheckLevel, DvcErrorInfo, ErrorView, OutputScope};
use crate::checker::para_shape::differs;
use crate::document::archive::Document;
use crate::document::header::HeaderTables;
use crate::document::header::types::{Border, BorderFill, LineType};
use crate::document::section::{derefs, paras_tables, Section, Table};
use crate::error::{DvcResult, TABLE_BORDER_CELL_SPACING, TABLE_BORDER_COLOR, TABLE_BORDER_SIZE, TABLE_BORDER_TYPE, TABLE_CAPTION_LINE_WRAP, TABLE_CAPTION_POSITION, TABLE_CAPTION_SIZE, TABLE_CAPTION_SOCAP_FULL_SIZE, TABLE_CAPTION_SPACING, TABLE_HDIRECTION, TABLE_HTYPE, TABLE_HVALUE, TABLE_IN_TABLE, TABLE_MARGIN_BOTTOM, TABLE_MARGIN_LEFT, TABLE_MARGIN_RIGHT, TABLE_MARGIN_TOP, TABLE_NUM_VER_TYPE, TABLE_OBJ_PROTECT, TABLE_PARALLEL, TABLE_POS, TABLE_SIZE_FIXED, TABLE_SIZE_HEIGHT, TABLE_SIZE_WIDTH, TABLE_SOALLOW_OVERLAP, TABLE_SOFLOW_WITH_TEXT, TABLE_SOHOLD_ANCHOR_OBJ, TABLE_TEXT_POS, TABLE_TREAT_AS_CHAR, TABLE_VDIRECTION, TABLE_VTYPE, TABLE_VVALUE};
use crate::messages::{error_string, plain_message, ErrorContext};
use crate::spec::{spec_has_cell_detail_fields, BorderSpec, IntRange, TableSpec};
use crate::checker::table_detail::{check_cells, rows_detail};
use crate::text::{color_hex, hash_hex6, str_eq, str_upper_eq, upper_eq};

verus! {

broadcast use vstd::std_specs::hash::group_hash_axioms;

/// The findings so far and whether the walk has stopped.
pub struct WalkState {
    pub errs: Seq<ErrorView>,
    pub stopped: bool,
}

/// Record `e` when `cond` holds and the walk runs; at the simple level
/// the walk then stops.
pub open spec fn emit(st: WalkState, level: CheckLevel, cond: bool, e: ErrorView) -> WalkState {
    if st.stopped || !cond {
        st
    } else {
        WalkState { errs: st.errs.push(e), stopped: level == CheckLevel::Simple }
    }
}

/// At the simple level, stop once any finding exists.
pub open spec fn bail(st: WalkState, level: CheckLevel) -> WalkState {
    if st.stopped {
        st
    } else {
        WalkState { errs: st.errs, stopped: level == CheckLevel::Simple && st.errs.len() > 0 }
    }
}

/// The finding for a table-wide rule.
pub open spec fn table_error(t: Table, code: u32) -> ErrorView {
    located_error(code, t.id, t.nesting_depth >= 1, t.nesting_depth >= 2, 0, 0, plain_message(code))
}

/// The finding for a border rule.
pub open spec fn border_error(t: Table, code: u32) -> ErrorView {
    located_error(code, t.id, t.nesting_depth >= 1, false, 0, 0, plain_message(code))
}

/// Whether a set range does not hold `v`.
pub open spec fn range_fails(r: Option<IntRange>, v: int) -> bool {
    match r {
        Some(rr) => !(rr.min <= v && v <= rr.max),
        None => false,
    }
}

/// Whether a set enum value differs from a decoded document value; an
/// undecodable document value is not compared.
pub open spec fn enum_differs(expected: Option<u32>, actual: Option<u32>) -> bool {
    match expected {
        Some(e) => match actual {
            Some(a) => a != e,
            None => false,
        },
        None => false,
    }
}

// ---------------------------------------------------------------------------
// Attribute-token mappers
// ---------------------------------------------------------------------------

/// `textWrap` token to the spec's position kind.
pub open spec fn pos_type_of(s: Seq<char>) -> Option<u32> {
    if s == "TOP_AND_BOTTOM"@ {
        Some(0)
    } else if s == "IN_FRONT_OF_TEXT"@ {
        Some(1)
    } else if s == "BEHIND_TEXT"@ {
        Some(2)
    } else if s == "SQUARE"@ {
        Some(3)
    } else {
        None
    }
}

/// `textFlow` token to the spec's text-position kind.
pub open spec fn text_pos_of(s: Seq<char>) -> Option<u32> {
    if s == "BOTH_SIDES"@ {
        Some(0)
    } else if s == "LEFT_ONLY"@ {
        Some(1)
    } else if s == "RIGHT_ONLY"@ {
        Some(2)
    } else if s == "LARGEST_ONLY"@ {
        Some(3)
    } else {
        None
    }
}

/// `horzRelTo` token to the spec's horizontal reference kind.
pub open spec fn horz_rel_to_of(s: Seq<char>) -> Option<u32> {
    if s == "PAPER"@ {
        Some(0)
    } else if s == "PAGE"@ {
        Some(1)
    } else if s == "COLUMN"@ {
        Some(2)
    } else if s == "PARA"@ {
        Some(3)
    } else {
        None
    }
}

/// `horzAlign` token to the spec's horizontal direction.
pub open spec fn horz_align_of(s: Seq<char>) -> Option<u32> {
    if s == "LEFT"@ {
        Some(0)
    } else if s == "CENTER"@ {
        Some(1)
    } else if s == "RIGHT"@ {
        Some(2)
    } else if s == "INSIDE"@ {
        Some(3)
    } else if s == "OUTSIDE"@ {
        Some(4)
    } else {
        None
    }
}

/// `vertRelTo` token to the spec's vertical reference kind (`PARA` and
/// `COLUMN` share a slot).
pub open spec fn vert_rel_to_of(s: Seq<char>) -> Option<u32> {
    if s == "PAPER"@ {
        Some(0)
    } else if s == "PAGE"@ {
        Some(1)
    } else if s == "PARA"@ || s == "COLUMN"@ {
        Some(2)
    } else {
        None
    }
}

/// `vertAlign` token to the spec's vertical direction.
pub open spec fn vert_align_of(s: Seq<char>) -> Option<u32> {
    if s == "TOP"@ {
        Some(0)
    } else if s == "CENTER"@ {
        Some(1)
    } else if s == "BOTTOM"@ {
        Some(2)
    } else {
        None
    }
}

/// `numberingType` token to the spec's numbering kind.
pub open spec fn num_type_of(s: Seq<char>) -> Option<u32> {
    if s == "NONE"@ {
        Some(0)
    } else if s == "PICTURE"@ {
        Some(1)
    } else if s == "TABLE"@ {
        Some(2)
    } else if s == "EQUATION"@ {
        Some(3)
    } else {
        None
    }
}

/// Caption `side` token to the spec's caption position.
pub open spec fn caption_pos_of(s: Seq<char>) -> Option<u32> {
    if s == "LEFT"@ {
        Some(3)
    } else if s == "RIGHT"@ {
        Some(5)
    } else if s == "TOP"@ {
        Some(1)
    } else if s == "BOTTOM"@ {
        Some(7)
    } else {
        None
    }
}

/// Map a `textWrap` token.
pub fn pos_type_from_str(s: &str) -> (r: Option<u32>)
    ensures
        r == pos_type_of(s@),
{
    if str_eq(s, "TOP_AND_BOTTOM") {
        Some(0)
    } else if str_eq(s, "IN_FRONT_OF_TEXT") {
        Some(1)
    } else if str_eq(s, "BEHIND_TEXT") {
        Some(2)
    } else if str_eq(s, "SQUARE") {
        Some(3)
    } else {
        None
    }
}

/// Map a `textFlow` token.
pub fn text_pos_from_str(s: &str) -> (r: Option<u32>)
    ensures
        r == text_pos_of(s@),
{
    if str_eq(s, "BOTH_SIDES") {
        Some(0)
    } else if str_eq(s, "LEFT_ONLY") {
        Some(1)
    } else if str_eq(s, "RIGHT_ONLY") {
        Some(2)
    } else if str_eq(s, "LARGEST_ONLY") {
        Some(3)
    } else {
        None
    }
}

/// Map a `horzRelTo` token.
pub fn horz_rel_to_from_str(s: &str) -> (r: Option<u32>)
    ensures
        r == horz_rel_to_of(s@),
{
    if str_eq(s, "PAPER") {
        Some(0)
    } else if str_eq(s, "PAGE") {
        Some(1)
    } else if str_eq(s, "COLUMN") {
        Some(2)
    } else if str_eq(s, "PARA") {
        Some(3)
    } else {
        None
    }
}

/// Map a `horzAlign` token.
pub fn horz_align_from_str(s: &str) -> (r: Option<u32>)
    ensures
        r == horz_align_of(s@),
{
    if str_eq(s, "LEFT") {
        Some(0)
    } else if str_eq(s, "CENTER") {
        Some(1)
    } else if str_eq(s, "RIGHT") {
        Some(2)
    } else if str_eq(s, "INSIDE") {
        Some(3)
    } else if str_eq(s, "OUTSIDE") {
        Some(4)
    } else {
        None
    }
}

/// Map a `vertRelTo` token.
pub fn vert_rel_to_from_str(s: &str) -> (r: Option<u32>)
    ensures
        r == vert_rel_to_of(s@),
{
    if str_eq(s, "PAPER") {
        Some(0)
    } else if str_eq(s, "PAGE") {
        Some(1)
    } else if str_eq(s, "PARA") || str_eq(s, "COLUMN") {
        Some(2)
    } else {
        None
    }
}

/// Map a `vertAlign` token.
pub fn vert_align_from_str(s: &str) -> (r: Option<u32>)
    ensures
        r == vert_align_of(s@),
{
    if str_eq(s, "TOP") {
        Some(0)
    } else if str_eq(s, "CENTER") {
        Some(1)
    } else if str_eq(s, "BOTTOM") {
        Some(2)
    } else {
        None
    }
}

/// Map a `numberingType` token.
pub fn num_type_from_str(s: &str) -> (r: Option<u32>)
    ensures
        r == num_type_of(s@),
{
    if str_eq(s, "NONE") {
        Some(0)
    } else if str_eq(s, "PICTURE") {
        Some(1)
    } else if str_eq(s, "TABLE") {
        Some(2)
    } else if str_eq(s, "EQUATION") {
        Some(3)
    } else {
        None
    }
}

/// Map a caption `side` token.
pub fn caption_pos_from_str(s: &str) -> (r: Option<u32>)
    ensures
        r == caption_pos_of(s@),
{
    if str_eq(s, "LEFT") {
        Some(3)
    } else if str_eq(s, "RIGHT") {
        Some(5)
    } else if str_eq(s, "TOP") {
        Some(1)
    } else if str_eq(s, "BOTTOM") {
        Some(7)
    } else {
        None
    }
}

/// The line type of a spec border-type index.
pub open spec fn line_type_of(t: u32) -> LineType {
    match t {
        0u32 => LineType::NoLine,
        1u32 => LineType::Solid,
        2u32 => LineType::Dash,
        3u32 => LineType::Dot,
        4u32 => LineType::DashDot,
        5u32 => LineType::DashDotDot,
        6u32 => LineType::LongDash,
        7u32 => LineType::Circle,
        8u32 => LineType::DoubleSlim,
        9u32 => LineType::SlimThick,
        10u32 => LineType::ThickSlim,
        11u32 => LineType::SlimThickSlim,
        12u32 => LineType::Wave,
        13u32 => LineType::DoubleWave,
        _ => LineType::Other,
    }
}

/// Map a spec border-type index to a line type.
pub fn border_type_to_line_type(bordertype: u32) -> (r: LineType)
    ensures
        r == line_type_of(bordertype),
{
    match bordertype {
        0 => LineType::NoLine,
        1 => LineType::Solid,
        2 => LineType::Dash,
        3 => LineType::Dot,
        4 => LineType::DashDot,
        5 => LineType::DashDotDot,
        6 => LineType::LongDash,
        7 => LineType::Circle,
        8 => LineType::DoubleSlim,
        9 => LineType::SlimThick,
        10 => LineType::ThickSlim,
        11 => LineType::SlimThickSlim,
        12 => LineType::Wave,
        13 => LineType::DoubleWave,
        _ => LineType::Other,
    }
}

/// A packed 0xRRGGBB colour as `"#RRGGBB"` (the high byte is ignored).
pub fn color_u32_to_hex(color: u32) -> (r: String)
    ensures
        r@ == hash_hex6((color % 0x100_0000) as nat),
{
    color_hex(color)
}

/// The border of position 1 (left), 2 (right), 3 (top) or 4 (bottom).
pub open spec fn border_at(bf: BorderFill, position: u32) -> Option<Border> {
    if position == 1 {
        Some(bf.left)
    } else if position == 2 {
        Some(bf.right)
    } else if position == 3 {
        Some(bf.top)
    } else if position == 4 {
        Some(bf.bottom)
    } else {
        None
    }
}

fn border_by_position(bf: &BorderFill, position: u32) -> (r: Option<&Border>)
    ensures
        match r {
            Some(b) => border_at(*bf, position) == Some(*b),
            None => border_at(*bf, position) is None,
        },
{
    if position == 1 {
        Some(&bf.left)
    } else if position == 2 {
        Some(&bf.right)
    } else if position == 3 {
        Some(&bf.top)
    } else if position == 4 {
        Some(&bf.bottom)
    } else {
        None
    }
}

// ---------------------------------------------------------------------------
// One table
// ---------------------------------------------------------------------------

/// Size, position and flow rules.
pub open spec fn table_rules_1a(st: WalkState, t: Table, spec: TableSpec, level: CheckLevel) -> WalkState {
    let s = st;
    let s = emit(s, level, range_fails(spec.size_width, t.width as int), table_error(t, TABLE_SIZE_WIDTH));
    let s = emit(s, level, range_fails(spec.size_height, t.height as int), table_error(t, TABLE_SIZE_HEIGHT));
    let s = emit(s, level, differs(spec.fixed, t.size_protect), table_error(t, TABLE_SIZE_FIXED));
    let s = emit(
        s,
        level,
        spec.treat_as_char == Some(true) && !t.treat_as_char,
        table_error(t, TABLE_TREAT_AS_CHAR),
    );
    let s = emit(s, level, enum_differs(spec.pos, pos_type_of(t.text_wrap@)), table_error(t, TABLE_POS));
    let s = emit(s, level, enum_differs(spec.textpos, text_pos_of(t.text_flow@)), table_error(t, TABLE_TEXT_POS));
    let s = emit(
        s,
        level,
        enum_differs(spec.horizontal_type, horz_rel_to_of(t.horz_rel_to@)),
        table_error(t, TABLE_HTYPE),
    );
    s
}

/// Alignment and flow rules.
pub open spec fn table_rules_1b(st: WalkState, t: Table, spec: TableSpec, level: CheckLevel) -> WalkState {
    let s = st;
    let s = emit(
        s,
        level,
        enum_differs(spec.horizontal_direction, horz_align_of(t.horz_align@)),
        table_error(t, TABLE_HDIRECTION),
    );
    let s = emit(s, level, range_fails(spec.horizontal_value, t.horz_offset as int), table_error(t, TABLE_HVALUE));
    let s = emit(
        s,
        level,
        enum_differs(spec.vertical_type, vert_rel_to_of(t.vert_rel_to@)),
        table_error(t, TABLE_VTYPE),
    );
    let s = emit(
        s,
        level,
        enum_differs(spec.vertical_direction, vert_align_of(t.vert_align@)),
        table_error(t, TABLE_VDIRECTION),
    );
    let s = emit(s, level, range_fails(spec.vertical_value, t.vert_offset as int), table_error(t, TABLE_VVALUE));
    let s = emit(s, level, differs(spec.soflowwithtext, t.flow_with_text), table_error(t, TABLE_SOFLOW_WITH_TEXT));
    let s = emit(s, level, differs(spec.soallowoverlap, t.allow_overlap), table_error(t, TABLE_SOALLOW_OVERLAP));
    let s = emit(
        s,
        level,
        differs(spec.soholdanchorobj, t.hold_anchor_and_so),
        table_error(t, TABLE_SOHOLD_ANCHOR_OBJ),
    );
    emit(s, level, differs(spec.parallel, t.affect_l_spacing), table_error(t, TABLE_PARALLEL))
}

/// Size, position and flow rules.
pub open spec fn table_rules_1(st: WalkState, t: Table, spec: TableSpec, level: CheckLevel) -> WalkState {
    table_rules_1b(table_rules_1a(st, t, spec, level), t, spec, level)
}

/// Numbering, protection and margin rules.
pub open spec fn table_rules_2(st: WalkState, t: Table, spec: TableSpec, level: CheckLevel) -> WalkState {
    let s = st;
    let s = emit(
        s,
        level,
        enum_differs(spec.numbertype, num_type_of(t.numbering_type@)),
        table_error(t, TABLE_NUM_VER_TYPE),
    );
    let s = emit(s, level, differs(spec.objprotect, t.no_adjust != 0), table_error(t, TABLE_OBJ_PROTECT));
    let s = bail(
        emit(s, level, range_fails(spec.margin_left, t.out_margin_left as int), table_error(t, TABLE_MARGIN_LEFT)),
        level,
    );
    let s = bail(
        emit(s, level, range_fails(spec.margin_right, t.out_margin_right as int), table_error(t, TABLE_MARGIN_RIGHT)),
        level,
    );
    let s = bail(
        emit(s, level, range_fails(spec.margin_top, t.out_margin_top as int), table_error(t, TABLE_MARGIN_TOP)),
        level,
    );
    bail(
        emit(
            s,
            level,
            range_fails(spec.margin_bottom, t.out_margin_bottom as int),
            table_error(t, TABLE_MARGIN_BOTTOM),
        ),
        level,
    )
}

/// Caption rules, when the table has a caption.
pub open spec fn table_rules_caption(st: WalkState, t: Table, spec: TableSpec, level: CheckLevel) -> WalkState {
    if !t.has_caption {
        st
    } else {
        let s = st;
        let s = emit(
            s,
            level,
            enum_differs(spec.caption_position, caption_pos_of(t.caption_side@)),
            table_error(t, TABLE_CAPTION_POSITION),
        );
        let s = bail(
            emit(s, level, range_fails(spec.caption_size, t.caption_size as int), table_error(t, TABLE_CAPTION_SIZE)),
            level,
        );
        let s = bail(
            emit(
                s,
                level,
                range_fails(spec.caption_spacing, t.caption_spacing as int),
                table_error(t, TABLE_CAPTION_SPACING),
            ),
            level,
        );
        let s = emit(
            s,
            level,
            differs(spec.caption_socapfullsize, t.caption_full_size),
            table_error(t, TABLE_CAPTION_SOCAP_FULL_SIZE),
        );
        emit(s, level, differs(spec.caption_linewrap, t.caption_line_wrap), table_error(t, TABLE_CAPTION_LINE_WRAP))
    }
}

/// Whether a border width differs from the spec's by more than 0.005 mm (5000 nm).
pub open spec fn width_differs(width_nm: i64, size_nm: u32) -> bool {
    width_nm - size_nm > 5000 || size_nm - width_nm > 5000
}

/// The rules of one border position.
pub open spec fn border_rules(st: WalkState, t: Table, b: Border, bs: BorderSpec, level: CheckLevel) -> WalkState {
    let s = emit(st, level, b.line_type != line_type_of(bs.bordertype), border_error(t, TABLE_BORDER_TYPE));
    let s = emit(s, level, width_differs(b.width_nm, bs.size_nm), border_error(t, TABLE_BORDER_SIZE));
    emit(
        s,
        level,
        !upper_eq(b.color@, hash_hex6((bs.color % 0x100_0000) as nat)),
        border_error(t, TABLE_BORDER_COLOR),
    )
}

/// The rules of border specs `bss` against border fill `bf`.
pub open spec fn borders_rules(
    st: WalkState,
    t: Table,
    bf: BorderFill,
    bss: Seq<BorderSpec>,
    level: CheckLevel,
) -> WalkState
    decreases bss.len(),
{
    if bss.len() == 0 {
        st
    } else {
        let s = borders_rules(st, t, bf, bss.drop_last(), level);
        match border_at(bf, bss.last().position) {
            Some(b) => bail(border_rules(s, t, b, bss.last(), level), level),
            None => s,
        }
    }
}

/// Border, cell-spacing and nesting rules.
pub open spec fn table_rules_3(
    st: WalkState,
    t: Table,
    spec: TableSpec,
    h: HeaderTables,
    level: CheckLevel,
) -> WalkState {
    let s = if spec.border@.len() > 0 && h.border_fills@.contains_key(t.border_fill_id_ref) {
        borders_rules(st, t, h.border_fills@[t.border_fill_id_ref], spec.border@, level)
    } else {
        st
    };
    let s = emit(
        s,
        level,
        range_fails(spec.border_cellspacing, t.cell_spacing as int),
        table_error(t, TABLE_BORDER_CELL_SPACING),
    );
    emit(s, level, spec.table_in_table == Some(false) && t.nesting_depth >= 1, table_error(t, TABLE_IN_TABLE))
}

/// All rules of one table.
pub open spec fn table_rules(
    st: WalkState,
    t: Table,
    spec: TableSpec,
    h: HeaderTables,
    level: CheckLevel,
) -> WalkState {
    table_rules_3(
        table_rules_caption(table_rules_2(table_rules_1(st, t, spec, level), t, spec, level), t, spec, level),
        t,
        spec,
        h,
        level,
    )
}

fn emit_exec(
    errors: &mut Vec<DvcErrorInfo>,
    stopped: &mut bool,
    level: CheckLevel,
    cond: bool,
    code: u32,
    table_id: u32,
    in_table: bool,
    in_nested: bool,
    row: u32,
    col: u32,
)
    ensures
        (WalkState { errs: error_views(final(errors)@), stopped: *final(stopped) }) == emit(
            WalkState { errs: error_views(old(errors)@), stopped: *old(stopped) },
            level,
            cond,
            located_error(code, table_id, in_table, in_nested, row, col, plain_message(code)),
        ),
{
    if !*stopped && cond {
        let e = located(code, table_id, in_table, in_nested, row, col, error_string(code, ErrorContext::none()));
        proof {
            lemma_error_views_push(errors@, e);
        }
        errors.push(e);
        *stopped = level == CheckLevel::Simple;
    }
}

fn bail_exec(errors: &Vec<DvcErrorInfo>, stopped: &mut bool, level: CheckLevel)
    ensures
        (WalkState { errs: error_views(errors@), stopped: *final(stopped) }) == bail(
            WalkState { errs: error_views(errors@), stopped: *old(stopped) },
            level,
        ),
{
    if !*stopped {
        *stopped = level == CheckLevel::Simple && errors.len() > 0;
    }
}

fn range_fails_exec(r: Option<IntRange>, v: i64) -> (b: bool)
    ensures
        b == range_fails(r, v as int),
{
    match r {
        Some(rr) => !rr.contains(v),
        None => false,
    }
}

fn enum_differs_exec(expected: Option<u32>, actual: Option<u32>) -> (b: bool)
    ensures
        b == enum_differs(expected, actual),
{
    match expected {
        Some(e) => match actual {
            Some(a) => a != e,
            None => false,
        },
        None => false,
    }
}

fn differs_bool(expected: Option<bool>, actual: bool) -> (b: bool)
    ensures
        b == differs(expected, actual),
{
    match expected {
        Some(e) => e != actual,
        None => false,
    }
}

fn rules_1a(t: &Table, spec: &TableSpec, level: CheckLevel, errors: &mut Vec<DvcErrorInfo>, stopped: &mut bool)
    ensures
        (WalkState { errs: error_views(final(errors)@), stopped: *final(stopped) }) == table_rules_1a(
            WalkState { errs: error_views(old(errors)@), stopped: *old(stopped) },
            *t,
            *spec,
            level,
        ),
{
    let d1 = t.nesting_depth >= 1;
    let d2 = t.nesting_depth >= 2;
    emit_exec(errors, stopped, level, range_fails_exec(spec.size_width, t.width as i64), TABLE_SIZE_WIDTH, t.id, d1, d2, 0, 0);
    emit_exec(errors, stopped, level, range_fails_exec(spec.size_height, t.height as i64), TABLE_SIZE_HEIGHT, t.id, d1, d2, 0, 0);
    emit_exec(errors, stopped, level, differs_bool(spec.fixed, t.size_protect), TABLE_SIZE_FIXED, t.id, d1, d2, 0, 0);
    let tac = match spec.treat_as_char {
        Some(b) => b && !t.treat_as_char,
        None => false,
    };
    emit_exec(errors, stopped, level, tac, TABLE_TREAT_AS_CHAR, t.id, d1, d2, 0, 0);
    emit_exec(errors, stopped, level, enum_differs_exec(spec.pos, pos_type_from_str(t.text_wrap.as_str())), TABLE_POS, t.id, d1, d2, 0, 0);
    emit_exec(errors, stopped, level, enum_differs_exec(spec.textpos, text_pos_from_str(t.text_flow.as_str())), TABLE_TEXT_POS, t.id, d1, d2, 0, 0);
    emit_exec(errors, stopped, level, enum_differs_exec(spec.horizontal_type, horz_rel_to_from_str(t.horz_rel_to.as_str())), TABLE_HTYPE, t.id, d1, d2, 0, 0);
}

fn rules_1b(t: &Table, spec: &TableSpec, level: CheckLevel, errors: &mut Vec<DvcErrorInfo>, stopped: &mut bool)
    ensures
        (WalkState { errs: error_views(final(errors)@), stopped: *final(stopped) }) == table_rules_1b(
            WalkState { errs: error_views(old(errors)@), stopped: *old(stopped) },
            *t,
            *spec,
            level,
        ),
{
    let d1 = t.nesting_depth >= 1;
    let d2 = t.nesting_depth >= 2;
    emit_exec(errors, stopped, level, enum_differs_exec(spec.horizontal_direction, horz_align_from_str(t.horz_align.as_str())), TABLE_HDIRECTION, t.id, d1, d2, 0, 0);
    emit_exec(errors, stopped, level, range_fails_exec(spec.horizontal_value, t.horz_offset as i64), TABLE_HVALUE, t.id, d1, d2, 0, 0);
    emit_exec(errors, stopped, level, enum_differs_exec(spec.vertical_type, vert_rel_to_from_str(t.vert_rel_to.as_str())), TABLE_VTYPE, t.id, d1, d2, 0, 0);
    emit_exec(errors, stopped, level, enum_differs_exec(spec.vertical_direction, vert_align_from_str(t.vert_align.as_str())), TABLE_VDIRECTION, t.id, d1, d2, 0, 0);
    emit_exec(errors, stopped, level, range_fails_exec(spec.vertical_value, t.vert_offset as i64), TABLE_VVALUE, t.id, d1, d2, 0, 0);
    emit_exec(errors, stopped, level, differs_bool(spec.soflowwithtext, t.flow_with_text), TABLE_SOFLOW_WITH_TEXT, t.id, d1, d2, 0, 0);
    emit_exec(errors, stopped, level, differs_bool(spec.soallowoverlap, t.allow_overlap), TABLE_SOALLOW_OVERLAP, t.id, d1, d2, 0, 0);
    emit_exec(errors, stopped, level, differs_bool(spec.soholdanchorobj, t.hold_anchor_and_so), TABLE_SOHOLD_ANCHOR_OBJ, t.id, d1, d2, 0, 0);
    emit_exec(errors, stopped, level, differs_bool(spec.parallel, t.affect_l_spacing), TABLE_PARALLEL, t.id, d1, d2, 0, 0);
}


fn rules_1(t: &Table, spec: &TableSpec, level: CheckLevel, errors: &mut Vec<DvcErrorInfo>, stopped: &mut bool)
    ensures
        (WalkState { errs: error_views(final(errors)@), stopped: *final(stopped) }) == table_rules_1(
            WalkState { errs: error_views(old(errors)@), stopped: *old(stopped) },
            *t,
            *spec,
            level,
        ),
{
    rules_1a(t, spec, level, errors, stopped);
    rules_1b(t, spec, level, errors, stopped);
}

fn rules_2(t: &Table, spec: &TableSpec, level: CheckLevel, errors: &mut Vec<DvcErrorInfo>, stopped: &mut bool)
    ensures
        (WalkState { errs: error_views(final(errors)@), stopped: *final(stopped) }) == table_rules_2(
            WalkState { errs: error_views(old(errors)@), stopped: *old(stopped) },
            *t,
            *spec,
            level,
        ),
{
    let d1 = t.nesting_depth >= 1;
    let d2 = t.nesting_depth >= 2;
    emit_exec(errors, stopped, level, enum_differs_exec(spec.numbertype, num_type_from_str(t.numbering_type.as_str())), TABLE_NUM_VER_TYPE, t.id, d1, d2, 0, 0);
    emit_exec(errors, stopped, level, differs_bool(spec.objprotect, t.no_adjust != 0), TABLE_OBJ_PROTECT, t.id, d1, d2, 0, 0);
    emit_exec(errors, stopped, level, range_fails_exec(spec.margin_left, t.out_margin_left as i64), TABLE_MARGIN_LEFT, t.id, d1, d2, 0, 0);
    bail_exec(errors, stopped, level);
    emit_exec(errors, stopped, level, range_fails_exec(spec.margin_right, t.out_margin_right as i64), TABLE_MARGIN_RIGHT, t.id, d1, d2, 0, 0);
    bail_exec(errors, stopped, level);
    emit_exec(errors, stopped, level, range_fails_exec(spec.margin_top, t.out_margin_top as i64), TABLE_MARGIN_TOP, t.id, d1, d2, 0, 0);
    bail_exec(errors, stopped, level);
    emit_exec(errors, stopped, level, range_fails_exec(spec.margin_bottom, t.out_margin_bottom as i64), TABLE_MARGIN_BOTTOM, t.id, d1, d2, 0, 0);
    bail_exec(errors, stopped, level);
}

fn rules_caption(t: &Table, spec: &TableSpec, level: CheckLevel, errors: &mut Vec<DvcErrorInfo>, stopped: &mut bool)
    ensures
        (WalkState { errs: error_views(final(errors)@), stopped: *final(stopped) }) == table_rules_caption(
            WalkState { errs: error_views(old(errors)@), stopped: *old(stopped) },
            *t,
            *spec,
            level,
        ),
{
    if !t.has_caption {
        return;
    }
    let d1 = t.nesting_depth >= 1;
    let d2 = t.nesting_depth >= 2;
    emit_exec(errors, stopped, level, enum_differs_exec(spec.caption_position, caption_pos_from_str(t.caption_side.as_str())), TABLE_CAPTION_POSITION, t.id, d1, d2, 0, 0);
    emit_exec(errors, stopped, level, range_fails_exec(spec.caption_size, t.caption_size as i64), TABLE_CAPTION_SIZE, t.id, d1, d2, 0, 0);
    bail_exec(errors, stopped, level);
    emit_exec(errors, stopped, level, range_fails_exec(spec.caption_spacing, t.caption_spacing as i64), TABLE_CAPTION_SPACING, t.id, d1, d2, 0, 0);
    bail_exec(errors, stopped, level);
    emit_exec(errors, stopped, level, differs_bool(spec.caption_socapfullsize, t.caption_full_size), TABLE_CAPTION_SOCAP_FULL_SIZE, t.id, d1, d2, 0, 0);
    emit_exec(errors, stopped, level, differs_bool(spec.caption_linewrap, t.caption_line_wrap), TABLE_CAPTION_LINE_WRAP, t.id, d1, d2, 0, 0);
}

/// The border rules of one position: line type, width (within 0.005 mm) and
/// colour (compared upper-cased).
fn check_border_from_info(
    table: &Table,
    doc_border: &Border,
    spec_border: &BorderSpec,
    level: CheckLevel,
    errors: &mut Vec<DvcErrorInfo>,
    stopped: &mut bool,
)
    ensures
        (WalkState { errs: error_views(final(errors)@), stopped: *final(stopped) }) == border_rules(
            WalkState { errs: error_views(old(errors)@), stopped: *old(stopped) },
            *table,
            *doc_border,
            *spec_border,
            level,
        ),
{
    let d1 = table.nesting_depth >= 1;
    let expected_line_type = border_type_to_line_type(spec_border.bordertype);
    emit_exec(errors, stopped, level, doc_border.line_type != expected_line_type, TABLE_BORDER_TYPE, table.id, d1, false, 0, 0);
    let diff: i128 = doc_border.width_nm as i128 - spec_border.size_nm as i128;
    emit_exec(errors, stopped, level, diff > 5000 || diff < -5000, TABLE_BORDER_SIZE, table.id, d1, false, 0, 0);
    let expected = color_u32_to_hex(spec_border.color);
    let same = str_upper_eq(doc_border.color.as_str(), expected.as_str());
    emit_exec(errors, stopped, level, !same, TABLE_BORDER_COLOR, table.id, d1, false, 0, 0);
}

fn rules_3(
    t: &Table,
    spec: &TableSpec,
    header: &HeaderTables,
    level: CheckLevel,
    errors: &mut Vec<DvcErrorInfo>,
    stopped: &mut bool,
)
    ensures
        (WalkState { errs: error_views(final(errors)@), stopped: *final(stopped) }) == table_rules_3(
            WalkState { errs: error_views(old(errors)@), stopped: *old(stopped) },
            *t,
            *spec,
            *header,
            level,
        ),
{
    let ghost st0 = WalkState { errs: error_views(errors@), stopped: *stopped };
    if spec.border.len() > 0 {
        match header.border_fills.get(&t.border_fill_id_ref) {
            Some(bf) => {
                let mut i: usize = 0;
                while i < spec.border.len()
                    invariant
                        i <= spec.border@.len(),
                        (WalkState { errs: error_views(errors@), stopped: *stopped }) == borders_rules(
                            st0,
                            *t,
                            *bf,
                            spec.border@.take(i as int),
                            level,
                        ),
                    decreases spec.border.len() - i,
                {
                    let bs = &spec.border[i];
                    match border_by_position(bf, bs.position) {
                        Some(b) => {
                            check_border_from_info(t, b, bs, level, errors, stopped);
                            bail_exec(errors, stopped, level);
                        },
                        None => {},
                    }
                    proof {
                        assert(spec.border@.take(i + 1).drop_last() =~= spec.border@.take(i as int));
                        assert(spec.border@.take(i + 1).last() == spec.border@[i as int]);
                    }
                    i = i + 1;
                }
                assert(spec.border@.take(spec.border@.len() as int) =~= spec.border@);
            },
            None => {},
        }
    }
    let d1 = t.nesting_depth >= 1;
    let d2 = t.nesting_depth >= 2;
    emit_exec(errors, stopped, level, range_fails_exec(spec.border_cellspacing, t.cell_spacing as i64), TABLE_BORDER_CELL_SPACING, t.id, d1, d2, 0, 0);
    let tit = match spec.table_in_table {
        Some(b) => !b && t.nesting_depth >= 1,
        None => false,
    };
    emit_exec(errors, stopped, level, tit, TABLE_IN_TABLE, t.id, d1, d2, 0, 0);
}

/// Check one table against the spec, appending findings to `errors`.
/// At the simple level the check stops at the first finding (or, with
/// findings already present, at the first point where the walk checks
/// for them).
pub fn check_table(
    table: &Table,
    spec: &TableSpec,
    header: &HeaderTables,
    level: CheckLevel,
    errors: &mut Vec<DvcErrorInfo>,
)
    ensures
        error_views(final(errors)@) == table_rules(
            WalkState { errs: error_views(old(errors)@), stopped: false },
            *table,
            *spec,
            *header,
            level,
        ).errs,
{
    let mut stopped = false;
    rules_1(table, spec, level, errors, &mut stopped);
    rules_2(table, spec, level, errors, &mut stopped);
    rules_caption(table, spec, level, errors, &mut stopped);
    rules_3(table, spec, header, level, errors, &mut stopped);
}

// ---------------------------------------------------------------------------
// The whole document
// ---------------------------------------------------------------------------

/// The tables of sections `secs`, each section's in walk order.
pub open spec fn sections_tables(secs: Seq<Section>) -> Seq<Table>
    decreases secs.len(),
{
    if secs.len() == 0 {
        Seq::empty()
    } else {
        sections_tables(secs.drop_last()) + paras_tables(secs.last().paragraphs@)
    }
}

/// One table of the document walk: its rules, then (in detail mode) its
/// cells; at the simple level the walk stops after any finding.
pub open spec fn table_step(
    st: WalkState,
    t: Table,
    spec: TableSpec,
    h: HeaderTables,
    level: CheckLevel,
    detail: bool,
) -> WalkState {
    if st.stopped {
        st
    } else {
        let s2 = bail(
            WalkState { errs: table_rules(WalkState { errs: st.errs, stopped: false }, t, spec, h, level).errs, stopped: false },
            level,
        );
        if detail && !s2.stopped {
            bail(
                WalkState {
                    errs: rows_detail(WalkState { errs: s2.errs, stopped: false }, t, t.rows@, spec, h, level).errs,
                    stopped: false,
                },
                level,
            )
        } else {
            s2
        }
    }
}

/// The walk over tables `ts`.
pub open spec fn tables_walk(
    st: WalkState,
    ts: Seq<Table>,
    spec: TableSpec,
    h: HeaderTables,
    level: CheckLevel,
    detail: bool,
) -> WalkState
    decreases ts.len(),
{
    if ts.len() == 0 {
        st
    } else {
        table_step(tables_walk(st, ts.drop_last(), spec, h, level, detail), ts.last(), spec, h, level, detail)
    }
}

/// The findings of the table check.
pub open spec fn table_errors(
    spec: TableSpec,
    header: Option<HeaderTables>,
    secs: Seq<Section>,
    level: CheckLevel,
    scope: OutputScope,
) -> Seq<ErrorView> {
    match header {
        None => Seq::empty(),
        Some(h) => tables_walk(
            WalkState { errs: Seq::empty(), stopped: false },
            sections_tables(secs),
            spec,
            h,
            level,
            scope.table_detail && spec_has_cell_detail_fields(spec),
        ).errs,
    }
}

fn step_exec(
    t: &Table,
    spec: &TableSpec,
    header: &HeaderTables,
    level: CheckLevel,
    detail: bool,
    errors: &mut Vec<DvcErrorInfo>,
    stopped: &mut bool,
)
    ensures
        (WalkState { errs: error_views(final(errors)@), stopped: *final(stopped) }) == table_step(
            WalkState { errs: error_views(old(errors)@), stopped: *old(stopped) },
            *t,
            *spec,
            *header,
            level,
            detail,
        ),
{
    if *stopped {
        return;
    }
    check_table(t, spec, header, level, errors);
    *stopped = level == CheckLevel::Simple && errors.len() > 0;
    if detail && !*stopped {
        let mut inner = false;
        check_cells(t, spec, header, level, errors, &mut inner);
        *stopped = level == CheckLevel::Simple && errors.len() > 0;
    }
}

/// Check every table of the document (and, in detail mode, every cell)
/// against the spec. At the simple level only the first finding is
/// reported.
pub fn check(
    document: &Document,
    spec: &TableSpec,
    level: CheckLevel,
    scope: OutputScope,
) -> (r: DvcResult<Vec<DvcErrorInfo>>)
    ensures
        r is Ok,
        match r {
            Ok(v) => error_views(v@) == table_errors(*spec, document.header, document.sections@, level, scope),
            Err(_) => false,
        },
{
    let mut errors: Vec<DvcErrorInfo> = Vec::new();
    let header = match &document.header {
        Some(h) => h,
        None => {
            assert(error_views(errors@) =~= Seq::<ErrorView>::empty());
            return Ok(errors);
        },
    };
    let detail = scope.table_detail && spec.has_cell_detail_fields();
    let ghost st0 = WalkState { errs: Seq::<ErrorView>::empty(), stopped: false };
    let mut stopped = false;
    let secs = &document.sections;
    assert(error_views(errors@) =~= Seq::<ErrorView>::empty());
    let mut s: usize = 0;
    while s < secs.len()
        invariant
            s <= secs@.len(),
            *secs == document.sections,
            (WalkState { errs: error_views(errors@), stopped }) == tables_walk(
                st0,
                sections_tables(secs@.take(s as int)),
                *spec,
                *header,
                level,
                detail,
            ),
        decreases secs.len() - s,
    {
        let tabs = secs[s].all_tables();
        let ghost prefix = sections_tables(secs@.take(s as int));
        let ghost tv = derefs(tabs@);
        let mut j: usize = 0;
        assert(prefix + tv.take(0) =~= prefix);
        while j < tabs.len()
            invariant
                j <= tabs@.len(),
                tv == derefs(tabs@),
                (WalkState { errs: error_views(errors@), stopped }) == tables_walk(
                    st0,
                    prefix + tv.take(j as int),
                    *spec,
                    *header,
                    level,
                    detail,
                ),
            decreases tabs.len() - j,
        {
            step_exec(tabs[j], spec, header, level, detail, &mut errors, &mut stopped);
            proof {
                let xs = prefix + tv.take(j + 1);
                assert(xs.drop_last() =~= prefix + tv.take(j as int));
                assert(xs.last() == *tabs@[j as int]);
            }
            j = j + 1;
        }
        proof {
            assert(tv.take(tv.len() as int) =~= tv);
            let t = secs@.take(s + 1);
            assert(t.drop_last() =~= secs@.take(s as int));
            assert(t.last() == secs@[s as int]);
        }
        s = s + 1;
    }
    assert(secs@.take(secs@.len() as int) =~= secs@);
    Ok(errors)
}

} // verus!
