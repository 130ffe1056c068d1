//! Cell-detail table rules: the fill (solid, gradation or picture) of
//! every cell, compared with the spec's cell-detail fields.

use vstd::prelude::*;
use crate::checker::table::{bail, emit, WalkState};
use crate::checker::para_shape::differs;
use crate::checker::{error_views, lemma_error_views_push, located, located_error, CheckLevel, DvcErrorInfo, ErrorView};
use crate::messages::{error_string, ErrorContext};
use crate::document::header::HeaderTables;
use crate::document::header::types::{BorderFill, CellFillBrush};
use crate::document::section::{Cell, Row, Table};
use crate::error::{TABLE_BGFILL_FACECOLOR, TABLE_BGFILL_PATTONCOLOR, TABLE_BGFILL_TYPE, TABLE_BGGRADATION_BLURCENTER, TABLE_BGGRADATION_BLURLEVEL, TABLE_BGGRADATION_ENDCOLOR, TABLE_BGGRADATION_GRADATIONANGLE, TABLE_BGGRADATION_HEIGHTCENTER, TABLE_BGGRADATION_STARTCOLOR, TABLE_BGGRADATION_TYPE, TABLE_BGGRADATION_WIDTHCENTER, TABLE_EFFECT_TYPE, TABLE_EFFECT_VALUE, TABLE_PICTUREFILL_TYPE, TABLE_PICTUREFILL_VALUE, TABLE_PICTURE_FILE, TABLE_PICTURE_INCLUDE, TABLE_WATERMARK};
use crate::messages::plain_message;
use crate::spec::TableSpec;
use crate::text::{color_hex, eq_ignore_case, hash_hex6, str_eq, str_eq_ignore_case, trim, trim_str};

verus! {

broadcast use vstd::std_specs::hash::group_hash_axioms;

/// The fill kind of a brush: `"none"`, `"color"` or `"gradation"`
/// (picture fills count as colour; a solid fill whose face is `none`
/// counts as none).
pub open spec fn fill_kind_of(brush: Option<CellFillBrush>) -> Seq<char> {
    match brush {
        None => "none"@,
        Some(CellFillBrush::Solid { face, .. }) => if eq_ignore_case(face@, "none"@) {
            "none"@
        } else {
            "color"@
        },
        Some(CellFillBrush::Gradation { .. }) => "gradation"@,
        Some(CellFillBrush::Image { .. }) => "color"@,
    }
}

/// Classify a brush into its fill kind.
pub fn fill_kind(brush: Option<&CellFillBrush>) -> (r: &'static str)
    ensures
        r@ == fill_kind_of(
            match brush {
                Some(b) => Some(*b),
                None => None,
            },
        ),
{
    match brush {
        None => "none",
        Some(CellFillBrush::Solid { face, .. }) => if str_eq_ignore_case(face.as_str(), "none") {
            "none"
        } else {
            "color"
        },
        Some(CellFillBrush::Gradation { .. }) => "gradation",
        Some(CellFillBrush::Image { .. }) => "color",
    }
}

/// Case-insensitive comparison of an observed fill kind with the spec's.
pub fn kind_matches_expected(observed: &str, expected: &str) -> (r: bool)
    ensures
        r == eq_ignore_case(observed@, expected@),
{
    str_eq_ignore_case(observed, expected)
}

/// Whether an observed colour (`"#RRGGBB"` or `"none"`) is the packed
/// colour `expected`, case-insensitively; `"none"` never matches.
pub open spec fn color_ok(observed: Seq<char>, expected: u32) -> bool {
    !eq_ignore_case(observed, "none"@) && eq_ignore_case(observed, hash_hex6((expected % 0x100_0000) as nat))
}

/// Compare an observed colour with a packed colour.
pub fn color_matches(observed: &str, expected_packed: u32) -> (r: bool)
    ensures
        r == color_ok(observed@, expected_packed),
{
    if str_eq_ignore_case(observed, "none") {
        return false;
    }
    let expected_hex = color_hex(expected_packed);
    str_eq_ignore_case(observed, expected_hex.as_str())
}

/// A gradient type with `conial` read as `conical`, trimmed.
pub open spec fn canon_grad(s: Seq<char>) -> Seq<char> {
    if eq_ignore_case(trim(s), "conial"@) {
        "conical"@
    } else {
        trim(s)
    }
}

fn canon_grad_exec(s: &str) -> (r: &str)
    ensures
        r@ == canon_grad(s@),
{
    let t = trim_str(s);
    if str_eq_ignore_case(t, "conial") {
        "conical"
    } else {
        t
    }
}

/// Case-insensitive gradient-type comparison that reads `conial` as
/// `conical`.
pub fn grad_type_matches(observed: &str, expected: &str) -> (r: bool)
    ensures
        r == eq_ignore_case(canon_grad(observed@), canon_grad(expected@)),
{
    str_eq_ignore_case(canon_grad_exec(observed), canon_grad_exec(expected))
}

/// Case-insensitive equality ignoring surrounding whitespace.
pub fn ci_str_eq(a: &str, b: &str) -> (r: bool)
    ensures
        r == eq_ignore_case(trim(a@), trim(b@)),
{
    str_eq_ignore_case(trim_str(a), trim_str(b))
}

/// The finding for a cell rule.
pub open spec fn cell_error(t: Table, c: Cell, code: u32) -> ErrorView {
    located_error(code, t.id, true, t.nesting_depth >= 1, c.row, c.col, plain_message(code))
}

/// Whether a set colour does not match an observed one.
pub open spec fn color_rule_fails(expected: Option<u32>, observed: Seq<char>) -> bool {
    match expected {
        Some(e) => !color_ok(observed, e),
        None => false,
    }
}

/// The rules of one cell with border fill `bf`.
pub open spec fn cell_rules(
    st: WalkState,
    t: Table,
    c: Cell,
    bf: BorderFill,
    spec: TableSpec,
    level: CheckLevel,
) -> WalkState {
    cell_rules_after_type(
        emit(
            st,
            level,
            match spec.bgfill_type {
                Some(e) => !eq_ignore_case(fill_kind_of(bf.fill_brush), e@),
                None => false,
            },
            cell_error(t, c, TABLE_BGFILL_TYPE),
        ),
        t,
        c,
        bf,
        spec,
        level,
    )
}

/// The rules of one cell after the fill-type rule: those of its brush.
pub open spec fn cell_rules_after_type(
    s: WalkState,
    t: Table,
    c: Cell,
    bf: BorderFill,
    spec: TableSpec,
    level: CheckLevel,
) -> WalkState {
    match bf.fill_brush {
        Some(CellFillBrush::Solid { face, hatch, .. }) => {
            // A face colour of `none` is an unfilled cell, which the face-colour
            // rule leaves alone.
            let s = emit(
                s,
                level,
                color_rule_fails(spec.bgfill_facecolor, face@) && !eq_ignore_case(face@, "none"@),
                cell_error(t, c, TABLE_BGFILL_FACECOLOR),
            );
            emit(s, level, color_rule_fails(spec.bgfill_pattoncolor, hatch@), cell_error(t, c, TABLE_BGFILL_PATTONCOLOR))
        },
        Some(
            CellFillBrush::Gradation {
                gradation_type,
                start_color,
                end_color,
                width_center,
                height_center,
                angle,
                blur_level,
                blur_center,
            },
        ) => {
            let s = emit(s, level, color_rule_fails(spec.bggradation_startcolor, start_color@), cell_error(t, c, TABLE_BGGRADATION_STARTCOLOR));
            let s = emit(s, level, color_rule_fails(spec.bggradation_endcolor, end_color@), cell_error(t, c, TABLE_BGGRADATION_ENDCOLOR));
            let s = emit(
                s,
                level,
                match spec.bggradation_type {
                    Some(e) => !eq_ignore_case(canon_grad(gradation_type@), canon_grad(e@)),
                    None => false,
                },
                cell_error(t, c, TABLE_BGGRADATION_TYPE),
            );
            let s = emit(s, level, differs(spec.bggradation_widthcenter, width_center), cell_error(t, c, TABLE_BGGRADATION_WIDTHCENTER));
            let s = emit(s, level, differs(spec.bggradation_heightcenter, height_center), cell_error(t, c, TABLE_BGGRADATION_HEIGHTCENTER));
            let s = emit(s, level, differs(spec.bggradation_gradationangle, angle), cell_error(t, c, TABLE_BGGRADATION_GRADATIONANGLE));
            let s = emit(s, level, differs(spec.bggradation_blurlevel, blur_level), cell_error(t, c, TABLE_BGGRADATION_BLURLEVEL));
            emit(s, level, differs(spec.bggradation_blurcenter, blur_center), cell_error(t, c, TABLE_BGGRADATION_BLURCENTER))
        },
        Some(
            CellFillBrush::Image {
                file,
                included,
                fill_type,
                fill_value,
                effect_type,
                effect_value,
                watermark,
            },
        ) => {
            let s = emit(
                s,
                level,
                match spec.picture_file {
                    Some(e) => file@ != e@,
                    None => false,
                },
                cell_error(t, c, TABLE_PICTURE_FILE),
            );
            let s = emit(s, level, differs(spec.picture_include, included), cell_error(t, c, TABLE_PICTURE_INCLUDE));
            let s = emit(
                s,
                level,
                match spec.picturefill_type {
                    Some(e) => !eq_ignore_case(trim(fill_type@), trim(e@)),
                    None => false,
                },
                cell_error(t, c, TABLE_PICTUREFILL_TYPE),
            );
            let s = emit(s, level, differs(spec.picturefill_value, fill_value), cell_error(t, c, TABLE_PICTUREFILL_VALUE));
            let s = emit(
                s,
                level,
                match spec.effect_type {
                    Some(e) => !eq_ignore_case(trim(effect_type@), trim(e@)),
                    None => false,
                },
                cell_error(t, c, TABLE_EFFECT_TYPE),
            );
            let s = emit(s, level, differs(spec.effect_value, effect_value), cell_error(t, c, TABLE_EFFECT_VALUE));
            emit(s, level, differs(spec.watermark, watermark), cell_error(t, c, TABLE_WATERMARK))
        },
        None => s,
    }
}

fn push(
    errors: &mut Vec<DvcErrorInfo>,
    stopped: &mut bool,
    level: CheckLevel,
    cond: bool,
    table: &Table,
    cell: &Cell,
    code: u32,
)
    ensures
        (WalkState { errs: error_views(final(errors)@), stopped: *final(stopped) }) == emit(
            WalkState { errs: error_views(old(errors)@), stopped: *old(stopped) },
            level,
            cond,
            cell_error(*table, *cell, code),
        ),
{
    if !*stopped && cond {
        let e = located(
            code,
            table.id,
            true,
            table.nesting_depth >= 1,
            cell.row,
            cell.col,
            error_string(code, ErrorContext::none()),
        );
        proof {
            lemma_error_views_push(errors@, e);
        }
        errors.push(e);
        *stopped = level == CheckLevel::Simple;
    }
}

fn color_fails(expected: Option<u32>, observed: &String) -> (b: bool)
    ensures
        b == color_rule_fails(expected, observed@),
{
    match expected {
        Some(e) => !color_matches(observed.as_str(), e),
        None => false,
    }
}

fn u32_differs(expected: Option<u32>, actual: u32) -> (b: bool)
    ensures
        b == differs(expected, actual),
{
    match expected {
        Some(e) => e != actual,
        None => false,
    }
}

fn i32_differs(expected: Option<i32>, actual: i32) -> (b: bool)
    ensures
        b == differs(expected, actual),
{
    match expected {
        Some(e) => e != actual,
        None => false,
    }
}

/// Check one cell's fill against the cell-detail rules.
fn check_one_cell(
    table: &Table,
    cell: &Cell,
    bf: &BorderFill,
    spec: &TableSpec,
    level: CheckLevel,
    errors: &mut Vec<DvcErrorInfo>,
    stopped: &mut bool,
)
    ensures
        (WalkState { errs: error_views(final(errors)@), stopped: *final(stopped) }) == cell_rules(
            WalkState { errs: error_views(old(errors)@), stopped: *old(stopped) },
            *table,
            *cell,
            *bf,
            *spec,
            level,
        ),
{
    let brush = match &bf.fill_brush {
        Some(b) => Some(b),
        None => None,
    };
    let kind_bad = match &spec.bgfill_type {
        Some(e) => !kind_matches_expected(fill_kind(brush), e.as_str()),
        None => false,
    };
    push(errors, stopped, level, kind_bad, table, cell, TABLE_BGFILL_TYPE);
    match &bf.fill_brush {
        Some(CellFillBrush::Solid { face, hatch, .. }) => {
            let face_bad = color_fails(spec.bgfill_facecolor, face) && !str_eq_ignore_case(face.as_str(), "none");
            push(errors, stopped, level, face_bad, table, cell, TABLE_BGFILL_FACECOLOR);
            push(errors, stopped, level, color_fails(spec.bgfill_pattoncolor, hatch), table, cell, TABLE_BGFILL_PATTONCOLOR);
        },
        Some(
            CellFillBrush::Gradation {
                gradation_type,
                start_color,
                end_color,
                width_center,
                height_center,
                angle,
                blur_level,
                blur_center,
            },
        ) => {
            push(errors, stopped, level, color_fails(spec.bggradation_startcolor, start_color), table, cell, TABLE_BGGRADATION_STARTCOLOR);
            push(errors, stopped, level, color_fails(spec.bggradation_endcolor, end_color), table, cell, TABLE_BGGRADATION_ENDCOLOR);
            let type_bad = match &spec.bggradation_type {
                Some(e) => !grad_type_matches(gradation_type.as_str(), e.as_str()),
                None => false,
            };
            push(errors, stopped, level, type_bad, table, cell, TABLE_BGGRADATION_TYPE);
            push(errors, stopped, level, u32_differs(spec.bggradation_widthcenter, *width_center), table, cell, TABLE_BGGRADATION_WIDTHCENTER);
            push(errors, stopped, level, u32_differs(spec.bggradation_heightcenter, *height_center), table, cell, TABLE_BGGRADATION_HEIGHTCENTER);
            push(errors, stopped, level, u32_differs(spec.bggradation_gradationangle, *angle), table, cell, TABLE_BGGRADATION_GRADATIONANGLE);
            push(errors, stopped, level, u32_differs(spec.bggradation_blurlevel, *blur_level), table, cell, TABLE_BGGRADATION_BLURLEVEL);
            push(errors, stopped, level, u32_differs(spec.bggradation_blurcenter, *blur_center), table, cell, TABLE_BGGRADATION_BLURCENTER);
        },
        Some(
            CellFillBrush::Image {
                file,
                included,
                fill_type,
                fill_value,
                effect_type,
                effect_value,
                watermark,
            },
        ) => {
            let file_bad = match &spec.picture_file {
                Some(e) => !str_eq(file.as_str(), e.as_str()),
                None => false,
            };
            push(errors, stopped, level, file_bad, table, cell, TABLE_PICTURE_FILE);
            let include_bad = match spec.picture_include {
                Some(e) => *included != e,
                None => false,
            };
            push(errors, stopped, level, include_bad, table, cell, TABLE_PICTURE_INCLUDE);
            let fill_type_bad = match &spec.picturefill_type {
                Some(e) => !ci_str_eq(fill_type.as_str(), e.as_str()),
                None => false,
            };
            push(errors, stopped, level, fill_type_bad, table, cell, TABLE_PICTUREFILL_TYPE);
            push(errors, stopped, level, i32_differs(spec.picturefill_value, *fill_value), table, cell, TABLE_PICTUREFILL_VALUE);
            let effect_bad = match &spec.effect_type {
                Some(e) => !ci_str_eq(effect_type.as_str(), e.as_str()),
                None => false,
            };
            push(errors, stopped, level, effect_bad, table, cell, TABLE_EFFECT_TYPE);
            push(errors, stopped, level, i32_differs(spec.effect_value, *effect_value), table, cell, TABLE_EFFECT_VALUE);
            push(errors, stopped, level, u32_differs(spec.watermark, *watermark), table, cell, TABLE_WATERMARK);
        },
        None => {},
    }
}

/// The cell rules over cells `cs` of table `t`; cells whose border fill
/// is unknown are skipped.
pub open spec fn cells_detail(
    st: WalkState,
    t: Table,
    cs: Seq<Cell>,
    spec: TableSpec,
    h: HeaderTables,
    level: CheckLevel,
) -> WalkState
    decreases cs.len(),
{
    if cs.len() == 0 {
        st
    } else {
        let s = cells_detail(st, t, cs.drop_last(), spec, h, level);
        if h.border_fills@.contains_key(cs.last().border_fill_id_ref) {
            bail(cell_rules(s, t, cs.last(), h.border_fills@[cs.last().border_fill_id_ref], spec, level), level)
        } else {
            s
        }
    }
}

/// The cell rules over rows `rs` of table `t`.
pub open spec fn rows_detail(
    st: WalkState,
    t: Table,
    rs: Seq<Row>,
    spec: TableSpec,
    h: HeaderTables,
    level: CheckLevel,
) -> WalkState
    decreases rs.len(),
{
    if rs.len() == 0 {
        st
    } else {
        cells_detail(rows_detail(st, t, rs.drop_last(), spec, h, level), t, rs.last().cells@, spec, h, level)
    }
}

/// Check every cell of `table`; at the simple level stop at the first
/// finding.
pub(crate) fn check_cells(
    table: &Table,
    spec: &TableSpec,
    header: &HeaderTables,
    level: CheckLevel,
    errors: &mut Vec<DvcErrorInfo>,
    stopped: &mut bool,
)
    ensures
        (WalkState { errs: error_views(final(errors)@), stopped: *final(stopped) }) == rows_detail(
            WalkState { errs: error_views(old(errors)@), stopped: *old(stopped) },
            *table,
            table.rows@,
            *spec,
            *header,
            level,
        ),
{
    let ghost st0 = WalkState { errs: error_views(errors@), stopped: *stopped };
    let mut r: usize = 0;
    while r < table.rows.len()
        invariant
            r <= table.rows@.len(),
            (WalkState { errs: error_views(errors@), stopped: *stopped }) == rows_detail(
                st0,
                *table,
                table.rows@.take(r as int),
                *spec,
                *header,
                level,
            ),
        decreases table.rows.len() - r,
    {
        let row = &table.rows[r];
        let ghost st1 = WalkState { errs: error_views(errors@), stopped: *stopped };
        let mut c: usize = 0;
        while c < row.cells.len()
            invariant
                c <= row.cells@.len(),
                (WalkState { errs: error_views(errors@), stopped: *stopped }) == cells_detail(
                    st1,
                    *table,
                    row.cells@.take(c as int),
                    *spec,
                    *header,
                    level,
                ),
            decreases row.cells.len() - c,
        {
            let cell = &row.cells[c];
            match header.border_fills.get(&cell.border_fill_id_ref) {
                Some(bf) => {
                    check_one_cell(table, cell, bf, spec, level, errors, stopped);
                    if !*stopped {
                        *stopped = level == CheckLevel::Simple && errors.len() > 0;
                    }
                },
                None => {},
            }
            proof {
                assert(row.cells@.take(c + 1).drop_last() =~= row.cells@.take(c as int));
                assert(row.cells@.take(c + 1).last() == row.cells@[c as int]);
            }
            c = c + 1;
        }
        proof {
            assert(row.cells@.take(row.cells@.len() as int) =~= row.cells@);
            assert(table.rows@.take(r + 1).drop_last() =~= table.rows@.take(r as int));
            assert(table.rows@.take(r + 1).last() == table.rows@[r as int]);
        }
        r = r + 1;
    }
    assert(table.rows@.take(table.rows@.len() as int) =~= table.rows@);
}

} // verus!
