//! Laws of the table check: every finding carries a table code, and at
//! the simple level the check reports at most one finding.

use vstd::prelude::*;
use crate::checker::{CheckLevel, ErrorView, OutputScope};
use crate::checker::table::{WalkState, bail, border_error, border_rules, borders_rules, line_type_of, width_differs, emit, sections_tables, table_errors, table_rules, table_rules_1, table_rules_1a, table_rules_1b, table_rules_2, table_rules_caption, tables_walk};
use crate::checker::table_detail::{cell_error, cell_rules, cell_rules_after_type, cells_detail, fill_kind_of, rows_detail};
use crate::document::header::HeaderTables;
use crate::document::header::types::{Border, BorderFill};
use crate::document::section::{Cell, Row, Section, Table};
use crate::error::{TABLE_BORDER_COLOR, TABLE_BORDER_SIZE, TABLE_BORDER_TYPE, TABLE_BGFILL_TYPE, TABLE_IN_TABLE, TABLE_SIZE_WIDTH, TABLE_WATERMARK};
use crate::text::{eq_ignore_case, hash_hex6, upper_eq};
use crate::laws::codes_within;
use crate::spec::{BorderSpec, TableSpec, spec_has_cell_detail_fields};

verus! {

/// The walk state of the table check is sound for `level`: every finding
/// carries a table code, and at the simple level the walk holds at most
/// one finding and has stopped once it holds one.
pub open spec fn walk_ok(st: WalkState, level: CheckLevel) -> bool {
    &&& codes_within(st.errs, TABLE_SIZE_WIDTH, (TABLE_IN_TABLE + 1) as u32)
    &&& level == CheckLevel::Simple ==> st.errs.len() <= 1 && (st.errs.len() == 1 ==> st.stopped)
}

broadcast proof fn lemma_emit_ok(st: WalkState, level: CheckLevel, cond: bool, e: ErrorView)
    requires
        walk_ok(st, level),
        TABLE_SIZE_WIDTH <= e.error_code <= TABLE_IN_TABLE,
    ensures
        walk_ok(#[trigger] emit(st, level, cond, e), level),
{
    let r = emit(st, level, cond, e);
    if !st.stopped && cond {
        assert forall|i: int| 0 <= i < r.errs.len() implies TABLE_SIZE_WIDTH <= (#[trigger] r.errs[i]).error_code
            < TABLE_IN_TABLE + 1 by {
            if i < st.errs.len() {
                assert(r.errs[i] == st.errs[i]);
            }
        }
    }
}

broadcast proof fn lemma_bail_ok(st: WalkState, level: CheckLevel)
    requires
        walk_ok(st, level),
    ensures
        walk_ok(#[trigger] bail(st, level), level),
{
}

proof fn lemma_rules_1_ok(st: WalkState, t: Table, spec: TableSpec, level: CheckLevel)
    requires
        walk_ok(st, level),
    ensures
        walk_ok(table_rules_1a(st, t, spec, level), level),
        walk_ok(table_rules_1(st, t, spec, level), level),
{
    broadcast use lemma_emit_ok;

    assert(walk_ok(table_rules_1a(st, t, spec, level), level));
    assert(walk_ok(table_rules_1b(table_rules_1a(st, t, spec, level), t, spec, level), level));
}

proof fn lemma_rules_2_ok(st: WalkState, t: Table, spec: TableSpec, level: CheckLevel)
    requires
        walk_ok(st, level),
    ensures
        walk_ok(table_rules_2(st, t, spec, level), level),
        walk_ok(table_rules_caption(st, t, spec, level), level),
{
    broadcast use lemma_emit_ok, lemma_bail_ok;

}

proof fn lemma_borders_ok(st: WalkState, t: Table, bf: BorderFill, bss: Seq<BorderSpec>, level: CheckLevel)
    requires
        walk_ok(st, level),
    ensures
        walk_ok(borders_rules(st, t, bf, bss, level), level),
    decreases bss.len(),
{
    broadcast use lemma_emit_ok, lemma_bail_ok;

    if bss.len() > 0 {
        lemma_borders_ok(st, t, bf, bss.drop_last(), level);
    }
}

proof fn lemma_rules_ok(st: WalkState, t: Table, spec: TableSpec, h: HeaderTables, level: CheckLevel)
    requires
        walk_ok(st, level),
    ensures
        walk_ok(table_rules(st, t, spec, h, level), level),
{
    broadcast use lemma_emit_ok;

    lemma_rules_1_ok(st, t, spec, level);
    let s1 = table_rules_1(st, t, spec, level);
    lemma_rules_2_ok(s1, t, spec, level);
    let s2 = table_rules_2(s1, t, spec, level);
    lemma_rules_2_ok(s2, t, spec, level);
    let s3 = table_rules_caption(s2, t, spec, level);
    if spec.border@.len() > 0 && h.border_fills@.contains_key(t.border_fill_id_ref) {
        lemma_borders_ok(s3, t, h.border_fills@[t.border_fill_id_ref], spec.border@, level);
    }
}

proof fn lemma_cells_ok(
    st: WalkState,
    t: Table,
    cs: Seq<Cell>,
    spec: TableSpec,
    h: HeaderTables,
    level: CheckLevel,
)
    requires
        walk_ok(st, level),
    ensures
        walk_ok(cells_detail(st, t, cs, spec, h, level), level),
    decreases cs.len(),
{
    broadcast use lemma_emit_ok, lemma_bail_ok;

    if cs.len() > 0 {
        lemma_cells_ok(st, t, cs.drop_last(), spec, h, level);
        let s = cells_detail(st, t, cs.drop_last(), spec, h, level);
        if h.border_fills@.contains_key(cs.last().border_fill_id_ref) {
            assert(walk_ok(cell_rules(s, t, cs.last(), h.border_fills@[cs.last().border_fill_id_ref], spec, level), level));
        }
    }
}

proof fn lemma_rows_ok(
    st: WalkState,
    t: Table,
    rs: Seq<Row>,
    spec: TableSpec,
    h: HeaderTables,
    level: CheckLevel,
)
    requires
        walk_ok(st, level),
    ensures
        walk_ok(rows_detail(st, t, rs, spec, h, level), level),
    decreases rs.len(),
{
    if rs.len() > 0 {
        lemma_rows_ok(st, t, rs.drop_last(), spec, h, level);
        lemma_cells_ok(rows_detail(st, t, rs.drop_last(), spec, h, level), t, rs.last().cells@, spec, h, level);
    }
}

proof fn lemma_walk_ok(
    st: WalkState,
    ts: Seq<Table>,
    spec: TableSpec,
    h: HeaderTables,
    level: CheckLevel,
    detail: bool,
)
    requires
        walk_ok(st, level),
    ensures
        walk_ok(tables_walk(st, ts, spec, h, level, detail), level),
    decreases ts.len(),
{
    if ts.len() > 0 {
        lemma_walk_ok(st, ts.drop_last(), spec, h, level, detail);
        let s = tables_walk(st, ts.drop_last(), spec, h, level, detail);
        let t = ts.last();
        if !s.stopped {
            let s0 = WalkState { errs: s.errs, stopped: false };
            lemma_rules_ok(s0, t, spec, h, level);
            let s2 = bail(WalkState { errs: table_rules(s0, t, spec, h, level).errs, stopped: false }, level);
            if detail && !s2.stopped {
                lemma_rows_ok(WalkState { errs: s2.errs, stopped: false }, t, t.rows@, spec, h, level);
            }
        }
    }
}

/// Every finding of the table check carries a table code; at the simple
/// level the check reports at most one finding.
pub proof fn law_table_findings(
    spec: TableSpec,
    header: Option<HeaderTables>,
    secs: Seq<Section>,
    level: CheckLevel,
    scope: OutputScope,
)
    ensures
        codes_within(table_errors(spec, header, secs, level, scope), TABLE_SIZE_WIDTH, (TABLE_IN_TABLE + 1) as u32),
        level == CheckLevel::Simple ==> table_errors(spec, header, secs, level, scope).len() <= 1,
{
    if let Some(h) = header {
        lemma_walk_ok(
            WalkState { errs: Seq::empty(), stopped: false },
            sections_tables(secs),
            spec,
            h,
            level,
            scope.table_detail && spec_has_cell_detail_fields(spec),
        );
    }
}

/// The rules of one table, checked at the simple level on a fresh walk,
/// report at most one finding.
pub proof fn law_table_simple_level_stops_at_first(t: Table, spec: TableSpec, h: HeaderTables)
    ensures
        table_rules(WalkState { errs: Seq::empty(), stopped: false }, t, spec, h, CheckLevel::Simple).errs.len() <= 1,
{
    lemma_rules_ok(WalkState { errs: Seq::empty(), stopped: false }, t, spec, h, CheckLevel::Simple);
}


/// A table finding's identity: the table's id and depth, no cell, no
/// text.
pub open spec fn table_meta(t: Table, e: ErrorView) -> bool {
    &&& e.table_id == t.id
    &&& e.is_in_table == (t.nesting_depth >= 1)
    &&& e.table_row == 0
    &&& e.table_col == 0
    &&& e.text == Seq::<char>::empty()
}

/// `st` holds `base` and after it only findings with table `t`'s identity.
pub open spec fn grows_table(st: WalkState, base: Seq<ErrorView>, t: Table) -> bool {
    &&& base.len() <= st.errs.len()
    &&& st.errs.subrange(0, base.len() as int) == base
    &&& forall|i: int| base.len() <= i < st.errs.len() ==> table_meta(t, #[trigger] st.errs[i])
}

broadcast proof fn lemma_emit_grows_table(st: WalkState, base: Seq<ErrorView>, t: Table, level: CheckLevel, cond: bool, e: ErrorView)
    requires
        grows_table(st, base, t),
        table_meta(t, e),
    ensures
        #[trigger] grows_table(emit(st, level, cond, e), base, t),
{
    let r = emit(st, level, cond, e);
    if !st.stopped && cond {
        assert(r.errs.subrange(0, base.len() as int) =~= st.errs.subrange(0, base.len() as int));
        assert forall|i: int| base.len() <= i < r.errs.len() implies table_meta(t, #[trigger] r.errs[i]) by {
            if i < st.errs.len() {
                assert(r.errs[i] == st.errs[i]);
            }
        }
    }
}

broadcast proof fn lemma_bail_grows_table(st: WalkState, base: Seq<ErrorView>, t: Table, level: CheckLevel)
    requires
        grows_table(st, base, t),
    ensures
        #[trigger] grows_table(bail(st, level), base, t),
{
}

proof fn lemma_borders_grow(st: WalkState, base: Seq<ErrorView>, t: Table, bf: BorderFill, bss: Seq<BorderSpec>, level: CheckLevel)
    requires
        grows_table(st, base, t),
    ensures
        grows_table(borders_rules(st, t, bf, bss, level), base, t),
    decreases bss.len(),
{
    broadcast use lemma_emit_grows_table, lemma_bail_grows_table;

    if bss.len() > 0 {
        lemma_borders_grow(st, base, t, bf, bss.drop_last(), level);
    }
}

/// Checking one table only appends to the findings, and every finding it
/// appends carries the table's id and depth, no cell and no text.
pub proof fn law_table_findings_identity(
    base: Seq<ErrorView>,
    t: Table,
    spec: TableSpec,
    h: HeaderTables,
    level: CheckLevel,
)
    ensures
        grows_table(table_rules(WalkState { errs: base, stopped: false }, t, spec, h, level), base, t),
{
    broadcast use lemma_emit_grows_table, lemma_bail_grows_table;

    let st = WalkState { errs: base, stopped: false };
    assert(st.errs.subrange(0, base.len() as int) =~= base);
    let a = table_rules_1a(st, t, spec, level);
    assert(grows_table(a, base, t));
    let s1 = table_rules_1(st, t, spec, level);
    assert(grows_table(table_rules_1b(a, t, spec, level), base, t));
    assert(grows_table(s1, base, t));
    let s2 = table_rules_2(s1, t, spec, level);
    assert(grows_table(s2, base, t));
    let s3 = table_rules_caption(s2, t, spec, level);
    assert(grows_table(s3, base, t));
    if spec.border@.len() > 0 && h.border_fills@.contains_key(t.border_fill_id_ref) {
        lemma_borders_grow(s3, base, t, h.border_fills@[t.border_fill_id_ref], spec.border@, level);
    }
}

/// A cell finding's identity: the table's id, inside a table, the
/// table's depth, the cell's row and column, and a cell-detail code.
pub open spec fn cell_meta(t: Table, c: Cell, e: ErrorView) -> bool {
    &&& e.table_id == t.id
    &&& e.is_in_table
    &&& e.is_in_table_in_table == (t.nesting_depth >= 1)
    &&& e.table_row == c.row
    &&& e.table_col == c.col
    &&& TABLE_BGFILL_TYPE <= e.error_code <= TABLE_WATERMARK
}

/// `st` holds `base` and after it only findings of cell `c`; at the
/// simple level at most one, and the walk has stopped once there is one.
pub open spec fn grows_cell(st: WalkState, base: Seq<ErrorView>, t: Table, c: Cell, level: CheckLevel) -> bool {
    &&& base.len() <= st.errs.len()
    &&& st.errs.subrange(0, base.len() as int) == base
    &&& forall|i: int| base.len() <= i < st.errs.len() ==> cell_meta(t, c, #[trigger] st.errs[i])
    &&& level == CheckLevel::Simple ==> st.errs.len() <= base.len() + 1 && (st.errs.len() == base.len() + 1 ==> st.stopped)
}

broadcast proof fn lemma_emit_grows_cell(
    st: WalkState,
    base: Seq<ErrorView>,
    t: Table,
    c: Cell,
    level: CheckLevel,
    cond: bool,
    e: ErrorView,
)
    requires
        grows_cell(st, base, t, c, level),
        cell_meta(t, c, e),
    ensures
        #[trigger] grows_cell(emit(st, level, cond, e), base, t, c, level),
{
    let r = emit(st, level, cond, e);
    if !st.stopped && cond {
        assert(r.errs.subrange(0, base.len() as int) =~= st.errs.subrange(0, base.len() as int));
        assert forall|i: int| base.len() <= i < r.errs.len() implies cell_meta(t, c, #[trigger] r.errs[i]) by {
            if i < st.errs.len() {
                assert(r.errs[i] == st.errs[i]);
            }
        }
    }
}

/// Checking one cell on a running walk only appends findings of that
/// cell, each with the table's id and depth, the cell's row and column
/// and a cell-detail code; at the simple level it appends at most one.
pub proof fn law_cell_findings_identity(
    base: Seq<ErrorView>,
    t: Table,
    c: Cell,
    bf: BorderFill,
    spec: TableSpec,
    level: CheckLevel,
)
    ensures
        grows_cell(cell_rules(WalkState { errs: base, stopped: false }, t, c, bf, spec, level), base, t, c, level),
{
    broadcast use lemma_emit_grows_cell;

    let st = WalkState { errs: base, stopped: false };
    assert(st.errs.subrange(0, base.len() as int) =~= base);
    assert(grows_cell(st, base, t, c, level));
}

/// With a fill-type rule, a cell's first new finding is the fill-type
/// finding exactly when the observed fill kind (`none` for no brush or a
/// solid face of `none`, `color` for other solid and image fills,
/// `gradation` for gradients) is not the rule's, case-insensitively; no
/// later finding has that code; and at the simple level it is then the
/// only one.
pub proof fn law_cell_fill_type(
    base: Seq<ErrorView>,
    t: Table,
    c: Cell,
    bf: BorderFill,
    spec: TableSpec,
    level: CheckLevel,
    k: String,
)
    requires
        spec.bgfill_type == Some(k),
    ensures
        ({
            let r = cell_rules(WalkState { errs: base, stopped: false }, t, c, bf, spec, level);
            &&& (r.errs.len() > base.len() && r.errs[base.len() as int].error_code == TABLE_BGFILL_TYPE)
                <==> !eq_ignore_case(fill_kind_of(bf.fill_brush), k@)
            &&& forall|i: int| base.len() < i < r.errs.len() ==> (#[trigger] r.errs[i]).error_code != TABLE_BGFILL_TYPE
            &&& (level == CheckLevel::Simple && !eq_ignore_case(fill_kind_of(bf.fill_brush), k@)) ==> r.errs.len() == base.len() + 1
        }),
{
    broadcast use lemma_emit_grows_cell;

    let st = WalkState { errs: base, stopped: false };
    let mismatch = !eq_ignore_case(fill_kind_of(bf.fill_brush), k@);
    let s0 = emit(st, level, mismatch, cell_error(t, c, TABLE_BGFILL_TYPE));
    // The rest of the rules, from `s0` on, append only codes above the
    // fill type's.
    let r = cell_rules(st, t, c, bf, spec, level);
    let b1 = s0.errs;
    assert(s0.errs.subrange(0, b1.len() as int) =~= b1);
    lemma_later_codes(s0, t, c, bf, spec, level);
    law_cell_findings_identity(base, t, c, bf, spec, level);
    if mismatch {
        assert(s0.errs[base.len() as int].error_code == TABLE_BGFILL_TYPE);
        assert(r.errs.subrange(0, b1.len() as int) == b1);
        assert(r.errs[base.len() as int] == r.errs.subrange(0, b1.len() as int)[base.len() as int]);
    }
}

/// After the fill-type rule, every finding the cell rules append has a
/// code above the fill type's.
proof fn lemma_later_codes(s0: WalkState, t: Table, c: Cell, bf: BorderFill, spec: TableSpec, level: CheckLevel)
    ensures
        above(cell_rules_after_type(s0, t, c, bf, spec, level), s0.errs),
{
    broadcast use lemma_emit_above;

    assert(s0.errs.subrange(0, s0.errs.len() as int) =~= s0.errs);
    assert(above(s0, s0.errs));
}

/// `st` holds `base` and after it only codes above the fill type's.
spec fn above(st: WalkState, base: Seq<ErrorView>) -> bool {
    &&& base.len() <= st.errs.len()
    &&& st.errs.subrange(0, base.len() as int) == base
    &&& forall|i: int| base.len() <= i < st.errs.len() ==> (#[trigger] st.errs[i]).error_code > TABLE_BGFILL_TYPE
}

broadcast proof fn lemma_emit_above(st: WalkState, base: Seq<ErrorView>, level: CheckLevel, cond: bool, e: ErrorView)
    requires
        above(st, base),
        e.error_code > TABLE_BGFILL_TYPE,
    ensures
        #[trigger] above(emit(st, level, cond, e), base),
{
    let r = emit(st, level, cond, e);
    if !st.stopped && cond {
        assert(r.errs.subrange(0, base.len() as int) =~= st.errs.subrange(0, base.len() as int));
        assert forall|i: int| base.len() <= i < r.errs.len() implies (#[trigger] r.errs[i]).error_code > TABLE_BGFILL_TYPE by {
            if i < st.errs.len() {
                assert(r.errs[i] == st.errs[i]);
            }
        }
    }
}


/// `e` alone when `b` holds, else nothing.
pub open spec fn when(b: bool, e: ErrorView) -> Seq<ErrorView> {
    if b {
        seq![e]
    } else {
        Seq::empty()
    }
}

/// The border rules of one position, on a running walk, append in order
/// the line-type finding when the document's line type is not the spec's,
/// the width finding when the widths differ by more than 0.005 mm, and
/// the colour finding when the colours differ (upper-cased), each with
/// the table's id and depth; at the simple level only the first of them.
pub proof fn law_border_rules(base: Seq<ErrorView>, t: Table, b: Border, bs: BorderSpec, level: CheckLevel)
    ensures
        ({
            let r = border_rules(WalkState { errs: base, stopped: false }, t, b, bs, level);
            let all = when(b.line_type != line_type_of(bs.bordertype), border_error(t, TABLE_BORDER_TYPE))
                + when(width_differs(b.width_nm, bs.size_nm), border_error(t, TABLE_BORDER_SIZE))
                + when(
                !upper_eq(b.color@, hash_hex6((bs.color % 0x100_0000) as nat)),
                border_error(t, TABLE_BORDER_COLOR),
            );
            &&& level != CheckLevel::Simple ==> r.errs == base + all
            &&& level == CheckLevel::Simple ==> r.errs == base + all.take(if all.len() > 0 { 1int } else { 0int })
        }),
{
    let all = when(b.line_type != line_type_of(bs.bordertype), border_error(t, TABLE_BORDER_TYPE))
        + when(width_differs(b.width_nm, bs.size_nm), border_error(t, TABLE_BORDER_SIZE))
        + when(
        !upper_eq(b.color@, hash_hex6((bs.color % 0x100_0000) as nat)),
        border_error(t, TABLE_BORDER_COLOR),
    );
    let r = border_rules(WalkState { errs: base, stopped: false }, t, b, bs, level);
    if level != CheckLevel::Simple {
        assert(r.errs =~= base + all);
    } else {
        assert(r.errs =~= base + all.take(if all.len() > 0 { 1int } else { 0int }));
    }
}

} // verus!
