//! Laws of reading a document: the run stream's records, the order of
//! the sections, table nesting depths, record ids in the header, and the
//! messages of the error codes.

use vstd::prelude::*;
use crate::document::header::{header_wf, HeaderTables};
use crate::document::header::view::{border_fill_v, bullet_v, char_shape_v, header_v, numbering_v, para_shape_v, style_v};
use crate::document::archive::{Part, insert_by_number, ordered_sections, section_list, sort_by_number};
use crate::document::header::parser::{border_fill_head, border_fill_loop, border_fills_loop, bullet_of, bullets_loop, char_pr_loop, char_props_loop, char_shape_head, empty_header, fontfaces_loop, header_loop, header_of, lemma_border_fills_loop_unfold, lemma_bullets_loop_unfold, lemma_char_props_loop_unfold, lemma_header_loop_unfold, lemma_numberings_loop_unfold, lemma_para_props_loop_unfold, lemma_styles_loop_unfold, numbering_head, numbering_loop, numberings_loop, para_pr_loop, para_props_loop, para_shape_head, style_of, styles_loop};
use crate::document::header::types::Style;
use crate::document::header::view::{BorderFillV, BulletV, CharShapeV, HeaderV, NumberingV, ParaShapeV, StyleV};
use crate::document::run_type::{CellCtx, RunView, WalkCtx, cell_ctx, cells_runs, para_runs, paras_runs, rows_runs, run_view, sections_runs, tables_runs};
use crate::document::section::{Cell, CellV, ParaV, Paragraph, Row, RowV, Run, RunV, Section, Table, TableV};
use crate::document::section::parser::{caption_meta, cell_loop, cell_start, child_depth, empty_para, hyperlink_field, lemma_cell_loop_unfold, lemma_cell_start_unfold, lemma_para_loop_unfold, lemma_para_start_unfold, lemma_row_loop_unfold, lemma_run_loop_unfold, lemma_run_start_unfold, lemma_sublist_loop_unfold, lemma_table_loop_unfold, lemma_table_start_unfold, para_loop, para_start, row_loop, run_loop, run_start, sec_loop, sec_pr_sink, section_of, sublist_loop, t_loop, table_head, table_loop, table_meta, table_start};
use crate::messages::{has_static_message, message};
use crate::xml::{XmlEvent, XmlTag, attr_u32_of, skip_from};

verus! {

/// A run record as the run stream builds it: no page or line number,
/// never inside a drawing object, and nested in a table only when inside
/// one.
pub open spec fn record_ok(r: RunView) -> bool {
    &&& r.page_no == 0
    &&& r.line_no == 0
    &&& !r.is_in_shape
    &&& r.is_in_table_in_table ==> r.is_in_table
    &&& !r.is_in_table ==> r.table_id == 0 && r.table_row == 0 && r.table_col == 0
}

/// Every record of `s` is as the run stream builds it.
pub open spec fn records_ok(s: Seq<RunView>) -> bool {
    forall|i: int| 0 <= i < s.len() ==> record_ok(#[trigger] s[i])
}

proof fn lemma_records_concat(a: Seq<RunView>, b: Seq<RunView>)
    requires
        records_ok(a),
        records_ok(b),
    ensures
        records_ok(a + b),
{
    assert forall|i: int| 0 <= i < (a + b).len() implies record_ok(#[trigger] (a + b)[i]) by {
        if i < a.len() {
            assert((a + b)[i] == a[i]);
        } else {
            assert((a + b)[i] == b[i - a.len()]);
        }
    }
}

proof fn lemma_para_records(ctx: WalkCtx, p: Paragraph, cell: Option<CellCtx>)
    ensures
        records_ok(para_runs(ctx, p, cell)),
    decreases p, 1int,
{
    let own = p.runs@.map_values(|r: Run| run_view(ctx, p, r, cell));
    assert forall|i: int| 0 <= i < own.len() implies record_ok(#[trigger] own[i]) by {}
    lemma_tables_records(ctx, p.tables@);
    lemma_records_concat(own, tables_runs(ctx, p.tables@));
}

proof fn lemma_tables_records(ctx: WalkCtx, ts: Seq<Table>)
    ensures
        records_ok(tables_runs(ctx, ts)),
    decreases ts, 0int,
{
    if ts.len() > 0 {
        lemma_tables_records(ctx, ts.drop_last());
        lemma_rows_records(ctx, ts.last(), ts.last().rows@);
        lemma_records_concat(tables_runs(ctx, ts.drop_last()), rows_runs(ctx, ts.last(), ts.last().rows@));
    }
}

proof fn lemma_rows_records(ctx: WalkCtx, t: Table, rs: Seq<Row>)
    ensures
        records_ok(rows_runs(ctx, t, rs)),
    decreases rs, 0int,
{
    if rs.len() > 0 {
        lemma_rows_records(ctx, t, rs.drop_last());
        lemma_cells_records(ctx, t, rs.last().cells@);
        lemma_records_concat(rows_runs(ctx, t, rs.drop_last()), cells_runs(ctx, t, rs.last().cells@));
    }
}

proof fn lemma_cells_records(ctx: WalkCtx, t: Table, cs: Seq<Cell>)
    ensures
        records_ok(cells_runs(ctx, t, cs)),
    decreases cs, 0int,
{
    if cs.len() > 0 {
        lemma_cells_records(ctx, t, cs.drop_last());
        lemma_paras_records(ctx, cs.last().paragraphs@, Some(cell_ctx(t, cs.last())));
        lemma_records_concat(
            cells_runs(ctx, t, cs.drop_last()),
            paras_runs(ctx, cs.last().paragraphs@, Some(cell_ctx(t, cs.last()))),
        );
    }
}

proof fn lemma_paras_records(ctx: WalkCtx, ps: Seq<Paragraph>, cell: Option<CellCtx>)
    ensures
        records_ok(paras_runs(ctx, ps, cell)),
    decreases ps, 0int,
{
    if ps.len() > 0 {
        lemma_paras_records(ctx, ps.drop_last(), cell);
        lemma_para_records(ctx, ps.last(), cell);
        lemma_records_concat(paras_runs(ctx, ps.drop_last(), cell), para_runs(ctx, ps.last(), cell));
    }
}

/// Every record of the run stream has no page or line number, is never
/// inside a drawing object, is marked nested in a table only when it is
/// inside a table, and carries table coordinates only inside one.
pub proof fn law_run_stream_records(default_style_id: u32, styles: Map<u32, Style>, secs: Seq<Section>)
    ensures
        records_ok(sections_runs(default_style_id, styles, secs)),
    decreases secs.len(),
{
    if secs.len() > 0 {
        law_run_stream_records(default_style_id, styles, secs.drop_last());
        let ctx = WalkCtx { outline_shape_id_ref: secs.last().outline_shape_id_ref, default_style_id, styles };
        lemma_paras_records(ctx, secs.last().paragraphs@, None);
        lemma_records_concat(
            sections_runs(default_style_id, styles, secs.drop_last()),
            paras_runs(ctx, secs.last().paragraphs@, None),
        );
    }
}

/// `s` is in ascending order of number.
pub open spec fn by_number(s: Seq<(u32, Part)>) -> bool {
    forall|i: int, j: int| 0 <= i < j < s.len() ==> (#[trigger] s[i]).0 <= (#[trigger] s[j]).0
}

proof fn lemma_insert_by_number(s: Seq<(u32, Part)>, x: (u32, Part))
    requires
        by_number(s),
    ensures
        by_number(insert_by_number(s, x)),
        insert_by_number(s, x).to_multiset() =~= s.to_multiset().insert(x),
    decreases s.len(),
{
    broadcast use vstd::seq_lib::group_to_multiset_ensures;

    if s.len() == 0 || s.last().0 <= x.0 {
        let r = s.push(x);
        assert forall|i: int, j: int| 0 <= i < j < r.len() implies (#[trigger] r[i]).0 <= (#[trigger] r[j]).0 by {
            if j < s.len() {
                assert(r[i] == s[i] && r[j] == s[j]);
            } else {
                assert(r[i] == s[i]);
                assert(s[i].0 <= s[s.len() - 1].0 || i == s.len() - 1);
            }
        }
    } else {
        let pre = s.drop_last();
        let last = s.last();
        assert forall|i: int, j: int| 0 <= i < j < pre.len() implies (#[trigger] pre[i]).0 <= (#[trigger] pre[j]).0 by {
            assert(pre[i] == s[i] && pre[j] == s[j]);
        }
        lemma_insert_by_number(pre, x);
        let q = insert_by_number(pre, x);
        let r = q.push(last);
        assert(s == pre.push(last));
        assert forall|i: int| 0 <= i < q.len() implies (#[trigger] q[i]).0 <= last.0 by {
            assert(q.to_multiset().count(q[i]) > 0);
            assert(q.contains(q[i]));
            if q[i] != x {
                assert(pre.to_multiset().count(q[i]) > 0);
                assert(pre.contains(q[i]));
                let k = choose|k: int| 0 <= k < pre.len() && pre[k] == q[i];
                assert(s[k] == pre[k]);
                assert(s[s.len() - 1] == last);
            }
        }
        assert forall|i: int, j: int| 0 <= i < j < r.len() implies (#[trigger] r[i]).0 <= (#[trigger] r[j]).0 by {
            assert(r[i] == q[i]);
            if j < q.len() {
                assert(r[j] == q[j]);
            }
        }
    }
}

proof fn lemma_sort_by_number(s: Seq<(u32, Part)>)
    ensures
        by_number(sort_by_number(s)),
        sort_by_number(s).to_multiset() =~= s.to_multiset(),
    decreases s.len(),
{
    broadcast use vstd::seq_lib::group_to_multiset_ensures;

    if s.len() > 0 {
        lemma_sort_by_number(s.drop_last());
        lemma_insert_by_number(sort_by_number(s.drop_last()), s.last());
        assert(s == s.drop_last().push(s.last()));
    }
}

/// The section parts are read in ascending order of their numbers, and
/// every section part is read exactly once.
pub proof fn law_sections_in_numeric_order(parts: Seq<Part>)
    ensures
        by_number(ordered_sections(parts)),
        ordered_sections(parts).to_multiset() =~= section_list(parts).to_multiset(),
{
    lemma_sort_by_number(section_list(parts));
}

/// Table `t` sits at nesting depth `d`, and every table inside its
/// cells one level deeper.
pub open spec fn table_at(t: TableV, d: u32) -> bool
    decreases t,
{
    t.nesting_depth == d && rows_at(t.rows, child_depth(d))
}

/// The tables inside rows `rs` sit at depth `d` (in their paragraphs).
pub open spec fn rows_at(rs: Seq<RowV>, d: u32) -> bool
    decreases rs,
{
    if rs.len() == 0 {
        true
    } else {
        rows_at(rs.drop_last(), d) && cells_at(rs.last().cells, d)
    }
}

/// The tables inside cells `cs` sit at depth `d`.
pub open spec fn cells_at(cs: Seq<CellV>, d: u32) -> bool
    decreases cs,
{
    if cs.len() == 0 {
        true
    } else {
        cells_at(cs.drop_last(), d) && paras_at(cs.last().paragraphs, d)
    }
}

/// The tables of paragraphs `ps` sit at depth `d`.
pub open spec fn paras_at(ps: Seq<ParaV>, d: u32) -> bool
    decreases ps,
{
    if ps.len() == 0 {
        true
    } else {
        paras_at(ps.drop_last(), d) && tables_at(ps.last().tables, d)
    }
}

/// Tables `ts` sit at depth `d`.
pub open spec fn tables_at(ts: Seq<TableV>, d: u32) -> bool
    decreases ts,
{
    if ts.len() == 0 {
        true
    } else {
        tables_at(ts.drop_last(), d) && table_at(ts.last(), d)
    }
}

proof fn lemma_tables_at_concat(a: Seq<TableV>, b: Seq<TableV>, d: u32)
    requires
        tables_at(a, d),
        tables_at(b, d),
    ensures
        tables_at(a + b, d),
    decreases b.len(),
{
    if b.len() == 0 {
        assert(a + b =~= a);
    } else {
        lemma_tables_at_concat(a, b.drop_last(), d);
        assert((a + b).drop_last() =~= a + b.drop_last());
        assert((a + b).last() == b.last());
    }
}

proof fn lemma_para_start_at(ev: Seq<XmlEvent>, i: int, t: XmlTag, d: u32, sink: Option<u32>)
    ensures
        para_start(ev, i, t, d, sink) matches Ok((p, _, _)) ==> tables_at(p.tables, d),
    decreases ev.len() - i, 1int,
{
    lemma_para_start_unfold(ev, i, t, d, sink);
    if let Ok(ppr) = attr_u32_of(t.attrs@, "paraPrIDRef"@) {
        if let Ok(sid) = attr_u32_of(t.attrs@, "styleIDRef"@) {
            lemma_para_loop_at(
                ev,
                i,
                ParaV { para_pr_id_ref: ppr, style_id_ref: sid, runs: Seq::empty(), tables: Seq::empty() },
                false,
                d,
                sink,
            );
        }
    }
}

proof fn lemma_para_loop_at(ev: Seq<XmlEvent>, i: int, p: ParaV, in_h: bool, d: u32, sink: Option<u32>)
    requires
        tables_at(p.tables, d),
    ensures
        para_loop(ev, i, p, in_h, d, sink) matches Ok((p2, _, _)) ==> tables_at(p2.tables, d),
    decreases ev.len() - i, 0int,
{
    lemma_para_loop_unfold(ev, i, p, in_h, d, sink);
    if 0 <= i < ev.len() {
        match ev[i] {
            XmlEvent::Start(t) => if t.name@ == "run"@ {
                lemma_run_start_at(ev, i + 1, t, d, in_h, sink);
                if let Ok((r, tbls, h2, j, s2)) = run_start(ev, i + 1, t, d, in_h, sink) {
                    if i < j <= ev.len() {
                        lemma_tables_at_concat(p.tables, tbls, d);
                        lemma_para_loop_at(ev, j, ParaV { runs: p.runs.push(r), tables: p.tables + tbls, ..p }, h2, d, s2);
                    }
                }
            } else {
                if let Ok(j) = skip_from(ev, i + 1, t.qname@, 0) {
                    if i < j <= ev.len() {
                        lemma_para_loop_at(ev, j, p, in_h, d, sink);
                    }
                }
            },
            XmlEvent::Empty(t) => if t.name@ == "run"@ {
                if let Ok(c) = attr_u32_of(t.attrs@, "charPrIDRef"@) {
                    lemma_para_loop_at(
                        ev,
                        i + 1,
                        ParaV { runs: p.runs.push(RunV { char_pr_id_ref: c, text: Seq::empty(), is_hyperlink: in_h }), ..p },
                        in_h,
                        d,
                        sink,
                    );
                }
            } else {
                lemma_para_loop_at(ev, i + 1, p, in_h, d, sink);
            },
            XmlEvent::End(_, n) => if n@ != "p"@ {
                lemma_para_loop_at(ev, i + 1, p, in_h, d, sink);
            },
            XmlEvent::Eof => {},
            _ => {
                lemma_para_loop_at(ev, i + 1, p, in_h, d, sink);
            },
        }
    }
}

proof fn lemma_run_start_at(ev: Seq<XmlEvent>, i: int, t: XmlTag, d: u32, in_h: bool, sink: Option<u32>)
    ensures
        run_start(ev, i, t, d, in_h, sink) matches Ok((_, tbls, _, _, _)) ==> tables_at(tbls, d),
    decreases ev.len() - i, 1int,
{
    lemma_run_start_unfold(ev, i, t, d, in_h, sink);
    if let Ok(c) = attr_u32_of(t.attrs@, "charPrIDRef"@) {
        lemma_run_loop_at(ev, i, c, Seq::empty(), Seq::empty(), in_h, d, sink);
    }
}

proof fn lemma_run_loop_at(
    ev: Seq<XmlEvent>,
    i: int,
    c: u32,
    text: Seq<char>,
    tables: Seq<TableV>,
    in_h: bool,
    d: u32,
    sink: Option<u32>,
)
    requires
        tables_at(tables, d),
    ensures
        run_loop(ev, i, c, text, tables, in_h, d, sink) matches Ok((_, tbls, _, _, _)) ==> tables_at(tbls, d),
    decreases ev.len() - i, 0int,
{
    lemma_run_loop_unfold(ev, i, c, text, tables, in_h, d, sink);
    if 0 <= i < ev.len() {
        match ev[i] {
            XmlEvent::Start(t) => if t.name@ == "t"@ {
                if let Ok((s, j)) = t_loop(ev, i + 1, Seq::empty()) {
                    if i < j <= ev.len() {
                        lemma_run_loop_at(ev, j, c, text + s, tables, in_h, d, sink);
                    }
                }
            } else if t.name@ == "tbl"@ {
                lemma_table_start_at(ev, i + 1, t, d);
                if let Ok((tb, j)) = table_start(ev, i + 1, t, d) {
                    if i < j <= ev.len() {
                        assert(tables.push(tb).drop_last() =~= tables);
                        lemma_run_loop_at(ev, j, c, text, tables.push(tb), in_h, d, sink);
                    }
                }
            } else {
                let marks = t.name@ == "fieldBegin"@ || t.name@ == "fieldEnd"@;
                let h = if marks { hyperlink_field(t) } else { Ok(false) };
                let s = if t.name@ == "secPr"@ { sec_pr_sink(t, sink) } else { Ok(sink) };
                if let Ok(is_link) = h {
                    if let Ok(s2) = s {
                        if let Ok(j) = skip_from(ev, i + 1, t.qname@, 0) {
                            if i < j <= ev.len() {
                                lemma_run_loop_at(
                                    ev,
                                    j,
                                    c,
                                    text,
                                    tables,
                                    if is_link { t.name@ == "fieldBegin"@ } else { in_h },
                                    d,
                                    s2,
                                );
                            }
                        }
                    }
                }
            },
            XmlEvent::Empty(t) => {
                let marks = t.name@ == "fieldBegin"@ || t.name@ == "fieldEnd"@;
                let h = if marks { hyperlink_field(t) } else { Ok(false) };
                let s = if t.name@ == "secPr"@ { sec_pr_sink(t, sink) } else { Ok(sink) };
                if let Ok(is_link) = h {
                    if let Ok(s2) = s {
                        lemma_run_loop_at(
                            ev,
                            i + 1,
                            c,
                            text,
                            tables,
                            if is_link { t.name@ == "fieldBegin"@ } else { in_h },
                            d,
                            s2,
                        );
                    }
                }
            },
            XmlEvent::End(_, n) => if n@ != "run"@ {
                lemma_run_loop_at(ev, i + 1, c, text, tables, in_h, d, sink);
            },
            XmlEvent::Eof => {},
            _ => {
                lemma_run_loop_at(ev, i + 1, c, text, tables, in_h, d, sink);
            },
        }
    }
}

proof fn lemma_table_start_at(ev: Seq<XmlEvent>, i: int, t: XmlTag, d: u32)
    ensures
        table_start(ev, i, t, d) matches Ok((tv, _)) ==> table_at(tv, d),
    decreases ev.len() - i, 1int,
{
    lemma_table_start_unfold(ev, i, t, d);
    if let Ok(tv) = table_head(t, d) {
        lemma_table_loop_at(ev, i, tv, d);
    }
}

proof fn lemma_table_loop_at(ev: Seq<XmlEvent>, i: int, tv: TableV, d: u32)
    requires
        tv.nesting_depth == d,
        rows_at(tv.rows, child_depth(d)),
    ensures
        table_loop(ev, i, tv, d) matches Ok((tv2, _)) ==> table_at(tv2, d),
    decreases ev.len() - i, 0int,
{
    lemma_table_loop_unfold(ev, i, tv, d);
    if 0 <= i < ev.len() {
        match ev[i] {
            XmlEvent::Start(t) => if t.name@ == "tr"@ {
                lemma_row_loop_at(ev, i + 1, Seq::empty(), d);
                if let Ok((cells, j)) = row_loop(ev, i + 1, Seq::empty(), d) {
                    if i < j <= ev.len() {
                        let tv2 = TableV { rows: tv.rows.push(RowV { cells }), ..tv };
                        assert(tv2.rows.drop_last() =~= tv.rows);
                        lemma_table_loop_at(ev, j, tv2, d);
                    }
                }
            } else {
                let m = if t.name@ == "caption"@ { caption_meta(tv, t) } else { Ok(tv) };
                if let Ok(tv2) = m {
                    if let Ok(j) = skip_from(ev, i + 1, t.qname@, 0) {
                        if i < j <= ev.len() {
                            lemma_table_loop_at(ev, j, tv2, d);
                        }
                    }
                }
            },
            XmlEvent::Empty(t) => if t.name@ == "tr"@ {
                let tv2 = TableV { rows: tv.rows.push(RowV { cells: Seq::empty() }), ..tv };
                assert(tv2.rows.drop_last() =~= tv.rows);
                assert(cells_at(tv2.rows.last().cells, child_depth(d)));
                assert(rows_at(tv2.rows, child_depth(d)));
                lemma_table_loop_at(ev, i + 1, tv2, d);
            } else {
                if let Ok(tv2) = table_meta(tv, t) {
                    lemma_table_loop_at(ev, i + 1, tv2, d);
                }
            },
            XmlEvent::End(_, n) => if n@ != "tbl"@ {
                lemma_table_loop_at(ev, i + 1, tv, d);
            },
            XmlEvent::Eof => {},
            _ => {
                lemma_table_loop_at(ev, i + 1, tv, d);
            },
        }
    }
}

proof fn lemma_row_loop_at(ev: Seq<XmlEvent>, i: int, cells: Seq<CellV>, d: u32)
    requires
        cells_at(cells, child_depth(d)),
    ensures
        row_loop(ev, i, cells, d) matches Ok((cells2, _)) ==> cells_at(cells2, child_depth(d)),
    decreases ev.len() - i, 0int,
{
    lemma_row_loop_unfold(ev, i, cells, d);
    if 0 <= i < ev.len() {
        match ev[i] {
            XmlEvent::Start(t) => if t.name@ == "tc"@ {
                lemma_cell_start_at(ev, i + 1, t, d);
                if let Ok((cv, j)) = cell_start(ev, i + 1, t, d) {
                    if i < j <= ev.len() {
                        assert(cells.push(cv).drop_last() =~= cells);
                        lemma_row_loop_at(ev, j, cells.push(cv), d);
                    }
                }
            } else {
                if let Ok(j) = skip_from(ev, i + 1, t.qname@, 0) {
                    if i < j <= ev.len() {
                        lemma_row_loop_at(ev, j, cells, d);
                    }
                }
            },
            XmlEvent::End(_, n) => if n@ != "tr"@ {
                lemma_row_loop_at(ev, i + 1, cells, d);
            },
            XmlEvent::Eof => {},
            _ => {
                lemma_row_loop_at(ev, i + 1, cells, d);
            },
        }
    }
}

proof fn lemma_cell_start_at(ev: Seq<XmlEvent>, i: int, t: XmlTag, d: u32)
    ensures
        cell_start(ev, i, t, d) matches Ok((cv, _)) ==> paras_at(cv.paragraphs, child_depth(d)),
    decreases ev.len() - i, 1int,
{
    lemma_cell_start_unfold(ev, i, t, d);
    if let Ok(bf) = attr_u32_of(t.attrs@, "borderFillIDRef"@) {
        lemma_cell_loop_at(
            ev,
            i,
            CellV { row: 0, col: 0, border_fill_id_ref: bf, paragraphs: Seq::empty() },
            child_depth(d),
        );
    }
}

proof fn lemma_cell_loop_at(ev: Seq<XmlEvent>, i: int, cv: CellV, cd: u32)
    requires
        paras_at(cv.paragraphs, cd),
    ensures
        cell_loop(ev, i, cv, cd) matches Ok((cv2, _)) ==> paras_at(cv2.paragraphs, cd),
    decreases ev.len() - i, 0int,
{
    lemma_cell_loop_unfold(ev, i, cv, cd);
    if 0 <= i < ev.len() {
        match ev[i] {
            XmlEvent::Start(t) => if t.name@ == "subList"@ {
                lemma_sublist_loop_at(ev, i + 1, cv.paragraphs, cd, None);
                if let Ok((ps, j)) = sublist_loop(ev, i + 1, cv.paragraphs, cd, None) {
                    if i < j <= ev.len() {
                        lemma_cell_loop_at(ev, j, CellV { paragraphs: ps, ..cv }, cd);
                    }
                }
            } else {
                if let Ok(j) = skip_from(ev, i + 1, t.qname@, 0) {
                    if i < j <= ev.len() {
                        lemma_cell_loop_at(ev, j, cv, cd);
                    }
                }
            },
            XmlEvent::Empty(t) => if t.name@ == "cellAddr"@ {
                if let Ok(col) = attr_u32_of(t.attrs@, "colAddr"@) {
                    if let Ok(row) = attr_u32_of(t.attrs@, "rowAddr"@) {
                        lemma_cell_loop_at(ev, i + 1, CellV { row, col, ..cv }, cd);
                    }
                }
            } else {
                lemma_cell_loop_at(ev, i + 1, cv, cd);
            },
            XmlEvent::End(_, n) => if n@ != "tc"@ {
                lemma_cell_loop_at(ev, i + 1, cv, cd);
            },
            XmlEvent::Eof => {},
            _ => {
                lemma_cell_loop_at(ev, i + 1, cv, cd);
            },
        }
    }
}

proof fn lemma_sublist_loop_at(ev: Seq<XmlEvent>, i: int, ps: Seq<ParaV>, d: u32, sink: Option<u32>)
    requires
        paras_at(ps, d),
    ensures
        sublist_loop(ev, i, ps, d, sink) matches Ok((ps2, _)) ==> paras_at(ps2, d),
    decreases ev.len() - i, 0int,
{
    lemma_sublist_loop_unfold(ev, i, ps, d, sink);
    if 0 <= i < ev.len() {
        match ev[i] {
            XmlEvent::Start(t) => if t.name@ == "p"@ {
                lemma_para_start_at(ev, i + 1, t, d, sink);
                if let Ok((p, j, s2)) = para_start(ev, i + 1, t, d, sink) {
                    if i < j <= ev.len() {
                        assert(ps.push(p).drop_last() =~= ps);
                        lemma_sublist_loop_at(ev, j, ps.push(p), d, s2);
                    }
                }
            } else {
                if let Ok(j) = skip_from(ev, i + 1, t.qname@, 0) {
                    if i < j <= ev.len() {
                        lemma_sublist_loop_at(ev, j, ps, d, sink);
                    }
                }
            },
            XmlEvent::Empty(t) => if t.name@ == "p"@ {
                if let Ok(p) = empty_para(t) {
                    assert(p.tables =~= Seq::<TableV>::empty());
                    assert(tables_at(p.tables, d));
                    assert(ps.push(p).drop_last() =~= ps);
                    lemma_sublist_loop_at(ev, i + 1, ps.push(p), d, sink);
                }
            } else {
                lemma_sublist_loop_at(ev, i + 1, ps, d, sink);
            },
            XmlEvent::End(_, n) => if n@ != "subList"@ {
                lemma_sublist_loop_at(ev, i + 1, ps, d, sink);
            },
            XmlEvent::Eof => {},
            _ => {
                lemma_sublist_loop_at(ev, i + 1, ps, d, sink);
            },
        }
    }
}

proof fn lemma_sec_loop_at(ev: Seq<XmlEvent>, i: int, ps: Seq<ParaV>, sink: Option<u32>)
    requires
        paras_at(ps, 0),
    ensures
        sec_loop(ev, i, ps, sink) matches Ok((ps2, _)) ==> paras_at(ps2, 0),
    decreases ev.len() - i,
{
    if 0 <= i < ev.len() {
        match ev[i] {
            XmlEvent::Start(t) => if t.name@ == "p"@ {
                lemma_para_start_at(ev, i + 1, t, 0, sink);
                if let Ok((p, j, s2)) = para_start(ev, i + 1, t, 0, sink) {
                    if i < j <= ev.len() {
                        assert(ps.push(p).drop_last() =~= ps);
                        lemma_sec_loop_at(ev, j, ps.push(p), s2);
                    }
                }
            } else {
                lemma_sec_loop_at(ev, i + 1, ps, sink);
            },
            XmlEvent::Empty(t) => if t.name@ == "p"@ {
                if let Ok(p) = empty_para(t) {
                    assert(p.tables =~= Seq::<TableV>::empty());
                    assert(tables_at(p.tables, 0));
                    assert(ps.push(p).drop_last() =~= ps);
                    lemma_sec_loop_at(ev, i + 1, ps.push(p), sink);
                }
            } else {
                lemma_sec_loop_at(ev, i + 1, ps, sink);
            },
            XmlEvent::Eof => {},
            _ => {
                lemma_sec_loop_at(ev, i + 1, ps, sink);
            },
        }
    }
}

/// In a parsed section every body table has nesting depth 0 and every
/// table inside a cell of a table at depth `d` has depth `d + 1`
/// (saturating at the top of the range).
pub proof fn law_table_nesting_depth(index: u32, ev: Seq<XmlEvent>)
    ensures
        section_of(index, ev) matches Ok(s) ==> paras_at(s.paragraphs, 0),
{
    lemma_sec_loop_at(ev, 0, Seq::empty(), None);
}

/// Every record of the header view is stored under its own id.
pub open spec fn header_keyed(h: HeaderV) -> bool {
    &&& forall|k: u32| #[trigger] h.char_shapes.contains_key(k) ==> h.char_shapes[k].id == k
    &&& forall|k: u32| #[trigger] h.para_shapes.contains_key(k) ==> h.para_shapes[k].id == k
    &&& forall|k: u32| #[trigger] h.border_fills.contains_key(k) ==> h.border_fills[k].id == k
    &&& forall|k: u32| #[trigger] h.styles.contains_key(k) ==> h.styles[k].id == k
    &&& forall|k: u32| #[trigger] h.bullets.contains_key(k) ==> h.bullets[k].id == k
    &&& forall|k: u32| #[trigger] h.numberings.contains_key(k) ==> h.numberings[k].id == k
}

proof fn lemma_border_fills_loop_keyed(ev: Seq<XmlEvent>, i: int, m: Map<u32, BorderFillV>)
    requires
        forall|k: u32| #[trigger] m.contains_key(k) ==> m[k].id == k,
    ensures
        border_fills_loop(ev, i, m) matches Ok((m2, _)) ==> forall|k: u32| #[trigger] m2.contains_key(k) ==> m2[k].id == k,
    decreases ev.len() - i,
{
    lemma_border_fills_loop_unfold(ev, i, m);
    if 0 <= i < ev.len() {
        match ev[i] {
            XmlEvent::Start(t) => if t.name@ == "borderFill"@ {
                if let Ok(h) = border_fill_head(t) {
                    if let Ok((x, j)) = border_fill_loop(ev, i + 1, h) {
                        if i < j <= ev.len() {
                            lemma_border_fills_loop_keyed(ev, j, m.insert(x.id, x));
                        }
                    }
                }
            } else {
                if let Ok(j) = skip_from(ev, i + 1, t.qname@, 0) {
                    if i < j <= ev.len() {
                        lemma_border_fills_loop_keyed(ev, j, m);
                    }
                }
            },
            XmlEvent::End(_, n) => if n@ != "borderFills"@ {
                lemma_border_fills_loop_keyed(ev, i + 1, m);
            },
            XmlEvent::Eof => {},
            _ => {
                lemma_border_fills_loop_keyed(ev, i + 1, m);
            },
        }
    }
}

proof fn lemma_char_props_loop_keyed(ev: Seq<XmlEvent>, i: int, m: Map<u32, CharShapeV>)
    requires
        forall|k: u32| #[trigger] m.contains_key(k) ==> m[k].id == k,
    ensures
        char_props_loop(ev, i, m) matches Ok((m2, _)) ==> forall|k: u32| #[trigger] m2.contains_key(k) ==> m2[k].id == k,
    decreases ev.len() - i,
{
    lemma_char_props_loop_unfold(ev, i, m);
    if 0 <= i < ev.len() {
        match ev[i] {
            XmlEvent::Start(t) => if t.name@ == "charPr"@ {
                if let Ok(h) = char_shape_head(t) {
                    if let Ok((x, j)) = char_pr_loop(ev, i + 1, h) {
                        if i < j <= ev.len() {
                            lemma_char_props_loop_keyed(ev, j, m.insert(x.id, x));
                        }
                    }
                }
            } else {
                if let Ok(j) = skip_from(ev, i + 1, t.qname@, 0) {
                    if i < j <= ev.len() {
                        lemma_char_props_loop_keyed(ev, j, m);
                    }
                }
            },
            XmlEvent::End(_, n) => if n@ != "charProperties"@ {
                lemma_char_props_loop_keyed(ev, i + 1, m);
            },
            XmlEvent::Eof => {},
            _ => {
                lemma_char_props_loop_keyed(ev, i + 1, m);
            },
        }
    }
}

proof fn lemma_para_props_loop_keyed(ev: Seq<XmlEvent>, i: int, m: Map<u32, ParaShapeV>)
    requires
        forall|k: u32| #[trigger] m.contains_key(k) ==> m[k].id == k,
    ensures
        para_props_loop(ev, i, m) matches Ok((m2, _)) ==> forall|k: u32| #[trigger] m2.contains_key(k) ==> m2[k].id == k,
    decreases ev.len() - i,
{
    lemma_para_props_loop_unfold(ev, i, m);
    if 0 <= i < ev.len() {
        match ev[i] {
            XmlEvent::Start(t) => if t.name@ == "paraPr"@ {
                if let Ok(h) = para_shape_head(t) {
                    if let Ok((x, j)) = para_pr_loop(ev, i + 1, h) {
                        if i < j <= ev.len() {
                            lemma_para_props_loop_keyed(ev, j, m.insert(x.id, x));
                        }
                    }
                }
            } else {
                if let Ok(j) = skip_from(ev, i + 1, t.qname@, 0) {
                    if i < j <= ev.len() {
                        lemma_para_props_loop_keyed(ev, j, m);
                    }
                }
            },
            XmlEvent::End(_, n) => if n@ != "paraProperties"@ {
                lemma_para_props_loop_keyed(ev, i + 1, m);
            },
            XmlEvent::Eof => {},
            _ => {
                lemma_para_props_loop_keyed(ev, i + 1, m);
            },
        }
    }
}

proof fn lemma_numberings_loop_keyed(ev: Seq<XmlEvent>, i: int, m: Map<u32, NumberingV>)
    requires
        forall|k: u32| #[trigger] m.contains_key(k) ==> m[k].id == k,
    ensures
        numberings_loop(ev, i, m) matches Ok((m2, _)) ==> forall|k: u32| #[trigger] m2.contains_key(k) ==> m2[k].id == k,
    decreases ev.len() - i,
{
    lemma_numberings_loop_unfold(ev, i, m);
    if 0 <= i < ev.len() {
        match ev[i] {
            XmlEvent::Start(t) => if t.name@ == "numbering"@ {
                if let Ok(h) = numbering_head(t) {
                    if let Ok((x, j)) = numbering_loop(ev, i + 1, h) {
                        if i < j <= ev.len() {
                            lemma_numberings_loop_keyed(ev, j, m.insert(x.id, x));
                        }
                    }
                }
            } else {
                if let Ok(j) = skip_from(ev, i + 1, t.qname@, 0) {
                    if i < j <= ev.len() {
                        lemma_numberings_loop_keyed(ev, j, m);
                    }
                }
            },
            XmlEvent::End(_, n) => if n@ != "numberings"@ {
                lemma_numberings_loop_keyed(ev, i + 1, m);
            },
            XmlEvent::Eof => {},
            _ => {
                lemma_numberings_loop_keyed(ev, i + 1, m);
            },
        }
    }
}

proof fn lemma_styles_loop_keyed(ev: Seq<XmlEvent>, i: int, m: Map<u32, StyleV>)
    requires
        forall|k: u32| #[trigger] m.contains_key(k) ==> m[k].id == k,
    ensures
        styles_loop(ev, i, m) matches Ok((m2, _)) ==> forall|k: u32| #[trigger] m2.contains_key(k) ==> m2[k].id == k,
    decreases ev.len() - i,
{
    lemma_styles_loop_unfold(ev, i, m);
    if 0 <= i < ev.len() {
        match ev[i] {
            XmlEvent::Start(t) => if t.name@ == "style"@ {
                if let Ok(x) = style_of(t) {
                    if let Ok(j) = skip_from(ev, i + 1, t.qname@, 0) {
                        if i < j <= ev.len() {
                            lemma_styles_loop_keyed(ev, j, m.insert(x.id, x));
                        }
                    }
                }
            } else {
                if let Ok(j) = skip_from(ev, i + 1, t.qname@, 0) {
                    if i < j <= ev.len() {
                        lemma_styles_loop_keyed(ev, j, m);
                    }
                }
            },
            XmlEvent::Empty(t) => if t.name@ == "style"@ {
                if let Ok(x) = style_of(t) {
                    lemma_styles_loop_keyed(ev, i + 1, m.insert(x.id, x));
                }
            } else {
                lemma_styles_loop_keyed(ev, i + 1, m);
            },
            XmlEvent::End(_, n) => if n@ != "styles"@ {
                lemma_styles_loop_keyed(ev, i + 1, m);
            },
            XmlEvent::Eof => {},
            _ => {
                lemma_styles_loop_keyed(ev, i + 1, m);
            },
        }
    }
}

proof fn lemma_bullets_loop_keyed(ev: Seq<XmlEvent>, i: int, m: Map<u32, BulletV>)
    requires
        forall|k: u32| #[trigger] m.contains_key(k) ==> m[k].id == k,
    ensures
        bullets_loop(ev, i, m) matches Ok((m2, _)) ==> forall|k: u32| #[trigger] m2.contains_key(k) ==> m2[k].id == k,
    decreases ev.len() - i,
{
    lemma_bullets_loop_unfold(ev, i, m);
    if 0 <= i < ev.len() {
        match ev[i] {
            XmlEvent::Start(t) => if t.name@ == "bullet"@ {
                if let Ok(x) = bullet_of(t) {
                    if let Ok(j) = skip_from(ev, i + 1, t.qname@, 0) {
                        if i < j <= ev.len() {
                            lemma_bullets_loop_keyed(ev, j, m.insert(x.id, x));
                        }
                    }
                }
            } else {
                if let Ok(j) = skip_from(ev, i + 1, t.qname@, 0) {
                    if i < j <= ev.len() {
                        lemma_bullets_loop_keyed(ev, j, m);
                    }
                }
            },
            XmlEvent::Empty(t) => if t.name@ == "bullet"@ {
                if let Ok(x) = bullet_of(t) {
                    lemma_bullets_loop_keyed(ev, i + 1, m.insert(x.id, x));
                }
            } else {
                lemma_bullets_loop_keyed(ev, i + 1, m);
            },
            XmlEvent::End(_, n) => if n@ != "bullets"@ {
                lemma_bullets_loop_keyed(ev, i + 1, m);
            },
            XmlEvent::Eof => {},
            _ => {
                lemma_bullets_loop_keyed(ev, i + 1, m);
            },
        }
    }
}

proof fn lemma_header_loop_keyed(ev: Seq<XmlEvent>, i: int, h: HeaderV)
    requires
        header_keyed(h),
    ensures
        header_loop(ev, i, h) matches Ok(h2) ==> header_keyed(h2),
    decreases ev.len() - i,
{
    lemma_header_loop_unfold(ev, i, h);
    if 0 <= i < ev.len() {
        match ev[i] {
            XmlEvent::Start(t) => {
                let n = t.name@;
                if n == "fontfaces"@ {
                    if let Ok((v, j)) = fontfaces_loop(ev, i + 1, h.font_faces) {
                        if i < j <= ev.len() {
                            lemma_header_loop_keyed(ev, j, HeaderV { font_faces: v, ..h });
                        }
                    }
                } else if n == "borderFills"@ {
                    lemma_border_fills_loop_keyed(ev, i + 1, h.border_fills);
                    if let Ok((v, j)) = border_fills_loop(ev, i + 1, h.border_fills) {
                        if i < j <= ev.len() {
                            lemma_header_loop_keyed(ev, j, HeaderV { border_fills: v, ..h });
                        }
                    }
                } else if n == "charProperties"@ {
                    lemma_char_props_loop_keyed(ev, i + 1, h.char_shapes);
                    if let Ok((v, j)) = char_props_loop(ev, i + 1, h.char_shapes) {
                        if i < j <= ev.len() {
                            lemma_header_loop_keyed(ev, j, HeaderV { char_shapes: v, ..h });
                        }
                    }
                } else if n == "paraProperties"@ {
                    lemma_para_props_loop_keyed(ev, i + 1, h.para_shapes);
                    if let Ok((v, j)) = para_props_loop(ev, i + 1, h.para_shapes) {
                        if i < j <= ev.len() {
                            lemma_header_loop_keyed(ev, j, HeaderV { para_shapes: v, ..h });
                        }
                    }
                } else if n == "styles"@ {
                    lemma_styles_loop_keyed(ev, i + 1, h.styles);
                    if let Ok((v, j)) = styles_loop(ev, i + 1, h.styles) {
                        if i < j <= ev.len() {
                            lemma_header_loop_keyed(ev, j, HeaderV { styles: v, ..h });
                        }
                    }
                } else if n == "bullets"@ {
                    lemma_bullets_loop_keyed(ev, i + 1, h.bullets);
                    if let Ok((v, j)) = bullets_loop(ev, i + 1, h.bullets) {
                        if i < j <= ev.len() {
                            lemma_header_loop_keyed(ev, j, HeaderV { bullets: v, ..h });
                        }
                    }
                } else if n == "numberings"@ {
                    lemma_numberings_loop_keyed(ev, i + 1, h.numberings);
                    if let Ok((v, j)) = numberings_loop(ev, i + 1, h.numberings) {
                        if i < j <= ev.len() {
                            lemma_header_loop_keyed(ev, j, HeaderV { numberings: v, ..h });
                        }
                    }
                } else {
                    lemma_header_loop_keyed(ev, i + 1, h);
                }
            },
            XmlEvent::Eof => {},
            _ => {
                lemma_header_loop_keyed(ev, i + 1, h);
            },
        }
    }
}

/// In the header the parse reads, every character shape, paragraph
/// shape, border fill, style, bullet and numbering is stored under its
/// own id.
pub proof fn law_header_records_keyed_by_id(ev: Seq<XmlEvent>)
    ensures
        header_of(ev) matches Ok(h) ==> header_keyed(h),
{
    lemma_header_loop_keyed(ev, 0, empty_header());
}

/// Every documented code has a message in either language, whatever the
/// context; every other code has the empty message.
pub proof fn law_messages_documented_codes(code: u32, font: Option<Seq<char>>, bullet: Option<Seq<char>>, english: bool)
    ensures
        (has_static_message(code) || code == 1004 || code == 3304) ==> message(code, font, bullet, english).len() > 0,
        !(has_static_message(code) || code == 1004 || code == 3304) ==> message(code, font, bullet, english).len() == 0,
{
    reveal_strlit("' is not an allowed font");
    reveal_strlit("' is not in the allowed list");
    reveal_strlit("'");
    reveal_strlit("'은(는) 허용된 글꼴이 아닙니다");
    reveal_strlit("'이(가) 허용 목록에 없습니다");
    reveal_strlit("bold attribute is not allowed");
    reveal_strlit("bullet character '");
    reveal_strlit("bullet character code is not allowed");
    reveal_strlit("bullet character is not in the allowed list");
    reveal_strlit("bullet check type is not allowed");
    reveal_strlit("cell background face color is not allowed");
    reveal_strlit("cell background fill type is not allowed");
    reveal_strlit("cell background pattern color is not allowed");
    reveal_strlit("cell background pattern type is not allowed");
    reveal_strlit("cell gradient angle is not allowed");
    reveal_strlit("cell gradient blur center is not allowed");
    reveal_strlit("cell gradient blur level is not allowed");
    reveal_strlit("cell gradient end color is not allowed");
    reveal_strlit("cell gradient height-center value is not allowed");
    reveal_strlit("cell gradient start color is not allowed");
    reveal_strlit("cell gradient type is not allowed");
    reveal_strlit("cell gradient width-center value is not allowed");
    reveal_strlit("cell picture effect type is not allowed");
    reveal_strlit("cell picture effect value is not allowed");
    reveal_strlit("cell picture file reference is not allowed");
    reveal_strlit("cell picture fill type is not allowed");
    reveal_strlit("cell picture fill value is not allowed");
    reveal_strlit("cell picture include flag is not allowed");
    reveal_strlit("cell watermark is not allowed");
    reveal_strlit("character background border color is not allowed");
    reveal_strlit("character background border is not allowed");
    reveal_strlit("character background border position is not allowed");
    reveal_strlit("character background border size is not allowed");
    reveal_strlit("character background border type is not allowed");
    reveal_strlit("character background color is not allowed");
    reveal_strlit("character background pattern color is not allowed");
    reveal_strlit("character background pattern type is not allowed");
    reveal_strlit("character position is out of the allowed range");
    reveal_strlit("character ratio is out of the allowed range");
    reveal_strlit("character spacing is out of the allowed range");
    reveal_strlit("emboss attribute is not allowed");
    reveal_strlit("empty-space attribute is not allowed");
    reveal_strlit("engrave attribute is not allowed");
    reveal_strlit("first-line indent is out of the allowed range");
    reveal_strlit("font is not in the allowed list");
    reveal_strlit("font size in points is out of the allowed range");
    reveal_strlit("font size is out of the allowed range");
    reveal_strlit("italic attribute is not allowed");
    reveal_strlit("kerning attribute is not allowed");
    reveal_strlit("language set is not allowed");
    reveal_strlit("language type is not allowed");
    reveal_strlit("line-spacing type is not allowed");
    reveal_strlit("line-spacing value is out of the allowed range");
    reveal_strlit("macro script is present but macros are not permitted");
    reveal_strlit("outline attribute is not allowed");
    reveal_strlit("outline level number format is not allowed");
    reveal_strlit("outline level number shape is not allowed");
    reveal_strlit("outline shape type is not allowed");
    reveal_strlit("outline type is not allowed");
    reveal_strlit("paragraph indent is out of the allowed range");
    reveal_strlit("paragraph numbering level format is not allowed");
    reveal_strlit("paragraph numbering level shape is not allowed");
    reveal_strlit("paragraph numbering type is not allowed");
    reveal_strlit("paragraph outdent is out of the allowed range");
    reveal_strlit("paragraph spacing above is out of the allowed range");
    reveal_strlit("paragraph spacing below is out of the allowed range");
    reveal_strlit("relative character size is out of the allowed range");
    reveal_strlit("shadow X offset is out of the allowed range");
    reveal_strlit("shadow Y offset is out of the allowed range");
    reveal_strlit("shadow attribute is not allowed");
    reveal_strlit("shadow color is not allowed");
    reveal_strlit("shadow type is not allowed");
    reveal_strlit("strikeout attribute is not allowed");
    reveal_strlit("strikeout color is not allowed");
    reveal_strlit("strikeout shape is not allowed");
    reveal_strlit("subscript attribute is not allowed");
    reveal_strlit("superscript attribute is not allowed");
    reveal_strlit("table border color is not allowed");
    reveal_strlit("table border line type is not allowed");
    reveal_strlit("table border line width is not allowed");
    reveal_strlit("table inside table is not allowed");
    reveal_strlit("table treat-as-char attribute is not allowed");
    reveal_strlit("text contains a special character above the allowed maximum");
    reveal_strlit("text contains a special character below the allowed minimum");
    reveal_strlit("underline attribute is not allowed");
    reveal_strlit("underline color is not allowed");
    reveal_strlit("underline position is not allowed");
    reveal_strlit("underline shape is not allowed");
    reveal_strlit("use of custom styles is not allowed");
    reveal_strlit("use of hyperlinks is not allowed");
    reveal_strlit("개요 모양 유형이 허용되지 않습니다");
    reveal_strlit("개요 수준의 번호 모양이 허용되지 않습니다");
    reveal_strlit("개요 수준의 번호 형식이 허용되지 않습니다");
    reveal_strlit("굵게 속성이 허용되지 않습니다");
    reveal_strlit("그림자 X 방향 오프셋이 허용된 범위를 벗어났습니다");
    reveal_strlit("그림자 Y 방향 오프셋이 허용된 범위를 벗어났습니다");
    reveal_strlit("그림자 색상이 허용되지 않습니다");
    reveal_strlit("그림자 속성이 허용되지 않습니다");
    reveal_strlit("그림자 종류가 허용되지 않습니다");
    reveal_strlit("글꼴이 허용 목록에 없습니다");
    reveal_strlit("글머리표 문자 '");
    reveal_strlit("글머리표 문자 코드가 허용되지 않습니다");
    reveal_strlit("글머리표 문자가 허용 목록에 없습니다");
    reveal_strlit("글머리표 확인 유형이 허용되지 않습니다");
    reveal_strlit("글자 배경 색상이 허용되지 않습니다");
    reveal_strlit("글자 배경 테두리 굵기가 허용되지 않습니다");
    reveal_strlit("글자 배경 테두리 색상이 허용되지 않습니다");
    reveal_strlit("글자 배경 테두리 위치가 허용되지 않습니다");
    reveal_strlit("글자 배경 테두리 종류가 허용되지 않습니다");
    reveal_strlit("글자 배경 테두리가 허용되지 않습니다");
    reveal_strlit("글자 배경 패턴 색상이 허용되지 않습니다");
    reveal_strlit("글자 배경 패턴 종류가 허용되지 않습니다");
    reveal_strlit("글자 상대 크기가 허용된 범위를 벗어났습니다");
    reveal_strlit("글자 위치가 허용된 범위를 벗어났습니다");
    reveal_strlit("글자 자간 값이 허용된 범위를 벗어났습니다");
    reveal_strlit("글자 장평 값이 허용된 범위를 벗어났습니다");
    reveal_strlit("글자 크기(포인트)가 허용된 범위를 벗어났습니다");
    reveal_strlit("글자 크기가 허용된 범위를 벗어났습니다");
    reveal_strlit("기울임꼴 속성이 허용되지 않습니다");
    reveal_strlit("내어쓰기 값이 허용된 범위를 벗어났습니다");
    reveal_strlit("들여쓰기 값이 허용된 범위를 벗어났습니다");
    reveal_strlit("매크로 스크립트가 포함되어 있어 허용되지 않습니다");
    reveal_strlit("문단 번호 수준의 번호 모양이 허용되지 않습니다");
    reveal_strlit("문단 번호 수준의 번호 형식이 허용되지 않습니다");
    reveal_strlit("문단 번호 유형이 허용되지 않습니다");
    reveal_strlit("문단 아래 간격 값이 허용된 범위를 벗어났습니다");
    reveal_strlit("문단 위 간격 값이 허용된 범위를 벗어났습니다");
    reveal_strlit("밑줄 모양이 허용되지 않습니다");
    reveal_strlit("밑줄 색상이 허용되지 않습니다");
    reveal_strlit("밑줄 속성이 허용되지 않습니다");
    reveal_strlit("밑줄 위치가 허용되지 않습니다");
    reveal_strlit("빈 칸 사용 속성이 허용되지 않습니다");
    reveal_strlit("셀 그라데이션 가로 중심 값이 허용되지 않습니다");
    reveal_strlit("셀 그라데이션 각도가 허용되지 않습니다");
    reveal_strlit("셀 그라데이션 끝 색상이 허용되지 않습니다");
    reveal_strlit("셀 그라데이션 번짐 정도가 허용되지 않습니다");
    reveal_strlit("셀 그라데이션 번짐 중심 값이 허용되지 않습니다");
    reveal_strlit("셀 그라데이션 세로 중심 값이 허용되지 않습니다");
    reveal_strlit("셀 그라데이션 시작 색상이 허용되지 않습니다");
    reveal_strlit("셀 그라데이션 종류가 허용되지 않습니다");
    reveal_strlit("셀 그림 채우기 값이 허용되지 않습니다");
    reveal_strlit("셀 그림 채우기 방식이 허용되지 않습니다");
    reveal_strlit("셀 그림 파일 참조가 허용되지 않습니다");
    reveal_strlit("셀 그림 포함 설정이 허용되지 않습니다");
    reveal_strlit("셀 그림 효과 값이 허용되지 않습니다");
    reveal_strlit("셀 그림 효과 종류가 허용되지 않습니다");
    reveal_strlit("셀 배경 면 색상이 허용되지 않습니다");
    reveal_strlit("셀 배경 무늬 색상이 허용되지 않습니다");
    reveal_strlit("셀 배경 무늬 종류가 허용되지 않습니다");
    reveal_strlit("셀 배경 채우기 종류가 허용되지 않습니다");
    reveal_strlit("셀 워터마크 설정이 허용되지 않습니다");
    reveal_strlit("스타일 사용이 허용되지 않습니다");
    reveal_strlit("아래첨자 속성이 허용되지 않습니다");
    reveal_strlit("양각 속성이 허용되지 않습니다");
    reveal_strlit("언어 세트가 허용되지 않습니다");
    reveal_strlit("언어 종류가 허용되지 않습니다");
    reveal_strlit("외곽선 속성이 허용되지 않습니다");
    reveal_strlit("외곽선 종류가 허용되지 않습니다");
    reveal_strlit("위첨자 속성이 허용되지 않습니다");
    reveal_strlit("음각 속성이 허용되지 않습니다");
    reveal_strlit("줄 간격 값이 허용된 범위를 벗어났습니다");
    reveal_strlit("줄 간격 유형이 허용되지 않습니다");
    reveal_strlit("첫째 줄 들여쓰기 값이 허용된 범위를 벗어났습니다");
    reveal_strlit("취소선 모양이 허용되지 않습니다");
    reveal_strlit("취소선 색상이 허용되지 않습니다");
    reveal_strlit("취소선 속성이 허용되지 않습니다");
    reveal_strlit("커닝 속성이 허용되지 않습니다");
    reveal_strlit("표 안에 표가 허용되지 않습니다");
    reveal_strlit("표 테두리 선 굵기가 허용되지 않습니다");
    reveal_strlit("표 테두리 선 색상이 허용되지 않습니다");
    reveal_strlit("표 테두리 선 종류가 허용되지 않습니다");
    reveal_strlit("표의 글자 취급 속성이 허용되지 않습니다");
    reveal_strlit("하이퍼링크 사용이 허용되지 않습니다");
    reveal_strlit("허용 범위보다 낮은 특수 문자가 포함되어 있습니다");
    reveal_strlit("허용 범위보다 높은 특수 문자가 포함되어 있습니다");
}

/// Header tables whose view stores every record under its own id store
/// every record under its own id.
pub proof fn lemma_header_wf_from_view(h: HeaderTables)
    requires
        header_keyed(header_v(h)),
    ensures
        header_wf(h),
{
    let v = header_v(h);
    assert forall|k: u32| #[trigger] h.char_shapes@.contains_key(k) implies h.char_shapes@[k].id == k by {
        assert(v.char_shapes.contains_key(k));
        assert(v.char_shapes[k] == char_shape_v(h.char_shapes@[k]));
    }
    assert forall|k: u32| #[trigger] h.para_shapes@.contains_key(k) implies h.para_shapes@[k].id == k by {
        assert(v.para_shapes.contains_key(k));
        assert(v.para_shapes[k] == para_shape_v(h.para_shapes@[k]));
    }
    assert forall|k: u32| #[trigger] h.border_fills@.contains_key(k) implies h.border_fills@[k].id == k by {
        assert(v.border_fills.contains_key(k));
        assert(v.border_fills[k] == border_fill_v(h.border_fills@[k]));
    }
    assert forall|k: u32| #[trigger] h.styles@.contains_key(k) implies h.styles@[k].id == k by {
        assert(v.styles.contains_key(k));
        assert(v.styles[k] == style_v(h.styles@[k]));
    }
    assert forall|k: u32| #[trigger] h.bullets@.contains_key(k) implies h.bullets@[k].id == k by {
        assert(v.bullets.contains_key(k));
        assert(v.bullets[k] == bullet_v(h.bullets@[k]));
    }
    assert forall|k: u32| #[trigger] h.numberings@.contains_key(k) implies h.numberings@[k].id == k by {
        assert(v.numberings.contains_key(k));
        assert(v.numberings[k] == numbering_v(h.numberings@[k]));
    }
}


/// A paragraph's records begin with one record per run, in order: the
/// run's character shape, text and hyperlink flag, the paragraph's shape,
/// whether its style is not the default one, the section's outline
/// numbering, and, inside a cell, the cell's table, row, column and
/// nesting (none outside a cell).
pub proof fn law_paragraph_records(ctx: WalkCtx, p: Paragraph, cell: Option<CellCtx>)
    ensures
        para_runs(ctx, p, cell).len() >= p.runs@.len(),
        forall|k: int| 0 <= k < p.runs@.len() ==> {
            let r = #[trigger] para_runs(ctx, p, cell)[k];
            let run = p.runs@[k];
            &&& r.char_pr_id_ref == run.char_pr_id_ref
            &&& r.text == run.text@
            &&& r.is_hyperlink == run.is_hyperlink
            &&& r.para_pr_id_ref == p.para_pr_id_ref
            &&& r.is_style == (p.style_id_ref != ctx.default_style_id)
            &&& r.outline_shape_id_ref == ctx.outline_shape_id_ref
            &&& r.is_in_table == cell is Some
            &&& (cell matches Some(c) ==> (r.table_id == c.table_id && r.table_row == c.row && r.table_col == c.col
                && r.is_in_table_in_table == c.is_table_in_table))
            &&& (cell is None ==> (r.table_id == 0 && r.table_row == 0 && r.table_col == 0 && !r.is_in_table_in_table))
        },
{
    let rs = para_runs(ctx, p, cell);
    let head = p.runs@.map_values(|r: Run| run_view(ctx, p, r, cell));
    assert forall|k: int| 0 <= k < p.runs@.len() implies #[trigger] rs[k] == head[k] by {}
}

/// The runs inside a cell are placed in that cell: its table's id, its
/// row and column, and whether its table is itself nested.
pub proof fn law_cell_context(t: Table, c: Cell)
    ensures
        cell_ctx(t, c).table_id == t.id,
        cell_ctx(t, c).row == c.row,
        cell_ctx(t, c).col == c.col,
        cell_ctx(t, c).is_table_in_table == (t.nesting_depth >= 1),
{
}

} // verus!
