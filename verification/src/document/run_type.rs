//! The run stream: one record per body run, in document order, carrying
//! where the run sits (table, cell, nesting) and what marks it.

use vstd::prelude::*;
use crate::document::header::types::Style;
use crate::document::header::{has_style_named, HeaderTables};
use crate::document::section::{Cell, Paragraph, Row, Run, Section, Table};

verus! {

broadcast use vstd::std_specs::hash::group_hash_axioms;

/// One run of the document, as the validators see it.
#[derive(Debug, Default, Clone)]
pub struct RunTypeInfo {
    pub char_pr_id_ref: u32,
    pub para_pr_id_ref: u32,
    pub text: String,
    /// Always 0: pagination is not computed.
    pub page_no: u32,
    /// Always 0: pagination is not computed.
    pub line_no: u32,
    pub is_in_table: bool,
    pub is_in_table_in_table: bool,
    /// Always false: drawing-object containers are not tracked.
    pub is_in_shape: bool,
    pub table_id: u32,
    pub table_row: u32,
    pub table_col: u32,
    pub outline_shape_id_ref: u32,
    pub is_hyperlink: bool,
    /// Whether the paragraph's style differs from the default style.
    pub is_style: bool,
    /// Name of the paragraph's style; empty when the style id is unknown.
    pub style_name: String,
}

/// A run record with its strings taken as characters.
pub struct RunView {
    pub char_pr_id_ref: u32,
    pub para_pr_id_ref: u32,
    pub text: Seq<char>,
    pub page_no: u32,
    pub line_no: u32,
    pub is_in_table: bool,
    pub is_in_table_in_table: bool,
    pub is_in_shape: bool,
    pub table_id: u32,
    pub table_row: u32,
    pub table_col: u32,
    pub outline_shape_id_ref: u32,
    pub is_hyperlink: bool,
    pub is_style: bool,
    pub style_name: Seq<char>,
}

impl View for RunTypeInfo {
    type V = RunView;

    open spec fn view(&self) -> RunView {
        RunView {
            char_pr_id_ref: self.char_pr_id_ref,
            para_pr_id_ref: self.para_pr_id_ref,
            text: self.text@,
            page_no: self.page_no,
            line_no: self.line_no,
            is_in_table: self.is_in_table,
            is_in_table_in_table: self.is_in_table_in_table,
            is_in_shape: self.is_in_shape,
            table_id: self.table_id,
            table_row: self.table_row,
            table_col: self.table_col,
            outline_shape_id_ref: self.outline_shape_id_ref,
            is_hyperlink: self.is_hyperlink,
            is_style: self.is_style,
            style_name: self.style_name@,
        }
    }
}

/// The views of a run sequence.
pub open spec fn run_views(v: Seq<RunTypeInfo>) -> Seq<RunView> {
    v.map_values(|r: RunTypeInfo| r@)
}

/// What a run inside a table cell inherits from it.
#[derive(Clone, Copy)]
pub struct CellCtx {
    /// Id of the innermost enclosing table.
    pub table_id: u32,
    pub row: u32,
    pub col: u32,
    /// Whether the innermost enclosing table is itself nested.
    pub is_table_in_table: bool,
}

/// What every run of one section shares.
pub struct WalkCtx {
    pub outline_shape_id_ref: u32,
    pub default_style_id: u32,
    pub styles: Map<u32, Style>,
}

/// The name of style `id`, empty when there is none.
pub open spec fn style_name_of(styles: Map<u32, Style>, id: u32) -> Seq<char> {
    if styles.contains_key(id) {
        styles[id].name@
    } else {
        Seq::empty()
    }
}

/// The record of run `r` of paragraph `p`.
pub open spec fn run_view(ctx: WalkCtx, p: Paragraph, r: Run, cell: Option<CellCtx>) -> RunView {
    RunView {
        char_pr_id_ref: r.char_pr_id_ref,
        para_pr_id_ref: p.para_pr_id_ref,
        text: r.text@,
        page_no: 0,
        line_no: 0,
        is_in_table: cell is Some,
        is_in_table_in_table: match cell {
            Some(c) => c.is_table_in_table,
            None => false,
        },
        is_in_shape: false,
        table_id: match cell {
            Some(c) => c.table_id,
            None => 0,
        },
        table_row: match cell {
            Some(c) => c.row,
            None => 0,
        },
        table_col: match cell {
            Some(c) => c.col,
            None => 0,
        },
        outline_shape_id_ref: ctx.outline_shape_id_ref,
        is_hyperlink: r.is_hyperlink,
        is_style: p.style_id_ref != ctx.default_style_id,
        style_name: style_name_of(ctx.styles, p.style_id_ref),
    }
}

/// The context a cell gives the runs inside it.
pub open spec fn cell_ctx(t: Table, c: Cell) -> CellCtx {
    CellCtx { table_id: t.id, row: c.row, col: c.col, is_table_in_table: t.nesting_depth >= 1 }
}

/// The records of paragraph `p` and of everything inside its tables.
pub open spec fn para_runs(ctx: WalkCtx, p: Paragraph, cell: Option<CellCtx>) -> Seq<RunView>
    decreases p, 1int,
{
    p.runs@.map_values(|r: Run| run_view(ctx, p, r, cell)) + tables_runs(ctx, p.tables@)
}

/// The records of the runs inside tables `ts`.
pub open spec fn tables_runs(ctx: WalkCtx, ts: Seq<Table>) -> Seq<RunView>
    decreases ts, 0int,
{
    if ts.len() == 0 {
        Seq::empty()
    } else {
        tables_runs(ctx, ts.drop_last()) + rows_runs(ctx, ts.last(), ts.last().rows@)
    }
}

/// The records of the runs inside rows `rs` of table `t`.
pub open spec fn rows_runs(ctx: WalkCtx, t: Table, rs: Seq<Row>) -> Seq<RunView>
    decreases rs, 0int,
{
    if rs.len() == 0 {
        Seq::empty()
    } else {
        rows_runs(ctx, t, rs.drop_last()) + cells_runs(ctx, t, rs.last().cells@)
    }
}

/// The records of the runs inside cells `cs` of table `t`.
pub open spec fn cells_runs(ctx: WalkCtx, t: Table, cs: Seq<Cell>) -> Seq<RunView>
    decreases cs, 0int,
{
    if cs.len() == 0 {
        Seq::empty()
    } else {
        cells_runs(ctx, t, cs.drop_last()) + paras_runs(
            ctx,
            cs.last().paragraphs@,
            Some(cell_ctx(t, cs.last())),
        )
    }
}

/// The records of paragraphs `ps`, in order.
pub open spec fn paras_runs(ctx: WalkCtx, ps: Seq<Paragraph>, cell: Option<CellCtx>) -> Seq<
    RunView,
>
    decreases ps, 0int,
{
    if ps.len() == 0 {
        Seq::empty()
    } else {
        paras_runs(ctx, ps.drop_last(), cell) + para_runs(ctx, ps.last(), cell)
    }
}

/// The records of sections `secs`, in order.
pub open spec fn sections_runs(default_style_id: u32, styles: Map<u32, Style>, secs: Seq<Section>) -> Seq<
    RunView,
>
    decreases secs.len(),
{
    if secs.len() == 0 {
        Seq::empty()
    } else {
        sections_runs(default_style_id, styles, secs.drop_last()) + paras_runs(
            WalkCtx {
                outline_shape_id_ref: secs.last().outline_shape_id_ref,
                default_style_id,
                styles,
            },
            secs.last().paragraphs@,
            None,
        )
    }
}

/// Whether `id` can be the default style id of `h`: the id of a style
/// named 바탕글, or 0 when there is none.
pub open spec fn default_style_choice(h: HeaderTables, id: u32) -> bool {
    if has_style_named(h, "바탕글"@) {
        exists|k: u32| #[trigger]
            h.styles@.contains_key(k) && h.styles@[k].name@ == "바탕글"@ && h.styles@[k].id == id
    } else {
        id == 0
    }
}

/// The id of the default style (named 바탕글), or 0 when the header has
/// none.
pub fn default_style_id(header: &HeaderTables) -> (r: u32)
    ensures
        default_style_choice(*header, r),
{
    match header.style_by_name("바탕글") {
        Some(s) => s.id,
        None => 0,
    }
}

proof fn lemma_push_view(v: Seq<RunTypeInfo>, x: RunTypeInfo)
    ensures
        run_views(v.push(x)) == run_views(v).push(x@),
{
    assert(run_views(v.push(x)) =~= run_views(v).push(x@));
}

fn walk_paragraphs(
    ctx: Ghost<WalkCtx>,
    outline: u32,
    default_style: u32,
    header: &HeaderTables,
    ps: &Vec<Paragraph>,
    cell: Option<CellCtx>,
    out: &mut Vec<RunTypeInfo>,
)
    requires
        ctx@.outline_shape_id_ref == outline,
        ctx@.default_style_id == default_style,
        ctx@.styles == header.styles@,
    ensures
        run_views(final(out)@) == run_views(old(out)@) + paras_runs(ctx@, ps@, cell),
    decreases ps@, 2int,
{
    let ghost start = run_views(out@);
    let mut i: usize = 0;
    while i < ps.len()
        invariant
            i <= ps@.len(),
            ctx@.outline_shape_id_ref == outline,
            ctx@.default_style_id == default_style,
            ctx@.styles == header.styles@,
            run_views(out@) == start + paras_runs(ctx@, ps@.take(i as int), cell),
        decreases ps.len() - i,
    {
        let p = &ps[i];
        let ghost mid = run_views(out@);
        let is_style = p.style_id_ref != default_style;
        let mut j: usize = 0;
        while j < p.runs.len()
            invariant
                j <= p.runs@.len(),
                ctx@.outline_shape_id_ref == outline,
                ctx@.default_style_id == default_style,
                ctx@.styles == header.styles@,
                is_style == (p.style_id_ref != default_style),
                run_views(out@) == mid + p.runs@.take(j as int).map_values(
                    |r: Run| run_view(ctx@, *p, r, cell),
                ),
            decreases p.runs.len() - j,
        {
            let run = &p.runs[j];
            let style_name = match header.styles.get(&p.style_id_ref) {
                Some(s) => s.name.clone(),
                None => String::new(),
            };
            let info = RunTypeInfo {
                char_pr_id_ref: run.char_pr_id_ref,
                para_pr_id_ref: p.para_pr_id_ref,
                text: run.text.clone(),
                page_no: 0,
                line_no: 0,
                is_in_table: cell.is_some(),
                is_in_table_in_table: match cell {
                    Some(c) => c.is_table_in_table,
                    None => false,
                },
                is_in_shape: false,
                table_id: match cell {
                    Some(c) => c.table_id,
                    None => 0,
                },
                table_row: match cell {
                    Some(c) => c.row,
                    None => 0,
                },
                table_col: match cell {
                    Some(c) => c.col,
                    None => 0,
                },
                outline_shape_id_ref: outline,
                is_hyperlink: run.is_hyperlink,
                is_style,
                style_name,
            };
            proof {
                lemma_push_view(out@, info);
                assert(info@ == run_view(ctx@, *p, *run, cell));
                assert(p.runs@.take(j + 1).map_values(|r: Run| run_view(ctx@, *p, r, cell))
                    =~= p.runs@.take(j as int).map_values(|r: Run| run_view(ctx@, *p, r, cell)).push(
                    run_view(ctx@, *p, *run, cell),
                ));
            }
            out.push(info);
            j = j + 1;
        }
        proof {
            assert(p.runs@.take(p.runs@.len() as int) =~= p.runs@);
        }
        let ghost mid2 = run_views(out@);
        let mut k: usize = 0;
        while k < p.tables.len()
            invariant
                k <= p.tables@.len(),
                i < ps@.len(),
                *p == ps@[i as int],
                ctx@.outline_shape_id_ref == outline,
                ctx@.default_style_id == default_style,
                ctx@.styles == header.styles@,
                run_views(out@) == mid2 + tables_runs(ctx@, p.tables@.take(k as int)),
            decreases p.tables.len() - k,
        {
            let t = &p.tables[k];
            let ghost mid_t = run_views(out@);
            let mut r: usize = 0;
            while r < t.rows.len()
                invariant
                    r <= t.rows@.len(),
                    i < ps@.len(),
                    *p == ps@[i as int],
                    k < p.tables@.len(),
                    *t == p.tables@[k as int],
                    ctx@.outline_shape_id_ref == outline,
                    ctx@.default_style_id == default_style,
                    ctx@.styles == header.styles@,
                    run_views(out@) == mid_t + rows_runs(ctx@, *t, t.rows@.take(r as int)),
                decreases t.rows.len() - r,
            {
                let row = &t.rows[r];
                let ghost mid_r = run_views(out@);
                let mut c: usize = 0;
                while c < row.cells.len()
                    invariant
                        c <= row.cells@.len(),
                        i < ps@.len(),
                        *p == ps@[i as int],
                        k < p.tables@.len(),
                        *t == p.tables@[k as int],
                        r < t.rows@.len(),
                        *row == t.rows@[r as int],
                        ctx@.outline_shape_id_ref == outline,
                        ctx@.default_style_id == default_style,
                        ctx@.styles == header.styles@,
                        run_views(out@) == mid_r + cells_runs(ctx@, *t, row.cells@.take(c as int)),
                    decreases row.cells.len() - c,
                {
                    let cl = &row.cells[c];
                    let cc = CellCtx {
                        table_id: t.id,
                        row: cl.row,
                        col: cl.col,
                        is_table_in_table: t.nesting_depth >= 1,
                    };
                    proof {
                        assert(decreases_to!(ps@ => ps@[i as int]));
                        assert(decreases_to!(ps@[i as int] => ps@[i as int].tables));
                        assert(decreases_to!(p.tables => p.tables@));
                        assert(decreases_to!(p.tables@ => p.tables@[k as int]));
                        assert(decreases_to!(t.rows => t.rows@));
                        assert(decreases_to!(t.rows@ => t.rows@[r as int]));
                        assert(decreases_to!(row.cells => row.cells@));
                        assert(decreases_to!(row.cells@ => row.cells@[c as int]));
                        assert(decreases_to!(cl.paragraphs => cl.paragraphs@));
                    }
                    walk_paragraphs(ctx, outline, default_style, header, &cl.paragraphs, Some(cc), out);
                    proof {
                        let s = row.cells@.take(c + 1);
                        assert(s.drop_last() =~= row.cells@.take(c as int));
                        assert(cc == cell_ctx(*t, *cl));
                    }
                    c = c + 1;
                }
                proof {
                    assert(row.cells@.take(row.cells@.len() as int) =~= row.cells@);
                    let s = t.rows@.take(r + 1);
                    assert(s.drop_last() =~= t.rows@.take(r as int));
                }
                r = r + 1;
            }
            proof {
                assert(t.rows@.take(t.rows@.len() as int) =~= t.rows@);
                let s = p.tables@.take(k + 1);
                assert(s.drop_last() =~= p.tables@.take(k as int));
            }
            k = k + 1;
        }
        proof {
            assert(p.tables@.take(p.tables@.len() as int) =~= p.tables@);
            let s = ps@.take(i + 1);
            assert(s.drop_last() =~= ps@.take(i as int));
            assert(s.last() == *p);
            assert(mid2 == mid + p.runs@.map_values(|r: Run| run_view(ctx@, *p, r, cell)));
            assert(para_runs(ctx@, *p, cell) == p.runs@.map_values(
                |r: Run| run_view(ctx@, *p, r, cell),
            ) + tables_runs(ctx@, p.tables@));
            assert(paras_runs(ctx@, s, cell) == paras_runs(ctx@, ps@.take(i as int), cell)
                + para_runs(ctx@, *p, cell));
            assert(run_views(out@) =~= start + paras_runs(ctx@, s, cell));
        }
        i = i + 1;
    }
    proof {
        assert(ps@.take(ps@.len() as int) =~= ps@);
    }
}

/// Flatten the sections into the run stream, in document order: each
/// paragraph's runs, then the runs inside its tables, cell by cell.
pub fn build_run_type_infos(header: &HeaderTables, sections: &[Section]) -> (r: Vec<RunTypeInfo>)
    ensures
        exists|d: u32|
            default_style_choice(*header, d) && run_views(r@) == sections_runs(
                d,
                header.styles@,
                sections@,
            ),
{
    let default_style = default_style_id(header);
    let mut out: Vec<RunTypeInfo> = Vec::new();
    let mut s: usize = 0;
    assert(run_views(out@) =~= Seq::<RunView>::empty());
    while s < sections.len()
        invariant
            s <= sections@.len(),
            default_style_choice(*header, default_style),
            run_views(out@) == sections_runs(default_style, header.styles@, sections@.take(s as int)),
        decreases sections.len() - s,
    {
        let sec = &sections[s];
        let ghost ctx = WalkCtx {
            outline_shape_id_ref: sec.outline_shape_id_ref,
            default_style_id: default_style,
            styles: header.styles@,
        };
        walk_paragraphs(
            Ghost(ctx),
            sec.outline_shape_id_ref,
            default_style,
            header,
            &sec.paragraphs,
            None,
            &mut out,
        );
        proof {
            let t = sections@.take(s + 1);
            assert(t.drop_last() =~= sections@.take(s as int));
        }
        s = s + 1;
    }
    assert(sections@.take(sections@.len() as int) =~= sections@);
    out
}

} // verus!
