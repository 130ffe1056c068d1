//! `Contents/sectionN.xml`: the body tree of paragraphs, runs and
//! (possibly nested) tables.

pub mod parser;

use vstd::prelude::*;

verus! {

/// One parsed body section.
#[derive(Debug, Default, PartialEq, Eq)]
pub struct Section {
    /// The `N` of the `Contents/sectionN.xml` part.
    pub index: u32,
    /// `outlineShapeIDRef` of the section's `<hp:secPr>`, 0 when absent.
    pub outline_shape_id_ref: u32,
    /// Paragraphs in document order.
    pub paragraphs: Vec<Paragraph>,
}

/// One `<hp:p>` paragraph.
#[derive(Debug, Default, PartialEq, Eq)]
pub struct Paragraph {
    pub para_pr_id_ref: u32,
    pub style_id_ref: u32,
    /// Runs in document order.
    pub runs: Vec<Run>,
    /// Tables owned by this paragraph, in document order.
    pub tables: Vec<Table>,
}

/// One `<hp:run>`.
#[derive(Debug, Default, PartialEq, Eq)]
pub struct Run {
    pub char_pr_id_ref: u32,
    /// The concatenated text of the run's `<hp:t>` children.
    pub text: String,
    /// Whether the run lies inside a hyperlink field.
    pub is_hyperlink: bool,
}

/// One `<hp:tbl>` table.
#[derive(Debug, Default, PartialEq, Eq)]
pub struct Table {
    pub id: u32,
    pub border_fill_id_ref: u32,
    pub row_cnt: u32,
    pub col_cnt: u32,
    pub cell_spacing: u32,
    pub rows: Vec<Row>,
    /// 0 for a body table, one more for each enclosing table.
    pub nesting_depth: u32,
    pub text_wrap: String,
    pub text_flow: String,
    pub numbering_type: String,
    pub lock: u32,
    pub no_adjust: u32,
    pub width: u32,
    pub height: u32,
    pub size_protect: bool,
    pub treat_as_char: bool,
    pub flow_with_text: bool,
    pub allow_overlap: bool,
    pub hold_anchor_and_so: bool,
    pub affect_l_spacing: bool,
    pub horz_rel_to: String,
    pub vert_rel_to: String,
    pub horz_align: String,
    pub vert_align: String,
    pub horz_offset: i32,
    pub vert_offset: i32,
    pub out_margin_left: u32,
    pub out_margin_right: u32,
    pub out_margin_top: u32,
    pub out_margin_bottom: u32,
    pub has_caption: bool,
    pub caption_side: String,
    pub caption_size: u32,
    pub caption_spacing: i32,
    pub caption_full_size: bool,
    pub caption_line_wrap: bool,
}

/// One `<hp:tr>` row.
#[derive(Debug, Default, PartialEq, Eq)]
pub struct Row {
    pub cells: Vec<Cell>,
}

/// One `<hp:tc>` cell.
#[derive(Debug, Default, PartialEq, Eq)]
pub struct Cell {
    pub row: u32,
    pub col: u32,
    pub border_fill_id_ref: u32,
    pub paragraphs: Vec<Paragraph>,
}

// ---------------------------------------------------------------------------
// Paragraphs in document order (pre-order, descending into cells)
// ---------------------------------------------------------------------------

/// Every paragraph of `ps` and of the tables below them, pre-order.
pub open spec fn paras_preorder(ps: Seq<Paragraph>) -> Seq<Paragraph>
    decreases ps, 0int,
{
    if ps.len() == 0 {
        Seq::empty()
    } else {
        paras_preorder(ps.drop_last()) + seq![ps.last()] + tables_paras(ps.last().tables@)
    }
}

/// The paragraphs inside the cells of `ts`, pre-order.
pub open spec fn tables_paras(ts: Seq<Table>) -> Seq<Paragraph>
    decreases ts, 0int,
{
    if ts.len() == 0 {
        Seq::empty()
    } else {
        tables_paras(ts.drop_last()) + rows_paras(ts.last().rows@)
    }
}

/// The paragraphs inside the cells of `rs`, pre-order.
pub open spec fn rows_paras(rs: Seq<Row>) -> Seq<Paragraph>
    decreases rs, 0int,
{
    if rs.len() == 0 {
        Seq::empty()
    } else {
        rows_paras(rs.drop_last()) + cells_paras(rs.last().cells@)
    }
}

/// The paragraphs inside `cs`, pre-order.
pub open spec fn cells_paras(cs: Seq<Cell>) -> Seq<Paragraph>
    decreases cs, 0int,
{
    if cs.len() == 0 {
        Seq::empty()
    } else {
        cells_paras(cs.drop_last()) + paras_preorder(cs.last().paragraphs@)
    }
}

/// The contents of a vector of references.
pub open spec fn derefs<T>(v: Seq<&T>) -> Seq<T> {
    v.map_values(|r: &T| *r)
}

proof fn lemma_derefs_push<T>(v: Seq<&T>, x: &T)
    ensures
        derefs(v.push(x)) == derefs(v).push(*x),
{
    assert(derefs(v.push(x)) =~= derefs(v).push(*x));
}

fn push_paras<'a>(ps: &'a Vec<Paragraph>, out: &mut Vec<&'a Paragraph>)
    ensures
        derefs(final(out)@) == derefs(old(out)@) + paras_preorder(ps@),
    decreases ps@, 1int,
{
    let ghost start = derefs(out@);
    let mut i: usize = 0;
    while i < ps.len()
        invariant
            i <= ps@.len(),
            derefs(out@) == start + paras_preorder(ps@.take(i as int)),
        decreases ps.len() - i,
    {
        let p = &ps[i];
        proof {
            lemma_derefs_push(out@, p);
        }
        out.push(p);
        let ghost mid = derefs(out@);
        let mut j: usize = 0;
        while j < p.tables.len()
            invariant
                j <= p.tables@.len(),
                i < ps@.len(),
                *p == ps@[i as int],
                derefs(out@) == mid + tables_paras(p.tables@.take(j as int)),
            decreases p.tables.len() - j,
        {
            let t = &p.tables[j];
            let ghost mid_t = derefs(out@);
            let mut r: usize = 0;
            while r < t.rows.len()
                invariant
                    r <= t.rows@.len(),
                    i < ps@.len(),
                    *p == ps@[i as int],
                    j < p.tables@.len(),
                    *t == p.tables@[j as int],
                    derefs(out@) == mid_t + rows_paras(t.rows@.take(r as int)),
                decreases t.rows.len() - r,
            {
                let row = &t.rows[r];
                let ghost mid_r = derefs(out@);
                let mut c: usize = 0;
                while c < row.cells.len()
                    invariant
                        c <= row.cells@.len(),
                        i < ps@.len(),
                        *p == ps@[i as int],
                        j < p.tables@.len(),
                        *t == p.tables@[j as int],
                        r < t.rows@.len(),
                        *row == t.rows@[r as int],
                        derefs(out@) == mid_r + cells_paras(row.cells@.take(c as int)),
                    decreases row.cells.len() - c,
                {
                    let cell = &row.cells[c];
                    proof {
                        assert(decreases_to!(ps@ => ps@[i as int]));
                        assert(decreases_to!(ps@[i as int] => ps@[i as int].tables));
                        assert(decreases_to!(p.tables => p.tables@));
                        assert(decreases_to!(p.tables@ => p.tables@[j as int]));
                        assert(decreases_to!(t.rows => t.rows@));
                        assert(decreases_to!(t.rows@ => t.rows@[r as int]));
                        assert(decreases_to!(row.cells => row.cells@));
                        assert(decreases_to!(row.cells@ => row.cells@[c as int]));
                        assert(decreases_to!(cell.paragraphs => cell.paragraphs@));
                    }
                    push_paras(&cell.paragraphs, out);
                    proof {
                        let s = row.cells@.take(c + 1);
                        assert(s.drop_last() =~= row.cells@.take(c as int));
                    }
                    c = c + 1;
                }
                proof {
                    assert(row.cells@.take(row.cells@.len() as int) =~= row.cells@);
                    let s = t.rows@.take(r + 1);
                    assert(s.drop_last() =~= t.rows@.take(r as int));
                }
                r = r + 1;
            }
            proof {
                assert(t.rows@.take(t.rows@.len() as int) =~= t.rows@);
                let s = p.tables@.take(j + 1);
                assert(s.drop_last() =~= p.tables@.take(j as int));
            }
            j = j + 1;
        }
        proof {
            assert(p.tables@.take(p.tables@.len() as int) =~= p.tables@);
            let s = ps@.take(i + 1);
            assert(s.drop_last() =~= ps@.take(i as int));
        }
        i = i + 1;
    }
    proof {
        assert(ps@.take(ps@.len() as int) =~= ps@);
    }
}

impl Section {
    /// Every paragraph of the section, descending into table cells, in
    /// document order.
    pub fn all_paragraphs(&self) -> (r: Vec<&Paragraph>)
        ensures
            derefs(r@) == paras_preorder(self.paragraphs@),
    {
        let mut out: Vec<&Paragraph> = Vec::new();
        push_paras(&self.paragraphs, &mut out);
        assert(derefs(Seq::<&Paragraph>::empty()) =~= Seq::<Paragraph>::empty());
        out
    }
}


// ---------------------------------------------------------------------------
// Tables in walk order
// ---------------------------------------------------------------------------

/// The tables met walking paragraphs `ps` in document order: each
/// table, then the tables inside its cells, then its next sibling.
pub open spec fn paras_tables(ps: Seq<Paragraph>) -> Seq<Table>
    decreases ps, 0int,
{
    if ps.len() == 0 {
        Seq::empty()
    } else {
        paras_tables(ps.drop_last()) + tables_preorder(ps.last().tables@)
    }
}

/// Tables `ts` in document order, each followed by the tables inside it.
pub open spec fn tables_preorder(ts: Seq<Table>) -> Seq<Table>
    decreases ts, 0int,
{
    if ts.len() == 0 {
        Seq::empty()
    } else {
        tables_preorder(ts.drop_last()) + seq![ts.last()] + rows_tables(ts.last().rows@)
    }
}

/// The tables inside the cells of `rs`.
pub open spec fn rows_tables(rs: Seq<Row>) -> Seq<Table>
    decreases rs, 0int,
{
    if rs.len() == 0 {
        Seq::empty()
    } else {
        rows_tables(rs.drop_last()) + cells_tables(rs.last().cells@)
    }
}

/// The tables inside `cs`.
pub open spec fn cells_tables(cs: Seq<Cell>) -> Seq<Table>
    decreases cs, 0int,
{
    if cs.len() == 0 {
        Seq::empty()
    } else {
        cells_tables(cs.drop_last()) + paras_tables(cs.last().paragraphs@)
    }
}

fn push_tables<'a>(ps: &'a Vec<Paragraph>, out: &mut Vec<&'a Table>)
    ensures
        derefs(final(out)@) == derefs(old(out)@) + paras_tables(ps@),
    decreases ps@, 1int,
{
    let ghost start = derefs(out@);
    let mut i: usize = 0;
    while i < ps.len()
        invariant
            i <= ps@.len(),
            derefs(out@) == start + paras_tables(ps@.take(i as int)),
        decreases ps.len() - i,
    {
        let p = &ps[i];
        let ghost mid = derefs(out@);
        let mut j: usize = 0;
        while j < p.tables.len()
            invariant
                j <= p.tables@.len(),
                i < ps@.len(),
                *p == ps@[i as int],
                derefs(out@) == mid + tables_preorder(p.tables@.take(j as int)),
            decreases p.tables.len() - j,
        {
            let t = &p.tables[j];
            proof {
                lemma_derefs_push(out@, t);
            }
            out.push(t);
            let ghost mid_t = derefs(out@);
            let mut r: usize = 0;
            while r < t.rows.len()
                invariant
                    r <= t.rows@.len(),
                    i < ps@.len(),
                    *p == ps@[i as int],
                    j < p.tables@.len(),
                    *t == p.tables@[j as int],
                    derefs(out@) == mid_t + rows_tables(t.rows@.take(r as int)),
                decreases t.rows.len() - r,
            {
                let row = &t.rows[r];
                let ghost mid_r = derefs(out@);
                let mut c: usize = 0;
                while c < row.cells.len()
                    invariant
                        c <= row.cells@.len(),
                        i < ps@.len(),
                        *p == ps@[i as int],
                        j < p.tables@.len(),
                        *t == p.tables@[j as int],
                        r < t.rows@.len(),
                        *row == t.rows@[r as int],
                        derefs(out@) == mid_r + cells_tables(row.cells@.take(c as int)),
                    decreases row.cells.len() - c,
                {
                    let cell = &row.cells[c];
                    proof {
                        assert(decreases_to!(ps@ => ps@[i as int]));
                        assert(decreases_to!(ps@[i as int] => ps@[i as int].tables));
                        assert(decreases_to!(p.tables => p.tables@));
                        assert(decreases_to!(p.tables@ => p.tables@[j as int]));
                        assert(decreases_to!(t.rows => t.rows@));
                        assert(decreases_to!(t.rows@ => t.rows@[r as int]));
                        assert(decreases_to!(row.cells => row.cells@));
                        assert(decreases_to!(row.cells@ => row.cells@[c as int]));
                        assert(decreases_to!(cell.paragraphs => cell.paragraphs@));
                    }
                    push_tables(&cell.paragraphs, out);
                    proof {
                        let s = row.cells@.take(c + 1);
                        assert(s.drop_last() =~= row.cells@.take(c as int));
                    }
                    c = c + 1;
                }
                proof {
                    assert(row.cells@.take(row.cells@.len() as int) =~= row.cells@);
                    let s = t.rows@.take(r + 1);
                    assert(s.drop_last() =~= t.rows@.take(r as int));
                }
                r = r + 1;
            }
            proof {
                assert(t.rows@.take(t.rows@.len() as int) =~= t.rows@);
                let s = p.tables@.take(j + 1);
                assert(s.drop_last() =~= p.tables@.take(j as int));
                assert(s.last() == p.tables@[j as int]);
                assert(derefs(out@) =~= mid + tables_preorder(s));
            }
            j = j + 1;
        }
        proof {
            assert(p.tables@.take(p.tables@.len() as int) =~= p.tables@);
            let s = ps@.take(i + 1);
            assert(s.drop_last() =~= ps@.take(i as int));
        }
        i = i + 1;
    }
    proof {
        assert(ps@.take(ps@.len() as int) =~= ps@);
    }
}

impl Section {
    /// Every table of the section, at any depth, in document order:
    /// each table is followed by the tables inside it.
    pub fn all_tables(&self) -> (r: Vec<&Table>)
        ensures
            derefs(r@) == paras_tables(self.paragraphs@),
    {
        let mut out: Vec<&Table> = Vec::new();
        push_tables(&self.paragraphs, &mut out);
        assert(derefs(Seq::<&Table>::empty()) =~= Seq::<Table>::empty());
        out
    }
}


// ---------------------------------------------------------------------------
// Views: the tree with its strings taken as characters
// ---------------------------------------------------------------------------

/// A run, its text as characters.
pub struct RunV {
    pub char_pr_id_ref: u32,
    pub text: Seq<char>,
    pub is_hyperlink: bool,
}

/// A table, its strings as characters and its rows as views.
pub struct TableV {
    pub id: u32,
    pub border_fill_id_ref: u32,
    pub row_cnt: u32,
    pub col_cnt: u32,
    pub cell_spacing: u32,
    pub rows: Seq<RowV>,
    pub nesting_depth: u32,
    pub text_wrap: Seq<char>,
    pub text_flow: Seq<char>,
    pub numbering_type: Seq<char>,
    pub lock: u32,
    pub no_adjust: u32,
    pub width: u32,
    pub height: u32,
    pub size_protect: bool,
    pub treat_as_char: bool,
    pub flow_with_text: bool,
    pub allow_overlap: bool,
    pub hold_anchor_and_so: bool,
    pub affect_l_spacing: bool,
    pub horz_rel_to: Seq<char>,
    pub vert_rel_to: Seq<char>,
    pub horz_align: Seq<char>,
    pub vert_align: Seq<char>,
    pub horz_offset: i32,
    pub vert_offset: i32,
    pub out_margin_left: u32,
    pub out_margin_right: u32,
    pub out_margin_top: u32,
    pub out_margin_bottom: u32,
    pub has_caption: bool,
    pub caption_side: Seq<char>,
    pub caption_size: u32,
    pub caption_spacing: i32,
    pub caption_full_size: bool,
    pub caption_line_wrap: bool,
}

/// A row of cell views.
pub struct RowV {
    pub cells: Seq<CellV>,
}

/// A cell, its paragraphs as views.
pub struct CellV {
    pub row: u32,
    pub col: u32,
    pub border_fill_id_ref: u32,
    pub paragraphs: Seq<ParaV>,
}

/// A paragraph, its runs and tables as views.
pub struct ParaV {
    pub para_pr_id_ref: u32,
    pub style_id_ref: u32,
    pub runs: Seq<RunV>,
    pub tables: Seq<TableV>,
}

/// A section, its paragraphs as views.
pub struct SectionV {
    pub index: u32,
    pub outline_shape_id_ref: u32,
    pub paragraphs: Seq<ParaV>,
}

/// The view of a run.
pub open spec fn run_v(r: Run) -> RunV {
    RunV { char_pr_id_ref: r.char_pr_id_ref, text: r.text@, is_hyperlink: r.is_hyperlink }
}

/// The views of runs.
pub open spec fn runs_v(rs: Seq<Run>) -> Seq<RunV> {
    rs.map_values(|r: Run| run_v(r))
}

/// The view of table `t` whose rows have the views `rows`.
pub open spec fn table_v(t: Table, rows: Seq<RowV>) -> TableV {
    TableV {
        id: t.id,
        border_fill_id_ref: t.border_fill_id_ref,
        row_cnt: t.row_cnt,
        col_cnt: t.col_cnt,
        cell_spacing: t.cell_spacing,
        rows: rows,
        nesting_depth: t.nesting_depth,
        text_wrap: t.text_wrap@,
        text_flow: t.text_flow@,
        numbering_type: t.numbering_type@,
        lock: t.lock,
        no_adjust: t.no_adjust,
        width: t.width,
        height: t.height,
        size_protect: t.size_protect,
        treat_as_char: t.treat_as_char,
        flow_with_text: t.flow_with_text,
        allow_overlap: t.allow_overlap,
        hold_anchor_and_so: t.hold_anchor_and_so,
        affect_l_spacing: t.affect_l_spacing,
        horz_rel_to: t.horz_rel_to@,
        vert_rel_to: t.vert_rel_to@,
        horz_align: t.horz_align@,
        vert_align: t.vert_align@,
        horz_offset: t.horz_offset,
        vert_offset: t.vert_offset,
        out_margin_left: t.out_margin_left,
        out_margin_right: t.out_margin_right,
        out_margin_top: t.out_margin_top,
        out_margin_bottom: t.out_margin_bottom,
        has_caption: t.has_caption,
        caption_side: t.caption_side@,
        caption_size: t.caption_size,
        caption_spacing: t.caption_spacing,
        caption_full_size: t.caption_full_size,
        caption_line_wrap: t.caption_line_wrap,
    }
}

/// The view of paragraph `p` whose tables have the views `tables`.
pub open spec fn para_v(p: Paragraph, tables: Seq<TableV>) -> ParaV {
    ParaV {
        para_pr_id_ref: p.para_pr_id_ref,
        style_id_ref: p.style_id_ref,
        runs: runs_v(p.runs@),
        tables,
    }
}

/// The views of tables.
#[verifier::opaque]
pub open spec fn tables_v(ts: Seq<Table>) -> Seq<TableV>
    decreases ts, 0int,
{
    if ts.len() == 0 {
        Seq::empty()
    } else {
        tables_v(ts.drop_last()).push(table_v(ts.last(), rows_v(ts.last().rows@)))
    }
}

/// The views of rows.
#[verifier::opaque]
pub open spec fn rows_v(rs: Seq<Row>) -> Seq<RowV>
    decreases rs, 0int,
{
    if rs.len() == 0 {
        Seq::empty()
    } else {
        rows_v(rs.drop_last()).push(RowV { cells: cells_v(rs.last().cells@) })
    }
}

/// The views of cells.
#[verifier::opaque]
pub open spec fn cells_v(cs: Seq<Cell>) -> Seq<CellV>
    decreases cs, 0int,
{
    if cs.len() == 0 {
        Seq::empty()
    } else {
        let c = cs.last();
        cells_v(cs.drop_last()).push(
            CellV {
                row: c.row,
                col: c.col,
                border_fill_id_ref: c.border_fill_id_ref,
                paragraphs: paras_v(c.paragraphs@),
            },
        )
    }
}

/// The views of paragraphs.
#[verifier::opaque]
pub open spec fn paras_v(ps: Seq<Paragraph>) -> Seq<ParaV>
    decreases ps, 0int,
{
    if ps.len() == 0 {
        Seq::empty()
    } else {
        paras_v(ps.drop_last()).push(para_v(ps.last(), tables_v(ps.last().tables@)))
    }
}

/// The view of one table.
pub open spec fn tbl_v(t: Table) -> TableV {
    table_v(t, rows_v(t.rows@))
}

/// The view of one row.
pub open spec fn row_v(r: Row) -> RowV {
    RowV { cells: cells_v(r.cells@) }
}

/// The view of one cell.
pub open spec fn cell_v(c: Cell) -> CellV {
    CellV {
        row: c.row,
        col: c.col,
        border_fill_id_ref: c.border_fill_id_ref,
        paragraphs: paras_v(c.paragraphs@),
    }
}

/// The view of one paragraph.
pub open spec fn par_v(p: Paragraph) -> ParaV {
    para_v(p, tables_v(p.tables@))
}

/// The view of a section.
pub open spec fn section_v(s: Section) -> SectionV {
    SectionV {
        index: s.index,
        outline_shape_id_ref: s.outline_shape_id_ref,
        paragraphs: paras_v(s.paragraphs@),
    }
}

pub proof fn lemma_views_empty()
    ensures
        tables_v(Seq::<Table>::empty()) == Seq::<TableV>::empty(),
        rows_v(Seq::<Row>::empty()) == Seq::<RowV>::empty(),
        cells_v(Seq::<Cell>::empty()) == Seq::<CellV>::empty(),
        paras_v(Seq::<Paragraph>::empty()) == Seq::<ParaV>::empty(),
{
    reveal_with_fuel(tables_v, 1);
    reveal_with_fuel(rows_v, 1);
    reveal_with_fuel(cells_v, 1);
    reveal_with_fuel(paras_v, 1);
}

pub proof fn lemma_tables_v_push(ts: Seq<Table>, t: Table)
    ensures
        tables_v(ts.push(t)) == tables_v(ts).push(tbl_v(t)),
{
    reveal_with_fuel(tables_v, 1);
    reveal_with_fuel(rows_v, 1);
    reveal_with_fuel(cells_v, 1);
    reveal_with_fuel(paras_v, 1);
    assert(ts.push(t).drop_last() =~= ts);
}

pub proof fn lemma_tables_v_add(a: Seq<Table>, b: Seq<Table>)
    ensures
        tables_v(a + b) == tables_v(a) + tables_v(b),
    decreases b.len(),
{
    reveal_with_fuel(tables_v, 1);
    reveal_with_fuel(rows_v, 1);
    reveal_with_fuel(cells_v, 1);
    reveal_with_fuel(paras_v, 1);
    if b.len() == 0 {
        assert(a + b =~= a);
        assert(tables_v(a) + tables_v(b) =~= tables_v(a));
    } else {
        lemma_tables_v_add(a, b.drop_last());
        assert((a + b).drop_last() =~= a + b.drop_last());
        assert((a + b).last() == b.last());
        assert(tables_v(a + b) =~= tables_v(a) + tables_v(b));
    }
}

pub proof fn lemma_rows_v_push(rs: Seq<Row>, r: Row)
    ensures
        rows_v(rs.push(r)) == rows_v(rs).push(row_v(r)),
{
    reveal_with_fuel(tables_v, 1);
    reveal_with_fuel(rows_v, 1);
    reveal_with_fuel(cells_v, 1);
    reveal_with_fuel(paras_v, 1);
    assert(rs.push(r).drop_last() =~= rs);
}

pub proof fn lemma_cells_v_push(cs: Seq<Cell>, c: Cell)
    ensures
        cells_v(cs.push(c)) == cells_v(cs).push(cell_v(c)),
{
    reveal_with_fuel(tables_v, 1);
    reveal_with_fuel(rows_v, 1);
    reveal_with_fuel(cells_v, 1);
    reveal_with_fuel(paras_v, 1);
    assert(cs.push(c).drop_last() =~= cs);
}

pub proof fn lemma_paras_v_push(ps: Seq<Paragraph>, p: Paragraph)
    ensures
        paras_v(ps.push(p)) == paras_v(ps).push(par_v(p)),
{
    reveal_with_fuel(tables_v, 1);
    reveal_with_fuel(rows_v, 1);
    reveal_with_fuel(cells_v, 1);
    reveal_with_fuel(paras_v, 1);
    assert(ps.push(p).drop_last() =~= ps);
}

pub proof fn lemma_runs_v_push(rs: Seq<Run>, r: Run)
    ensures
        runs_v(rs.push(r)) == runs_v(rs).push(run_v(r)),
{
    assert(runs_v(rs.push(r)) =~= runs_v(rs).push(run_v(r)));
}

} // verus!
