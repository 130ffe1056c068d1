//! The section parser: `Contents/sectionN.xml` events to the body tree.
//!
//! Elements are matched by local name, so the `hp:`/`hs:` prefixes do
//! not matter. Unknown subtrees are skipped whole. Each parser is a
//! spec function over the event sequence and an executable function
//! proved to compute it.

use vstd::prelude::*;
use crate::laws::document::{law_table_nesting_depth, paras_at};
use crate::document::section::{
    lemma_paras_v_push, lemma_rows_v_push, lemma_views_empty, lemma_runs_v_push, lemma_tables_v_add,
    lemma_tables_v_push, lemma_cells_v_push, par_v, paras_v, cell_v, row_v, run_v, runs_v,
    section_v, tables_v, tbl_v, Cell, CellV, ParaV, Paragraph, Row, RowV, Run, RunV, Section,
    SectionV, Table, TableV,
};
use crate::error::{DvcError, DvcResult};
use crate::text::{eq_ignore_case, str_eq, str_eq_ignore_case};
use crate::xml::{
    attr_bool01, attr_bool01_of, attr_i32, attr_i32_of, attr_string, attr_string_of, attr_u32,
    attr_u32_of, events_v, fault_error, fault_error_matches, outcome, skip, skip_from, tokenize, xml_events, xml_faults, FaultView,
    ParseFault, XmlEvent, XmlStream, XmlTag,
};
use vstd::string::*;

verus! {

// ---------------------------------------------------------------------------
// The parse, as spec functions over the events
// ---------------------------------------------------------------------------

/// The depth of the paragraphs inside a cell of a table at `depth`.
pub open spec fn child_depth(depth: u32) -> u32 {
    if depth == u32::MAX {
        u32::MAX
    } else {
        (depth + 1) as u32
    }
}

/// A paragraph given as an empty tag: its two attributes, nothing else.
pub open spec fn empty_para(t: XmlTag) -> Result<ParaV, FaultView> {
    match attr_u32_of(t.attrs@, "paraPrIDRef"@) {
        Err(f) => Err(f),
        Ok(ppr) => match attr_u32_of(t.attrs@, "styleIDRef"@) {
            Err(f) => Err(f),
            Ok(sid) => Ok(ParaV { para_pr_id_ref: ppr, style_id_ref: sid, runs: Seq::empty(), tables: Seq::empty() }),
        },
    }
}

/// Whether a field marker's `type` is `HYPERLINK`, in any case.
pub open spec fn hyperlink_field(t: XmlTag) -> Result<bool, FaultView> {
    match attr_string_of(t.attrs@, "type"@) {
        Err(f) => Err(f),
        Ok(s) => Ok(eq_ignore_case(s, "HYPERLINK"@)),
    }
}

/// The section's outline reference after a `<hp:secPr>`: the first one
/// met wins, and only it is read.
pub open spec fn sec_pr_sink(t: XmlTag, sink: Option<u32>) -> Result<Option<u32>, FaultView> {
    if sink is Some {
        Ok(sink)
    } else {
        match attr_u32_of(t.attrs@, "outlineShapeIDRef"@) {
            Err(f) => Err(f),
            Ok(v) => Ok(Some(v)),
        }
    }
}

/// The table a `<hp:tbl>` start tag opens, at nesting depth `depth`.
pub open spec fn table_head(t: XmlTag, depth: u32) -> Result<TableV, FaultView> {
    match attr_u32_of(t.attrs@, "id"@) {
        Err(f) => Err(f),
        Ok(id) => match attr_u32_of(t.attrs@, "borderFillIDRef"@) {
            Err(f) => Err(f),
            Ok(border_fill_id_ref) => match attr_u32_of(t.attrs@, "rowCnt"@) {
                Err(f) => Err(f),
                Ok(row_cnt) => match attr_u32_of(t.attrs@, "colCnt"@) {
                    Err(f) => Err(f),
                    Ok(col_cnt) => match attr_u32_of(t.attrs@, "cellSpacing"@) {
                        Err(f) => Err(f),
                        Ok(cell_spacing) => match attr_string_of(t.attrs@, "textWrap"@) {
                            Err(f) => Err(f),
                            Ok(text_wrap) => match attr_string_of(t.attrs@, "textFlow"@) {
                                Err(f) => Err(f),
                                Ok(text_flow) => match attr_string_of(t.attrs@, "numberingType"@) {
                                    Err(f) => Err(f),
                                    Ok(numbering_type) => match attr_u32_of(t.attrs@, "lock"@) {
                                        Err(f) => Err(f),
                                        Ok(lock) => match attr_u32_of(t.attrs@, "noAdjust"@) {
                                            Err(f) => Err(f),
                                            Ok(no_adjust) => Ok(TableV { id, border_fill_id_ref, row_cnt, col_cnt, cell_spacing, rows: Seq::empty(), nesting_depth: depth, text_wrap, text_flow, numbering_type, lock, no_adjust, width: 0, height: 0, size_protect: false, treat_as_char: false, flow_with_text: false, allow_overlap: false, hold_anchor_and_so: false, affect_l_spacing: false, horz_rel_to: Seq::empty(), vert_rel_to: Seq::empty(), horz_align: Seq::empty(), vert_align: Seq::empty(), horz_offset: 0, vert_offset: 0, out_margin_left: 0, out_margin_right: 0, out_margin_top: 0, out_margin_bottom: 0, has_caption: false, caption_side: Seq::empty(), caption_size: 0, caption_spacing: 0, caption_full_size: false, caption_line_wrap: false }),
                                        },
                                    },
                                },
                            },
                        },
                    },
                },
            },
        },
    }
}

/// A table after a direct empty child: `<hp:sz>`, `<hp:pos>` and
/// `<hp:outMargin>` set their fields; other children change nothing.
pub open spec fn table_meta(tv: TableV, t: XmlTag) -> Result<TableV, FaultView> {
    if t.name@ == "sz"@ {
        match attr_u32_of(t.attrs@, "width"@) {
            Err(f) => Err(f),
            Ok(width) => match attr_u32_of(t.attrs@, "height"@) {
                Err(f) => Err(f),
                Ok(height) => match attr_bool01_of(t.attrs@, "protect"@) {
                    Err(f) => Err(f),
                    Ok(size_protect) => Ok(TableV { width, height, size_protect, ..tv }),
                },
            },
        }
    } else if t.name@ == "pos"@ {
        match attr_bool01_of(t.attrs@, "treatAsChar"@) {
            Err(f) => Err(f),
            Ok(treat_as_char) => match attr_bool01_of(t.attrs@, "flowWithText"@) {
                Err(f) => Err(f),
                Ok(flow_with_text) => match attr_bool01_of(t.attrs@, "allowOverlap"@) {
                    Err(f) => Err(f),
                    Ok(allow_overlap) => match attr_bool01_of(t.attrs@, "holdAnchorAndSO"@) {
                        Err(f) => Err(f),
                        Ok(hold_anchor_and_so) => match attr_bool01_of(t.attrs@, "affectLSpacing"@) {
                            Err(f) => Err(f),
                            Ok(affect_l_spacing) => match attr_string_of(t.attrs@, "horzRelTo"@) {
                                Err(f) => Err(f),
                                Ok(horz_rel_to) => match attr_string_of(t.attrs@, "vertRelTo"@) {
                                    Err(f) => Err(f),
                                    Ok(vert_rel_to) => match attr_string_of(t.attrs@, "horzAlign"@) {
                                        Err(f) => Err(f),
                                        Ok(horz_align) => match attr_string_of(t.attrs@, "vertAlign"@) {
                                            Err(f) => Err(f),
                                            Ok(vert_align) => match attr_i32_of(t.attrs@, "horzOffset"@) {
                                                Err(f) => Err(f),
                                                Ok(horz_offset) => match attr_i32_of(t.attrs@, "vertOffset"@) {
                                                    Err(f) => Err(f),
                                                    Ok(vert_offset) => Ok(TableV { treat_as_char, flow_with_text, allow_overlap, hold_anchor_and_so, affect_l_spacing, horz_rel_to, vert_rel_to, horz_align, vert_align, horz_offset, vert_offset, ..tv }),
                                                },
                                            },
                                        },
                                    },
                                },
                            },
                        },
                    },
                },
            },
        }
    } else if t.name@ == "outMargin"@ {
        match attr_u32_of(t.attrs@, "left"@) {
            Err(f) => Err(f),
            Ok(out_margin_left) => match attr_u32_of(t.attrs@, "right"@) {
                Err(f) => Err(f),
                Ok(out_margin_right) => match attr_u32_of(t.attrs@, "top"@) {
                    Err(f) => Err(f),
                    Ok(out_margin_top) => match attr_u32_of(t.attrs@, "bottom"@) {
                        Err(f) => Err(f),
                        Ok(out_margin_bottom) => Ok(TableV { out_margin_left, out_margin_right, out_margin_top, out_margin_bottom, ..tv }),
                    },
                },
            },
        }
    } else {
        Ok(tv)
    }
}

/// A table after its `<hp:caption>` start tag.
pub open spec fn caption_meta(tv: TableV, t: XmlTag) -> Result<TableV, FaultView> {
    match attr_string_of(t.attrs@, "side"@) {
        Err(f) => Err(f),
        Ok(caption_side) => match attr_u32_of(t.attrs@, "sz"@) {
            Err(f) => Err(f),
            Ok(caption_size) => match attr_i32_of(t.attrs@, "gap"@) {
                Err(f) => Err(f),
                Ok(caption_spacing) => match attr_bool01_of(t.attrs@, "fullSz"@) {
                    Err(f) => Err(f),
                    Ok(caption_full_size) => match attr_bool01_of(t.attrs@, "lineWrap"@) {
                        Err(f) => Err(f),
                        Ok(caption_line_wrap) => Ok(TableV { has_caption: true, caption_side, caption_size, caption_spacing, caption_full_size, caption_line_wrap, ..tv }),
                    },
                },
            },
        },
    }
}

/// The text of a `<hp:t>` from event `i` on, appended to `out`: text,
/// CDATA and references (kept as written, `&name;`) in order; nested
/// elements are skipped. Yields the text and the position after `</t>`.
pub open spec fn t_loop(ev: Seq<XmlEvent>, i: int, out: Seq<char>) -> Result<(Seq<char>, int), FaultView>
    decreases ev.len() - i,
{
    if i < 0 || i >= ev.len() {
        Err(FaultView::Truncated)
    } else {
        match ev[i] {
            XmlEvent::Text(s) => t_loop(ev, i + 1, out + s@),
            XmlEvent::CData(s) => t_loop(ev, i + 1, out + s@),
            XmlEvent::GeneralRef(n) => t_loop(ev, i + 1, out + "&"@ + n@ + ";"@),
            XmlEvent::Start(t) => match skip_from(ev, i + 1, t.qname@, 0) {
                Err(f) => Err(f),
                Ok(j) => if i < j <= ev.len() {
                    t_loop(ev, j, out)
                } else {
                    Err(FaultView::Truncated)
                },
            },
            XmlEvent::End(_, n) => if n@ == "t"@ {
                Ok((out, i + 1))
            } else {
                t_loop(ev, i + 1, out)
            },
            XmlEvent::Eof => Err(FaultView::Document("unexpected EOF inside <t>"@)),
            _ => t_loop(ev, i + 1, out),
        }
    }
}

/// A paragraph whose start tag `t` precedes event `i`, at table depth
/// `depth`, with outline reference `sink` so far. Yields the paragraph,
/// the position after `</p>` and the outline reference.
#[verifier::opaque]
pub open spec fn para_start(ev: Seq<XmlEvent>, i: int, t: XmlTag, depth: u32, sink: Option<u32>) -> Result<
    (ParaV, int, Option<u32>),
    FaultView,
>
    decreases ev.len() - i, 1int,
{
    match attr_u32_of(t.attrs@, "paraPrIDRef"@) {
        Err(f) => Err(f),
        Ok(ppr) => match attr_u32_of(t.attrs@, "styleIDRef"@) {
            Err(f) => Err(f),
            Ok(sid) => para_loop(
                ev,
                i,
                ParaV { para_pr_id_ref: ppr, style_id_ref: sid, runs: Seq::empty(), tables: Seq::empty() },
                false,
                depth,
                sink,
            ),
        },
    }
}

/// The rest of a paragraph from event `i`: runs (full or empty) are
/// added with the hyperlink state `in_h` they close with; other
/// subtrees are skipped.
#[verifier::opaque]
pub open spec fn para_loop(
    ev: Seq<XmlEvent>,
    i: int,
    p: ParaV,
    in_h: bool,
    depth: u32,
    sink: Option<u32>,
) -> Result<(ParaV, int, Option<u32>), FaultView>
    decreases ev.len() - i, 0int,
{
    if i < 0 || i >= ev.len() {
        Err(FaultView::Truncated)
    } else {
        match ev[i] {
            XmlEvent::Start(t) => if t.name@ == "run"@ {
                match run_start(ev, i + 1, t, depth, in_h, sink) {
                    Err(f) => Err(f),
                    Ok((r, tbls, h2, j, s2)) => if i < j <= ev.len() {
                        para_loop(
                            ev,
                            j,
                            ParaV { runs: p.runs.push(r), tables: p.tables + tbls, ..p },
                            h2,
                            depth,
                            s2,
                        )
                    } else {
                        Err(FaultView::Truncated)
                    },
                }
            } else {
                match skip_from(ev, i + 1, t.qname@, 0) {
                    Err(f) => Err(f),
                    Ok(j) => if i < j <= ev.len() {
                        para_loop(ev, j, p, in_h, depth, sink)
                    } else {
                        Err(FaultView::Truncated)
                    },
                }
            },
            XmlEvent::Empty(t) => if t.name@ == "run"@ {
                match attr_u32_of(t.attrs@, "charPrIDRef"@) {
                    Err(f) => Err(f),
                    Ok(c) => para_loop(
                        ev,
                        i + 1,
                        ParaV {
                            runs: p.runs.push(RunV { char_pr_id_ref: c, text: Seq::empty(), is_hyperlink: in_h }),
                            ..p
                        },
                        in_h,
                        depth,
                        sink,
                    ),
                }
            } else {
                para_loop(ev, i + 1, p, in_h, depth, sink)
            },
            XmlEvent::End(_, n) => if n@ == "p"@ {
                Ok((p, i + 1, sink))
            } else {
                para_loop(ev, i + 1, p, in_h, depth, sink)
            },
            XmlEvent::Eof => Err(FaultView::Document("unexpected EOF inside <p>"@)),
            _ => para_loop(ev, i + 1, p, in_h, depth, sink),
        }
    }
}

/// A run whose start tag `t` precedes event `i`. Yields the run, the
/// tables it holds, the hyperlink state it closes with, the position
/// after `</run>` and the outline reference.
#[verifier::opaque]
pub open spec fn run_start(
    ev: Seq<XmlEvent>,
    i: int,
    t: XmlTag,
    depth: u32,
    in_h: bool,
    sink: Option<u32>,
) -> Result<(RunV, Seq<TableV>, bool, int, Option<u32>), FaultView>
    decreases ev.len() - i, 1int,
{
    match attr_u32_of(t.attrs@, "charPrIDRef"@) {
        Err(f) => Err(f),
        Ok(c) => run_loop(ev, i, c, Seq::empty(), Seq::empty(), in_h, depth, sink),
    }
}

/// The rest of a run from event `i`: `<hp:t>` text is appended, tables
/// are collected, hyperlink field markers set and clear `in_h`, the
/// first `<hp:secPr>` sets the outline reference; other subtrees are
/// skipped.
#[verifier::opaque]
pub open spec fn run_loop(
    ev: Seq<XmlEvent>,
    i: int,
    c: u32,
    text: Seq<char>,
    tables: Seq<TableV>,
    in_h: bool,
    depth: u32,
    sink: Option<u32>,
) -> Result<(RunV, Seq<TableV>, bool, int, Option<u32>), FaultView>
    decreases ev.len() - i, 0int,
{
    if i < 0 || i >= ev.len() {
        Err(FaultView::Truncated)
    } else {
        match ev[i] {
            XmlEvent::Start(t) => if t.name@ == "t"@ {
                match t_loop(ev, i + 1, Seq::empty()) {
                    Err(f) => Err(f),
                    Ok((s, j)) => if i < j <= ev.len() {
                        run_loop(ev, j, c, text + s, tables, in_h, depth, sink)
                    } else {
                        Err(FaultView::Truncated)
                    },
                }
            } else if t.name@ == "tbl"@ {
                match table_start(ev, i + 1, t, depth) {
                    Err(f) => Err(f),
                    Ok((tb, j)) => if i < j <= ev.len() {
                        run_loop(ev, j, c, text, tables.push(tb), in_h, depth, sink)
                    } else {
                        Err(FaultView::Truncated)
                    },
                }
            } else {
                let marks = t.name@ == "fieldBegin"@ || t.name@ == "fieldEnd"@;
                let h = if marks { hyperlink_field(t) } else { Ok(false) };
                let s = if t.name@ == "secPr"@ { sec_pr_sink(t, sink) } else { Ok(sink) };
                match h {
                    Err(f) => Err(f),
                    Ok(is_link) => match s {
                        Err(f) => Err(f),
                        Ok(s2) => match skip_from(ev, i + 1, t.qname@, 0) {
                            Err(f) => Err(f),
                            Ok(j) => if i < j <= ev.len() {
                                run_loop(
                                    ev,
                                    j,
                                    c,
                                    text,
                                    tables,
                                    if is_link { t.name@ == "fieldBegin"@ } else { in_h },
                                    depth,
                                    s2,
                                )
                            } else {
                                Err(FaultView::Truncated)
                            },
                        },
                    },
                }
            },
            XmlEvent::Empty(t) => {
                let marks = t.name@ == "fieldBegin"@ || t.name@ == "fieldEnd"@;
                let h = if marks { hyperlink_field(t) } else { Ok(false) };
                let s = if t.name@ == "secPr"@ { sec_pr_sink(t, sink) } else { Ok(sink) };
                match h {
                    Err(f) => Err(f),
                    Ok(is_link) => match s {
                        Err(f) => Err(f),
                        Ok(s2) => run_loop(
                            ev,
                            i + 1,
                            c,
                            text,
                            tables,
                            if is_link { t.name@ == "fieldBegin"@ } else { in_h },
                            depth,
                            s2,
                        ),
                    },
                }
            },
            XmlEvent::End(_, n) => if n@ == "run"@ {
                Ok((RunV { char_pr_id_ref: c, text, is_hyperlink: in_h }, tables, in_h, i + 1, sink))
            } else {
                run_loop(ev, i + 1, c, text, tables, in_h, depth, sink)
            },
            XmlEvent::Eof => Err(FaultView::Document("unexpected EOF inside <run>"@)),
            _ => run_loop(ev, i + 1, c, text, tables, in_h, depth, sink),
        }
    }
}

/// A table whose start tag `t` precedes event `i`, at depth `depth`.
/// Yields the table and the position after `</tbl>`.
#[verifier::opaque]
pub open spec fn table_start(ev: Seq<XmlEvent>, i: int, t: XmlTag, depth: u32) -> Result<(TableV, int), FaultView>
    decreases ev.len() - i, 1int,
{
    match table_head(t, depth) {
        Err(f) => Err(f),
        Ok(tv) => table_loop(ev, i, tv, depth),
    }
}

/// The rest of a table from event `i`: rows (full or empty) are added,
/// empty children set metadata, a caption sets its fields; other
/// subtrees are skipped.
#[verifier::opaque]
pub open spec fn table_loop(ev: Seq<XmlEvent>, i: int, tv: TableV, depth: u32) -> Result<(TableV, int), FaultView>
    decreases ev.len() - i, 0int,
{
    if i < 0 || i >= ev.len() {
        Err(FaultView::Truncated)
    } else {
        match ev[i] {
            XmlEvent::Start(t) => if t.name@ == "tr"@ {
                match row_loop(ev, i + 1, Seq::empty(), depth) {
                    Err(f) => Err(f),
                    Ok((cells, j)) => if i < j <= ev.len() {
                        table_loop(ev, j, TableV { rows: tv.rows.push(RowV { cells }), ..tv }, depth)
                    } else {
                        Err(FaultView::Truncated)
                    },
                }
            } else {
                let m = if t.name@ == "caption"@ { caption_meta(tv, t) } else { Ok(tv) };
                match m {
                    Err(f) => Err(f),
                    Ok(tv2) => match skip_from(ev, i + 1, t.qname@, 0) {
                        Err(f) => Err(f),
                        Ok(j) => if i < j <= ev.len() {
                            table_loop(ev, j, tv2, depth)
                        } else {
                            Err(FaultView::Truncated)
                        },
                    },
                }
            },
            XmlEvent::Empty(t) => if t.name@ == "tr"@ {
                table_loop(ev, i + 1, TableV { rows: tv.rows.push(RowV { cells: Seq::empty() }), ..tv }, depth)
            } else {
                match table_meta(tv, t) {
                    Err(f) => Err(f),
                    Ok(tv2) => table_loop(ev, i + 1, tv2, depth),
                }
            },
            XmlEvent::End(_, n) => if n@ == "tbl"@ {
                Ok((tv, i + 1))
            } else {
                table_loop(ev, i + 1, tv, depth)
            },
            XmlEvent::Eof => Err(FaultView::Document("unexpected EOF inside <tbl>"@)),
            _ => table_loop(ev, i + 1, tv, depth),
        }
    }
}

/// The cells of a row from event `i`, appended to `cells`; other
/// subtrees are skipped. Yields the cells and the position after `</tr>`.
#[verifier::opaque]
pub open spec fn row_loop(ev: Seq<XmlEvent>, i: int, cells: Seq<CellV>, depth: u32) -> Result<(Seq<CellV>, int), FaultView>
    decreases ev.len() - i, 0int,
{
    if i < 0 || i >= ev.len() {
        Err(FaultView::Truncated)
    } else {
        match ev[i] {
            XmlEvent::Start(t) => if t.name@ == "tc"@ {
                match cell_start(ev, i + 1, t, depth) {
                    Err(f) => Err(f),
                    Ok((cv, j)) => if i < j <= ev.len() {
                        row_loop(ev, j, cells.push(cv), depth)
                    } else {
                        Err(FaultView::Truncated)
                    },
                }
            } else {
                match skip_from(ev, i + 1, t.qname@, 0) {
                    Err(f) => Err(f),
                    Ok(j) => if i < j <= ev.len() {
                        row_loop(ev, j, cells, depth)
                    } else {
                        Err(FaultView::Truncated)
                    },
                }
            },
            XmlEvent::End(_, n) => if n@ == "tr"@ {
                Ok((cells, i + 1))
            } else {
                row_loop(ev, i + 1, cells, depth)
            },
            XmlEvent::Eof => Err(FaultView::Document("unexpected EOF inside <tr>"@)),
            _ => row_loop(ev, i + 1, cells, depth),
        }
    }
}

/// A cell whose start tag `t` precedes event `i`, in a table at
/// `depth`. Yields the cell and the position after `</tc>`.
#[verifier::opaque]
pub open spec fn cell_start(ev: Seq<XmlEvent>, i: int, t: XmlTag, depth: u32) -> Result<(CellV, int), FaultView>
    decreases ev.len() - i, 1int,
{
    match attr_u32_of(t.attrs@, "borderFillIDRef"@) {
        Err(f) => Err(f),
        Ok(bf) => cell_loop(
            ev,
            i,
            CellV { row: 0, col: 0, border_fill_id_ref: bf, paragraphs: Seq::empty() },
            child_depth(depth),
        ),
    }
}

/// The rest of a cell from event `i`: `<hp:subList>` paragraphs are
/// added at depth `cd`, `<hp:cellAddr/>` sets the address; other
/// subtrees are skipped.
#[verifier::opaque]
pub open spec fn cell_loop(ev: Seq<XmlEvent>, i: int, cv: CellV, cd: u32) -> Result<(CellV, int), FaultView>
    decreases ev.len() - i, 0int,
{
    if i < 0 || i >= ev.len() {
        Err(FaultView::Truncated)
    } else {
        match ev[i] {
            XmlEvent::Start(t) => if t.name@ == "subList"@ {
                match sublist_loop(ev, i + 1, cv.paragraphs, cd, None) {
                    Err(f) => Err(f),
                    Ok((ps, j)) => if i < j <= ev.len() {
                        cell_loop(ev, j, CellV { paragraphs: ps, ..cv }, cd)
                    } else {
                        Err(FaultView::Truncated)
                    },
                }
            } else {
                match skip_from(ev, i + 1, t.qname@, 0) {
                    Err(f) => Err(f),
                    Ok(j) => if i < j <= ev.len() {
                        cell_loop(ev, j, cv, cd)
                    } else {
                        Err(FaultView::Truncated)
                    },
                }
            },
            XmlEvent::Empty(t) => if t.name@ == "cellAddr"@ {
                match attr_u32_of(t.attrs@, "colAddr"@) {
                    Err(f) => Err(f),
                    Ok(col) => match attr_u32_of(t.attrs@, "rowAddr"@) {
                        Err(f) => Err(f),
                        Ok(row) => cell_loop(ev, i + 1, CellV { row, col, ..cv }, cd),
                    },
                }
            } else {
                cell_loop(ev, i + 1, cv, cd)
            },
            XmlEvent::End(_, n) => if n@ == "tc"@ {
                Ok((cv, i + 1))
            } else {
                cell_loop(ev, i + 1, cv, cd)
            },
            XmlEvent::Eof => Err(FaultView::Document("unexpected EOF inside <tc>"@)),
            _ => cell_loop(ev, i + 1, cv, cd),
        }
    }
}

/// The paragraphs of a `<hp:subList>` from event `i`, appended to
/// `ps`, with the sub-list's own outline reference `sink` (which is then
/// dropped). Yields the paragraphs and the position after `</subList>`.
#[verifier::opaque]
pub open spec fn sublist_loop(
    ev: Seq<XmlEvent>,
    i: int,
    ps: Seq<ParaV>,
    depth: u32,
    sink: Option<u32>,
) -> Result<(Seq<ParaV>, int), FaultView>
    decreases ev.len() - i, 0int,
{
    if i < 0 || i >= ev.len() {
        Err(FaultView::Truncated)
    } else {
        match ev[i] {
            XmlEvent::Start(t) => if t.name@ == "p"@ {
                match para_start(ev, i + 1, t, depth, sink) {
                    Err(f) => Err(f),
                    Ok((p, j, s2)) => if i < j <= ev.len() {
                        sublist_loop(ev, j, ps.push(p), depth, s2)
                    } else {
                        Err(FaultView::Truncated)
                    },
                }
            } else {
                match skip_from(ev, i + 1, t.qname@, 0) {
                    Err(f) => Err(f),
                    Ok(j) => if i < j <= ev.len() {
                        sublist_loop(ev, j, ps, depth, sink)
                    } else {
                        Err(FaultView::Truncated)
                    },
                }
            },
            XmlEvent::Empty(t) => if t.name@ == "p"@ {
                match empty_para(t) {
                    Err(f) => Err(f),
                    Ok(p) => sublist_loop(ev, i + 1, ps.push(p), depth, sink),
                }
            } else {
                sublist_loop(ev, i + 1, ps, depth, sink)
            },
            XmlEvent::End(_, n) => if n@ == "subList"@ {
                Ok((ps, i + 1))
            } else {
                sublist_loop(ev, i + 1, ps, depth, sink)
            },
            XmlEvent::Eof => Err(FaultView::Document("unexpected EOF inside <subList>"@)),
            _ => sublist_loop(ev, i + 1, ps, depth, sink),
        }
    }
}

/// The top level of a section from event `i`: every `<hp:p>` met is a
/// body paragraph at depth 0 (other elements are walked through, not
/// skipped); `Eof` ends the section. Yields the paragraphs and the
/// outline reference.
pub open spec fn sec_loop(ev: Seq<XmlEvent>, i: int, ps: Seq<ParaV>, sink: Option<u32>) -> Result<
    (Seq<ParaV>, Option<u32>),
    FaultView,
>
    decreases ev.len() - i,
{
    if i < 0 || i >= ev.len() {
        Err(FaultView::Truncated)
    } else {
        match ev[i] {
            XmlEvent::Start(t) => if t.name@ == "p"@ {
                match para_start(ev, i + 1, t, 0, sink) {
                    Err(f) => Err(f),
                    Ok((p, j, s2)) => if i < j <= ev.len() {
                        sec_loop(ev, j, ps.push(p), s2)
                    } else {
                        Err(FaultView::Truncated)
                    },
                }
            } else {
                sec_loop(ev, i + 1, ps, sink)
            },
            XmlEvent::Empty(t) => if t.name@ == "p"@ {
                match empty_para(t) {
                    Err(f) => Err(f),
                    Ok(p) => sec_loop(ev, i + 1, ps.push(p), sink),
                }
            } else {
                sec_loop(ev, i + 1, ps, sink)
            },
            XmlEvent::Eof => Ok((ps, sink)),
            _ => sec_loop(ev, i + 1, ps, sink),
        }
    }
}

/// The section numbered `index` that the events describe: its
/// paragraphs, and the first `<hp:secPr>` outline reference (0 when
/// there is none).
pub open spec fn section_of(index: u32, ev: Seq<XmlEvent>) -> Result<SectionV, FaultView> {
    match sec_loop(ev, 0, Seq::empty(), None) {
        Err(f) => Err(f),
        Ok((ps, sink)) => Ok(
            SectionV {
                index,
                outline_shape_id_ref: match sink {
                    Some(v) => v,
                    None => 0,
                },
                paragraphs: ps,
            },
        ),
    }
}


// ---------------------------------------------------------------------------
// Unfolding the parse one step at a time
// ---------------------------------------------------------------------------

/// `para_start` unfolded once.
pub(crate) proof fn lemma_para_start_unfold(ev: Seq<XmlEvent>, i: int, t: XmlTag, depth: u32, sink: Option<u32>)
    ensures
        para_start(ev, i, t, depth, sink) == ({
    match attr_u32_of(t.attrs@, "paraPrIDRef"@) {
        Err(f) => Err(f),
        Ok(ppr) => match attr_u32_of(t.attrs@, "styleIDRef"@) {
            Err(f) => Err(f),
            Ok(sid) => para_loop(
                ev,
                i,
                ParaV { para_pr_id_ref: ppr, style_id_ref: sid, runs: Seq::empty(), tables: Seq::empty() },
                false,
                depth,
                sink,
            ),
        },
    }
        }),
{
    reveal_with_fuel(para_start, 1);
    reveal_with_fuel(para_loop, 1);
    reveal_with_fuel(run_start, 1);
    reveal_with_fuel(run_loop, 1);
    reveal_with_fuel(table_start, 1);
    reveal_with_fuel(table_loop, 1);
    reveal_with_fuel(row_loop, 1);
    reveal_with_fuel(cell_start, 1);
    reveal_with_fuel(cell_loop, 1);
    reveal_with_fuel(sublist_loop, 1);
}

/// `para_loop` unfolded once.
pub(crate) proof fn lemma_para_loop_unfold(ev: Seq<XmlEvent>,
    i: int,
    p: ParaV,
    in_h: bool,
    depth: u32,
    sink: Option<u32>)
    ensures
        para_loop(ev, i, p, in_h, depth, sink) == ({
    if i < 0 || i >= ev.len() {
        Err(FaultView::Truncated)
    } else {
        match ev[i] {
            XmlEvent::Start(t) => if t.name@ == "run"@ {
                match run_start(ev, i + 1, t, depth, in_h, sink) {
                    Err(f) => Err(f),
                    Ok((r, tbls, h2, j, s2)) => if i < j <= ev.len() {
                        para_loop(
                            ev,
                            j,
                            ParaV { runs: p.runs.push(r), tables: p.tables + tbls, ..p },
                            h2,
                            depth,
                            s2,
                        )
                    } else {
                        Err(FaultView::Truncated)
                    },
                }
            } else {
                match skip_from(ev, i + 1, t.qname@, 0) {
                    Err(f) => Err(f),
                    Ok(j) => if i < j <= ev.len() {
                        para_loop(ev, j, p, in_h, depth, sink)
                    } else {
                        Err(FaultView::Truncated)
                    },
                }
            },
            XmlEvent::Empty(t) => if t.name@ == "run"@ {
                match attr_u32_of(t.attrs@, "charPrIDRef"@) {
                    Err(f) => Err(f),
                    Ok(c) => para_loop(
                        ev,
                        i + 1,
                        ParaV {
                            runs: p.runs.push(RunV { char_pr_id_ref: c, text: Seq::empty(), is_hyperlink: in_h }),
                            ..p
                        },
                        in_h,
                        depth,
                        sink,
                    ),
                }
            } else {
                para_loop(ev, i + 1, p, in_h, depth, sink)
            },
            XmlEvent::End(_, n) => if n@ == "p"@ {
                Ok((p, i + 1, sink))
            } else {
                para_loop(ev, i + 1, p, in_h, depth, sink)
            },
            XmlEvent::Eof => Err(FaultView::Document("unexpected EOF inside <p>"@)),
            _ => para_loop(ev, i + 1, p, in_h, depth, sink),
        }
    }
        }),
{
    reveal_with_fuel(para_start, 1);
    reveal_with_fuel(para_loop, 1);
    reveal_with_fuel(run_start, 1);
    reveal_with_fuel(run_loop, 1);
    reveal_with_fuel(table_start, 1);
    reveal_with_fuel(table_loop, 1);
    reveal_with_fuel(row_loop, 1);
    reveal_with_fuel(cell_start, 1);
    reveal_with_fuel(cell_loop, 1);
    reveal_with_fuel(sublist_loop, 1);
}

/// `run_start` unfolded once.
pub(crate) proof fn lemma_run_start_unfold(ev: Seq<XmlEvent>,
    i: int,
    t: XmlTag,
    depth: u32,
    in_h: bool,
    sink: Option<u32>)
    ensures
        run_start(ev, i, t, depth, in_h, sink) == ({
    match attr_u32_of(t.attrs@, "charPrIDRef"@) {
        Err(f) => Err(f),
        Ok(c) => run_loop(ev, i, c, Seq::empty(), Seq::empty(), in_h, depth, sink),
    }
        }),
{
    reveal_with_fuel(para_start, 1);
    reveal_with_fuel(para_loop, 1);
    reveal_with_fuel(run_start, 1);
    reveal_with_fuel(run_loop, 1);
    reveal_with_fuel(table_start, 1);
    reveal_with_fuel(table_loop, 1);
    reveal_with_fuel(row_loop, 1);
    reveal_with_fuel(cell_start, 1);
    reveal_with_fuel(cell_loop, 1);
    reveal_with_fuel(sublist_loop, 1);
}

/// `run_loop` unfolded once.
pub(crate) proof fn lemma_run_loop_unfold(ev: Seq<XmlEvent>,
    i: int,
    c: u32,
    text: Seq<char>,
    tables: Seq<TableV>,
    in_h: bool,
    depth: u32,
    sink: Option<u32>)
    ensures
        run_loop(ev, i, c, text, tables, in_h, depth, sink) == ({
    if i < 0 || i >= ev.len() {
        Err(FaultView::Truncated)
    } else {
        match ev[i] {
            XmlEvent::Start(t) => if t.name@ == "t"@ {
                match t_loop(ev, i + 1, Seq::empty()) {
                    Err(f) => Err(f),
                    Ok((s, j)) => if i < j <= ev.len() {
                        run_loop(ev, j, c, text + s, tables, in_h, depth, sink)
                    } else {
                        Err(FaultView::Truncated)
                    },
                }
            } else if t.name@ == "tbl"@ {
                match table_start(ev, i + 1, t, depth) {
                    Err(f) => Err(f),
                    Ok((tb, j)) => if i < j <= ev.len() {
                        run_loop(ev, j, c, text, tables.push(tb), in_h, depth, sink)
                    } else {
                        Err(FaultView::Truncated)
                    },
                }
            } else {
                let marks = t.name@ == "fieldBegin"@ || t.name@ == "fieldEnd"@;
                let h = if marks { hyperlink_field(t) } else { Ok(false) };
                let s = if t.name@ == "secPr"@ { sec_pr_sink(t, sink) } else { Ok(sink) };
                match h {
                    Err(f) => Err(f),
                    Ok(is_link) => match s {
                        Err(f) => Err(f),
                        Ok(s2) => match skip_from(ev, i + 1, t.qname@, 0) {
                            Err(f) => Err(f),
                            Ok(j) => if i < j <= ev.len() {
                                run_loop(
                                    ev,
                                    j,
                                    c,
                                    text,
                                    tables,
                                    if is_link { t.name@ == "fieldBegin"@ } else { in_h },
                                    depth,
                                    s2,
                                )
                            } else {
                                Err(FaultView::Truncated)
                            },
                        },
                    },
                }
            },
            XmlEvent::Empty(t) => {
                let marks = t.name@ == "fieldBegin"@ || t.name@ == "fieldEnd"@;
                let h = if marks { hyperlink_field(t) } else { Ok(false) };
                let s = if t.name@ == "secPr"@ { sec_pr_sink(t, sink) } else { Ok(sink) };
                match h {
                    Err(f) => Err(f),
                    Ok(is_link) => match s {
                        Err(f) => Err(f),
                        Ok(s2) => run_loop(
                            ev,
                            i + 1,
                            c,
                            text,
                            tables,
                            if is_link { t.name@ == "fieldBegin"@ } else { in_h },
                            depth,
                            s2,
                        ),
                    },
                }
            },
            XmlEvent::End(_, n) => if n@ == "run"@ {
                Ok((RunV { char_pr_id_ref: c, text, is_hyperlink: in_h }, tables, in_h, i + 1, sink))
            } else {
                run_loop(ev, i + 1, c, text, tables, in_h, depth, sink)
            },
            XmlEvent::Eof => Err(FaultView::Document("unexpected EOF inside <run>"@)),
            _ => run_loop(ev, i + 1, c, text, tables, in_h, depth, sink),
        }
    }
        }),
{
    reveal_with_fuel(para_start, 1);
    reveal_with_fuel(para_loop, 1);
    reveal_with_fuel(run_start, 1);
    reveal_with_fuel(run_loop, 1);
    reveal_with_fuel(table_start, 1);
    reveal_with_fuel(table_loop, 1);
    reveal_with_fuel(row_loop, 1);
    reveal_with_fuel(cell_start, 1);
    reveal_with_fuel(cell_loop, 1);
    reveal_with_fuel(sublist_loop, 1);
}

/// `table_start` unfolded once.
pub(crate) proof fn lemma_table_start_unfold(ev: Seq<XmlEvent>, i: int, t: XmlTag, depth: u32)
    ensures
        table_start(ev, i, t, depth) == ({
    match table_head(t, depth) {
        Err(f) => Err(f),
        Ok(tv) => table_loop(ev, i, tv, depth),
    }
        }),
{
    reveal_with_fuel(para_start, 1);
    reveal_with_fuel(para_loop, 1);
    reveal_with_fuel(run_start, 1);
    reveal_with_fuel(run_loop, 1);
    reveal_with_fuel(table_start, 1);
    reveal_with_fuel(table_loop, 1);
    reveal_with_fuel(row_loop, 1);
    reveal_with_fuel(cell_start, 1);
    reveal_with_fuel(cell_loop, 1);
    reveal_with_fuel(sublist_loop, 1);
}

/// `table_loop` unfolded once.
pub(crate) proof fn lemma_table_loop_unfold(ev: Seq<XmlEvent>, i: int, tv: TableV, depth: u32)
    ensures
        table_loop(ev, i, tv, depth) == ({
    if i < 0 || i >= ev.len() {
        Err(FaultView::Truncated)
    } else {
        match ev[i] {
            XmlEvent::Start(t) => if t.name@ == "tr"@ {
                match row_loop(ev, i + 1, Seq::empty(), depth) {
                    Err(f) => Err(f),
                    Ok((cells, j)) => if i < j <= ev.len() {
                        table_loop(ev, j, TableV { rows: tv.rows.push(RowV { cells }), ..tv }, depth)
                    } else {
                        Err(FaultView::Truncated)
                    },
                }
            } else {
                let m = if t.name@ == "caption"@ { caption_meta(tv, t) } else { Ok(tv) };
                match m {
                    Err(f) => Err(f),
                    Ok(tv2) => match skip_from(ev, i + 1, t.qname@, 0) {
                        Err(f) => Err(f),
                        Ok(j) => if i < j <= ev.len() {
                            table_loop(ev, j, tv2, depth)
                        } else {
                            Err(FaultView::Truncated)
                        },
                    },
                }
            },
            XmlEvent::Empty(t) => if t.name@ == "tr"@ {
                table_loop(ev, i + 1, TableV { rows: tv.rows.push(RowV { cells: Seq::empty() }), ..tv }, depth)
            } else {
                match table_meta(tv, t) {
                    Err(f) => Err(f),
                    Ok(tv2) => table_loop(ev, i + 1, tv2, depth),
                }
            },
            XmlEvent::End(_, n) => if n@ == "tbl"@ {
                Ok((tv, i + 1))
            } else {
                table_loop(ev, i + 1, tv, depth)
            },
            XmlEvent::Eof => Err(FaultView::Document("unexpected EOF inside <tbl>"@)),
            _ => table_loop(ev, i + 1, tv, depth),
        }
    }
        }),
{
    reveal_with_fuel(para_start, 1);
    reveal_with_fuel(para_loop, 1);
    reveal_with_fuel(run_start, 1);
    reveal_with_fuel(run_loop, 1);
    reveal_with_fuel(table_start, 1);
    reveal_with_fuel(table_loop, 1);
    reveal_with_fuel(row_loop, 1);
    reveal_with_fuel(cell_start, 1);
    reveal_with_fuel(cell_loop, 1);
    reveal_with_fuel(sublist_loop, 1);
}

/// `row_loop` unfolded once.
pub(crate) proof fn lemma_row_loop_unfold(ev: Seq<XmlEvent>, i: int, cells: Seq<CellV>, depth: u32)
    ensures
        row_loop(ev, i, cells, depth) == ({
    if i < 0 || i >= ev.len() {
        Err(FaultView::Truncated)
    } else {
        match ev[i] {
            XmlEvent::Start(t) => if t.name@ == "tc"@ {
                match cell_start(ev, i + 1, t, depth) {
                    Err(f) => Err(f),
                    Ok((cv, j)) => if i < j <= ev.len() {
                        row_loop(ev, j, cells.push(cv), depth)
                    } else {
                        Err(FaultView::Truncated)
                    },
                }
            } else {
                match skip_from(ev, i + 1, t.qname@, 0) {
                    Err(f) => Err(f),
                    Ok(j) => if i < j <= ev.len() {
                        row_loop(ev, j, cells, depth)
                    } else {
                        Err(FaultView::Truncated)
                    },
                }
            },
            XmlEvent::End(_, n) => if n@ == "tr"@ {
                Ok((cells, i + 1))
            } else {
                row_loop(ev, i + 1, cells, depth)
            },
            XmlEvent::Eof => Err(FaultView::Document("unexpected EOF inside <tr>"@)),
            _ => row_loop(ev, i + 1, cells, depth),
        }
    }
        }),
{
    reveal_with_fuel(para_start, 1);
    reveal_with_fuel(para_loop, 1);
    reveal_with_fuel(run_start, 1);
    reveal_with_fuel(run_loop, 1);
    reveal_with_fuel(table_start, 1);
    reveal_with_fuel(table_loop, 1);
    reveal_with_fuel(row_loop, 1);
    reveal_with_fuel(cell_start, 1);
    reveal_with_fuel(cell_loop, 1);
    reveal_with_fuel(sublist_loop, 1);
}

/// `cell_start` unfolded once.
pub(crate) proof fn lemma_cell_start_unfold(ev: Seq<XmlEvent>, i: int, t: XmlTag, depth: u32)
    ensures
        cell_start(ev, i, t, depth) == ({
    match attr_u32_of(t.attrs@, "borderFillIDRef"@) {
        Err(f) => Err(f),
        Ok(bf) => cell_loop(
            ev,
            i,
            CellV { row: 0, col: 0, border_fill_id_ref: bf, paragraphs: Seq::empty() },
            child_depth(depth),
        ),
    }
        }),
{
    reveal_with_fuel(para_start, 1);
    reveal_with_fuel(para_loop, 1);
    reveal_with_fuel(run_start, 1);
    reveal_with_fuel(run_loop, 1);
    reveal_with_fuel(table_start, 1);
    reveal_with_fuel(table_loop, 1);
    reveal_with_fuel(row_loop, 1);
    reveal_with_fuel(cell_start, 1);
    reveal_with_fuel(cell_loop, 1);
    reveal_with_fuel(sublist_loop, 1);
}

/// `cell_loop` unfolded once.
pub(crate) proof fn lemma_cell_loop_unfold(ev: Seq<XmlEvent>, i: int, cv: CellV, cd: u32)
    ensures
        cell_loop(ev, i, cv, cd) == ({
    if i < 0 || i >= ev.len() {
        Err(FaultView::Truncated)
    } else {
        match ev[i] {
            XmlEvent::Start(t) => if t.name@ == "subList"@ {
                match sublist_loop(ev, i + 1, cv.paragraphs, cd, None) {
                    Err(f) => Err(f),
                    Ok((ps, j)) => if i < j <= ev.len() {
                        cell_loop(ev, j, CellV { paragraphs: ps, ..cv }, cd)
                    } else {
                        Err(FaultView::Truncated)
                    },
                }
            } else {
                match skip_from(ev, i + 1, t.qname@, 0) {
                    Err(f) => Err(f),
                    Ok(j) => if i < j <= ev.len() {
                        cell_loop(ev, j, cv, cd)
                    } else {
                        Err(FaultView::Truncated)
                    },
                }
            },
            XmlEvent::Empty(t) => if t.name@ == "cellAddr"@ {
                match attr_u32_of(t.attrs@, "colAddr"@) {
                    Err(f) => Err(f),
                    Ok(col) => match attr_u32_of(t.attrs@, "rowAddr"@) {
                        Err(f) => Err(f),
                        Ok(row) => cell_loop(ev, i + 1, CellV { row, col, ..cv }, cd),
                    },
                }
            } else {
                cell_loop(ev, i + 1, cv, cd)
            },
            XmlEvent::End(_, n) => if n@ == "tc"@ {
                Ok((cv, i + 1))
            } else {
                cell_loop(ev, i + 1, cv, cd)
            },
            XmlEvent::Eof => Err(FaultView::Document("unexpected EOF inside <tc>"@)),
            _ => cell_loop(ev, i + 1, cv, cd),
        }
    }
        }),
{
    reveal_with_fuel(para_start, 1);
    reveal_with_fuel(para_loop, 1);
    reveal_with_fuel(run_start, 1);
    reveal_with_fuel(run_loop, 1);
    reveal_with_fuel(table_start, 1);
    reveal_with_fuel(table_loop, 1);
    reveal_with_fuel(row_loop, 1);
    reveal_with_fuel(cell_start, 1);
    reveal_with_fuel(cell_loop, 1);
    reveal_with_fuel(sublist_loop, 1);
}

/// `sublist_loop` unfolded once.
pub(crate) proof fn lemma_sublist_loop_unfold(ev: Seq<XmlEvent>,
    i: int,
    ps: Seq<ParaV>,
    depth: u32,
    sink: Option<u32>)
    ensures
        sublist_loop(ev, i, ps, depth, sink) == ({
    if i < 0 || i >= ev.len() {
        Err(FaultView::Truncated)
    } else {
        match ev[i] {
            XmlEvent::Start(t) => if t.name@ == "p"@ {
                match para_start(ev, i + 1, t, depth, sink) {
                    Err(f) => Err(f),
                    Ok((p, j, s2)) => if i < j <= ev.len() {
                        sublist_loop(ev, j, ps.push(p), depth, s2)
                    } else {
                        Err(FaultView::Truncated)
                    },
                }
            } else {
                match skip_from(ev, i + 1, t.qname@, 0) {
                    Err(f) => Err(f),
                    Ok(j) => if i < j <= ev.len() {
                        sublist_loop(ev, j, ps, depth, sink)
                    } else {
                        Err(FaultView::Truncated)
                    },
                }
            },
            XmlEvent::Empty(t) => if t.name@ == "p"@ {
                match empty_para(t) {
                    Err(f) => Err(f),
                    Ok(p) => sublist_loop(ev, i + 1, ps.push(p), depth, sink),
                }
            } else {
                sublist_loop(ev, i + 1, ps, depth, sink)
            },
            XmlEvent::End(_, n) => if n@ == "subList"@ {
                Ok((ps, i + 1))
            } else {
                sublist_loop(ev, i + 1, ps, depth, sink)
            },
            XmlEvent::Eof => Err(FaultView::Document("unexpected EOF inside <subList>"@)),
            _ => sublist_loop(ev, i + 1, ps, depth, sink),
        }
    }
        }),
{
    reveal_with_fuel(para_start, 1);
    reveal_with_fuel(para_loop, 1);
    reveal_with_fuel(run_start, 1);
    reveal_with_fuel(run_loop, 1);
    reveal_with_fuel(table_start, 1);
    reveal_with_fuel(table_loop, 1);
    reveal_with_fuel(row_loop, 1);
    reveal_with_fuel(cell_start, 1);
    reveal_with_fuel(cell_loop, 1);
    reveal_with_fuel(sublist_loop, 1);
}

// ---------------------------------------------------------------------------
// The parse, executed
// ---------------------------------------------------------------------------

/// The text of a `<hp:t>` whose start tag precedes event `pos`.
fn read_t_text(ev: &Vec<XmlEvent>, pos: usize) -> (r: Result<(String, usize), ParseFault>)
    requires
        pos <= ev@.len(),
    ensures
        match t_loop(ev@, pos as int, Seq::empty()) {
            Ok((s, j)) => r matches Ok((out, k)) && out@ == s && k == j,
            Err(f) => r matches Err(e) && e@ == f,
        },
        r matches Ok((_, k)) ==> pos < k <= ev@.len(),
{
    let mut out = String::new();
    let mut i: usize = pos;
    while i < ev.len()
        invariant
            pos <= i <= ev@.len(),
            t_loop(ev@, pos as int, Seq::empty()) == t_loop(ev@, i as int, out@),
        decreases ev.len() - i,
    {
        match &ev[i] {
            XmlEvent::Text(s) => {
                out.append(s.as_str());
                i = i + 1;
            },
            XmlEvent::CData(s) => {
                out.append(s.as_str());
                i = i + 1;
            },
            XmlEvent::GeneralRef(n) => {
                let ghost before = out@;
                out.append("&");
                out.append(n.as_str());
                out.append(";");
                assert(out@ =~= before + "&"@ + n@ + ";"@);
                i = i + 1;
            },
            XmlEvent::Start(t) => {
                let j = skip(ev, i + 1, t.qname.as_str())?;
                i = j;
            },
            XmlEvent::End(_, n) => {
                if str_eq(n.as_str(), "t") {
                    return Ok((out, i + 1));
                }
                i = i + 1;
            },
            XmlEvent::Eof => {
                return Err(ParseFault::Document(String::from_str("unexpected EOF inside <t>")));
            },
            _ => {
                i = i + 1;
            },
        }
    }
    Err(ParseFault::Truncated)
}

/// Whether a field marker's `type` is `HYPERLINK`.
fn is_hyperlink_field(t: &XmlTag) -> (r: Result<bool, ParseFault>)
    ensures
        outcome(r) == hyperlink_field(*t),
{
    let s = attr_string(t, "type")?;
    Ok(str_eq_ignore_case(s.as_str(), "HYPERLINK"))
}

/// Record the outline reference of a `<hp:secPr>` unless one is set.
fn note_sec_pr(t: &XmlTag, sink: Option<u32>) -> (r: Result<Option<u32>, ParseFault>)
    ensures
        outcome(r) == sec_pr_sink(*t, sink),
{
    match sink {
        Some(v) => Ok(Some(v)),
        None => match attr_u32(t, "outlineShapeIDRef") {
            Ok(v) => Ok(Some(v)),
            Err(e) => Err(e),
        },
    }
}

/// A paragraph given as an empty tag.
fn empty_paragraph(t: &XmlTag) -> (r: Result<Paragraph, ParseFault>)
    ensures
        match empty_para(*t) {
            Ok(pv) => r matches Ok(p) && par_v(p) == pv,
            Err(f) => r matches Err(e) && e@ == f,
        },
{
    let ppr = attr_u32(t, "paraPrIDRef")?;
    let sid = attr_u32(t, "styleIDRef")?;
    let p = Paragraph { para_pr_id_ref: ppr, style_id_ref: sid, runs: Vec::new(), tables: Vec::new() };
    assert(runs_v(p.runs@) =~= Seq::<RunV>::empty());
    proof {
        lemma_views_empty();
    }
    Ok(p)
}

/// A paragraph whose start tag `tag` precedes event `pos`: the
/// paragraph, the outline reference after it, and the position after
/// `</p>`.
#[verifier::rlimit(100)]
#[verifier::spinoff_prover]
fn parse_paragraph(
    ev: &Vec<XmlEvent>,
    pos: usize,
    tag: &XmlTag,
    depth: u32,
    sink: Option<u32>,
) -> (r: Result<(Paragraph, Option<u32>, usize), ParseFault>)
    requires
        pos <= ev@.len(),
    ensures
        match para_start(ev@, pos as int, *tag, depth, sink) {
            Ok((pv, j, s2)) => r matches Ok((p, s, k)) && par_v(p) == pv && k == j && s == s2,
            Err(f) => r matches Err(e) && e@ == f,
        },
        r matches Ok((_, _, k)) ==> pos < k <= ev@.len(),
    decreases ev@.len() - pos, 1int,
{
    proof {
        lemma_para_start_unfold(ev@, pos as int, *tag, depth, sink);
    }
    let ppr = match attr_u32(tag, "paraPrIDRef") {
        Ok(v) => v,
        Err(e) => {
            return Err(e);
        },
    };
    let sid = match attr_u32(tag, "styleIDRef") {
        Ok(v) => v,
        Err(e) => {
            return Err(e);
        },
    };
    let mut para = Paragraph { para_pr_id_ref: ppr, style_id_ref: sid, runs: Vec::new(), tables: Vec::new() };
    assert(runs_v(para.runs@) =~= Seq::<RunV>::empty());
    proof {
        lemma_views_empty();
    }
    let mut in_h = false;
    let mut cur = sink;
    let mut i: usize = pos;
    while i < ev.len()
        invariant
            pos <= i <= ev@.len(),
            para_start(ev@, pos as int, *tag, depth, sink) == para_loop(
                ev@,
                i as int,
                par_v(para),
                in_h,
                depth,
                cur,
            ),
        decreases ev.len() - i,
    {
        proof {
            lemma_para_loop_unfold(ev@, i as int, par_v(para), in_h, depth, cur);
        }
        match &ev[i] {
            XmlEvent::Start(t) => {
                if str_eq(t.name.as_str(), "run") {
                    match parse_run(ev, i + 1, t, depth, in_h, cur) {
                        Ok((run, tables, h2, s2, j)) => {
                            let mut tables = tables;
                            proof {
                                lemma_runs_v_push(para.runs@, run);
                                lemma_tables_v_add(para.tables@, tables@);
                            }
                            para.runs.push(run);
                            para.tables.append(&mut tables);
                            in_h = h2;
                            cur = s2;
                            i = j;
                        },
                        Err(e) => {
                            return Err(e);
                        },
                    }
                } else {
                    match skip(ev, i + 1, t.qname.as_str()) {
                        Ok(j) => {
                            i = j;
                        },
                        Err(e) => {
                            return Err(e);
                        },
                    }
                }
            },
            XmlEvent::Empty(t) => {
                if str_eq(t.name.as_str(), "run") {
                    match attr_u32(t, "charPrIDRef") {
                        Ok(c) => {
                            let run = Run { char_pr_id_ref: c, text: String::new(), is_hyperlink: in_h };
                            proof {
                                lemma_runs_v_push(para.runs@, run);
                            }
                            para.runs.push(run);
                        },
                        Err(e) => {
                            return Err(e);
                        },
                    }
                }
                i = i + 1;
            },
            XmlEvent::End(_, n) => {
                if str_eq(n.as_str(), "p") {
                    return Ok((para, cur, i + 1));
                }
                i = i + 1;
            },
            XmlEvent::Eof => {
                return Err(ParseFault::Document(String::from_str("unexpected EOF inside <p>")));
            },
            _ => {
                i = i + 1;
            },
        }
    }
    proof {
        lemma_para_loop_unfold(ev@, i as int, par_v(para), in_h, depth, cur);
    }
    Err(ParseFault::Truncated)
}

/// What a child of a run does to the hyperlink state and the outline
/// reference, when it is not text or a table.
fn run_marker(t: &XmlTag, in_h: bool, sink: Option<u32>) -> (r: Result<(bool, Option<u32>), ParseFault>)
    ensures
        ({
            let marks = t.name@ == "fieldBegin"@ || t.name@ == "fieldEnd"@;
            let h = if marks { hyperlink_field(*t) } else { Ok(false) };
            let s = if t.name@ == "secPr"@ { sec_pr_sink(*t, sink) } else { Ok(sink) };
            match h {
                Err(f) => r matches Err(e) && e@ == f,
                Ok(is_link) => match s {
                    Err(f) => r matches Err(e) && e@ == f,
                    Ok(s2) => r == Ok::<(bool, Option<u32>), ParseFault>(
                        (if is_link { t.name@ == "fieldBegin"@ } else { in_h }, s2),
                    ),
                },
            }
        }),
{
    let begin = str_eq(t.name.as_str(), "fieldBegin");
    let marks = begin || str_eq(t.name.as_str(), "fieldEnd");
    let is_link = if marks {
        match is_hyperlink_field(t) {
            Ok(b) => b,
            Err(e) => {
                return Err(e);
            },
        }
    } else {
        false
    };
    let s2 = if str_eq(t.name.as_str(), "secPr") {
        match note_sec_pr(t, sink) {
            Ok(s) => s,
            Err(e) => {
                return Err(e);
            },
        }
    } else {
        sink
    };
    Ok((
        if is_link {
            begin
        } else {
            in_h
        },
        s2,
    ))
}

/// A run whose start tag `tag` precedes event `pos`: the run, its
/// tables, the hyperlink state and outline reference it leaves, and
/// the position after `</run>`.
#[verifier::rlimit(100)]
#[verifier::spinoff_prover]
fn parse_run(
    ev: &Vec<XmlEvent>,
    pos: usize,
    tag: &XmlTag,
    depth: u32,
    in_h: bool,
    sink: Option<u32>,
) -> (r: Result<(Run, Vec<Table>, bool, Option<u32>, usize), ParseFault>)
    requires
        pos <= ev@.len(),
    ensures
        match run_start(ev@, pos as int, *tag, depth, in_h, sink) {
            Ok((rv, tvs, h2, j, s2)) => r matches Ok((run, tbls, h, s, k)) && run_v(run) == rv
                && tables_v(tbls@) == tvs && k == j && h == h2 && s == s2,
            Err(f) => r matches Err(e) && e@ == f,
        },
        r matches Ok((_, _, _, _, k)) ==> pos < k <= ev@.len(),
    decreases ev@.len() - pos, 1int,
{
    proof {
        lemma_run_start_unfold(ev@, pos as int, *tag, depth, in_h, sink);
    }
    let c = match attr_u32(tag, "charPrIDRef") {
        Ok(v) => v,
        Err(e) => {
            return Err(e);
        },
    };
    let mut text = String::new();
    let mut tables: Vec<Table> = Vec::new();
    proof {
        lemma_views_empty();
    }
    let mut h = in_h;
    let mut cur = sink;
    let mut i: usize = pos;
    while i < ev.len()
        invariant
            pos <= i <= ev@.len(),
            run_start(ev@, pos as int, *tag, depth, in_h, sink) == run_loop(
                ev@,
                i as int,
                c,
                text@,
                tables_v(tables@),
                h,
                depth,
                cur,
            ),
        decreases ev.len() - i,
    {
        proof {
            lemma_run_loop_unfold(ev@, i as int, c, text@, tables_v(tables@), h, depth, cur);
        }
        match &ev[i] {
            XmlEvent::Start(t) => {
                if str_eq(t.name.as_str(), "t") {
                    match read_t_text(ev, i + 1) {
                        Ok((s, j)) => {
                            text.append(s.as_str());
                            i = j;
                        },
                        Err(e) => {
                            return Err(e);
                        },
                    }
                } else if str_eq(t.name.as_str(), "tbl") {
                    match parse_table(ev, i + 1, t, depth) {
                        Ok((tb, j)) => {
                            proof {
                                lemma_tables_v_push(tables@, tb);
                            }
                            tables.push(tb);
                            i = j;
                        },
                        Err(e) => {
                            return Err(e);
                        },
                    }
                } else {
                    match run_marker(t, h, cur) {
                        Ok((h2, s2)) => match skip(ev, i + 1, t.qname.as_str()) {
                            Ok(j) => {
                                h = h2;
                                cur = s2;
                                i = j;
                            },
                            Err(e) => {
                                return Err(e);
                            },
                        },
                        Err(e) => {
                            return Err(e);
                        },
                    }
                }
            },
            XmlEvent::Empty(t) => {
                match run_marker(t, h, cur) {
                    Ok((h2, s2)) => {
                        h = h2;
                        cur = s2;
                        i = i + 1;
                    },
                    Err(e) => {
                        return Err(e);
                    },
                }
            },
            XmlEvent::End(_, n) => {
                if str_eq(n.as_str(), "run") {
                    let run = Run { char_pr_id_ref: c, text, is_hyperlink: h };
                    return Ok((run, tables, h, cur, i + 1));
                }
                i = i + 1;
            },
            XmlEvent::Eof => {
                return Err(ParseFault::Document(String::from_str("unexpected EOF inside <run>")));
            },
            _ => {
                i = i + 1;
            },
        }
    }
    proof {
        lemma_run_loop_unfold(ev@, i as int, c, text@, tables_v(tables@), h, depth, cur);
    }
    Err(ParseFault::Truncated)
}

/// The table a `<hp:tbl>` start tag opens.
fn table_head_exec(tag: &XmlTag, depth: u32) -> (r: Result<Table, ParseFault>)
    ensures
        match table_head(*tag, depth) {
            Ok(tv) => r matches Ok(t) && tbl_v(t) == tv,
            Err(f) => r matches Err(e) && e@ == f,
        },
{
    let id = attr_u32(tag, "id")?;
    let border_fill_id_ref = attr_u32(tag, "borderFillIDRef")?;
    let row_cnt = attr_u32(tag, "rowCnt")?;
    let col_cnt = attr_u32(tag, "colCnt")?;
    let cell_spacing = attr_u32(tag, "cellSpacing")?;
    let text_wrap = attr_string(tag, "textWrap")?;
    let text_flow = attr_string(tag, "textFlow")?;
    let numbering_type = attr_string(tag, "numberingType")?;
    let lock = attr_u32(tag, "lock")?;
    let no_adjust = attr_u32(tag, "noAdjust")?;
    proof {
        lemma_views_empty();
    }
    Ok(Table {
            id,
            border_fill_id_ref,
            row_cnt,
            col_cnt,
            cell_spacing,
            rows: Vec::new(),
            nesting_depth: depth,
            text_wrap,
            text_flow,
            numbering_type,
            lock,
            no_adjust,
            width: 0,
            height: 0,
            size_protect: false,
            treat_as_char: false,
            flow_with_text: false,
            allow_overlap: false,
            hold_anchor_and_so: false,
            affect_l_spacing: false,
            horz_rel_to: String::new(),
            vert_rel_to: String::new(),
            horz_align: String::new(),
            vert_align: String::new(),
            horz_offset: 0,
            vert_offset: 0,
            out_margin_left: 0,
            out_margin_right: 0,
            out_margin_top: 0,
            out_margin_bottom: 0,
            has_caption: false,
            caption_side: String::new(),
            caption_size: 0,
            caption_spacing: 0,
            caption_full_size: false,
            caption_line_wrap: false,
    })
}

/// Apply a direct empty child of a table to its metadata.
fn collect_table_metadata(table: &mut Table, tag: &XmlTag) -> (r: Result<(), ParseFault>)
    ensures
        match table_meta(tbl_v(*old(table)), *tag) {
            Ok(tv) => r is Ok && tbl_v(*final(table)) == tv,
            Err(f) => r matches Err(e) && e@ == f,
        },
{
    if str_eq(tag.name.as_str(), "sz") {
        let width = attr_u32(tag, "width")?;
        let height = attr_u32(tag, "height")?;
        let size_protect = attr_bool01(tag, "protect")?;
        table.width = width;
        table.height = height;
        table.size_protect = size_protect;
    } else if str_eq(tag.name.as_str(), "pos") {
        let treat_as_char = attr_bool01(tag, "treatAsChar")?;
        let flow_with_text = attr_bool01(tag, "flowWithText")?;
        let allow_overlap = attr_bool01(tag, "allowOverlap")?;
        let hold_anchor_and_so = attr_bool01(tag, "holdAnchorAndSO")?;
        let affect_l_spacing = attr_bool01(tag, "affectLSpacing")?;
        let horz_rel_to = attr_string(tag, "horzRelTo")?;
        let vert_rel_to = attr_string(tag, "vertRelTo")?;
        let horz_align = attr_string(tag, "horzAlign")?;
        let vert_align = attr_string(tag, "vertAlign")?;
        let horz_offset = attr_i32(tag, "horzOffset")?;
        let vert_offset = attr_i32(tag, "vertOffset")?;
        table.treat_as_char = treat_as_char;
        table.flow_with_text = flow_with_text;
        table.allow_overlap = allow_overlap;
        table.hold_anchor_and_so = hold_anchor_and_so;
        table.affect_l_spacing = affect_l_spacing;
        table.horz_rel_to = horz_rel_to;
        table.vert_rel_to = vert_rel_to;
        table.horz_align = horz_align;
        table.vert_align = vert_align;
        table.horz_offset = horz_offset;
        table.vert_offset = vert_offset;
    } else if str_eq(tag.name.as_str(), "outMargin") {
        let out_margin_left = attr_u32(tag, "left")?;
        let out_margin_right = attr_u32(tag, "right")?;
        let out_margin_top = attr_u32(tag, "top")?;
        let out_margin_bottom = attr_u32(tag, "bottom")?;
        table.out_margin_left = out_margin_left;
        table.out_margin_right = out_margin_right;
        table.out_margin_top = out_margin_top;
        table.out_margin_bottom = out_margin_bottom;
    }
    Ok(())
}

/// Apply a `<hp:caption>` start tag to a table.
fn collect_caption_metadata(table: &mut Table, tag: &XmlTag) -> (r: Result<(), ParseFault>)
    ensures
        match caption_meta(tbl_v(*old(table)), *tag) {
            Ok(tv) => r is Ok && tbl_v(*final(table)) == tv,
            Err(f) => r matches Err(e) && e@ == f,
        },
{
    let caption_side = attr_string(tag, "side")?;
    let caption_size = attr_u32(tag, "sz")?;
    let caption_spacing = attr_i32(tag, "gap")?;
    let caption_full_size = attr_bool01(tag, "fullSz")?;
    let caption_line_wrap = attr_bool01(tag, "lineWrap")?;
    table.caption_side = caption_side;
    table.caption_size = caption_size;
    table.caption_spacing = caption_spacing;
    table.caption_full_size = caption_full_size;
    table.caption_line_wrap = caption_line_wrap;
    table.has_caption = true;
    Ok(())
}

/// A table whose start tag `tag` precedes event `pos`.
fn parse_table(ev: &Vec<XmlEvent>, pos: usize, tag: &XmlTag, depth: u32) -> (r: Result<(Table, usize), ParseFault>)
    requires
        pos <= ev@.len(),
    ensures
        match table_start(ev@, pos as int, *tag, depth) {
            Ok((tv, j)) => r matches Ok((t, k)) && tbl_v(t) == tv && k == j,
            Err(f) => r matches Err(e) && e@ == f,
        },
        r matches Ok((_, k)) ==> pos < k <= ev@.len(),
    decreases ev@.len() - pos, 1int,
{
    proof {
        lemma_table_start_unfold(ev@, pos as int, *tag, depth);
    }
    let mut table = table_head_exec(tag, depth)?;
    let mut i: usize = pos;
    while i < ev.len()
        invariant
            pos <= i <= ev@.len(),
            table_start(ev@, pos as int, *tag, depth) == table_loop(ev@, i as int, tbl_v(table), depth),
        decreases ev.len() - i,
    {
        proof {
            lemma_table_loop_unfold(ev@, i as int, tbl_v(table), depth);
        }
        match &ev[i] {
            XmlEvent::Start(t) => {
                if str_eq(t.name.as_str(), "tr") {
                    let (row, j) = parse_row(ev, i + 1, depth)?;
                    proof {
                        lemma_rows_v_push(table.rows@, row);
                    }
                    table.rows.push(row);
                    i = j;
                } else {
                    if str_eq(t.name.as_str(), "caption") {
                        collect_caption_metadata(&mut table, t)?;
                    }
                    let j = skip(ev, i + 1, t.qname.as_str())?;
                    i = j;
                }
            },
            XmlEvent::Empty(t) => {
                if str_eq(t.name.as_str(), "tr") {
                    let row = Row { cells: Vec::new() };
                    proof {
                        lemma_rows_v_push(table.rows@, row);
                        lemma_views_empty();
                    }
                    table.rows.push(row);
                } else {
                    collect_table_metadata(&mut table, t)?;
                }
                i = i + 1;
            },
            XmlEvent::End(_, n) => {
                if str_eq(n.as_str(), "tbl") {
                    return Ok((table, i + 1));
                }
                i = i + 1;
            },
            XmlEvent::Eof => {
                return Err(ParseFault::Document(String::from_str("unexpected EOF inside <tbl>")));
            },
            _ => {
                i = i + 1;
            },
        }
    }
    proof {
        lemma_table_loop_unfold(ev@, i as int, tbl_v(table), depth);
    }
    Err(ParseFault::Truncated)
}

/// The cells of a `<hp:tr>` whose start tag precedes event `pos`.
fn parse_row(ev: &Vec<XmlEvent>, pos: usize, depth: u32) -> (r: Result<(Row, usize), ParseFault>)
    requires
        pos <= ev@.len(),
    ensures
        match row_loop(ev@, pos as int, Seq::empty(), depth) {
            Ok((cs, j)) => r matches Ok((row, k)) && row_v(row).cells == cs && k == j,
            Err(f) => r matches Err(e) && e@ == f,
        },
        r matches Ok((_, k)) ==> pos < k <= ev@.len(),
    decreases ev@.len() - pos, 0int,
{
    let mut row = Row { cells: Vec::new() };
    proof {
        lemma_views_empty();
    }
    let mut i: usize = pos;
    while i < ev.len()
        invariant
            pos <= i <= ev@.len(),
            row_loop(ev@, pos as int, Seq::empty(), depth) == row_loop(ev@, i as int, row_v(row).cells, depth),
        decreases ev.len() - i,
    {
        proof {
            lemma_row_loop_unfold(ev@, i as int, row_v(row).cells, depth);
        }
        match &ev[i] {
            XmlEvent::Start(t) => {
                if str_eq(t.name.as_str(), "tc") {
                    let (cell, j) = parse_cell(ev, i + 1, t, depth)?;
                    proof {
                        lemma_cells_v_push(row.cells@, cell);
                    }
                    row.cells.push(cell);
                    i = j;
                } else {
                    let j = skip(ev, i + 1, t.qname.as_str())?;
                    i = j;
                }
            },
            XmlEvent::End(_, n) => {
                if str_eq(n.as_str(), "tr") {
                    return Ok((row, i + 1));
                }
                i = i + 1;
            },
            XmlEvent::Eof => {
                return Err(ParseFault::Document(String::from_str("unexpected EOF inside <tr>")));
            },
            _ => {
                i = i + 1;
            },
        }
    }
    proof {
        lemma_row_loop_unfold(ev@, i as int, row_v(row).cells, depth);
    }
    Err(ParseFault::Truncated)
}

/// A cell whose start tag `tag` precedes event `pos`, in a table at
/// `depth`.
fn parse_cell(ev: &Vec<XmlEvent>, pos: usize, tag: &XmlTag, depth: u32) -> (r: Result<(Cell, usize), ParseFault>)
    requires
        pos <= ev@.len(),
    ensures
        match cell_start(ev@, pos as int, *tag, depth) {
            Ok((cv, j)) => r matches Ok((c, k)) && cell_v(c) == cv && k == j,
            Err(f) => r matches Err(e) && e@ == f,
        },
        r matches Ok((_, k)) ==> pos < k <= ev@.len(),
    decreases ev@.len() - pos, 1int,
{
    proof {
        lemma_cell_start_unfold(ev@, pos as int, *tag, depth);
    }
    let bf = attr_u32(tag, "borderFillIDRef")?;
    let mut cell = Cell { row: 0, col: 0, border_fill_id_ref: bf, paragraphs: Vec::new() };
    proof {
        lemma_views_empty();
    }
    let cd: u32 = if depth == u32::MAX {
        u32::MAX
    } else {
        depth + 1
    };
    let mut i: usize = pos;
    while i < ev.len()
        invariant
            pos <= i <= ev@.len(),
            cd == child_depth(depth),
            cell_start(ev@, pos as int, *tag, depth) == cell_loop(ev@, i as int, cell_v(cell), cd),
        decreases ev.len() - i,
    {
        proof {
            lemma_cell_loop_unfold(ev@, i as int, cell_v(cell), cd);
        }
        match &ev[i] {
            XmlEvent::Start(t) => {
                if str_eq(t.name.as_str(), "subList") {
                    let j = parse_sub_list(ev, i + 1, cd, &mut cell.paragraphs)?;
                    i = j;
                } else {
                    let j = skip(ev, i + 1, t.qname.as_str())?;
                    i = j;
                }
            },
            XmlEvent::Empty(t) => {
                if str_eq(t.name.as_str(), "cellAddr") {
                    let col = attr_u32(t, "colAddr")?;
                    let row = attr_u32(t, "rowAddr")?;
                    cell.col = col;
                    cell.row = row;
                }
                i = i + 1;
            },
            XmlEvent::End(_, n) => {
                if str_eq(n.as_str(), "tc") {
                    return Ok((cell, i + 1));
                }
                i = i + 1;
            },
            XmlEvent::Eof => {
                return Err(ParseFault::Document(String::from_str("unexpected EOF inside <tc>")));
            },
            _ => {
                i = i + 1;
            },
        }
    }
    proof {
        lemma_cell_loop_unfold(ev@, i as int, cell_v(cell), cd);
    }
    Err(ParseFault::Truncated)
}

/// The paragraphs of a `<hp:subList>` whose start tag precedes event
/// `pos`, appended to `paras`; the position after `</subList>`.
#[verifier::rlimit(100)]
#[verifier::spinoff_prover]
fn parse_sub_list(ev: &Vec<XmlEvent>, pos: usize, depth: u32, paras: &mut Vec<Paragraph>) -> (r: Result<usize, ParseFault>)
    requires
        pos <= ev@.len(),
    ensures
        match sublist_loop(ev@, pos as int, paras_v(old(paras)@), depth, None) {
            Ok((ps, j)) => r matches Ok(k) && paras_v(final(paras)@) == ps && k == j,
            Err(f) => r matches Err(e) && e@ == f,
        },
        r matches Ok(k) ==> pos < k <= ev@.len(),
    decreases ev@.len() - pos, 0int,
{
    let ghost p0 = paras_v(paras@);
    let mut sink: Option<u32> = None;
    let mut i: usize = pos;
    while i < ev.len()
        invariant
            pos <= i <= ev@.len(),
            p0 == paras_v(old(paras)@),
            sublist_loop(ev@, pos as int, p0, depth, None) == sublist_loop(
                ev@,
                i as int,
                paras_v(paras@),
                depth,
                sink,
            ),
        decreases ev.len() - i,
    {
        proof {
            lemma_sublist_loop_unfold(ev@, i as int, paras_v(paras@), depth, sink);
        }
        match &ev[i] {
            XmlEvent::Start(t) => {
                if str_eq(t.name.as_str(), "p") {
                    match parse_paragraph(ev, i + 1, t, depth, sink) {
                        Ok((p, s2, j)) => {
                            proof {
                                lemma_paras_v_push(paras@, p);
                            }
                            paras.push(p);
                            sink = s2;
                            i = j;
                        },
                        Err(e) => {
                            return Err(e);
                        },
                    }
                } else {
                    match skip(ev, i + 1, t.qname.as_str()) {
                        Ok(j) => {
                            i = j;
                        },
                        Err(e) => {
                            return Err(e);
                        },
                    }
                }
            },
            XmlEvent::Empty(t) => {
                if str_eq(t.name.as_str(), "p") {
                    match empty_paragraph(t) {
                        Ok(p) => {
                            proof {
                                lemma_paras_v_push(paras@, p);
                            }
                            paras.push(p);
                        },
                        Err(e) => {
                            return Err(e);
                        },
                    }
                }
                i = i + 1;
            },
            XmlEvent::End(_, n) => {
                if str_eq(n.as_str(), "subList") {
                    return Ok(i + 1);
                }
                i = i + 1;
            },
            XmlEvent::Eof => {
                return Err(ParseFault::Document(String::from_str("unexpected EOF inside <subList>")));
            },
            _ => {
                i = i + 1;
            },
        }
    }
    proof {
        lemma_sublist_loop_unfold(ev@, i as int, paras_v(paras@), depth, sink);
    }
    Err(ParseFault::Truncated)
}

/// The section numbered `index` described by a tokenized part.
#[verifier::loop_isolation(false)]
pub fn section_from_stream(index: u32, stream: XmlStream) -> (r: DvcResult<Section>)
    ensures
        match section_of(index, stream.events@) {
            Ok(sv) => r matches Ok(s) && section_v(s) == sv,
            Err(f) => r matches Err(e) && fault_error_matches(f, stream.fault, e),
        },
{
    let XmlStream { events, fault } = stream;
    let ghost ev = events@;
    let mut paras: Vec<Paragraph> = Vec::new();
    let mut sink: Option<u32> = None;
    proof {
        lemma_views_empty();
    }
    let mut i: usize = 0;
    let mut failure: Option<ParseFault> = None;
    while i < events.len()
        invariant
            i <= events@.len(),
            ev == events@,
            failure is None,
            sec_loop(ev, 0, Seq::empty(), None) == sec_loop(ev, i as int, paras_v(paras@), sink),
        decreases events.len() - i,
    {
        proof {
            reveal_with_fuel(sec_loop, 1);
        }
        match &events[i] {
            XmlEvent::Start(t) => {
                if str_eq(t.name.as_str(), "p") {
                    match parse_paragraph(&events, i + 1, t, 0, sink) {
                        Ok((p, s2, j)) => {
                            proof {
                                lemma_paras_v_push(paras@, p);
                            }
                            paras.push(p);
                            sink = s2;
                            i = j;
                        },
                        Err(f) => {
                            proof {
                                assert(sec_loop(ev, 0, Seq::empty(), None) == Err::<(Seq<ParaV>, Option<u32>), FaultView>(f@));
                            }
                            return Err(fault_error(f, fault));
                        },
                    }
                } else {
                    i = i + 1;
                }
            },
            XmlEvent::Empty(t) => {
                if str_eq(t.name.as_str(), "p") {
                    match empty_paragraph(t) {
                        Ok(p) => {
                            proof {
                                lemma_paras_v_push(paras@, p);
                            }
                            paras.push(p);
                        },
                        Err(f) => {
                            proof {
                                assert(sec_loop(ev, 0, Seq::empty(), None) == Err::<(Seq<ParaV>, Option<u32>), FaultView>(f@));
                            }
                            return Err(fault_error(f, fault));
                        },
                    }
                }
                i = i + 1;
            },
            XmlEvent::Eof => {
                let outline = match sink {
                    Some(v) => v,
                    None => 0,
                };
                let s = Section { index, outline_shape_id_ref: outline, paragraphs: paras };
                proof {
                    assert(sec_loop(ev, 0, Seq::empty(), None) == Ok::<(Seq<ParaV>, Option<u32>), FaultView>((paras_v(s.paragraphs@), sink)));
                }
                return Ok(s);
            },
            _ => {
                i = i + 1;
            },
        }
    }
    proof {
        reveal_with_fuel(sec_loop, 1);
        assert(sec_loop(ev, 0, Seq::empty(), None) == Err::<(Seq<ParaV>, Option<u32>), FaultView>(FaultView::Truncated));
    }
    Err(fault_error(ParseFault::Truncated, fault))
}

/// Whether `r` is what reading section `index` from events `ev`, which
/// the tokenizer ended with error `fault` (if any), gives.
pub open spec fn section_outcome(
    index: u32,
    ev: Seq<XmlEvent>,
    fault: Option<quick_xml::Error>,
    r: DvcResult<Section>,
) -> bool {
    match section_of(index, ev) {
        Ok(sv) => r matches Ok(s) && section_v(s) == sv,
        Err(f) => r matches Err(e) && fault_error_matches(f, fault, e),
    }
}

/// Whether `r` is what reading section `index` from `bytes` gives: the
/// reading of events whose view is what the tokenizer, keeping text
/// whitespace, gives for the bytes, with a tokenizer error exactly when
/// it stops on one.
pub open spec fn section_reading(index: u32, bytes: Seq<u8>, r: DvcResult<Section>) -> bool {
    exists|ev: Seq<XmlEvent>, fault: Option<quick_xml::Error>|
        events_v(ev) == xml_events(bytes, false) && (fault is Some <==> xml_faults(bytes, false))
            && #[trigger] section_outcome(index, ev, fault, r)
}

/// Parse one `Contents/sectionN.xml` part: tokenize it, keeping text
/// whitespace, and read the section from the events.
pub fn parse_section(index: u32, bytes: &[u8]) -> (r: DvcResult<Section>)
    ensures
        section_reading(index, bytes@, r),
        r matches Ok(s) ==> paras_at(section_v(s).paragraphs, 0),
{
    let stream = tokenize(bytes, false);
    let ghost ev = stream.events@;
    let ghost fault = stream.fault;
    proof {
        law_table_nesting_depth(index, ev);
    }
    let r = section_from_stream(index, stream);
    assert(section_outcome(index, ev, fault, r));
    r
}

} // verus!
