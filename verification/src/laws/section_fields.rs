//! How the section parser reads a table's and a cell's tags, and a
//! paragraph's: each field comes from the attribute of its own name.

use vstd::prelude::*;
use crate::document::section::{CellV, ParaV, TableV};
use crate::text::eq_ignore_case;
use crate::xml::skip_from;
use crate::document::section::parser::{caption_meta, cell_loop, cell_start, lemma_cell_loop_unfold, lemma_cell_start_unfold,
    hyperlink_field, lemma_para_loop_unfold, lemma_para_start_unfold, lemma_run_loop_unfold, lemma_run_start_unfold, para_loop,
    para_start, run_loop, run_start, t_loop, table_start, child_depth, empty_para, sec_pr_sink, table_head, table_meta};
use crate::xml::{attr_bool01_of, attr_i32_of, attr_string_of, attr_u32_of, FaultView, XmlEvent, XmlTag};

verus! {

/// Reading a table's `<hp:tbl>` tag at depth `depth`: it succeeds
/// exactly when every attribute it reads is well formed; each field comes
/// from the attribute of its own name, and the depth is the one given.
pub proof fn law_table_head_fields(t: XmlTag, depth: u32)
    ensures
        table_head(t, depth) is Ok <==> (attr_u32_of(t.attrs@, "id"@) is Ok && attr_u32_of(t.attrs@, "borderFillIDRef"@) is Ok && attr_u32_of(t.attrs@, "rowCnt"@) is Ok && attr_u32_of(t.attrs@, "colCnt"@) is Ok && attr_u32_of(t.attrs@, "cellSpacing"@) is Ok && attr_string_of(t.attrs@, "textWrap"@) is Ok && attr_string_of(t.attrs@, "textFlow"@) is Ok && attr_string_of(t.attrs@, "numberingType"@) is Ok && attr_u32_of(t.attrs@, "lock"@) is Ok && attr_u32_of(t.attrs@, "noAdjust"@) is Ok),
        table_head(t, depth) matches Ok(x) ==> (attr_u32_of(t.attrs@, "id"@) == Ok::<_, FaultView>(x.id)
            && attr_u32_of(t.attrs@, "borderFillIDRef"@) == Ok::<_, FaultView>(x.border_fill_id_ref)
            && attr_u32_of(t.attrs@, "rowCnt"@) == Ok::<_, FaultView>(x.row_cnt)
            && attr_u32_of(t.attrs@, "colCnt"@) == Ok::<_, FaultView>(x.col_cnt)
            && attr_u32_of(t.attrs@, "cellSpacing"@) == Ok::<_, FaultView>(x.cell_spacing)
            && x.nesting_depth == depth
            && attr_string_of(t.attrs@, "textWrap"@) == Ok::<_, FaultView>(x.text_wrap)
            && attr_string_of(t.attrs@, "textFlow"@) == Ok::<_, FaultView>(x.text_flow)
            && attr_string_of(t.attrs@, "numberingType"@) == Ok::<_, FaultView>(x.numbering_type)
            && attr_u32_of(t.attrs@, "lock"@) == Ok::<_, FaultView>(x.lock)
            && attr_u32_of(t.attrs@, "noAdjust"@) == Ok::<_, FaultView>(x.no_adjust)),
{
}

/// Reading a table's `<hp:caption>` tag: it succeeds exactly when every
/// attribute it reads is well formed; the table then has a caption whose
/// fields come from the attributes of their own names, and nothing else
/// changes.
pub proof fn law_caption_meta_fields(tv: TableV, t: XmlTag)
    ensures
        caption_meta(tv, t) is Ok <==> (attr_string_of(t.attrs@, "side"@) is Ok && attr_u32_of(t.attrs@, "sz"@) is Ok && attr_i32_of(t.attrs@, "gap"@) is Ok && attr_bool01_of(t.attrs@, "fullSz"@) is Ok && attr_bool01_of(t.attrs@, "lineWrap"@) is Ok),
        caption_meta(tv, t) matches Ok(y) ==> (y.has_caption == true
            && attr_string_of(t.attrs@, "side"@) == Ok::<_, FaultView>(y.caption_side)
            && attr_u32_of(t.attrs@, "sz"@) == Ok::<_, FaultView>(y.caption_size)
            && attr_i32_of(t.attrs@, "gap"@) == Ok::<_, FaultView>(y.caption_spacing)
            && attr_bool01_of(t.attrs@, "fullSz"@) == Ok::<_, FaultView>(y.caption_full_size)
            && attr_bool01_of(t.attrs@, "lineWrap"@) == Ok::<_, FaultView>(y.caption_line_wrap)
            && y == (TableV { has_caption: y.has_caption, caption_side: y.caption_side, caption_size: y.caption_size, caption_spacing: y.caption_spacing, caption_full_size: y.caption_full_size, caption_line_wrap: y.caption_line_wrap, ..tv })),
{
}

/// Reading a direct empty child of a table: `<hp:sz>`, `<hp:pos>` and
/// `<hp:outMargin>` each succeed exactly when the attributes they read
/// are well formed, and set the fields of their attributes' own names
/// (the outer margins from `left`, `right`, `top` and `bottom`), nothing
/// else; any other child changes nothing.
pub proof fn law_table_meta_fields(tv: TableV, t: XmlTag)
    ensures
        t.name@ == "sz"@ ==> (table_meta(tv, t) is Ok <==> (attr_u32_of(t.attrs@, "width"@) is Ok && attr_u32_of(t.attrs@, "height"@) is Ok && attr_bool01_of(t.attrs@, "protect"@) is Ok)),
        t.name@ == "sz"@ ==> (table_meta(tv, t) matches Ok(y) ==> (attr_u32_of(t.attrs@, "width"@) == Ok::<_, FaultView>(y.width)
            && attr_u32_of(t.attrs@, "height"@) == Ok::<_, FaultView>(y.height)
            && attr_bool01_of(t.attrs@, "protect"@) == Ok::<_, FaultView>(y.size_protect)
            && y == (TableV { width: y.width, height: y.height, size_protect: y.size_protect, ..tv }))),
        t.name@ == "pos"@ ==> (table_meta(tv, t) is Ok <==> (attr_bool01_of(t.attrs@, "treatAsChar"@) is Ok && attr_bool01_of(t.attrs@, "flowWithText"@) is Ok && attr_bool01_of(t.attrs@, "allowOverlap"@) is Ok && attr_bool01_of(t.attrs@, "holdAnchorAndSO"@) is Ok && attr_bool01_of(t.attrs@, "affectLSpacing"@) is Ok && attr_string_of(t.attrs@, "horzRelTo"@) is Ok && attr_string_of(t.attrs@, "vertRelTo"@) is Ok && attr_string_of(t.attrs@, "horzAlign"@) is Ok && attr_string_of(t.attrs@, "vertAlign"@) is Ok && attr_i32_of(t.attrs@, "horzOffset"@) is Ok && attr_i32_of(t.attrs@, "vertOffset"@) is Ok)),
        t.name@ == "pos"@ ==> (table_meta(tv, t) matches Ok(y) ==> (attr_bool01_of(t.attrs@, "treatAsChar"@) == Ok::<_, FaultView>(y.treat_as_char)
            && attr_bool01_of(t.attrs@, "flowWithText"@) == Ok::<_, FaultView>(y.flow_with_text)
            && attr_bool01_of(t.attrs@, "allowOverlap"@) == Ok::<_, FaultView>(y.allow_overlap)
            && attr_bool01_of(t.attrs@, "holdAnchorAndSO"@) == Ok::<_, FaultView>(y.hold_anchor_and_so)
            && attr_bool01_of(t.attrs@, "affectLSpacing"@) == Ok::<_, FaultView>(y.affect_l_spacing)
            && attr_string_of(t.attrs@, "horzRelTo"@) == Ok::<_, FaultView>(y.horz_rel_to)
            && attr_string_of(t.attrs@, "vertRelTo"@) == Ok::<_, FaultView>(y.vert_rel_to)
            && attr_string_of(t.attrs@, "horzAlign"@) == Ok::<_, FaultView>(y.horz_align)
            && attr_string_of(t.attrs@, "vertAlign"@) == Ok::<_, FaultView>(y.vert_align)
            && attr_i32_of(t.attrs@, "horzOffset"@) == Ok::<_, FaultView>(y.horz_offset)
            && attr_i32_of(t.attrs@, "vertOffset"@) == Ok::<_, FaultView>(y.vert_offset)
            && y == (TableV { treat_as_char: y.treat_as_char, flow_with_text: y.flow_with_text, allow_overlap: y.allow_overlap, hold_anchor_and_so: y.hold_anchor_and_so, affect_l_spacing: y.affect_l_spacing, horz_rel_to: y.horz_rel_to, vert_rel_to: y.vert_rel_to, horz_align: y.horz_align, vert_align: y.vert_align, horz_offset: y.horz_offset, vert_offset: y.vert_offset, ..tv }))),
        t.name@ == "outMargin"@ ==> (table_meta(tv, t) is Ok <==> (attr_u32_of(t.attrs@, "left"@) is Ok && attr_u32_of(t.attrs@, "right"@) is Ok && attr_u32_of(t.attrs@, "top"@) is Ok && attr_u32_of(t.attrs@, "bottom"@) is Ok)),
        t.name@ == "outMargin"@ ==> (table_meta(tv, t) matches Ok(y) ==> (attr_u32_of(t.attrs@, "left"@) == Ok::<_, FaultView>(y.out_margin_left)
            && attr_u32_of(t.attrs@, "right"@) == Ok::<_, FaultView>(y.out_margin_right)
            && attr_u32_of(t.attrs@, "top"@) == Ok::<_, FaultView>(y.out_margin_top)
            && attr_u32_of(t.attrs@, "bottom"@) == Ok::<_, FaultView>(y.out_margin_bottom)
            && y == (TableV { out_margin_left: y.out_margin_left, out_margin_right: y.out_margin_right, out_margin_top: y.out_margin_top, out_margin_bottom: y.out_margin_bottom, ..tv }))),
        !(t.name@ == "sz"@ || t.name@ == "pos"@ || t.name@ == "outMargin"@) ==> table_meta(tv, t) == Ok::<TableV, FaultView>(tv),
{
    reveal_strlit("sz");
    reveal_strlit("pos");
    reveal_strlit("outMargin");
    assert("pos"@ != "sz"@) by {
        if "pos"@ == "sz"@ {
            assert("pos"@.len() == "sz"@.len());
        }
    }
    assert("outMargin"@ != "sz"@) by {
        if "outMargin"@ == "sz"@ {
            assert("outMargin"@.len() == "sz"@.len());
        }
    }
    assert("outMargin"@ != "pos"@) by {
        if "outMargin"@ == "pos"@ {
            assert("outMargin"@.len() == "pos"@.len());
        }
    }
}

/// An empty `<hp:cellAddr>` met inside a cell sets the cell's column
/// from `colAddr` and its row from `rowAddr`, and reading goes on with
/// the next event; it fails exactly when one of the two is malformed.
pub proof fn law_cell_addr_sets_row_and_col(ev: Seq<XmlEvent>, i: int, t: XmlTag, cv: CellV, cd: u32)
    requires
        0 <= i < ev.len(),
        ev[i] == XmlEvent::Empty(t),
        t.name@ == "cellAddr"@,
    ensures
        (attr_u32_of(t.attrs@, "colAddr"@) is Err || attr_u32_of(t.attrs@, "rowAddr"@) is Err) ==> cell_loop(ev, i, cv, cd) is Err,
        attr_u32_of(t.attrs@, "colAddr"@) matches Ok(c) ==> (attr_u32_of(t.attrs@, "rowAddr"@) matches Ok(r) ==> cell_loop(ev, i, cv, cd)
            == cell_loop(ev, i + 1, (CellV { row: r, col: c, ..cv }), cd)),
{
    lemma_cell_loop_unfold(ev, i, cv, cd);
}

/// Reading the rest of a cell never changes its border-fill reference.
pub proof fn law_cell_loop_keeps_border_fill(ev: Seq<XmlEvent>, i: int, cv: CellV, cd: u32)
    ensures
        cell_loop(ev, i, cv, cd) matches Ok((c, _)) ==> c.border_fill_id_ref == cv.border_fill_id_ref,
    decreases ev.len() - i,
{
    lemma_cell_loop_unfold(ev, i, cv, cd);
    if 0 <= i < ev.len() {
        match ev[i] {
            XmlEvent::Start(t) => if t.name@ == "subList"@ {
                match crate::document::section::parser::sublist_loop(ev, i + 1, cv.paragraphs, cd, None) {
                    Err(_) => {},
                    Ok((ps, j)) => if i < j <= ev.len() {
                        law_cell_loop_keeps_border_fill(ev, j, CellV { paragraphs: ps, ..cv }, cd);
                    },
                }
            } else {
                match crate::xml::skip_from(ev, i + 1, t.qname@, 0) {
                    Err(_) => {},
                    Ok(j) => if i < j <= ev.len() {
                        law_cell_loop_keeps_border_fill(ev, j, cv, cd);
                    },
                }
            },
            XmlEvent::Empty(t) => if t.name@ == "cellAddr"@ {
                match attr_u32_of(t.attrs@, "colAddr"@) {
                    Err(_) => {},
                    Ok(col) => match attr_u32_of(t.attrs@, "rowAddr"@) {
                        Err(_) => {},
                        Ok(row) => law_cell_loop_keeps_border_fill(ev, i + 1, CellV { row, col, ..cv }, cd),
                    },
                }
            } else {
                law_cell_loop_keeps_border_fill(ev, i + 1, cv, cd);
            },
            XmlEvent::End(_, n) => if n@ != "tc"@ {
                law_cell_loop_keeps_border_fill(ev, i + 1, cv, cd);
            },
            XmlEvent::Eof => {},
            _ => law_cell_loop_keeps_border_fill(ev, i + 1, cv, cd),
        }
    }
}

/// A cell read from its `<hp:tc>` tag carries the tag's
/// `borderFillIDRef`; a malformed one fails the read.
pub proof fn law_cell_border_fill(ev: Seq<XmlEvent>, i: int, t: XmlTag, depth: u32)
    ensures
        attr_u32_of(t.attrs@, "borderFillIDRef"@) is Err ==> cell_start(ev, i, t, depth) is Err,
        cell_start(ev, i, t, depth) matches Ok((c, _)) ==> attr_u32_of(t.attrs@, "borderFillIDRef"@) == Ok::<_, FaultView>(
            c.border_fill_id_ref,
        ),
{
    match attr_u32_of(t.attrs@, "borderFillIDRef"@) {
        Err(f) => {
            lemma_cell_start_unfold(ev, i, t, depth);
        },
        Ok(bf) => {
            let cv = CellV { row: 0, col: 0, border_fill_id_ref: bf, paragraphs: Seq::empty() };
            lemma_cell_start_unfold(ev, i, t, depth);
            assert(cell_start(ev, i, t, depth) == cell_loop(ev, i, cv, child_depth(depth)));
            law_cell_loop_keeps_border_fill(ev, i, cv, child_depth(depth));
        },
    }
}

/// A paragraph given as an empty tag takes its shape from `paraPrIDRef`
/// and its style from `styleIDRef`, and holds no run and no table.
pub proof fn law_empty_para_fields(t: XmlTag)
    ensures
        empty_para(t) is Ok <==> (attr_u32_of(t.attrs@, "paraPrIDRef"@) is Ok && attr_u32_of(t.attrs@, "styleIDRef"@) is Ok),
        empty_para(t) matches Ok(p) ==> (attr_u32_of(t.attrs@, "paraPrIDRef"@) == Ok::<_, FaultView>(p.para_pr_id_ref)
            && attr_u32_of(t.attrs@, "styleIDRef"@) == Ok::<_, FaultView>(p.style_id_ref) && p.runs.len() == 0
            && p.tables.len() == 0),
{
}

/// The section's outline reference is that of the first `<hp:secPr>`:
/// once one is set, later ones neither change it nor can fail; before,
/// the tag's `outlineShapeIDRef` sets it.
pub proof fn law_sec_pr_first_wins(t: XmlTag, sink: Option<u32>)
    ensures
        sink is Some ==> sec_pr_sink(t, sink) == Ok::<_, FaultView>(sink),
        sink is None ==> (sec_pr_sink(t, sink) is Ok <==> attr_u32_of(t.attrs@, "outlineShapeIDRef"@) is Ok),
        sink is None ==> (sec_pr_sink(t, sink) matches Ok(v) ==> attr_u32_of(t.attrs@, "outlineShapeIDRef"@) matches Ok(x) && v
            == Some(x)),
{
}

/// Reading the rest of a run never changes its character shape: the run
/// read carries the shape it started with.
pub proof fn law_run_loop_keeps_char_shape(
    ev: Seq<XmlEvent>,
    i: int,
    c: u32,
    text: Seq<char>,
    tables: Seq<TableV>,
    in_h: bool,
    depth: u32,
    sink: Option<u32>,
)
    ensures
        run_loop(ev, i, c, text, tables, in_h, depth, sink) matches Ok((r, _, _, _, _)) ==> r.char_pr_id_ref == c,
    decreases ev.len() - i,
{
    lemma_run_loop_unfold(ev, i, c, text, tables, in_h, depth, sink);
    if 0 <= i < ev.len() {
        match ev[i] {
            XmlEvent::Start(t) => if t.name@ == "t"@ {
                match t_loop(ev, i + 1, Seq::empty()) {
                    Err(_) => {},
                    Ok((s, j)) => if i < j <= ev.len() {
                        law_run_loop_keeps_char_shape(ev, j, c, text + s, tables, in_h, depth, sink);
                    },
                }
            } else if t.name@ == "tbl"@ {
                match table_start(ev, i + 1, t, depth) {
                    Err(_) => {},
                    Ok((tb, j)) => if i < j <= ev.len() {
                        law_run_loop_keeps_char_shape(ev, j, c, text, tables.push(tb), in_h, depth, sink);
                    },
                }
            } else {
                let marks = t.name@ == "fieldBegin"@ || t.name@ == "fieldEnd"@;
                let h = if marks { hyperlink_field(t) } else { Ok(false) };
                let s = if t.name@ == "secPr"@ { sec_pr_sink(t, sink) } else { Ok(sink) };
                if let Ok(is_link) = h {
                    if let Ok(s2) = s {
                        if let Ok(j) = skip_from(ev, i + 1, t.qname@, 0) {
                            if i < j <= ev.len() {
                                law_run_loop_keeps_char_shape(ev, j, c, text, tables,
                                    if is_link { t.name@ == "fieldBegin"@ } else { in_h }, depth, s2);
                            }
                        }
                    }
                }
            },
            XmlEvent::Empty(t) => {
                let marks = t.name@ == "fieldBegin"@ || t.name@ == "fieldEnd"@;
                let h = if marks { hyperlink_field(t) } else { Ok(false) };
                let s = if t.name@ == "secPr"@ { sec_pr_sink(t, sink) } else { Ok(sink) };
                if let Ok(is_link) = h {
                    if let Ok(s2) = s {
                        law_run_loop_keeps_char_shape(ev, i + 1, c, text, tables,
                            if is_link { t.name@ == "fieldBegin"@ } else { in_h }, depth, s2);
                    }
                }
            },
            XmlEvent::End(_, n) => if n@ != "run"@ {
                law_run_loop_keeps_char_shape(ev, i + 1, c, text, tables, in_h, depth, sink);
            },
            XmlEvent::Eof => {},
            _ => law_run_loop_keeps_char_shape(ev, i + 1, c, text, tables, in_h, depth, sink),
        }
    }
}

/// A run read from its `<hp:run>` tag carries the tag's `charPrIDRef`; a
/// malformed one fails the read.
pub proof fn law_run_char_shape(ev: Seq<XmlEvent>, i: int, t: XmlTag, depth: u32, in_h: bool, sink: Option<u32>)
    ensures
        attr_u32_of(t.attrs@, "charPrIDRef"@) is Err ==> run_start(ev, i, t, depth, in_h, sink) is Err,
        run_start(ev, i, t, depth, in_h, sink) matches Ok((r, _, _, _, _)) ==> attr_u32_of(t.attrs@, "charPrIDRef"@) == Ok::<
            _,
            FaultView,
        >(r.char_pr_id_ref),
{
    lemma_run_start_unfold(ev, i, t, depth, in_h, sink);
    if let Ok(c) = attr_u32_of(t.attrs@, "charPrIDRef"@) {
        law_run_loop_keeps_char_shape(ev, i, c, Seq::empty(), Seq::empty(), in_h, depth, sink);
    }
}

/// Inside a run, an empty field marker whose `type` is `HYPERLINK` (in
/// any case) opens a hyperlink when it is a `fieldBegin` and closes it
/// when it is a `fieldEnd`; a marker of another type leaves the state.
pub proof fn law_hyperlink_marker(
    ev: Seq<XmlEvent>,
    i: int,
    t: XmlTag,
    c: u32,
    text: Seq<char>,
    tables: Seq<TableV>,
    in_h: bool,
    depth: u32,
    sink: Option<u32>,
)
    requires
        0 <= i < ev.len(),
        ev[i] == XmlEvent::Empty(t),
        t.name@ == "fieldBegin"@ || t.name@ == "fieldEnd"@,
    ensures
        attr_string_of(t.attrs@, "type"@) is Err ==> run_loop(ev, i, c, text, tables, in_h, depth, sink) is Err,
        attr_string_of(t.attrs@, "type"@) matches Ok(ty) ==> run_loop(ev, i, c, text, tables, in_h, depth, sink) == run_loop(
            ev,
            i + 1,
            c,
            text,
            tables,
            if eq_ignore_case(ty, "HYPERLINK"@) {
                t.name@ == "fieldBegin"@
            } else {
                in_h
            },
            depth,
            sink,
        ),
{
    lemma_run_loop_unfold(ev, i, c, text, tables, in_h, depth, sink);
    reveal_strlit("secPr");
    reveal_strlit("fieldBegin");
    reveal_strlit("fieldEnd");
    assert("secPr"@[0] != "fieldBegin"@[0] && "secPr"@[0] != "fieldEnd"@[0]);
}

/// Reading the rest of a paragraph never changes its shape or style.
pub proof fn law_para_loop_keeps_shape(ev: Seq<XmlEvent>, i: int, p: ParaV, in_h: bool, depth: u32, sink: Option<u32>)
    ensures
        para_loop(ev, i, p, in_h, depth, sink) matches Ok((q, _, _)) ==> q.para_pr_id_ref == p.para_pr_id_ref && q.style_id_ref
            == p.style_id_ref,
    decreases ev.len() - i,
{
    lemma_para_loop_unfold(ev, i, p, in_h, depth, sink);
    if 0 <= i < ev.len() {
        match ev[i] {
            XmlEvent::Start(t) => if t.name@ == "run"@ {
                match run_start(ev, i + 1, t, depth, in_h, sink) {
                    Err(_) => {},
                    Ok((r, tbls, h2, j, s2)) => if i < j <= ev.len() {
                        law_para_loop_keeps_shape(ev, j, ParaV { runs: p.runs.push(r), tables: p.tables + tbls, ..p }, h2, depth, s2);
                    },
                }
            } else {
                match skip_from(ev, i + 1, t.qname@, 0) {
                    Err(_) => {},
                    Ok(j) => if i < j <= ev.len() {
                        law_para_loop_keeps_shape(ev, j, p, in_h, depth, sink);
                    },
                }
            },
            XmlEvent::Empty(t) => if t.name@ == "run"@ {
                if let Ok(c) = attr_u32_of(t.attrs@, "charPrIDRef"@) {
                    law_para_loop_keeps_shape(
                        ev,
                        i + 1,
                        ParaV { runs: p.runs.push(crate::document::section::RunV { char_pr_id_ref: c, text: Seq::empty(), is_hyperlink: in_h }), ..p },
                        in_h,
                        depth,
                        sink,
                    );
                }
            } else {
                law_para_loop_keeps_shape(ev, i + 1, p, in_h, depth, sink);
            },
            XmlEvent::End(_, n) => if n@ != "p"@ {
                law_para_loop_keeps_shape(ev, i + 1, p, in_h, depth, sink);
            },
            XmlEvent::Eof => {},
            _ => law_para_loop_keeps_shape(ev, i + 1, p, in_h, depth, sink),
        }
    }
}

/// A paragraph read from its `<hp:p>` tag takes its shape from
/// `paraPrIDRef` and its style from `styleIDRef`; a malformed one fails
/// the read.
pub proof fn law_para_shape_and_style(ev: Seq<XmlEvent>, i: int, t: XmlTag, depth: u32, sink: Option<u32>)
    ensures
        (attr_u32_of(t.attrs@, "paraPrIDRef"@) is Err || attr_u32_of(t.attrs@, "styleIDRef"@) is Err) ==> para_start(ev, i, t, depth, sink) is Err,
        para_start(ev, i, t, depth, sink) matches Ok((p, _, _)) ==> attr_u32_of(t.attrs@, "paraPrIDRef"@) == Ok::<_, FaultView>(
            p.para_pr_id_ref,
        ) && attr_u32_of(t.attrs@, "styleIDRef"@) == Ok::<_, FaultView>(p.style_id_ref),
{
    lemma_para_start_unfold(ev, i, t, depth, sink);
    if let Ok(ppr) = attr_u32_of(t.attrs@, "paraPrIDRef"@) {
        if let Ok(sid) = attr_u32_of(t.attrs@, "styleIDRef"@) {
            law_para_loop_keeps_shape(
                ev,
                i,
                ParaV { para_pr_id_ref: ppr, style_id_ref: sid, runs: Seq::empty(), tables: Seq::empty() },
                false,
                depth,
                sink,
            );
        }
    }
}

} // verus!
