//! Views of the header tables: the same records with their strings
//! taken as characters, the terms in which the header parser is stated.

use vstd::prelude::*;
use crate::document::header::types::{
    Border, BorderFill, Bullet, CellFillBrush, CharShape, FontFace, FontLang, HAlign, HeadingType,
    LineBreakWord, LineSpacing, LineSpacingType, LineType, Margin, Numbering, ParaHead, ParaShape,
    Style, VAlign,
};
use crate::document::header::HeaderTables;

verus! {

/// A cell fill brush, with its strings as characters.
pub enum BrushV {
    Solid { face: Seq<char>, hatch: Seq<char>, alpha: u32 },
    Gradation {
        gradation_type: Seq<char>,
        start_color: Seq<char>,
        end_color: Seq<char>,
        width_center: u32,
        height_center: u32,
        angle: u32,
        blur_level: u32,
        blur_center: u32,
    },
    Image {
        file: Seq<char>,
        included: bool,
        fill_type: Seq<char>,
        fill_value: i32,
        effect_type: Seq<char>,
        effect_value: i32,
        watermark: u32,
    },
}

/// The view of a brush.
pub open spec fn brush_v(b: CellFillBrush) -> BrushV {
    match b {
        CellFillBrush::Solid { face, hatch, alpha } => BrushV::Solid { face: face@, hatch: hatch@, alpha },
        CellFillBrush::Gradation {
            gradation_type,
            start_color,
            end_color,
            width_center,
            height_center,
            angle,
            blur_level,
            blur_center,
        } => BrushV::Gradation {
            gradation_type: gradation_type@,
            start_color: start_color@,
            end_color: end_color@,
            width_center,
            height_center,
            angle,
            blur_level,
            blur_center,
        },
        CellFillBrush::Image {
            file,
            included,
            fill_type,
            fill_value,
            effect_type,
            effect_value,
            watermark,
        } => BrushV::Image {
            file: file@,
            included,
            fill_type: fill_type@,
            fill_value,
            effect_type: effect_type@,
            effect_value,
            watermark,
        },
    }
}

/// The view of an optional brush.
pub open spec fn brush_opt_v(b: Option<CellFillBrush>) -> Option<BrushV> {
    match b {
        Some(x) => Some(brush_v(x)),
        None => None,
    }
}

/// The views of level templates.
pub open spec fn para_heads_v(hs: Seq<ParaHead>) -> Seq<ParaHeadV> {
    hs.map_values(|h: ParaHead| para_head_v(h))
}

/// A font table, with its strings as characters.
pub struct FontFaceV {
    pub lang: FontLang,
    pub fonts: Map<u32, Seq<char>>,
}

/// A character shape, with its strings as characters.
pub struct CharShapeV {
    pub id: u32,
    pub height: u32,
    pub text_color: Seq<char>,
    pub shade_color: Seq<char>,
    pub use_font_space: bool,
    pub use_kerning: bool,
    pub sym_mark: Seq<char>,
    pub border_fill_id_ref: u32,
    pub font_ref: Seq<u32>,
    pub ratio: Seq<u32>,
    pub spacing: Seq<i32>,
    pub rel_sz: Seq<u32>,
    pub offset: Seq<i32>,
    pub bold: bool,
    pub italic: bool,
    pub underline: bool,
    pub strikeout: bool,
    pub outline: bool,
    pub emboss: bool,
    pub engrave: bool,
    pub shadow: bool,
    pub supscript: bool,
    pub subscript: bool,
}

/// A border edge, with its strings as characters.
pub struct BorderV {
    pub line_type: LineType,
    pub width_nm: i64,
    pub color: Seq<char>,
}

/// A border-fill record, with its strings as characters.
pub struct BorderFillV {
    pub id: u32,
    pub three_d: bool,
    pub shadow: bool,
    pub center_line: Seq<char>,
    pub break_cell_separate_line: bool,
    pub left: BorderV,
    pub right: BorderV,
    pub top: BorderV,
    pub bottom: BorderV,
    pub diagonal: BorderV,
    pub has_fill_brush: bool,
    pub fill_brush: Option<BrushV>,
}

/// Line spacing, with its strings as characters.
pub struct LineSpacingV {
    pub type_: LineSpacingType,
    pub value: i32,
    pub unit: Seq<char>,
}

/// A paragraph shape, with its strings as characters.
pub struct ParaShapeV {
    pub id: u32,
    pub tab_pr_id_ref: u32,
    pub condense: u32,
    pub font_line_height: bool,
    pub snap_to_grid: bool,
    pub suppress_line_numbers: bool,
    pub checked: bool,
    pub h_align: HAlign,
    pub v_align: VAlign,
    pub heading_type: HeadingType,
    pub heading_id_ref: u32,
    pub heading_level: u32,
    pub break_latin_word: LineBreakWord,
    pub break_non_latin_word: LineBreakWord,
    pub widow_orphan: bool,
    pub keep_with_next: bool,
    pub keep_lines: bool,
    pub page_break_before: bool,
    pub line_wrap: bool,
    pub auto_spacing_eng: bool,
    pub auto_spacing_num: bool,
    pub margin: Margin,
    pub line_spacing: LineSpacingV,
    pub border_fill_id_ref: u32,
    pub border_offset_left: i32,
    pub border_offset_right: i32,
    pub border_offset_top: i32,
    pub border_offset_bottom: i32,
    pub connect: bool,
    pub ignore_margin: bool,
}

/// A style, with its strings as characters.
pub struct StyleV {
    pub id: u32,
    pub style_type: Seq<char>,
    pub name: Seq<char>,
    pub eng_name: Seq<char>,
    pub para_pr_id_ref: u32,
    pub char_pr_id_ref: u32,
    pub next_style_id_ref: u32,
    pub lang_id: u32,
    pub lock_form: bool,
}

/// A bullet, with its strings as characters.
pub struct BulletV {
    pub id: u32,
    pub char: Seq<char>,
    pub use_image: bool,
}

/// A level template, with its strings as characters.
pub struct ParaHeadV {
    pub start: u32,
    pub level: u32,
    pub align: Seq<char>,
    pub use_inst_width: bool,
    pub auto_indent: bool,
    pub width_adjust: bool,
    pub text_offset_type: Seq<char>,
    pub text_offset: u32,
    pub num_format: Seq<char>,
    pub char_pr_id_ref: u32,
    pub checkable: bool,
    pub num_format_text: Seq<char>,
}

/// A numbering, with its strings as characters.
pub struct NumberingV {
    pub id: u32,
    pub start: u32,
    pub para_heads: Seq<ParaHeadV>,
}

/// The view of a font table.
pub open spec fn font_face_v(x: FontFace) -> FontFaceV {
    FontFaceV {
        lang: x.lang,
        fonts: fonts_v(x.fonts@),
    }
}

/// The view of a character shape.
pub open spec fn char_shape_v(x: CharShape) -> CharShapeV {
    CharShapeV {
        id: x.id,
        height: x.height,
        text_color: x.text_color@,
        shade_color: x.shade_color@,
        use_font_space: x.use_font_space,
        use_kerning: x.use_kerning,
        sym_mark: x.sym_mark@,
        border_fill_id_ref: x.border_fill_id_ref,
        font_ref: x.font_ref.values@,
        ratio: x.ratio.values@,
        spacing: x.spacing.values@,
        rel_sz: x.rel_sz.values@,
        offset: x.offset.values@,
        bold: x.bold,
        italic: x.italic,
        underline: x.underline,
        strikeout: x.strikeout,
        outline: x.outline,
        emboss: x.emboss,
        engrave: x.engrave,
        shadow: x.shadow,
        supscript: x.supscript,
        subscript: x.subscript,
    }
}

/// The view of a border edge.
pub open spec fn border_v(x: Border) -> BorderV {
    BorderV {
        line_type: x.line_type,
        width_nm: x.width_nm,
        color: x.color@,
    }
}

/// The view of a border-fill record.
pub open spec fn border_fill_v(x: BorderFill) -> BorderFillV {
    BorderFillV {
        id: x.id,
        three_d: x.three_d,
        shadow: x.shadow,
        center_line: x.center_line@,
        break_cell_separate_line: x.break_cell_separate_line,
        left: border_v(x.left),
        right: border_v(x.right),
        top: border_v(x.top),
        bottom: border_v(x.bottom),
        diagonal: border_v(x.diagonal),
        has_fill_brush: x.has_fill_brush,
        fill_brush: brush_opt_v(x.fill_brush),
    }
}

/// The view of line spacing.
pub open spec fn line_spacing_v(x: LineSpacing) -> LineSpacingV {
    LineSpacingV {
        type_: x.type_,
        value: x.value,
        unit: x.unit@,
    }
}

/// The view of a paragraph shape.
pub open spec fn para_shape_v(x: ParaShape) -> ParaShapeV {
    ParaShapeV {
        id: x.id,
        tab_pr_id_ref: x.tab_pr_id_ref,
        condense: x.condense,
        font_line_height: x.font_line_height,
        snap_to_grid: x.snap_to_grid,
        suppress_line_numbers: x.suppress_line_numbers,
        checked: x.checked,
        h_align: x.h_align,
        v_align: x.v_align,
        heading_type: x.heading_type,
        heading_id_ref: x.heading_id_ref,
        heading_level: x.heading_level,
        break_latin_word: x.break_latin_word,
        break_non_latin_word: x.break_non_latin_word,
        widow_orphan: x.widow_orphan,
        keep_with_next: x.keep_with_next,
        keep_lines: x.keep_lines,
        page_break_before: x.page_break_before,
        line_wrap: x.line_wrap,
        auto_spacing_eng: x.auto_spacing_eng,
        auto_spacing_num: x.auto_spacing_num,
        margin: x.margin,
        line_spacing: line_spacing_v(x.line_spacing),
        border_fill_id_ref: x.border_fill_id_ref,
        border_offset_left: x.border_offset_left,
        border_offset_right: x.border_offset_right,
        border_offset_top: x.border_offset_top,
        border_offset_bottom: x.border_offset_bottom,
        connect: x.connect,
        ignore_margin: x.ignore_margin,
    }
}

/// The view of a style.
pub open spec fn style_v(x: Style) -> StyleV {
    StyleV {
        id: x.id,
        style_type: x.style_type@,
        name: x.name@,
        eng_name: x.eng_name@,
        para_pr_id_ref: x.para_pr_id_ref,
        char_pr_id_ref: x.char_pr_id_ref,
        next_style_id_ref: x.next_style_id_ref,
        lang_id: x.lang_id,
        lock_form: x.lock_form,
    }
}

/// The view of a bullet.
pub open spec fn bullet_v(x: Bullet) -> BulletV {
    BulletV {
        id: x.id,
        char: x.char@,
        use_image: x.use_image,
    }
}

/// The view of a level template.
pub open spec fn para_head_v(x: ParaHead) -> ParaHeadV {
    ParaHeadV {
        start: x.start,
        level: x.level,
        align: x.align@,
        use_inst_width: x.use_inst_width,
        auto_indent: x.auto_indent,
        width_adjust: x.width_adjust,
        text_offset_type: x.text_offset_type@,
        text_offset: x.text_offset,
        num_format: x.num_format@,
        char_pr_id_ref: x.char_pr_id_ref,
        checkable: x.checkable,
        num_format_text: x.num_format_text@,
    }
}

/// The view of a numbering.
pub open spec fn numbering_v(x: Numbering) -> NumberingV {
    NumberingV {
        id: x.id,
        start: x.start,
        para_heads: para_heads_v(x.para_heads@),
    }
}

/// A font table's names, as views.
pub open spec fn fonts_v(m: Map<u32, String>) -> Map<u32, Seq<char>> {
    m.map_values(|s: String| s@)
}

/// Storing a record stores its view.
pub proof fn lemma_fonts_v_insert(m: Map<u32, String>, k: u32, s: String)
    ensures
        fonts_v(m.insert(k, s)) == fonts_v(m).insert(k, s@),
{
    assert(fonts_v(m.insert(k, s)) =~= fonts_v(m).insert(k, s@));
}

/// Character shapes, as views.
pub open spec fn char_shapes_v(m: Map<u32, CharShape>) -> Map<u32, CharShapeV> {
    m.map_values(|x: CharShape| char_shape_v(x))
}

/// Storing a record stores its view.
pub proof fn lemma_char_shapes_v_insert(m: Map<u32, CharShape>, k: u32, x: CharShape)
    ensures
        char_shapes_v(m.insert(k, x)) == char_shapes_v(m).insert(k, char_shape_v(x)),
{
    assert(char_shapes_v(m.insert(k, x)) =~= char_shapes_v(m).insert(k, char_shape_v(x)));
}

/// Paragraph shapes, as views.
pub open spec fn para_shapes_v(m: Map<u32, ParaShape>) -> Map<u32, ParaShapeV> {
    m.map_values(|x: ParaShape| para_shape_v(x))
}

/// Storing a record stores its view.
pub proof fn lemma_para_shapes_v_insert(m: Map<u32, ParaShape>, k: u32, x: ParaShape)
    ensures
        para_shapes_v(m.insert(k, x)) == para_shapes_v(m).insert(k, para_shape_v(x)),
{
    assert(para_shapes_v(m.insert(k, x)) =~= para_shapes_v(m).insert(k, para_shape_v(x)));
}

/// Border fills, as views.
pub open spec fn border_fills_v(m: Map<u32, BorderFill>) -> Map<u32, BorderFillV> {
    m.map_values(|x: BorderFill| border_fill_v(x))
}

/// Storing a record stores its view.
pub proof fn lemma_border_fills_v_insert(m: Map<u32, BorderFill>, k: u32, x: BorderFill)
    ensures
        border_fills_v(m.insert(k, x)) == border_fills_v(m).insert(k, border_fill_v(x)),
{
    assert(border_fills_v(m.insert(k, x)) =~= border_fills_v(m).insert(k, border_fill_v(x)));
}

/// Styles, as views.
pub open spec fn styles_v(m: Map<u32, Style>) -> Map<u32, StyleV> {
    m.map_values(|x: Style| style_v(x))
}

/// Storing a record stores its view.
pub proof fn lemma_styles_v_insert(m: Map<u32, Style>, k: u32, x: Style)
    ensures
        styles_v(m.insert(k, x)) == styles_v(m).insert(k, style_v(x)),
{
    assert(styles_v(m.insert(k, x)) =~= styles_v(m).insert(k, style_v(x)));
}

/// Bullets, as views.
pub open spec fn bullets_v(m: Map<u32, Bullet>) -> Map<u32, BulletV> {
    m.map_values(|x: Bullet| bullet_v(x))
}

/// Storing a record stores its view.
pub proof fn lemma_bullets_v_insert(m: Map<u32, Bullet>, k: u32, x: Bullet)
    ensures
        bullets_v(m.insert(k, x)) == bullets_v(m).insert(k, bullet_v(x)),
{
    assert(bullets_v(m.insert(k, x)) =~= bullets_v(m).insert(k, bullet_v(x)));
}

/// Numberings, as views.
pub open spec fn numberings_v(m: Map<u32, Numbering>) -> Map<u32, NumberingV> {
    m.map_values(|x: Numbering| numbering_v(x))
}

/// Storing a record stores its view.
pub proof fn lemma_numberings_v_insert(m: Map<u32, Numbering>, k: u32, x: Numbering)
    ensures
        numberings_v(m.insert(k, x)) == numberings_v(m).insert(k, numbering_v(x)),
{
    assert(numberings_v(m.insert(k, x)) =~= numberings_v(m).insert(k, numbering_v(x)));
}

/// Font tables, as views.
pub open spec fn font_faces_v(v: Seq<FontFace>) -> Seq<FontFaceV> {
    v.map_values(|x: FontFace| font_face_v(x))
}

/// Appending a font table appends its view.
pub proof fn lemma_font_faces_v_push(v: Seq<FontFace>, x: FontFace)
    ensures
        font_faces_v(v.push(x)) == font_faces_v(v).push(font_face_v(x)),
{
    assert(font_faces_v(v.push(x)) =~= font_faces_v(v).push(font_face_v(x)));
}

/// Appending a level template appends its view.
pub proof fn lemma_para_heads_v_push(v: Seq<ParaHead>, x: ParaHead)
    ensures
        para_heads_v(v.push(x)) == para_heads_v(v).push(para_head_v(x)),
{
    assert(para_heads_v(v.push(x)) =~= para_heads_v(v).push(para_head_v(x)));
}

/// The empty tables' views are empty.
pub proof fn lemma_empty_views()
    ensures
        fonts_v(Map::<u32, String>::empty()) == Map::<u32, Seq<char>>::empty(),
        char_shapes_v(Map::<u32, CharShape>::empty()) == Map::<u32, CharShapeV>::empty(),
        para_shapes_v(Map::<u32, ParaShape>::empty()) == Map::<u32, ParaShapeV>::empty(),
        border_fills_v(Map::<u32, BorderFill>::empty()) == Map::<u32, BorderFillV>::empty(),
        styles_v(Map::<u32, Style>::empty()) == Map::<u32, StyleV>::empty(),
        bullets_v(Map::<u32, Bullet>::empty()) == Map::<u32, BulletV>::empty(),
        numberings_v(Map::<u32, Numbering>::empty()) == Map::<u32, NumberingV>::empty(),
        font_faces_v(Seq::<FontFace>::empty()) == Seq::<FontFaceV>::empty(),
        para_heads_v(Seq::<ParaHead>::empty()) == Seq::<ParaHeadV>::empty(),
{
    assert(fonts_v(Map::<u32, String>::empty()) =~= Map::<u32, Seq<char>>::empty());
    assert(char_shapes_v(Map::<u32, CharShape>::empty()) =~= Map::<u32, CharShapeV>::empty());
    assert(para_shapes_v(Map::<u32, ParaShape>::empty()) =~= Map::<u32, ParaShapeV>::empty());
    assert(border_fills_v(Map::<u32, BorderFill>::empty()) =~= Map::<u32, BorderFillV>::empty());
    assert(styles_v(Map::<u32, Style>::empty()) =~= Map::<u32, StyleV>::empty());
    assert(bullets_v(Map::<u32, Bullet>::empty()) =~= Map::<u32, BulletV>::empty());
    assert(numberings_v(Map::<u32, Numbering>::empty()) =~= Map::<u32, NumberingV>::empty());
    assert(font_faces_v(Seq::<FontFace>::empty()) =~= Seq::<FontFaceV>::empty());
    assert(para_heads_v(Seq::<ParaHead>::empty()) =~= Seq::<ParaHeadV>::empty());
}

/// The header tables, with every record as its view.
pub struct HeaderV {
    pub char_shapes: Map<u32, CharShapeV>,
    pub para_shapes: Map<u32, ParaShapeV>,
    pub border_fills: Map<u32, BorderFillV>,
    pub styles: Map<u32, StyleV>,
    pub bullets: Map<u32, BulletV>,
    pub numberings: Map<u32, NumberingV>,
    pub font_faces: Seq<FontFaceV>,
}

/// The view of the header tables.
pub open spec fn header_v(h: HeaderTables) -> HeaderV {
    HeaderV {
        char_shapes: char_shapes_v(h.char_shapes@),
        para_shapes: para_shapes_v(h.para_shapes@),
        border_fills: border_fills_v(h.border_fills@),
        styles: styles_v(h.styles@),
        bullets: bullets_v(h.bullets@),
        numberings: numberings_v(h.numberings@),
        font_faces: font_faces_v(h.font_faces@),
    }
}

} // verus!
