//! The validation spec: which properties a document must have, category
//! by category. Every category is optional; a missing one is not checked.

use vstd::prelude::*;

verus! {

/// The whole validation spec.
#[derive(Debug, Default, Clone)]
pub struct DvcSpec {
    pub charshape: Option<CharShapeSpec>,
    pub parashape: Option<ParaShapeSpec>,
    pub table: Option<TableSpec>,
    pub specialcharacter: Option<SpecialCharacterSpec>,
    pub outlineshape: Option<OutlineShapeSpec>,
    pub bullet: Option<BulletSpec>,
    pub paranumbullet: Option<ParaNumBulletSpec>,
    pub style: Option<StyleSpec>,
    pub hyperlink: Option<HyperlinkSpec>,
    pub macro_: Option<MacroSpec>,
}

/// Character-shape rules.
#[derive(Debug, Default, Clone)]
pub struct CharShapeSpec {
    pub langtype: Option<String>,
    /// Allowed font names; empty means any font.
    pub font: Vec<String>,
    pub ratio: Option<i32>,
    pub spacing: Option<i32>,
    /// Font height in the document's units.
    pub fontsize: Option<u32>,
    pub rsize: Option<u32>,
    pub position: Option<i32>,
    pub bold: Option<bool>,
    pub italic: Option<bool>,
    pub underline: Option<bool>,
    pub strikeout: Option<bool>,
    pub outline: Option<bool>,
    pub emboss: Option<bool>,
    pub engrave: Option<bool>,
    pub shadow: Option<bool>,
    pub supscript: Option<bool>,
    pub subscript: Option<bool>,
    pub emptyspace: Option<bool>,
    /// Font size in hundredths of a point (1000 is 10 pt).
    pub point_centi: Option<u32>,
    pub kerning: Option<bool>,
    pub border: Option<CharShapeBorderSpec>,
}

/// The character background border rule.
#[derive(Debug, Default, Clone)]
pub struct CharShapeBorderSpec {
    pub position: Option<u32>,
    pub bordertype: Option<u32>,
    /// Border width in millionths of a millimetre.
    pub size_nm: Option<u32>,
    pub color: Option<String>,
}

/// Paragraph-shape rules.
#[derive(Debug, Default, Clone)]
pub struct ParaShapeSpec {
    pub horizontal: Option<i32>,
    pub margin_left: Option<i32>,
    pub margin_right: Option<i32>,
    pub firstline: Option<bool>,
    pub indent: Option<i32>,
    pub outdent: Option<i32>,
    pub linespacing: Option<i32>,
    pub linespacingvalue: Option<i32>,
    pub spacing_paraup: Option<i32>,
    pub spacing_parabottom: Option<i32>,
    pub spacing_gridpaper: Option<bool>,
    pub linebreak_korean: Option<bool>,
    pub linebreak_english: Option<i32>,
    pub linebreak_condense: Option<i32>,
    pub paratype: Option<i32>,
    pub paratype_value: Option<u32>,
    pub widow_orphan: Option<bool>,
    pub keep_with_next: Option<bool>,
    pub keep_lines_together: Option<bool>,
    pub pagebreak_before: Option<bool>,
    pub fontlineheight: Option<bool>,
    pub linewrap: Option<bool>,
    pub autospace_easian_eng: Option<bool>,
    pub autospace_easian_num: Option<bool>,
    pub verticalalign: Option<i32>,
    /// The tab-definition rules, kept as their JSON text.
    pub tabtypes: Option<String>,
    pub autotab_intent: Option<bool>,
    pub autotab_pararightend: Option<bool>,
    pub basetabspace: Option<i32>,
    /// The paragraph border rules, kept as their JSON text.
    pub border: Option<String>,
    pub bg_color: Option<u32>,
    pub bg_pattoncolor: Option<u32>,
    pub bg_pattontype: Option<i32>,
    pub spacing_left: Option<bool>,
    pub spacing_right: Option<bool>,
    pub spacing_top: Option<bool>,
    pub spacing_bottom: Option<bool>,
    pub spacing_ignore: Option<bool>,
}

/// An inclusive integer range.
#[derive(Debug, Default, Clone, Copy, PartialEq, Eq)]
pub struct IntRange {
    pub min: i64,
    pub max: i64,
}

impl IntRange {
    /// Whether `v` lies in `[min, max]`.
    pub fn contains(&self, v: i64) -> (r: bool)
        ensures
            r == (self.min <= v && v <= self.max),
    {
        self.min <= v && v <= self.max
    }
}

/// Table rules, standard and cell-detail.
#[derive(Debug, Default, Clone)]
pub struct TableSpec {
    pub size_width: Option<IntRange>,
    pub size_height: Option<IntRange>,
    pub fixed: Option<bool>,
    pub treat_as_char: Option<bool>,
    pub pos: Option<u32>,
    pub textpos: Option<u32>,
    pub horizontal_type: Option<u32>,
    pub horizontal_direction: Option<u32>,
    pub horizontal_value: Option<IntRange>,
    pub vertical_type: Option<u32>,
    pub vertical_direction: Option<u32>,
    pub vertical_value: Option<IntRange>,
    pub soflowwithtext: Option<bool>,
    pub soallowoverlap: Option<bool>,
    pub soholdanchorobj: Option<bool>,
    pub parallel: Option<bool>,
    pub rotation: Option<i32>,
    pub gradient_h: Option<i32>,
    pub gradient_v: Option<i32>,
    pub numbertype: Option<u32>,
    pub objprotect: Option<bool>,
    pub margin_left: Option<IntRange>,
    pub margin_right: Option<IntRange>,
    pub margin_top: Option<IntRange>,
    pub margin_bottom: Option<IntRange>,
    pub caption_position: Option<u32>,
    pub caption_size: Option<IntRange>,
    pub caption_spacing: Option<IntRange>,
    pub caption_socapfullsize: Option<bool>,
    pub caption_linewrap: Option<bool>,
    pub border: Vec<BorderSpec>,
    pub border_cellspacing: Option<IntRange>,
    pub table_in_table: Option<bool>,
    pub bgfill_type: Option<String>,
    pub bgfill_facecolor: Option<u32>,
    pub bgfill_pattoncolor: Option<u32>,
    pub bgfill_pattontype: Option<i32>,
    pub bggradation_startcolor: Option<u32>,
    pub bggradation_endcolor: Option<u32>,
    pub bggradation_type: Option<String>,
    pub bggradation_widthcenter: Option<u32>,
    pub bggradation_heightcenter: Option<u32>,
    pub bggradation_gradationangle: Option<u32>,
    pub bggradation_blurlevel: Option<u32>,
    pub bggradation_blurcenter: Option<u32>,
    pub picture_file: Option<String>,
    pub picture_include: Option<bool>,
    pub picturefill_type: Option<String>,
    pub picturefill_value: Option<i32>,
    pub effect_type: Option<String>,
    pub effect_value: Option<i32>,
    pub watermark: Option<u32>,
}

/// Whether any cell-detail rule of `s` is set.
pub open spec fn spec_has_cell_detail_fields(s: TableSpec) -> bool {
    s.bgfill_type is Some
    || s.bgfill_facecolor is Some
    || s.bgfill_pattoncolor is Some
    || s.bgfill_pattontype is Some
    || s.bggradation_startcolor is Some
    || s.bggradation_endcolor is Some
    || s.bggradation_type is Some
    || s.bggradation_widthcenter is Some
    || s.bggradation_heightcenter is Some
    || s.bggradation_gradationangle is Some
    || s.bggradation_blurlevel is Some
    || s.bggradation_blurcenter is Some
    || s.picture_file is Some
    || s.picture_include is Some
    || s.picturefill_type is Some
    || s.picturefill_value is Some
    || s.effect_type is Some
    || s.effect_value is Some
    || s.watermark is Some
}

impl TableSpec {
    /// Whether any cell-detail rule is set.
    pub fn has_cell_detail_fields(&self) -> (r: bool)
        ensures
            r == spec_has_cell_detail_fields(*self),
    {
        self.bgfill_type.is_some()
            || self.bgfill_facecolor.is_some()
            || self.bgfill_pattoncolor.is_some()
            || self.bgfill_pattontype.is_some()
            || self.bggradation_startcolor.is_some()
            || self.bggradation_endcolor.is_some()
            || self.bggradation_type.is_some()
            || self.bggradation_widthcenter.is_some()
            || self.bggradation_heightcenter.is_some()
            || self.bggradation_gradationangle.is_some()
            || self.bggradation_blurlevel.is_some()
            || self.bggradation_blurcenter.is_some()
            || self.picture_file.is_some()
            || self.picture_include.is_some()
            || self.picturefill_type.is_some()
            || self.picturefill_value.is_some()
            || self.effect_type.is_some()
            || self.effect_value.is_some()
            || self.watermark.is_some()
    }
}

/// One table border rule.
#[derive(Debug, Default, Clone, Copy)]
pub struct BorderSpec {
    /// 1 left, 2 right, 3 top, 4 bottom.
    pub position: u32,
    pub bordertype: u32,
    /// Border width in millionths of a millimetre.
    pub size_nm: u32,
    /// Packed 0xRRGGBB colour.
    pub color: u32,
}

/// The allowed code-point range of text.
#[derive(Debug, Default, Clone, Copy)]
pub struct SpecialCharacterSpec {
    pub minimum: u32,
    pub maximum: u32,
}

/// Outline-numbering rules.
#[derive(Debug, Default, Clone)]
pub struct OutlineShapeSpec {
    pub leveltype: Vec<LevelType>,
    pub start_number: Option<u32>,
    pub value: Option<u32>,
}

/// Bullet rules.
#[derive(Debug, Default, Clone)]
pub struct BulletSpec {
    /// The allowed bullet characters, as one string.
    pub bulletshapes: Option<String>,
}

/// Paragraph-numbering rules.
#[derive(Debug, Default, Clone)]
pub struct ParaNumBulletSpec {
    pub leveltype: Vec<LevelType>,
    /// Whether numbering must restart (true) or continue (false).
    pub start_number: Option<bool>,
    pub value: Option<u32>,
}

/// The rule for one numbering level.
#[derive(Debug, Default, Clone)]
pub struct LevelType {
    pub level: u32,
    pub numbertype: Option<String>,
    pub numbershape: u32,
}

/// The built-in paragraph style kinds a spec can allow.
#[derive(Debug, Clone, Copy, PartialEq, Eq)]
pub enum StyleType {
    Normal,
    Body,
    Outline1,
    Outline2,
    Outline3,
    Outline4,
    Outline5,
    Outline6,
    Outline7,
    Outline8,
    Outline9,
    Outline10,
    PageNumber,
    Header,
    Footnote,
    Endnote,
    Memo,
    TocHeading,
    Toc1,
    Toc2,
    Toc3,
    Caption,
}

/// The Korean display name of a style kind.
pub open spec fn style_korean_name(t: StyleType) -> Seq<char> {
    match t {
        StyleType::Normal => "바탕글"@,
        StyleType::Body => "본문"@,
        StyleType::Outline1 => "개요 1"@,
        StyleType::Outline2 => "개요 2"@,
        StyleType::Outline3 => "개요 3"@,
        StyleType::Outline4 => "개요 4"@,
        StyleType::Outline5 => "개요 5"@,
        StyleType::Outline6 => "개요 6"@,
        StyleType::Outline7 => "개요 7"@,
        StyleType::Outline8 => "개요 8"@,
        StyleType::Outline9 => "개요 9"@,
        StyleType::Outline10 => "개요 10"@,
        StyleType::PageNumber => "쪽 번호"@,
        StyleType::Header => "머리말"@,
        StyleType::Footnote => "각주"@,
        StyleType::Endnote => "미주"@,
        StyleType::Memo => "메모"@,
        StyleType::TocHeading => "차례 제목"@,
        StyleType::Toc1 => "차례 1"@,
        StyleType::Toc2 => "차례 2"@,
        StyleType::Toc3 => "차례 3"@,
        StyleType::Caption => "캡션"@,
    }
}

impl StyleType {
    /// The Korean display name of this style kind.
    pub fn as_korean_name(&self) -> (r: &'static str)
        ensures
            r@ == style_korean_name(*self),
    {
        match self {
            StyleType::Normal => "바탕글",
            StyleType::Body => "본문",
            StyleType::Outline1 => "개요 1",
            StyleType::Outline2 => "개요 2",
            StyleType::Outline3 => "개요 3",
            StyleType::Outline4 => "개요 4",
            StyleType::Outline5 => "개요 5",
            StyleType::Outline6 => "개요 6",
            StyleType::Outline7 => "개요 7",
            StyleType::Outline8 => "개요 8",
            StyleType::Outline9 => "개요 9",
            StyleType::Outline10 => "개요 10",
            StyleType::PageNumber => "쪽 번호",
            StyleType::Header => "머리말",
            StyleType::Footnote => "각주",
            StyleType::Endnote => "미주",
            StyleType::Memo => "메모",
            StyleType::TocHeading => "차례 제목",
            StyleType::Toc1 => "차례 1",
            StyleType::Toc2 => "차례 2",
            StyleType::Toc3 => "차례 3",
            StyleType::Caption => "캡션",
        }
    }
}

/// Style rules.
#[derive(Debug, Default, Clone)]
pub struct StyleSpec {
    pub permission: bool,
    pub allowed_types: Option<Vec<StyleType>>,
}

/// Hyperlink rules.
#[derive(Debug, Default, Clone, Copy)]
pub struct HyperlinkSpec {
    pub permission: bool,
}

/// Macro rules.
#[derive(Debug, Default, Clone, Copy)]
pub struct MacroSpec {
    pub permission: bool,
}

} // verus!
