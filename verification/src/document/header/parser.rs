//! The header parser: `Contents/header.xml` events to the shape tables.
//!
//! Elements are matched by local name. Each table's container element
//! (`<hh:charProperties>`, ...) is read by its own loop; unknown
//! subtrees inside them are skipped whole. Each loop is a spec function
//! over the event sequence and an executable function proved to
//! compute it.

use std::collections::HashMap;
use vstd::prelude::*;
use crate::document::header::types::{
    font_lang_of, h_align_of, heading_type_of, line_break_word_of, line_spacing_type_of,
    line_type_of, v_align_of, Border, BorderFill, Bullet, CellFillBrush, CharShape, FontFace,
    FontLang, HAlign, HeadingType, LangTuple, LineBreakWord, LineSpacing, LineSpacingType,
    LineType, Margin, Numbering, ParaHead, ParaShape, Style, VAlign,
};
use crate::document::header::view::{
    lemma_empty_views, lemma_font_faces_v_push, lemma_para_heads_v_push, lemma_fonts_v_insert,
    lemma_border_fills_v_insert, lemma_char_shapes_v_insert, lemma_para_shapes_v_insert,
    lemma_styles_v_insert, lemma_bullets_v_insert, lemma_numberings_v_insert, fonts_v,
    font_faces_v, border_fills_v, char_shapes_v, para_shapes_v, styles_v, bullets_v,
    numberings_v, border_fill_v, border_v, brush_opt_v, brush_v, bullet_v, char_shape_v, font_face_v,
    header_v, line_spacing_v, numbering_v, para_head_v, para_heads_v, para_shape_v, style_v,
    BorderFillV, BorderV, BrushV, BulletV, CharShapeV, FontFaceV, HeaderV, LineSpacingV,
    NumberingV, ParaHeadV, ParaShapeV, StyleV,
};
use crate::document::header::{header_wf, HeaderTables};
use crate::laws::document::{law_header_records_keyed_by_id, lemma_header_wf_from_view};
use crate::error::{DvcError, DvcResult};
use crate::text::{digit_val, is_digit, str_eq, trim, trim_str, to_chars};
use crate::xml::{
    attr_bool, attr_bool_of, attr_i32, attr_i32_of, attr_string, attr_string_of, attr_u32,
    attr_u32_of, events_v, fault_error, fault_error_matches, outcome, skip, skip_from, tokenize, xml_events, xml_faults, FaultView,
    ParseFault, XmlEvent, XmlStream, XmlTag,
};
use vstd::string::*;

verus! {

broadcast use vstd::std_specs::hash::group_hash_axioms;

// ---------------------------------------------------------------------------
// The parse, as spec functions over the events
// ---------------------------------------------------------------------------

/// A character shape from its `<hh:charPr>` start tag.
pub open spec fn char_shape_head(t: XmlTag) -> Result<CharShapeV, FaultView> {
    match attr_u32_of(t.attrs@, "id"@) {
        Err(f) => Err(f),
        Ok(id) => match attr_u32_of(t.attrs@, "height"@) {
            Err(f) => Err(f),
            Ok(height) => match attr_string_of(t.attrs@, "textColor"@) {
                Err(f) => Err(f),
                Ok(text_color) => match attr_string_of(t.attrs@, "shadeColor"@) {
                    Err(f) => Err(f),
                    Ok(shade_color) => match attr_bool_of(t.attrs@, "useFontSpace"@) {
                        Err(f) => Err(f),
                        Ok(use_font_space) => match attr_bool_of(t.attrs@, "useKerning"@) {
                            Err(f) => Err(f),
                            Ok(use_kerning) => match attr_string_of(t.attrs@, "symMark"@) {
                                Err(f) => Err(f),
                                Ok(sym_mark) => match attr_u32_of(t.attrs@, "borderFillIDRef"@) {
                                    Err(f) => Err(f),
                                    Ok(border_fill_id_ref) => Ok(CharShapeV { id, height, text_color, shade_color, use_font_space, use_kerning, sym_mark, border_fill_id_ref, font_ref: seq![0u32, 0u32, 0u32, 0u32, 0u32, 0u32, 0u32], ratio: seq![0u32, 0u32, 0u32, 0u32, 0u32, 0u32, 0u32], spacing: seq![0i32, 0i32, 0i32, 0i32, 0i32, 0i32, 0i32], rel_sz: seq![0u32, 0u32, 0u32, 0u32, 0u32, 0u32, 0u32], offset: seq![0i32, 0i32, 0i32, 0i32, 0i32, 0i32, 0i32], bold: false, italic: false, underline: false, strikeout: false, outline: false, emboss: false, engrave: false, shadow: false, supscript: false, subscript: false }),
                                },
                            },
                        },
                    },
                },
            },
        },
    }
}

/// A paragraph shape from its `<hh:paraPr>` start tag.
pub open spec fn para_shape_head(t: XmlTag) -> Result<ParaShapeV, FaultView> {
    match attr_u32_of(t.attrs@, "id"@) {
        Err(f) => Err(f),
        Ok(id) => match attr_u32_of(t.attrs@, "tabPrIDRef"@) {
            Err(f) => Err(f),
            Ok(tab_pr_id_ref) => match attr_u32_of(t.attrs@, "condense"@) {
                Err(f) => Err(f),
                Ok(condense) => match attr_bool_of(t.attrs@, "fontLineHeight"@) {
                    Err(f) => Err(f),
                    Ok(font_line_height) => match attr_bool_of(t.attrs@, "snapToGrid"@) {
                        Err(f) => Err(f),
                        Ok(snap_to_grid) => match attr_bool_of(t.attrs@, "suppressLineNumbers"@) {
                            Err(f) => Err(f),
                            Ok(suppress_line_numbers) => match attr_bool_of(t.attrs@, "checked"@) {
                                Err(f) => Err(f),
                                Ok(checked) => Ok(ParaShapeV { id, tab_pr_id_ref, condense, font_line_height, snap_to_grid, suppress_line_numbers, checked, h_align: HAlign::Justify, v_align: VAlign::Baseline, heading_type: HeadingType::NoHeading, heading_id_ref: 0, heading_level: 0, break_latin_word: LineBreakWord::KeepWord, break_non_latin_word: LineBreakWord::KeepWord, widow_orphan: false, keep_with_next: false, keep_lines: false, page_break_before: false, line_wrap: false, auto_spacing_eng: false, auto_spacing_num: false, margin: Margin { indent: 0, left: 0, right: 0, prev: 0, next: 0 }, line_spacing: LineSpacingV { type_: LineSpacingType::Percent, value: 0, unit: Seq::empty() }, border_fill_id_ref: 0, border_offset_left: 0, border_offset_right: 0, border_offset_top: 0, border_offset_bottom: 0, connect: false, ignore_margin: false }),
                            },
                        },
                    },
                },
            },
        },
    }
}

/// A border fill from its `<hh:borderFill>` start tag.
pub open spec fn border_fill_head(t: XmlTag) -> Result<BorderFillV, FaultView> {
    match attr_u32_of(t.attrs@, "id"@) {
        Err(f) => Err(f),
        Ok(id) => match attr_bool_of(t.attrs@, "threeD"@) {
            Err(f) => Err(f),
            Ok(three_d) => match attr_bool_of(t.attrs@, "shadow"@) {
                Err(f) => Err(f),
                Ok(shadow) => match attr_string_of(t.attrs@, "centerLine"@) {
                    Err(f) => Err(f),
                    Ok(center_line) => match attr_bool_of(t.attrs@, "breakCellSeparateLine"@) {
                        Err(f) => Err(f),
                        Ok(break_cell_separate_line) => Ok(BorderFillV { id, three_d, shadow, center_line, break_cell_separate_line, left: BorderV { line_type: LineType::NoLine, width_nm: 0, color: Seq::empty() }, right: BorderV { line_type: LineType::NoLine, width_nm: 0, color: Seq::empty() }, top: BorderV { line_type: LineType::NoLine, width_nm: 0, color: Seq::empty() }, bottom: BorderV { line_type: LineType::NoLine, width_nm: 0, color: Seq::empty() }, diagonal: BorderV { line_type: LineType::NoLine, width_nm: 0, color: Seq::empty() }, has_fill_brush: false, fill_brush: None }),
                    },
                },
            },
        },
    }
}

/// A style from its `<hh:style>` tag.
pub open spec fn style_of(t: XmlTag) -> Result<StyleV, FaultView> {
    match attr_u32_of(t.attrs@, "id"@) {
        Err(f) => Err(f),
        Ok(id) => match attr_string_of(t.attrs@, "type"@) {
            Err(f) => Err(f),
            Ok(style_type) => match attr_string_of(t.attrs@, "name"@) {
                Err(f) => Err(f),
                Ok(name) => match attr_string_of(t.attrs@, "engName"@) {
                    Err(f) => Err(f),
                    Ok(eng_name) => match attr_u32_of(t.attrs@, "paraPrIDRef"@) {
                        Err(f) => Err(f),
                        Ok(para_pr_id_ref) => match attr_u32_of(t.attrs@, "charPrIDRef"@) {
                            Err(f) => Err(f),
                            Ok(char_pr_id_ref) => match attr_u32_of(t.attrs@, "nextStyleIDRef"@) {
                                Err(f) => Err(f),
                                Ok(next_style_id_ref) => match attr_u32_of(t.attrs@, "langID"@) {
                                    Err(f) => Err(f),
                                    Ok(lang_id) => match attr_bool_of(t.attrs@, "lockForm"@) {
                                        Err(f) => Err(f),
                                        Ok(lock_form) => Ok(StyleV { id, style_type, name, eng_name, para_pr_id_ref, char_pr_id_ref, next_style_id_ref, lang_id, lock_form }),
                                    },
                                },
                            },
                        },
                    },
                },
            },
        },
    }
}

/// A bullet from its `<hh:bullet>` tag.
pub open spec fn bullet_of(t: XmlTag) -> Result<BulletV, FaultView> {
    match attr_u32_of(t.attrs@, "id"@) {
        Err(f) => Err(f),
        Ok(id) => match attr_string_of(t.attrs@, "char"@) {
            Err(f) => Err(f),
            Ok(ch) => match attr_bool_of(t.attrs@, "useImage"@) {
                Err(f) => Err(f),
                Ok(use_image) => Ok(BulletV { id, char: ch, use_image }),
            },
        },
    }
}

/// A numbering from its `<hh:numbering>` start tag.
pub open spec fn numbering_head(t: XmlTag) -> Result<NumberingV, FaultView> {
    match attr_u32_of(t.attrs@, "id"@) {
        Err(f) => Err(f),
        Ok(id) => match attr_u32_of(t.attrs@, "start"@) {
            Err(f) => Err(f),
            Ok(start) => Ok(NumberingV { id, start, para_heads: Seq::empty() }),
        },
    }
}

/// A level template from its `<hh:paraHead>` tag, its text not yet read.
pub open spec fn para_head_of(t: XmlTag) -> Result<ParaHeadV, FaultView> {
    match attr_u32_of(t.attrs@, "start"@) {
        Err(f) => Err(f),
        Ok(start) => match attr_u32_of(t.attrs@, "level"@) {
            Err(f) => Err(f),
            Ok(level) => match attr_string_of(t.attrs@, "align"@) {
                Err(f) => Err(f),
                Ok(align) => match attr_bool_of(t.attrs@, "useInstWidth"@) {
                    Err(f) => Err(f),
                    Ok(use_inst_width) => match attr_bool_of(t.attrs@, "autoIndent"@) {
                        Err(f) => Err(f),
                        Ok(auto_indent) => match attr_bool_of(t.attrs@, "widthAdjust"@) {
                            Err(f) => Err(f),
                            Ok(width_adjust) => match attr_string_of(t.attrs@, "textOffsetType"@) {
                                Err(f) => Err(f),
                                Ok(text_offset_type) => match attr_u32_of(t.attrs@, "textOffset"@) {
                                    Err(f) => Err(f),
                                    Ok(text_offset) => match attr_string_of(t.attrs@, "numFormat"@) {
                                        Err(f) => Err(f),
                                        Ok(num_format) => match attr_u32_of(t.attrs@, "charPrIDRef"@) {
                                            Err(f) => Err(f),
                                            Ok(char_pr_id_ref) => match attr_bool_of(t.attrs@, "checkable"@) {
                                                Err(f) => Err(f),
                                                Ok(checkable) => Ok(ParaHeadV { start, level, align, use_inst_width, auto_indent, width_adjust, text_offset_type, text_offset, num_format, char_pr_id_ref, checkable, num_format_text: Seq::empty() }),
                                            },
                                        },
                                    },
                                },
                            },
                        },
                    },
                },
            },
        },
    }
}

/// A border edge from its tag.
pub open spec fn border_of(t: XmlTag) -> Result<BorderV, FaultView> {
    match attr_string_of(t.attrs@, "type"@) {
        Err(f) => Err(f),
        Ok(ty) => match attr_string_of(t.attrs@, "width"@) {
            Err(f) => Err(f),
            Ok(width) => match attr_string_of(t.attrs@, "color"@) {
                Err(f) => Err(f),
                Ok(color) => Ok(BorderV { line_type: line_type_of(trim(ty)), width_nm: width_nm_of(width), color }),
            },
        },
    }
}

/// Line spacing from a `<hh:lineSpacing>` tag.
pub open spec fn line_spacing_of(t: XmlTag) -> Result<LineSpacingV, FaultView> {
    match attr_string_of(t.attrs@, "type"@) {
        Err(f) => Err(f),
        Ok(ty) => match attr_i32_of(t.attrs@, "value"@) {
            Err(f) => Err(f),
            Ok(value) => match attr_string_of(t.attrs@, "unit"@) {
                Err(f) => Err(f),
                Ok(unit) => Ok(LineSpacingV { type_: line_spacing_type_of(trim(ty)), value, unit }),
            },
        },
    }
}

/// A solid brush from a `<hc:winBrush>` tag.
pub open spec fn solid_brush_of(t: XmlTag) -> Result<BrushV, FaultView> {
    match attr_string_of(t.attrs@, "faceColor"@) {
        Err(f) => Err(f),
        Ok(face) => match attr_string_of(t.attrs@, "hatchColor"@) {
            Err(f) => Err(f),
            Ok(hatch) => match attr_u32_of(t.attrs@, "alpha"@) {
                Err(f) => Err(f),
                Ok(alpha) => Ok(BrushV::Solid { face, hatch, alpha }),
            },
        },
    }
}

/// A gradation from a `<hc:gradation>` tag.
pub open spec fn gradation_of(t: XmlTag) -> Result<BrushV, FaultView> {
    match attr_string_of(t.attrs@, "type"@) {
        Err(f) => Err(f),
        Ok(gradation_type) => match attr_string_of(t.attrs@, "startColor"@) {
            Err(f) => Err(f),
            Ok(start_color) => match attr_string_of(t.attrs@, "endColor"@) {
                Err(f) => Err(f),
                Ok(end_color) => match attr_u32_of(t.attrs@, "centerX"@) {
                    Err(f) => Err(f),
                    Ok(width_center) => match attr_u32_of(t.attrs@, "centerY"@) {
                        Err(f) => Err(f),
                        Ok(height_center) => match attr_u32_of(t.attrs@, "angle"@) {
                            Err(f) => Err(f),
                            Ok(angle) => match attr_u32_of(t.attrs@, "step"@) {
                                Err(f) => Err(f),
                                Ok(blur_level) => match attr_u32_of(t.attrs@, "step_center"@) {
                                    Err(f) => Err(f),
                                    Ok(blur_center) => Ok(BrushV::Gradation { gradation_type, start_color, end_color, width_center, height_center, angle, blur_level, blur_center }),
                                },
                            },
                        },
                    },
                },
            },
        },
    }
}

/// An image brush from an `<hc:imgBrush>` tag, its file not yet read.
pub open spec fn image_brush_of(t: XmlTag) -> Result<BrushV, FaultView> {
    match attr_bool_of(t.attrs@, "include"@) {
        Err(f) => Err(f),
        Ok(included) => match attr_string_of(t.attrs@, "mode"@) {
            Err(f) => Err(f),
            Ok(fill_type) => match attr_i32_of(t.attrs@, "alpha"@) {
                Err(f) => Err(f),
                Ok(fill_value) => match attr_string_of(t.attrs@, "effect"@) {
                    Err(f) => Err(f),
                    Ok(effect_type) => match attr_i32_of(t.attrs@, "effectValue"@) {
                        Err(f) => Err(f),
                        Ok(effect_value) => match attr_u32_of(t.attrs@, "watermark"@) {
                            Err(f) => Err(f),
                            Ok(watermark) => Ok(BrushV::Image { file: Seq::empty(), included, fill_type, fill_value, effect_type, effect_value, watermark }),
                        },
                    },
                },
            },
        },
    }
}

/// A per-language `u32` tuple from a tag's seven language attributes.
pub open spec fn lang_tuple_u32_of(t: XmlTag) -> Result<Seq<u32>, FaultView> {
    match attr_u32_of(t.attrs@, "hangul"@) {
        Err(f) => Err(f),
        Ok(v0) => match attr_u32_of(t.attrs@, "latin"@) {
            Err(f) => Err(f),
            Ok(v1) => match attr_u32_of(t.attrs@, "hanja"@) {
                Err(f) => Err(f),
                Ok(v2) => match attr_u32_of(t.attrs@, "japanese"@) {
                    Err(f) => Err(f),
                    Ok(v3) => match attr_u32_of(t.attrs@, "other"@) {
                        Err(f) => Err(f),
                        Ok(v4) => match attr_u32_of(t.attrs@, "symbol"@) {
                            Err(f) => Err(f),
                            Ok(v5) => match attr_u32_of(t.attrs@, "user"@) {
                                Err(f) => Err(f),
                                Ok(v6) => Ok(seq![v0, v1, v2, v3, v4, v5, v6]),
                            },
                        },
                    },
                },
            },
        },
    }
}

/// A per-language `i32` tuple from a tag's seven language attributes.
pub open spec fn lang_tuple_i32_of(t: XmlTag) -> Result<Seq<i32>, FaultView> {
    match attr_i32_of(t.attrs@, "hangul"@) {
        Err(f) => Err(f),
        Ok(v0) => match attr_i32_of(t.attrs@, "latin"@) {
            Err(f) => Err(f),
            Ok(v1) => match attr_i32_of(t.attrs@, "hanja"@) {
                Err(f) => Err(f),
                Ok(v2) => match attr_i32_of(t.attrs@, "japanese"@) {
                    Err(f) => Err(f),
                    Ok(v3) => match attr_i32_of(t.attrs@, "other"@) {
                        Err(f) => Err(f),
                        Ok(v4) => match attr_i32_of(t.attrs@, "symbol"@) {
                            Err(f) => Err(f),
                            Ok(v5) => match attr_i32_of(t.attrs@, "user"@) {
                                Err(f) => Err(f),
                                Ok(v6) => Ok(seq![v0, v1, v2, v3, v4, v5, v6]),
                            },
                        },
                    },
                },
            },
        },
    }
}

/// A paragraph shape after a `<align>` child.
pub open spec fn align_child(x: ParaShapeV, t: XmlTag) -> Result<ParaShapeV, FaultView> {
    match attr_string_of(t.attrs@, "horizontal"@) {
        Err(f) => Err(f),
        Ok(h) => match attr_string_of(t.attrs@, "vertical"@) {
            Err(f) => Err(f),
            Ok(v) => Ok(ParaShapeV { h_align: h_align_of(trim(h)), v_align: v_align_of(trim(v)), ..x }),
        },
    }
}

/// A paragraph shape after a `<heading>` child.
pub open spec fn heading_child(x: ParaShapeV, t: XmlTag) -> Result<ParaShapeV, FaultView> {
    match attr_string_of(t.attrs@, "type"@) {
        Err(f) => Err(f),
        Ok(ty) => match attr_u32_of(t.attrs@, "idRef"@) {
            Err(f) => Err(f),
            Ok(heading_id_ref) => match attr_u32_of(t.attrs@, "level"@) {
                Err(f) => Err(f),
                Ok(heading_level) => Ok(ParaShapeV { heading_type: heading_type_of(trim(ty)), heading_id_ref, heading_level, ..x }),
            },
        },
    }
}

/// A paragraph shape after a `<breakSetting>` child.
pub open spec fn break_child(x: ParaShapeV, t: XmlTag) -> Result<ParaShapeV, FaultView> {
    match attr_string_of(t.attrs@, "breakLatinWord"@) {
        Err(f) => Err(f),
        Ok(latin) => match attr_string_of(t.attrs@, "breakNonLatinWord"@) {
            Err(f) => Err(f),
            Ok(non_latin) => match attr_bool_of(t.attrs@, "widowOrphan"@) {
                Err(f) => Err(f),
                Ok(widow_orphan) => match attr_bool_of(t.attrs@, "keepWithNext"@) {
                    Err(f) => Err(f),
                    Ok(keep_with_next) => match attr_bool_of(t.attrs@, "keepLines"@) {
                        Err(f) => Err(f),
                        Ok(keep_lines) => match attr_bool_of(t.attrs@, "pageBreakBefore"@) {
                            Err(f) => Err(f),
                            Ok(page_break_before) => match attr_string_of(t.attrs@, "lineWrap"@) {
                                Err(f) => Err(f),
                                Ok(wrap) => Ok(ParaShapeV { break_latin_word: line_break_word_of(trim(latin)), break_non_latin_word: line_break_word_of(trim(non_latin)), widow_orphan, keep_with_next, keep_lines, page_break_before, line_wrap: wrap == "BREAK"@, ..x }),
                            },
                        },
                    },
                },
            },
        },
    }
}

/// A paragraph shape after a `<autoSpacing>` child.
pub open spec fn auto_spacing_child(x: ParaShapeV, t: XmlTag) -> Result<ParaShapeV, FaultView> {
    match attr_bool_of(t.attrs@, "eAsianEng"@) {
        Err(f) => Err(f),
        Ok(auto_spacing_eng) => match attr_bool_of(t.attrs@, "eAsianNum"@) {
            Err(f) => Err(f),
            Ok(auto_spacing_num) => Ok(ParaShapeV { auto_spacing_eng, auto_spacing_num, ..x }),
        },
    }
}

/// A paragraph shape after a `<border>` child.
pub open spec fn para_border_child(x: ParaShapeV, t: XmlTag) -> Result<ParaShapeV, FaultView> {
    match attr_u32_of(t.attrs@, "borderFillIDRef"@) {
        Err(f) => Err(f),
        Ok(border_fill_id_ref) => match attr_i32_of(t.attrs@, "offsetLeft"@) {
            Err(f) => Err(f),
            Ok(border_offset_left) => match attr_i32_of(t.attrs@, "offsetRight"@) {
                Err(f) => Err(f),
                Ok(border_offset_right) => match attr_i32_of(t.attrs@, "offsetTop"@) {
                    Err(f) => Err(f),
                    Ok(border_offset_top) => match attr_i32_of(t.attrs@, "offsetBottom"@) {
                        Err(f) => Err(f),
                        Ok(border_offset_bottom) => match attr_bool_of(t.attrs@, "connect"@) {
                            Err(f) => Err(f),
                            Ok(connect) => match attr_bool_of(t.attrs@, "ignoreMargin"@) {
                                Err(f) => Err(f),
                                Ok(ignore_margin) => Ok(ParaShapeV { border_fill_id_ref, border_offset_left, border_offset_right, border_offset_top, border_offset_bottom, connect, ignore_margin, ..x }),
                            },
                        },
                    },
                },
            },
        },
    }
}

/// A paragraph shape after its `<hh:lineSpacing>` child.
pub open spec fn line_spacing_child(x: ParaShapeV, t: XmlTag) -> Result<ParaShapeV, FaultView> {
    match line_spacing_of(t) {
        Err(f) => Err(f),
        Ok(ls) => Ok(ParaShapeV { line_spacing: ls, ..x }),
    }
}

/// A paragraph shape after one child tag other than `<hp:switch>` and
/// `<hh:margin>` start tags.
#[verifier::opaque]
pub open spec fn para_shape_child(x: ParaShapeV, t: XmlTag) -> Result<ParaShapeV, FaultView> {
    let n = t.name@;
    if n == "align"@ {
        align_child(x, t)
    } else if n == "heading"@ {
        heading_child(x, t)
    } else if n == "breakSetting"@ {
        break_child(x, t)
    } else if n == "autoSpacing"@ {
        auto_spacing_child(x, t)
    } else if n == "lineSpacing"@ {
        line_spacing_child(x, t)
    } else if n == "border"@ {
        para_border_child(x, t)
    } else {
        Ok(x)
    }
}

/// A character shape after a child tag whose `shape` or `type` turns a
/// flag on unless it is `NONE` or empty.
pub open spec fn styled_flag(t: XmlTag, key: Seq<char>) -> Result<bool, FaultView> {
    match attr_string_of(t.attrs@, key) {
        Err(f) => Err(f),
        Ok(s) => Ok(s != "NONE"@ && s.len() > 0),
    }
}

/// A character shape after a per-language tuple child.
pub open spec fn tuple_child(x: CharShapeV, t: XmlTag) -> Result<CharShapeV, FaultView> {
    let n = t.name@;
    if n == "fontRef"@ {
        match lang_tuple_u32_of(t) { Err(f) => Err(f), Ok(v) => Ok(CharShapeV { font_ref: v, ..x }) }
    } else if n == "ratio"@ {
        match lang_tuple_u32_of(t) { Err(f) => Err(f), Ok(v) => Ok(CharShapeV { ratio: v, ..x }) }
    } else if n == "spacing"@ {
        match lang_tuple_i32_of(t) { Err(f) => Err(f), Ok(v) => Ok(CharShapeV { spacing: v, ..x }) }
    } else if n == "relSz"@ {
        match lang_tuple_u32_of(t) { Err(f) => Err(f), Ok(v) => Ok(CharShapeV { rel_sz: v, ..x }) }
    } else {
        match lang_tuple_i32_of(t) { Err(f) => Err(f), Ok(v) => Ok(CharShapeV { offset: v, ..x }) }
    }
}

/// Whether `n` names a per-language tuple child.
pub open spec fn is_tuple_child(n: Seq<char>) -> bool {
    n == "fontRef"@ || n == "ratio"@ || n == "spacing"@ || n == "relSz"@ || n == "offset"@
}

/// A character shape after a flag child.
pub open spec fn flag_child(x: CharShapeV, n: Seq<char>) -> CharShapeV {
    if n == "bold"@ {
        CharShapeV { bold: true, ..x }
    } else if n == "italic"@ {
        CharShapeV { italic: true, ..x }
    } else if n == "underline"@ {
        CharShapeV { underline: true, ..x }
    } else if n == "emboss"@ {
        CharShapeV { emboss: true, ..x }
    } else if n == "engrave"@ {
        CharShapeV { engrave: true, ..x }
    } else if n == "supscript"@ {
        CharShapeV { supscript: true, ..x }
    } else if n == "subscript"@ {
        CharShapeV { subscript: true, ..x }
    } else {
        x
    }
}

/// A character shape after one child tag.
#[verifier::opaque]
pub open spec fn char_shape_child(x: CharShapeV, t: XmlTag) -> Result<CharShapeV, FaultView> {
    let n = t.name@;
    if is_tuple_child(n) {
        tuple_child(x, t)
    } else if n == "strikeout"@ {
        match styled_flag(t, "shape"@) { Err(f) => Err(f), Ok(b) => Ok(CharShapeV { strikeout: b, ..x }) }
    } else if n == "outline"@ {
        match styled_flag(t, "type"@) { Err(f) => Err(f), Ok(b) => Ok(CharShapeV { outline: b, ..x }) }
    } else if n == "shadow"@ {
        match styled_flag(t, "type"@) { Err(f) => Err(f), Ok(b) => Ok(CharShapeV { shadow: b, ..x }) }
    } else {
        Ok(flag_child(x, n))
    }
}

/// The leading digits, dots and minus signs of `s`.
pub open spec fn numeric_prefix(s: Seq<char>) -> Seq<char>
    decreases s.len(),
{
    if s.len() == 0 || !(is_digit(s[0]) || s[0] == '.' || s[0] == '-') {
        Seq::empty()
    } else {
        seq![s[0]] + numeric_prefix(s.drop_first())
    }
}

/// Whether `d` has no `-` and at most one `.`.
pub open spec fn plain_decimal(d: Seq<char>) -> bool {
    &&& forall|k: int| 0 <= k < d.len() ==> d[k] != '-'
    &&& forall|k: int, m: int| 0 <= k < m < d.len() ==> !(d[k] == '.' && d[m] == '.')
}

/// The position of the first `.` in `d`, or its length.
pub open spec fn dot_index(d: Seq<char>) -> int
    decreases d.len(),
{
    if d.len() == 0 {
        0
    } else if d[0] == '.' {
        0
    } else {
        1 + dot_index(d.drop_first())
    }
}

/// The value of a digit string read left to right, capped at `cap`
/// after each digit.
pub open spec fn capped_digits(d: Seq<char>, cap: nat) -> nat
    decreases d.len(),
{
    if d.len() == 0 {
        0
    } else {
        let v = capped_digits(d.drop_last(), cap) * 10 + digit_val(d.last());
        if v > cap {
            cap
        } else {
            v
        }
    }
}

/// The first `n` digits of a fraction read as a whole number of `n`-th
/// decimal places, missing digits read as 0.
pub open spec fn frac_places(f: Seq<char>, n: nat) -> nat
    decreases n,
{
    if n == 0 {
        0
    } else {
        frac_places(f, (n - 1) as nat) * 10 + if n - 1 < f.len() {
            digit_val(f[n - 1])
        } else {
            0
        }
    }
}

/// The first six digits of a fraction as millionths.
pub open spec fn millionths(f: Seq<char>) -> nat {
    frac_places(f, 6)
}

/// `10` to the power `n`.
pub open spec fn pow10(n: nat) -> nat
    decreases n,
{
    if n == 0 {
        1
    } else {
        pow10((n - 1) as nat) * 10
    }
}

/// A width attribute such as `0.12 mm` in whole nanometres: the number
/// at the start of the trimmed text (an optional `-`, digits and at most
/// one `.`, at least one digit), truncated to millionths of a millimetre
/// and capped in size; 0 when there is no such number.
pub open spec fn width_nm_of(s: Seq<char>) -> i64 {
    let p = numeric_prefix(trim(s));
    let neg = p.len() > 0 && p[0] == '-';
    let d = if neg {
        p.drop_first()
    } else {
        p
    };
    let k = dot_index(d);
    let int_part = d.take(k);
    let frac = if k < d.len() {
        d.skip(k + 1)
    } else {
        Seq::empty()
    };
    if !plain_decimal(d) || int_part.len() + frac.len() == 0 {
        0
    } else {
        let v = capped_digits(int_part, 1_000_000_000_000) * 1_000_000 + millionths(frac);
        let m = if v > 1_000_000_000_000_000_000 {
            1_000_000_000_000_000_000
        } else {
            v
        };
        if neg {
            (0 - m) as i64
        } else {
            m as i64
        }
    }
}

/// The font id and face name of a `<hh:font>` tag.
pub open spec fn font_entry(t: XmlTag) -> Result<(u32, Seq<char>), FaultView> {
    match attr_u32_of(t.attrs@, "id"@) {
        Err(f) => Err(f),
        Ok(id) => match attr_string_of(t.attrs@, "face"@) {
            Err(f) => Err(f),
            Ok(name) => Ok((id, name)),
        },
    }
}

/// The rest of a `<hh:fontface>` from event `i`: each `<hh:font>` adds
/// its id and face name.
#[verifier::opaque]
pub open spec fn fontface_loop(ev: Seq<XmlEvent>, i: int, face: FontFaceV) -> Result<(FontFaceV, int), FaultView>
    decreases ev.len() - i,
{
    if i < 0 || i >= ev.len() {
        Err(FaultView::Truncated)
    } else {
        match ev[i] {
            XmlEvent::Start(t) => if t.name@ == "font"@ {
                match font_entry(t) {
                    Err(f) => Err(f),
                    Ok((id, name)) => match skip_from(ev, i + 1, t.qname@, 0) {
                        Err(f) => Err(f),
                        Ok(j) => if i < j <= ev.len() {
                            fontface_loop(ev, j, FontFaceV { fonts: face.fonts.insert(id, name), ..face })
                        } else {
                            Err(FaultView::Truncated)
                        },
                    },
                }
            } else {
                match skip_from(ev, i + 1, t.qname@, 0) {
                    Err(f) => Err(f),
                    Ok(j) => if i < j <= ev.len() {
                        fontface_loop(ev, j, face)
                    } else {
                        Err(FaultView::Truncated)
                    },
                }
            },
            XmlEvent::Empty(t) => if t.name@ == "font"@ {
                match font_entry(t) {
                    Err(f) => Err(f),
                    Ok((id, name)) => fontface_loop(ev, i + 1, FontFaceV { fonts: face.fonts.insert(id, name), ..face }),
                }
            } else {
                fontface_loop(ev, i + 1, face)
            },
            XmlEvent::End(_, n) => if n@ == "fontface"@ {
                Ok((face, i + 1))
            } else {
                fontface_loop(ev, i + 1, face)
            },
            XmlEvent::Eof => Err(FaultView::Document("unexpected EOF inside <fontface>"@)),
            _ => fontface_loop(ev, i + 1, face),
        }
    }
}

/// The font table a `<hh:fontface>` start tag opens.
pub open spec fn font_face_head(t: XmlTag) -> Result<FontFaceV, FaultView> {
    match attr_string_of(t.attrs@, "lang"@) {
        Err(f) => Err(f),
        Ok(lang) => Ok(
            FontFaceV {
                lang: match font_lang_of(trim(lang)) {
                    Some(l) => l,
                    None => FontLang::Hangul,
                },
                fonts: Map::empty(),
            },
        ),
    }
}

/// The rest of `<hh:fontfaces>` from event `i`: each `<hh:fontface>`
/// appends a font table.
#[verifier::opaque]
pub open spec fn fontfaces_loop(ev: Seq<XmlEvent>, i: int, faces: Seq<FontFaceV>) -> Result<(Seq<FontFaceV>, int), FaultView>
    decreases ev.len() - i,
{
    if i < 0 || i >= ev.len() {
        Err(FaultView::Truncated)
    } else {
        match ev[i] {
            XmlEvent::Start(t) => if t.name@ == "fontface"@ {
                match font_face_head(t) {
                    Err(f) => Err(f),
                    Ok(face) => match fontface_loop(ev, i + 1, face) {
                        Err(f) => Err(f),
                        Ok((x, j)) => if i < j <= ev.len() {
                            fontfaces_loop(ev, j, faces.push(x))
                        } else {
                            Err(FaultView::Truncated)
                        },
                    },
                }
            } else {
                match skip_from(ev, i + 1, t.qname@, 0) {
                    Err(f) => Err(f),
                    Ok(j) => if i < j <= ev.len() {
                        fontfaces_loop(ev, j, faces)
                    } else {
                        Err(FaultView::Truncated)
                    },
                }
            },
            XmlEvent::End(_, n) => if n@ == "fontfaces"@ {
                Ok((faces, i + 1))
            } else {
                fontfaces_loop(ev, i + 1, faces)
            },
            XmlEvent::Eof => Err(FaultView::Document("unexpected EOF inside <fontfaces>"@)),
            _ => fontfaces_loop(ev, i + 1, faces),
        }
    }
}

/// A border fill with the edge named `n` set to `b`; other names leave
/// it unchanged.
pub open spec fn with_edge(x: BorderFillV, n: Seq<char>, b: BorderV) -> BorderFillV {
    if n == "leftBorder"@ {
        BorderFillV { left: b, ..x }
    } else if n == "rightBorder"@ {
        BorderFillV { right: b, ..x }
    } else if n == "topBorder"@ {
        BorderFillV { top: b, ..x }
    } else if n == "bottomBorder"@ {
        BorderFillV { bottom: b, ..x }
    } else {
        BorderFillV { diagonal: b, ..x }
    }
}

/// Whether `n` names a border edge.
pub open spec fn is_edge(n: Seq<char>) -> bool {
    n == "leftBorder"@ || n == "rightBorder"@ || n == "topBorder"@ || n == "bottomBorder"@ || n
        == "diagonal"@
}

/// An image brush with its file set.
pub open spec fn with_file(b: BrushV, file: Seq<char>) -> BrushV {
    match b {
        BrushV::Image { file: _, included, fill_type, fill_value, effect_type, effect_value, watermark } => BrushV::Image {
            file,
            included,
            fill_type,
            fill_value,
            effect_type,
            effect_value,
            watermark,
        },
        _ => b,
    }
}

/// The binary reference of an `<hc:imgBrush>` from event `i`: the
/// `binaryItemIDRef` of the first `<hc:img>` met while none is set.
#[verifier::opaque]
pub open spec fn img_ref_loop(ev: Seq<XmlEvent>, i: int, out: Seq<char>) -> Result<(Seq<char>, int), FaultView>
    decreases ev.len() - i,
{
    if i < 0 || i >= ev.len() {
        Err(FaultView::Truncated)
    } else {
        match ev[i] {
            XmlEvent::Start(t) => {
                let o = if t.name@ == "img"@ && out.len() == 0 {
                    attr_string_of(t.attrs@, "binaryItemIDRef"@)
                } else {
                    Ok(out)
                };
                match o {
                    Err(f) => Err(f),
                    Ok(o2) => match skip_from(ev, i + 1, t.qname@, 0) {
                        Err(f) => Err(f),
                        Ok(j) => if i < j <= ev.len() {
                            img_ref_loop(ev, j, o2)
                        } else {
                            Err(FaultView::Truncated)
                        },
                    },
                }
            },
            XmlEvent::Empty(t) => {
                let o = if t.name@ == "img"@ && out.len() == 0 {
                    attr_string_of(t.attrs@, "binaryItemIDRef"@)
                } else {
                    Ok(out)
                };
                match o {
                    Err(f) => Err(f),
                    Ok(o2) => img_ref_loop(ev, i + 1, o2),
                }
            },
            XmlEvent::End(_, n) => if n@ == "imgBrush"@ {
                Ok((out, i + 1))
            } else {
                img_ref_loop(ev, i + 1, out)
            },
            XmlEvent::Eof => Err(FaultView::Document("unexpected EOF inside <imgBrush>"@)),
            _ => img_ref_loop(ev, i + 1, out),
        }
    }
}

/// The brush a child tag of `<hc:fillBrush>` gives, if it names one.
pub open spec fn brush_child(t: XmlTag) -> Result<Option<BrushV>, FaultView> {
    if t.name@ == "winBrush"@ {
        match solid_brush_of(t) { Err(f) => Err(f), Ok(b) => Ok(Some(b)) }
    } else if t.name@ == "gradation"@ {
        match gradation_of(t) { Err(f) => Err(f), Ok(b) => Ok(Some(b)) }
    } else if t.name@ == "imgBrush"@ {
        match image_brush_of(t) { Err(f) => Err(f), Ok(b) => Ok(Some(b)) }
    } else {
        Ok(None)
    }
}

/// The rest of a `<hc:fillBrush>` from event `i`: the last brush child
/// gives the brush; an image brush's file comes from its `<hc:img>`.
#[verifier::opaque]
pub open spec fn brush_loop(ev: Seq<XmlEvent>, i: int, out: Option<BrushV>) -> Result<(Option<BrushV>, int), FaultView>
    decreases ev.len() - i,
{
    if i < 0 || i >= ev.len() {
        Err(FaultView::Truncated)
    } else {
        match ev[i] {
            XmlEvent::Start(t) => match brush_child(t) {
                Err(f) => Err(f),
                Ok(b) => if t.name@ == "imgBrush"@ {
                    match img_ref_loop(ev, i + 1, Seq::empty()) {
                        Err(f) => Err(f),
                        Ok((file, j)) => if i < j <= ev.len() {
                            brush_loop(ev, j, Some(with_file(b->0, file)))
                        } else {
                            Err(FaultView::Truncated)
                        },
                    }
                } else {
                    match skip_from(ev, i + 1, t.qname@, 0) {
                        Err(f) => Err(f),
                        Ok(j) => if i < j <= ev.len() {
                            brush_loop(ev, j, if b is Some { b } else { out })
                        } else {
                            Err(FaultView::Truncated)
                        },
                    }
                },
            },
            XmlEvent::Empty(t) => match brush_child(t) {
                Err(f) => Err(f),
                Ok(b) => brush_loop(ev, i + 1, if b is Some { b } else { out }),
            },
            XmlEvent::End(_, n) => if n@ == "fillBrush"@ {
                Ok((out, i + 1))
            } else {
                brush_loop(ev, i + 1, out)
            },
            XmlEvent::Eof => Err(FaultView::Document("unexpected EOF inside <fillBrush>"@)),
            _ => brush_loop(ev, i + 1, out),
        }
    }
}

/// The rest of a `<hh:borderFill>` from event `i`: edges, and the
/// fill brush.
#[verifier::opaque]
pub open spec fn border_fill_loop(ev: Seq<XmlEvent>, i: int, x: BorderFillV) -> Result<(BorderFillV, int), FaultView>
    decreases ev.len() - i,
{
    if i < 0 || i >= ev.len() {
        Err(FaultView::Truncated)
    } else {
        match ev[i] {
            XmlEvent::Empty(t) => if is_edge(t.name@) {
                match border_of(t) {
                    Err(f) => Err(f),
                    Ok(b) => border_fill_loop(ev, i + 1, with_edge(x, t.name@, b)),
                }
            } else if t.name@ == "fillBrush"@ {
                border_fill_loop(ev, i + 1, BorderFillV { has_fill_brush: true, ..x })
            } else {
                border_fill_loop(ev, i + 1, x)
            },
            XmlEvent::Start(t) => if is_edge(t.name@) {
                match border_of(t) {
                    Err(f) => Err(f),
                    Ok(b) => match skip_from(ev, i + 1, t.qname@, 0) {
                        Err(f) => Err(f),
                        Ok(j) => if i < j <= ev.len() {
                            border_fill_loop(ev, j, with_edge(x, t.name@, b))
                        } else {
                            Err(FaultView::Truncated)
                        },
                    },
                }
            } else if t.name@ == "fillBrush"@ {
                match brush_loop(ev, i + 1, None) {
                    Err(f) => Err(f),
                    Ok((b, j)) => if i < j <= ev.len() {
                        border_fill_loop(ev, j, BorderFillV { has_fill_brush: true, fill_brush: b, ..x })
                    } else {
                        Err(FaultView::Truncated)
                    },
                }
            } else {
                match skip_from(ev, i + 1, t.qname@, 0) {
                    Err(f) => Err(f),
                    Ok(j) => if i < j <= ev.len() {
                        border_fill_loop(ev, j, x)
                    } else {
                        Err(FaultView::Truncated)
                    },
                }
            },
            XmlEvent::End(_, n) => if n@ == "borderFill"@ {
                Ok((x, i + 1))
            } else {
                border_fill_loop(ev, i + 1, x)
            },
            XmlEvent::Eof => Err(FaultView::Document("unexpected EOF inside <borderFill>"@)),
            _ => border_fill_loop(ev, i + 1, x),
        }
    }
}

/// The rest of `<hh:borderFills>` from event `i`: each
/// `<hh:borderFill>` is stored under its id.
#[verifier::opaque]
pub open spec fn border_fills_loop(ev: Seq<XmlEvent>, i: int, m: Map<u32, BorderFillV>) -> Result<(Map<u32, BorderFillV>, int), FaultView>
    decreases ev.len() - i,
{
    if i < 0 || i >= ev.len() {
        Err(FaultView::Truncated)
    } else {
        match ev[i] {
            XmlEvent::Start(t) => if t.name@ == "borderFill"@ {
                match border_fill_head(t) {
                    Err(f) => Err(f),
                    Ok(h) => match border_fill_loop(ev, i + 1, h) {
                        Err(f) => Err(f),
                        Ok((x, j)) => if i < j <= ev.len() {
                            border_fills_loop(ev, j, m.insert(x.id, x))
                        } else {
                            Err(FaultView::Truncated)
                        },
                    },
                }
            } else {
                match skip_from(ev, i + 1, t.qname@, 0) {
                    Err(f) => Err(f),
                    Ok(j) => if i < j <= ev.len() {
                        border_fills_loop(ev, j, m)
                    } else {
                        Err(FaultView::Truncated)
                    },
                }
            },
            XmlEvent::End(_, n) => if n@ == "borderFills"@ {
                Ok((m, i + 1))
            } else {
                border_fills_loop(ev, i + 1, m)
            },
            XmlEvent::Eof => Err(FaultView::Document("unexpected EOF inside <borderFills>"@)),
            _ => border_fills_loop(ev, i + 1, m),
        }
    }
}

/// The rest of a `<hh:charPr>` from event `i`: each child tag applies
/// to the shape.
#[verifier::opaque]
pub open spec fn char_pr_loop(ev: Seq<XmlEvent>, i: int, x: CharShapeV) -> Result<(CharShapeV, int), FaultView>
    decreases ev.len() - i,
{
    if i < 0 || i >= ev.len() {
        Err(FaultView::Truncated)
    } else {
        match ev[i] {
            XmlEvent::Start(t) => match char_shape_child(x, t) {
                Err(f) => Err(f),
                Ok(y) => match skip_from(ev, i + 1, t.qname@, 0) {
                    Err(f) => Err(f),
                    Ok(j) => if i < j <= ev.len() {
                        char_pr_loop(ev, j, y)
                    } else {
                        Err(FaultView::Truncated)
                    },
                },
            },
            XmlEvent::Empty(t) => match char_shape_child(x, t) {
                Err(f) => Err(f),
                Ok(y) => char_pr_loop(ev, i + 1, y),
            },
            XmlEvent::End(_, n) => if n@ == "charPr"@ {
                Ok((x, i + 1))
            } else {
                char_pr_loop(ev, i + 1, x)
            },
            XmlEvent::Eof => Err(FaultView::Document("unexpected EOF inside <charPr>"@)),
            _ => char_pr_loop(ev, i + 1, x),
        }
    }
}

/// The rest of `<hh:charProperties>` from event `i`: each
/// `<hh:charPr>` is stored under its id.
#[verifier::opaque]
pub open spec fn char_props_loop(ev: Seq<XmlEvent>, i: int, m: Map<u32, CharShapeV>) -> Result<(Map<u32, CharShapeV>, int), FaultView>
    decreases ev.len() - i,
{
    if i < 0 || i >= ev.len() {
        Err(FaultView::Truncated)
    } else {
        match ev[i] {
            XmlEvent::Start(t) => if t.name@ == "charPr"@ {
                match char_shape_head(t) {
                    Err(f) => Err(f),
                    Ok(h) => match char_pr_loop(ev, i + 1, h) {
                        Err(f) => Err(f),
                        Ok((x, j)) => if i < j <= ev.len() {
                            char_props_loop(ev, j, m.insert(x.id, x))
                        } else {
                            Err(FaultView::Truncated)
                        },
                    },
                }
            } else {
                match skip_from(ev, i + 1, t.qname@, 0) {
                    Err(f) => Err(f),
                    Ok(j) => if i < j <= ev.len() {
                        char_props_loop(ev, j, m)
                    } else {
                        Err(FaultView::Truncated)
                    },
                }
            },
            XmlEvent::End(_, n) => if n@ == "charProperties"@ {
                Ok((m, i + 1))
            } else {
                char_props_loop(ev, i + 1, m)
            },
            XmlEvent::Eof => Err(FaultView::Document("unexpected EOF inside <charProperties>"@)),
            _ => char_props_loop(ev, i + 1, m),
        }
    }
}

/// A margin after one child tag: every child's `value` is read; the
/// indent, left, right, prev and next children set their side.
pub open spec fn margin_child(m: Margin, t: XmlTag) -> Result<Margin, FaultView> {
    match attr_i32_of(t.attrs@, "value"@) {
        Err(f) => Err(f),
        Ok(v) => {
            let n = t.name@;
            Ok(
                if n == "intent"@ || n == "indent"@ {
                    Margin { indent: v, ..m }
                } else if n == "left"@ {
                    Margin { left: v, ..m }
                } else if n == "right"@ {
                    Margin { right: v, ..m }
                } else if n == "prev"@ {
                    Margin { prev: v, ..m }
                } else if n == "next"@ {
                    Margin { next: v, ..m }
                } else {
                    m
                },
            )
        },
    }
}

/// The margin of a `<hh:margin>` from event `i`.
#[verifier::opaque]
pub open spec fn margin_loop(ev: Seq<XmlEvent>, i: int, m: Margin) -> Result<(Margin, int), FaultView>
    decreases ev.len() - i,
{
    if i < 0 || i >= ev.len() {
        Err(FaultView::Truncated)
    } else {
        match ev[i] {
            XmlEvent::Start(t) => match margin_child(m, t) {
                Err(f) => Err(f),
                Ok(m2) => match skip_from(ev, i + 1, t.qname@, 0) {
                    Err(f) => Err(f),
                    Ok(j) => if i < j <= ev.len() {
                        margin_loop(ev, j, m2)
                    } else {
                        Err(FaultView::Truncated)
                    },
                },
            },
            XmlEvent::Empty(t) => match margin_child(m, t) {
                Err(f) => Err(f),
                Ok(m2) => margin_loop(ev, i + 1, m2),
            },
            XmlEvent::End(_, n) => if n@ == "margin"@ {
                Ok((m, i + 1))
            } else {
                margin_loop(ev, i + 1, m)
            },
            XmlEvent::Eof => Err(FaultView::Document("unexpected EOF inside <margin>"@)),
            _ => margin_loop(ev, i + 1, m),
        }
    }
}

/// The zero margin.
pub open spec fn zero_margin() -> Margin {
    Margin { indent: 0, left: 0, right: 0, prev: 0, next: 0 }
}

/// The rest of an `<hp:switch>` inside a paragraph shape from event
/// `i`, with the shape's margin `m` and line spacing `ls` so far: the
/// first `<hh:margin>` and the first empty `<hh:lineSpacing>` apply,
/// later ones do not; wrappers are walked through.
#[verifier::opaque]
pub open spec fn switch_loop(
    ev: Seq<XmlEvent>,
    i: int,
    m: Margin,
    ls: LineSpacingV,
    got_m: bool,
    got_ls: bool,
) -> Result<(Margin, LineSpacingV, int), FaultView>
    decreases ev.len() - i,
{
    if i < 0 || i >= ev.len() {
        Err(FaultView::Truncated)
    } else {
        match ev[i] {
            XmlEvent::Start(t) => if t.name@ == "margin"@ {
                if !got_m {
                    match margin_loop(ev, i + 1, zero_margin()) {
                        Err(f) => Err(f),
                        Ok((m2, j)) => if i < j <= ev.len() {
                            switch_loop(ev, j, m2, ls, true, got_ls)
                        } else {
                            Err(FaultView::Truncated)
                        },
                    }
                } else {
                    match skip_from(ev, i + 1, t.qname@, 0) {
                        Err(f) => Err(f),
                        Ok(j) => if i < j <= ev.len() {
                            switch_loop(ev, j, m, ls, got_m, got_ls)
                        } else {
                            Err(FaultView::Truncated)
                        },
                    }
                }
            } else {
                switch_loop(ev, i + 1, m, ls, got_m, got_ls)
            },
            XmlEvent::Empty(t) => if t.name@ == "lineSpacing"@ && !got_ls {
                match line_spacing_of(t) {
                    Err(f) => Err(f),
                    Ok(ls2) => switch_loop(ev, i + 1, m, ls2, got_m, true),
                }
            } else {
                switch_loop(ev, i + 1, m, ls, got_m, got_ls)
            },
            XmlEvent::End(_, n) => if n@ == "switch"@ {
                Ok((m, ls, i + 1))
            } else {
                switch_loop(ev, i + 1, m, ls, got_m, got_ls)
            },
            XmlEvent::Eof => Err(FaultView::Document("unexpected EOF inside <paraPr switch>"@)),
            _ => switch_loop(ev, i + 1, m, ls, got_m, got_ls),
        }
    }
}

/// What the event at `i` inside a `<hh:paraPr>` does, when it is
/// neither its end nor the end of input: the shape after it and the
/// position after it. A `<hp:switch>` or `<hh:margin>` element is read
/// whole; other child tags apply to the shape and their bodies are
/// skipped.
pub open spec fn para_pr_step(ev: Seq<XmlEvent>, i: int, x: ParaShapeV) -> Result<(ParaShapeV, int), FaultView> {
    match ev[i] {
        XmlEvent::Start(t) => if t.name@ == "switch"@ {
            match switch_loop(ev, i + 1, x.margin, x.line_spacing, false, false) {
                Err(f) => Err(f),
                Ok((m, ls, j)) => Ok((ParaShapeV { margin: m, line_spacing: ls, ..x }, j)),
            }
        } else if t.name@ == "margin"@ {
            match margin_loop(ev, i + 1, zero_margin()) {
                Err(f) => Err(f),
                Ok((m, j)) => Ok((ParaShapeV { margin: m, ..x }, j)),
            }
        } else {
            match para_shape_child(x, t) {
                Err(f) => Err(f),
                Ok(y) => match skip_from(ev, i + 1, t.qname@, 0) {
                    Err(f) => Err(f),
                    Ok(j) => Ok((y, j)),
                },
            }
        },
        XmlEvent::Empty(t) => match para_shape_child(x, t) {
            Err(f) => Err(f),
            Ok(y) => Ok((y, i + 1)),
        },
        _ => Ok((x, i + 1)),
    }
}

/// The rest of a `<hh:paraPr>` from event `i`: each event applies by
/// `para_pr_step` until `</paraPr>`.
#[verifier::opaque]
pub open spec fn para_pr_loop(ev: Seq<XmlEvent>, i: int, x: ParaShapeV) -> Result<(ParaShapeV, int), FaultView>
    decreases ev.len() - i,
{
    if i < 0 || i >= ev.len() {
        Err(FaultView::Truncated)
    } else if ev[i] is Eof {
        Err(FaultView::Document("unexpected EOF inside <paraPr>"@))
    } else if ev[i] matches XmlEvent::End(_, n) && n@ == "paraPr"@ {
        Ok((x, i + 1))
    } else {
        match para_pr_step(ev, i, x) {
            Err(f) => Err(f),
            Ok((y, j)) => if i < j <= ev.len() {
                para_pr_loop(ev, j, y)
            } else {
                Err(FaultView::Truncated)
            },
        }
    }
}

/// The rest of `<hh:paraProperties>` from event `i`: each
/// `<hh:paraPr>` is stored under its id.
#[verifier::opaque]
pub open spec fn para_props_loop(ev: Seq<XmlEvent>, i: int, m: Map<u32, ParaShapeV>) -> Result<(Map<u32, ParaShapeV>, int), FaultView>
    decreases ev.len() - i,
{
    if i < 0 || i >= ev.len() {
        Err(FaultView::Truncated)
    } else {
        match ev[i] {
            XmlEvent::Start(t) => if t.name@ == "paraPr"@ {
                match para_shape_head(t) {
                    Err(f) => Err(f),
                    Ok(h) => match para_pr_loop(ev, i + 1, h) {
                        Err(f) => Err(f),
                        Ok((x, j)) => if i < j <= ev.len() {
                            para_props_loop(ev, j, m.insert(x.id, x))
                        } else {
                            Err(FaultView::Truncated)
                        },
                    },
                }
            } else {
                match skip_from(ev, i + 1, t.qname@, 0) {
                    Err(f) => Err(f),
                    Ok(j) => if i < j <= ev.len() {
                        para_props_loop(ev, j, m)
                    } else {
                        Err(FaultView::Truncated)
                    },
                }
            },
            XmlEvent::End(_, n) => if n@ == "paraProperties"@ {
                Ok((m, i + 1))
            } else {
                para_props_loop(ev, i + 1, m)
            },
            XmlEvent::Eof => Err(FaultView::Document("unexpected EOF inside <paraProperties>"@)),
            _ => para_props_loop(ev, i + 1, m),
        }
    }
}

/// The rest of `<hh:styles>` from event `i`: each `<hh:style>` is
/// stored under its id.
#[verifier::opaque]
pub open spec fn styles_loop(ev: Seq<XmlEvent>, i: int, m: Map<u32, StyleV>) -> Result<(Map<u32, StyleV>, int), FaultView>
    decreases ev.len() - i,
{
    if i < 0 || i >= ev.len() {
        Err(FaultView::Truncated)
    } else {
        match ev[i] {
            XmlEvent::Start(t) => if t.name@ == "style"@ {
                match style_of(t) {
                    Err(f) => Err(f),
                    Ok(s) => match skip_from(ev, i + 1, t.qname@, 0) {
                        Err(f) => Err(f),
                        Ok(j) => if i < j <= ev.len() {
                            styles_loop(ev, j, m.insert(s.id, s))
                        } else {
                            Err(FaultView::Truncated)
                        },
                    },
                }
            } else {
                match skip_from(ev, i + 1, t.qname@, 0) {
                    Err(f) => Err(f),
                    Ok(j) => if i < j <= ev.len() {
                        styles_loop(ev, j, m)
                    } else {
                        Err(FaultView::Truncated)
                    },
                }
            },
            XmlEvent::Empty(t) => if t.name@ == "style"@ {
                match style_of(t) {
                    Err(f) => Err(f),
                    Ok(s) => styles_loop(ev, i + 1, m.insert(s.id, s)),
                }
            } else {
                styles_loop(ev, i + 1, m)
            },
            XmlEvent::End(_, n) => if n@ == "styles"@ {
                Ok((m, i + 1))
            } else {
                styles_loop(ev, i + 1, m)
            },
            XmlEvent::Eof => Err(FaultView::Document("unexpected EOF inside <styles>"@)),
            _ => styles_loop(ev, i + 1, m),
        }
    }
}

/// The rest of `<hh:bullets>` from event `i`: each `<hh:bullet>` is
/// stored under its id.
#[verifier::opaque]
pub open spec fn bullets_loop(ev: Seq<XmlEvent>, i: int, m: Map<u32, BulletV>) -> Result<(Map<u32, BulletV>, int), FaultView>
    decreases ev.len() - i,
{
    if i < 0 || i >= ev.len() {
        Err(FaultView::Truncated)
    } else {
        match ev[i] {
            XmlEvent::Start(t) => if t.name@ == "bullet"@ {
                match bullet_of(t) {
                    Err(f) => Err(f),
                    Ok(b) => match skip_from(ev, i + 1, t.qname@, 0) {
                        Err(f) => Err(f),
                        Ok(j) => if i < j <= ev.len() {
                            bullets_loop(ev, j, m.insert(b.id, b))
                        } else {
                            Err(FaultView::Truncated)
                        },
                    },
                }
            } else {
                match skip_from(ev, i + 1, t.qname@, 0) {
                    Err(f) => Err(f),
                    Ok(j) => if i < j <= ev.len() {
                        bullets_loop(ev, j, m)
                    } else {
                        Err(FaultView::Truncated)
                    },
                }
            },
            XmlEvent::Empty(t) => if t.name@ == "bullet"@ {
                match bullet_of(t) {
                    Err(f) => Err(f),
                    Ok(b) => bullets_loop(ev, i + 1, m.insert(b.id, b)),
                }
            } else {
                bullets_loop(ev, i + 1, m)
            },
            XmlEvent::End(_, n) => if n@ == "bullets"@ {
                Ok((m, i + 1))
            } else {
                bullets_loop(ev, i + 1, m)
            },
            XmlEvent::Eof => Err(FaultView::Document("unexpected EOF inside <bullets>"@)),
            _ => bullets_loop(ev, i + 1, m),
        }
    }
}

/// The text of an element named `end` from event `i`: text and
/// references (kept as written); nested elements are skipped.
#[verifier::opaque]
pub open spec fn text_loop(ev: Seq<XmlEvent>, i: int, end: Seq<char>, out: Seq<char>) -> Result<(Seq<char>, int), FaultView>
    decreases ev.len() - i,
{
    if i < 0 || i >= ev.len() {
        Err(FaultView::Truncated)
    } else {
        match ev[i] {
            XmlEvent::Text(s) => text_loop(ev, i + 1, end, out + s@),
            XmlEvent::GeneralRef(n) => text_loop(ev, i + 1, end, out + "&"@ + n@ + ";"@),
            XmlEvent::End(_, n) => if n@ == end {
                Ok((out, i + 1))
            } else {
                text_loop(ev, i + 1, end, out)
            },
            XmlEvent::Start(t) => match skip_from(ev, i + 1, t.qname@, 0) {
                Err(f) => Err(f),
                Ok(j) => if i < j <= ev.len() {
                    text_loop(ev, j, end, out)
                } else {
                    Err(FaultView::Truncated)
                },
            },
            XmlEvent::Eof => Err(FaultView::Document("unexpected EOF inside <"@ + end + ">"@)),
            _ => text_loop(ev, i + 1, end, out),
        }
    }
}

/// The rest of a `<hh:numbering>` from event `i`: each `<hh:paraHead>`
/// appends a level template, with its text when it has a body.
#[verifier::opaque]
pub open spec fn numbering_loop(ev: Seq<XmlEvent>, i: int, x: NumberingV) -> Result<(NumberingV, int), FaultView>
    decreases ev.len() - i,
{
    if i < 0 || i >= ev.len() {
        Err(FaultView::Truncated)
    } else {
        match ev[i] {
            XmlEvent::Start(t) => if t.name@ == "paraHead"@ {
                match para_head_of(t) {
                    Err(f) => Err(f),
                    Ok(h) => match text_loop(ev, i + 1, "paraHead"@, Seq::empty()) {
                        Err(f) => Err(f),
                        Ok((s, j)) => if i < j <= ev.len() {
                            numbering_loop(
                                ev,
                                j,
                                NumberingV { para_heads: x.para_heads.push(ParaHeadV { num_format_text: s, ..h }), ..x },
                            )
                        } else {
                            Err(FaultView::Truncated)
                        },
                    },
                }
            } else {
                match skip_from(ev, i + 1, t.qname@, 0) {
                    Err(f) => Err(f),
                    Ok(j) => if i < j <= ev.len() {
                        numbering_loop(ev, j, x)
                    } else {
                        Err(FaultView::Truncated)
                    },
                }
            },
            XmlEvent::Empty(t) => if t.name@ == "paraHead"@ {
                match para_head_of(t) {
                    Err(f) => Err(f),
                    Ok(h) => numbering_loop(ev, i + 1, NumberingV { para_heads: x.para_heads.push(h), ..x }),
                }
            } else {
                numbering_loop(ev, i + 1, x)
            },
            XmlEvent::End(_, n) => if n@ == "numbering"@ {
                Ok((x, i + 1))
            } else {
                numbering_loop(ev, i + 1, x)
            },
            XmlEvent::Eof => Err(FaultView::Document("unexpected EOF inside <numbering>"@)),
            _ => numbering_loop(ev, i + 1, x),
        }
    }
}

/// The rest of `<hh:numberings>` from event `i`: each `<hh:numbering>`
/// is stored under its id.
#[verifier::opaque]
pub open spec fn numberings_loop(ev: Seq<XmlEvent>, i: int, m: Map<u32, NumberingV>) -> Result<(Map<u32, NumberingV>, int), FaultView>
    decreases ev.len() - i,
{
    if i < 0 || i >= ev.len() {
        Err(FaultView::Truncated)
    } else {
        match ev[i] {
            XmlEvent::Start(t) => if t.name@ == "numbering"@ {
                match numbering_head(t) {
                    Err(f) => Err(f),
                    Ok(h) => match numbering_loop(ev, i + 1, h) {
                        Err(f) => Err(f),
                        Ok((x, j)) => if i < j <= ev.len() {
                            numberings_loop(ev, j, m.insert(x.id, x))
                        } else {
                            Err(FaultView::Truncated)
                        },
                    },
                }
            } else {
                match skip_from(ev, i + 1, t.qname@, 0) {
                    Err(f) => Err(f),
                    Ok(j) => if i < j <= ev.len() {
                        numberings_loop(ev, j, m)
                    } else {
                        Err(FaultView::Truncated)
                    },
                }
            },
            XmlEvent::End(_, n) => if n@ == "numberings"@ {
                Ok((m, i + 1))
            } else {
                numberings_loop(ev, i + 1, m)
            },
            XmlEvent::Eof => Err(FaultView::Document("unexpected EOF inside <numberings>"@)),
            _ => numberings_loop(ev, i + 1, m),
        }
    }
}

/// The header walk from event `i`: wherever a table's container element
/// starts, its records are read into the tables; everything else is
/// walked through; `Eof` ends the header.
#[verifier::opaque]
pub open spec fn header_loop(ev: Seq<XmlEvent>, i: int, h: HeaderV) -> Result<HeaderV, FaultView>
    decreases ev.len() - i,
{
    if i < 0 || i >= ev.len() {
        Err(FaultView::Truncated)
    } else {
        match ev[i] {
            XmlEvent::Start(t) => {
                let n = t.name@;
                if n == "fontfaces"@ {
                    match fontfaces_loop(ev, i + 1, h.font_faces) {
                        Err(f) => Err(f),
                        Ok((v, j)) => if i < j <= ev.len() { header_loop(ev, j, HeaderV { font_faces: v, ..h }) } else { Err(FaultView::Truncated) },
                    }
                } else if n == "borderFills"@ {
                    match border_fills_loop(ev, i + 1, h.border_fills) {
                        Err(f) => Err(f),
                        Ok((v, j)) => if i < j <= ev.len() { header_loop(ev, j, HeaderV { border_fills: v, ..h }) } else { Err(FaultView::Truncated) },
                    }
                } else if n == "charProperties"@ {
                    match char_props_loop(ev, i + 1, h.char_shapes) {
                        Err(f) => Err(f),
                        Ok((v, j)) => if i < j <= ev.len() { header_loop(ev, j, HeaderV { char_shapes: v, ..h }) } else { Err(FaultView::Truncated) },
                    }
                } else if n == "paraProperties"@ {
                    match para_props_loop(ev, i + 1, h.para_shapes) {
                        Err(f) => Err(f),
                        Ok((v, j)) => if i < j <= ev.len() { header_loop(ev, j, HeaderV { para_shapes: v, ..h }) } else { Err(FaultView::Truncated) },
                    }
                } else if n == "styles"@ {
                    match styles_loop(ev, i + 1, h.styles) {
                        Err(f) => Err(f),
                        Ok((v, j)) => if i < j <= ev.len() { header_loop(ev, j, HeaderV { styles: v, ..h }) } else { Err(FaultView::Truncated) },
                    }
                } else if n == "bullets"@ {
                    match bullets_loop(ev, i + 1, h.bullets) {
                        Err(f) => Err(f),
                        Ok((v, j)) => if i < j <= ev.len() { header_loop(ev, j, HeaderV { bullets: v, ..h }) } else { Err(FaultView::Truncated) },
                    }
                } else if n == "numberings"@ {
                    match numberings_loop(ev, i + 1, h.numberings) {
                        Err(f) => Err(f),
                        Ok((v, j)) => if i < j <= ev.len() { header_loop(ev, j, HeaderV { numberings: v, ..h }) } else { Err(FaultView::Truncated) },
                    }
                } else {
                    header_loop(ev, i + 1, h)
                }
            },
            XmlEvent::Eof => Ok(h),
            _ => header_loop(ev, i + 1, h),
        }
    }
}

/// Empty header tables.
pub open spec fn empty_header() -> HeaderV {
    HeaderV {
        char_shapes: Map::empty(),
        para_shapes: Map::empty(),
        border_fills: Map::empty(),
        styles: Map::empty(),
        bullets: Map::empty(),
        numberings: Map::empty(),
        font_faces: Seq::empty(),
    }
}

/// The header tables the events describe.
pub open spec fn header_of(ev: Seq<XmlEvent>) -> Result<HeaderV, FaultView> {
    header_loop(ev, 0, empty_header())
}

// ---------------------------------------------------------------------------
// Unfolding the parse one step at a time
// ---------------------------------------------------------------------------

/// `fontface_loop` unfolded once.
proof fn lemma_fontface_loop_unfold(ev: Seq<XmlEvent>, i: int, face: FontFaceV)
    ensures
        fontface_loop(ev, i, face) == ({
    if i < 0 || i >= ev.len() {
        Err(FaultView::Truncated)
    } else {
        match ev[i] {
            XmlEvent::Start(t) => if t.name@ == "font"@ {
                match font_entry(t) {
                    Err(f) => Err(f),
                    Ok((id, name)) => match skip_from(ev, i + 1, t.qname@, 0) {
                        Err(f) => Err(f),
                        Ok(j) => if i < j <= ev.len() {
                            fontface_loop(ev, j, FontFaceV { fonts: face.fonts.insert(id, name), ..face })
                        } else {
                            Err(FaultView::Truncated)
                        },
                    },
                }
            } else {
                match skip_from(ev, i + 1, t.qname@, 0) {
                    Err(f) => Err(f),
                    Ok(j) => if i < j <= ev.len() {
                        fontface_loop(ev, j, face)
                    } else {
                        Err(FaultView::Truncated)
                    },
                }
            },
            XmlEvent::Empty(t) => if t.name@ == "font"@ {
                match font_entry(t) {
                    Err(f) => Err(f),
                    Ok((id, name)) => fontface_loop(ev, i + 1, FontFaceV { fonts: face.fonts.insert(id, name), ..face }),
                }
            } else {
                fontface_loop(ev, i + 1, face)
            },
            XmlEvent::End(_, n) => if n@ == "fontface"@ {
                Ok((face, i + 1))
            } else {
                fontface_loop(ev, i + 1, face)
            },
            XmlEvent::Eof => Err(FaultView::Document("unexpected EOF inside <fontface>"@)),
            _ => fontface_loop(ev, i + 1, face),
        }
    }
        }),
{
    reveal_with_fuel(fontface_loop, 1);
}

/// `fontfaces_loop` unfolded once.
proof fn lemma_fontfaces_loop_unfold(ev: Seq<XmlEvent>, i: int, faces: Seq<FontFaceV>)
    ensures
        fontfaces_loop(ev, i, faces) == ({
    if i < 0 || i >= ev.len() {
        Err(FaultView::Truncated)
    } else {
        match ev[i] {
            XmlEvent::Start(t) => if t.name@ == "fontface"@ {
                match font_face_head(t) {
                    Err(f) => Err(f),
                    Ok(face) => match fontface_loop(ev, i + 1, face) {
                        Err(f) => Err(f),
                        Ok((x, j)) => if i < j <= ev.len() {
                            fontfaces_loop(ev, j, faces.push(x))
                        } else {
                            Err(FaultView::Truncated)
                        },
                    },
                }
            } else {
                match skip_from(ev, i + 1, t.qname@, 0) {
                    Err(f) => Err(f),
                    Ok(j) => if i < j <= ev.len() {
                        fontfaces_loop(ev, j, faces)
                    } else {
                        Err(FaultView::Truncated)
                    },
                }
            },
            XmlEvent::End(_, n) => if n@ == "fontfaces"@ {
                Ok((faces, i + 1))
            } else {
                fontfaces_loop(ev, i + 1, faces)
            },
            XmlEvent::Eof => Err(FaultView::Document("unexpected EOF inside <fontfaces>"@)),
            _ => fontfaces_loop(ev, i + 1, faces),
        }
    }
        }),
{
    reveal_with_fuel(fontfaces_loop, 1);
}

/// `img_ref_loop` unfolded once.
proof fn lemma_img_ref_loop_unfold(ev: Seq<XmlEvent>, i: int, out: Seq<char>)
    ensures
        img_ref_loop(ev, i, out) == ({
    if i < 0 || i >= ev.len() {
        Err(FaultView::Truncated)
    } else {
        match ev[i] {
            XmlEvent::Start(t) => {
                let o = if t.name@ == "img"@ && out.len() == 0 {
                    attr_string_of(t.attrs@, "binaryItemIDRef"@)
                } else {
                    Ok(out)
                };
                match o {
                    Err(f) => Err(f),
                    Ok(o2) => match skip_from(ev, i + 1, t.qname@, 0) {
                        Err(f) => Err(f),
                        Ok(j) => if i < j <= ev.len() {
                            img_ref_loop(ev, j, o2)
                        } else {
                            Err(FaultView::Truncated)
                        },
                    },
                }
            },
            XmlEvent::Empty(t) => {
                let o = if t.name@ == "img"@ && out.len() == 0 {
                    attr_string_of(t.attrs@, "binaryItemIDRef"@)
                } else {
                    Ok(out)
                };
                match o {
                    Err(f) => Err(f),
                    Ok(o2) => img_ref_loop(ev, i + 1, o2),
                }
            },
            XmlEvent::End(_, n) => if n@ == "imgBrush"@ {
                Ok((out, i + 1))
            } else {
                img_ref_loop(ev, i + 1, out)
            },
            XmlEvent::Eof => Err(FaultView::Document("unexpected EOF inside <imgBrush>"@)),
            _ => img_ref_loop(ev, i + 1, out),
        }
    }
        }),
{
    reveal_with_fuel(img_ref_loop, 1);
}

/// `brush_loop` unfolded once.
pub(crate) proof fn lemma_brush_loop_unfold(ev: Seq<XmlEvent>, i: int, out: Option<BrushV>)
    ensures
        brush_loop(ev, i, out) == ({
    if i < 0 || i >= ev.len() {
        Err(FaultView::Truncated)
    } else {
        match ev[i] {
            XmlEvent::Start(t) => match brush_child(t) {
                Err(f) => Err(f),
                Ok(b) => if t.name@ == "imgBrush"@ {
                    match img_ref_loop(ev, i + 1, Seq::empty()) {
                        Err(f) => Err(f),
                        Ok((file, j)) => if i < j <= ev.len() {
                            brush_loop(ev, j, Some(with_file(b->0, file)))
                        } else {
                            Err(FaultView::Truncated)
                        },
                    }
                } else {
                    match skip_from(ev, i + 1, t.qname@, 0) {
                        Err(f) => Err(f),
                        Ok(j) => if i < j <= ev.len() {
                            brush_loop(ev, j, if b is Some { b } else { out })
                        } else {
                            Err(FaultView::Truncated)
                        },
                    }
                },
            },
            XmlEvent::Empty(t) => match brush_child(t) {
                Err(f) => Err(f),
                Ok(b) => brush_loop(ev, i + 1, if b is Some { b } else { out }),
            },
            XmlEvent::End(_, n) => if n@ == "fillBrush"@ {
                Ok((out, i + 1))
            } else {
                brush_loop(ev, i + 1, out)
            },
            XmlEvent::Eof => Err(FaultView::Document("unexpected EOF inside <fillBrush>"@)),
            _ => brush_loop(ev, i + 1, out),
        }
    }
        }),
{
    reveal_with_fuel(brush_loop, 1);
}

/// `border_fill_loop` unfolded once.
pub(crate) proof fn lemma_border_fill_loop_unfold(ev: Seq<XmlEvent>, i: int, x: BorderFillV)
    ensures
        border_fill_loop(ev, i, x) == ({
    if i < 0 || i >= ev.len() {
        Err(FaultView::Truncated)
    } else {
        match ev[i] {
            XmlEvent::Empty(t) => if is_edge(t.name@) {
                match border_of(t) {
                    Err(f) => Err(f),
                    Ok(b) => border_fill_loop(ev, i + 1, with_edge(x, t.name@, b)),
                }
            } else if t.name@ == "fillBrush"@ {
                border_fill_loop(ev, i + 1, BorderFillV { has_fill_brush: true, ..x })
            } else {
                border_fill_loop(ev, i + 1, x)
            },
            XmlEvent::Start(t) => if is_edge(t.name@) {
                match border_of(t) {
                    Err(f) => Err(f),
                    Ok(b) => match skip_from(ev, i + 1, t.qname@, 0) {
                        Err(f) => Err(f),
                        Ok(j) => if i < j <= ev.len() {
                            border_fill_loop(ev, j, with_edge(x, t.name@, b))
                        } else {
                            Err(FaultView::Truncated)
                        },
                    },
                }
            } else if t.name@ == "fillBrush"@ {
                match brush_loop(ev, i + 1, None) {
                    Err(f) => Err(f),
                    Ok((b, j)) => if i < j <= ev.len() {
                        border_fill_loop(ev, j, BorderFillV { has_fill_brush: true, fill_brush: b, ..x })
                    } else {
                        Err(FaultView::Truncated)
                    },
                }
            } else {
                match skip_from(ev, i + 1, t.qname@, 0) {
                    Err(f) => Err(f),
                    Ok(j) => if i < j <= ev.len() {
                        border_fill_loop(ev, j, x)
                    } else {
                        Err(FaultView::Truncated)
                    },
                }
            },
            XmlEvent::End(_, n) => if n@ == "borderFill"@ {
                Ok((x, i + 1))
            } else {
                border_fill_loop(ev, i + 1, x)
            },
            XmlEvent::Eof => Err(FaultView::Document("unexpected EOF inside <borderFill>"@)),
            _ => border_fill_loop(ev, i + 1, x),
        }
    }
        }),
{
    reveal_with_fuel(border_fill_loop, 1);
}

/// `border_fills_loop` unfolded once.
pub(crate) proof fn lemma_border_fills_loop_unfold(ev: Seq<XmlEvent>, i: int, m: Map<u32, BorderFillV>)
    ensures
        border_fills_loop(ev, i, m) == ({
    if i < 0 || i >= ev.len() {
        Err(FaultView::Truncated)
    } else {
        match ev[i] {
            XmlEvent::Start(t) => if t.name@ == "borderFill"@ {
                match border_fill_head(t) {
                    Err(f) => Err(f),
                    Ok(h) => match border_fill_loop(ev, i + 1, h) {
                        Err(f) => Err(f),
                        Ok((x, j)) => if i < j <= ev.len() {
                            border_fills_loop(ev, j, m.insert(x.id, x))
                        } else {
                            Err(FaultView::Truncated)
                        },
                    },
                }
            } else {
                match skip_from(ev, i + 1, t.qname@, 0) {
                    Err(f) => Err(f),
                    Ok(j) => if i < j <= ev.len() {
                        border_fills_loop(ev, j, m)
                    } else {
                        Err(FaultView::Truncated)
                    },
                }
            },
            XmlEvent::End(_, n) => if n@ == "borderFills"@ {
                Ok((m, i + 1))
            } else {
                border_fills_loop(ev, i + 1, m)
            },
            XmlEvent::Eof => Err(FaultView::Document("unexpected EOF inside <borderFills>"@)),
            _ => border_fills_loop(ev, i + 1, m),
        }
    }
        }),
{
    reveal_with_fuel(border_fills_loop, 1);
}

/// `char_pr_loop` unfolded once.
proof fn lemma_char_pr_loop_unfold(ev: Seq<XmlEvent>, i: int, x: CharShapeV)
    ensures
        char_pr_loop(ev, i, x) == ({
    if i < 0 || i >= ev.len() {
        Err(FaultView::Truncated)
    } else {
        match ev[i] {
            XmlEvent::Start(t) => match char_shape_child(x, t) {
                Err(f) => Err(f),
                Ok(y) => match skip_from(ev, i + 1, t.qname@, 0) {
                    Err(f) => Err(f),
                    Ok(j) => if i < j <= ev.len() {
                        char_pr_loop(ev, j, y)
                    } else {
                        Err(FaultView::Truncated)
                    },
                },
            },
            XmlEvent::Empty(t) => match char_shape_child(x, t) {
                Err(f) => Err(f),
                Ok(y) => char_pr_loop(ev, i + 1, y),
            },
            XmlEvent::End(_, n) => if n@ == "charPr"@ {
                Ok((x, i + 1))
            } else {
                char_pr_loop(ev, i + 1, x)
            },
            XmlEvent::Eof => Err(FaultView::Document("unexpected EOF inside <charPr>"@)),
            _ => char_pr_loop(ev, i + 1, x),
        }
    }
        }),
{
    reveal_with_fuel(char_pr_loop, 1);
}

/// `char_props_loop` unfolded once.
pub(crate) proof fn lemma_char_props_loop_unfold(ev: Seq<XmlEvent>, i: int, m: Map<u32, CharShapeV>)
    ensures
        char_props_loop(ev, i, m) == ({
    if i < 0 || i >= ev.len() {
        Err(FaultView::Truncated)
    } else {
        match ev[i] {
            XmlEvent::Start(t) => if t.name@ == "charPr"@ {
                match char_shape_head(t) {
                    Err(f) => Err(f),
                    Ok(h) => match char_pr_loop(ev, i + 1, h) {
                        Err(f) => Err(f),
                        Ok((x, j)) => if i < j <= ev.len() {
                            char_props_loop(ev, j, m.insert(x.id, x))
                        } else {
                            Err(FaultView::Truncated)
                        },
                    },
                }
            } else {
                match skip_from(ev, i + 1, t.qname@, 0) {
                    Err(f) => Err(f),
                    Ok(j) => if i < j <= ev.len() {
                        char_props_loop(ev, j, m)
                    } else {
                        Err(FaultView::Truncated)
                    },
                }
            },
            XmlEvent::End(_, n) => if n@ == "charProperties"@ {
                Ok((m, i + 1))
            } else {
                char_props_loop(ev, i + 1, m)
            },
            XmlEvent::Eof => Err(FaultView::Document("unexpected EOF inside <charProperties>"@)),
            _ => char_props_loop(ev, i + 1, m),
        }
    }
        }),
{
    reveal_with_fuel(char_props_loop, 1);
}

/// `margin_loop` unfolded once.
proof fn lemma_margin_loop_unfold(ev: Seq<XmlEvent>, i: int, m: Margin)
    ensures
        margin_loop(ev, i, m) == ({
    if i < 0 || i >= ev.len() {
        Err(FaultView::Truncated)
    } else {
        match ev[i] {
            XmlEvent::Start(t) => match margin_child(m, t) {
                Err(f) => Err(f),
                Ok(m2) => match skip_from(ev, i + 1, t.qname@, 0) {
                    Err(f) => Err(f),
                    Ok(j) => if i < j <= ev.len() {
                        margin_loop(ev, j, m2)
                    } else {
                        Err(FaultView::Truncated)
                    },
                },
            },
            XmlEvent::Empty(t) => match margin_child(m, t) {
                Err(f) => Err(f),
                Ok(m2) => margin_loop(ev, i + 1, m2),
            },
            XmlEvent::End(_, n) => if n@ == "margin"@ {
                Ok((m, i + 1))
            } else {
                margin_loop(ev, i + 1, m)
            },
            XmlEvent::Eof => Err(FaultView::Document("unexpected EOF inside <margin>"@)),
            _ => margin_loop(ev, i + 1, m),
        }
    }
        }),
{
    reveal_with_fuel(margin_loop, 1);
}



/// `para_props_loop` unfolded once.
pub(crate) proof fn lemma_para_props_loop_unfold(ev: Seq<XmlEvent>, i: int, m: Map<u32, ParaShapeV>)
    ensures
        para_props_loop(ev, i, m) == ({
    if i < 0 || i >= ev.len() {
        Err(FaultView::Truncated)
    } else {
        match ev[i] {
            XmlEvent::Start(t) => if t.name@ == "paraPr"@ {
                match para_shape_head(t) {
                    Err(f) => Err(f),
                    Ok(h) => match para_pr_loop(ev, i + 1, h) {
                        Err(f) => Err(f),
                        Ok((x, j)) => if i < j <= ev.len() {
                            para_props_loop(ev, j, m.insert(x.id, x))
                        } else {
                            Err(FaultView::Truncated)
                        },
                    },
                }
            } else {
                match skip_from(ev, i + 1, t.qname@, 0) {
                    Err(f) => Err(f),
                    Ok(j) => if i < j <= ev.len() {
                        para_props_loop(ev, j, m)
                    } else {
                        Err(FaultView::Truncated)
                    },
                }
            },
            XmlEvent::End(_, n) => if n@ == "paraProperties"@ {
                Ok((m, i + 1))
            } else {
                para_props_loop(ev, i + 1, m)
            },
            XmlEvent::Eof => Err(FaultView::Document("unexpected EOF inside <paraProperties>"@)),
            _ => para_props_loop(ev, i + 1, m),
        }
    }
        }),
{
    reveal_with_fuel(para_props_loop, 1);
}

/// `styles_loop` unfolded once.
pub(crate) proof fn lemma_styles_loop_unfold(ev: Seq<XmlEvent>, i: int, m: Map<u32, StyleV>)
    ensures
        styles_loop(ev, i, m) == ({
    if i < 0 || i >= ev.len() {
        Err(FaultView::Truncated)
    } else {
        match ev[i] {
            XmlEvent::Start(t) => if t.name@ == "style"@ {
                match style_of(t) {
                    Err(f) => Err(f),
                    Ok(s) => match skip_from(ev, i + 1, t.qname@, 0) {
                        Err(f) => Err(f),
                        Ok(j) => if i < j <= ev.len() {
                            styles_loop(ev, j, m.insert(s.id, s))
                        } else {
                            Err(FaultView::Truncated)
                        },
                    },
                }
            } else {
                match skip_from(ev, i + 1, t.qname@, 0) {
                    Err(f) => Err(f),
                    Ok(j) => if i < j <= ev.len() {
                        styles_loop(ev, j, m)
                    } else {
                        Err(FaultView::Truncated)
                    },
                }
            },
            XmlEvent::Empty(t) => if t.name@ == "style"@ {
                match style_of(t) {
                    Err(f) => Err(f),
                    Ok(s) => styles_loop(ev, i + 1, m.insert(s.id, s)),
                }
            } else {
                styles_loop(ev, i + 1, m)
            },
            XmlEvent::End(_, n) => if n@ == "styles"@ {
                Ok((m, i + 1))
            } else {
                styles_loop(ev, i + 1, m)
            },
            XmlEvent::Eof => Err(FaultView::Document("unexpected EOF inside <styles>"@)),
            _ => styles_loop(ev, i + 1, m),
        }
    }
        }),
{
    reveal_with_fuel(styles_loop, 1);
}

/// `bullets_loop` unfolded once.
pub(crate) proof fn lemma_bullets_loop_unfold(ev: Seq<XmlEvent>, i: int, m: Map<u32, BulletV>)
    ensures
        bullets_loop(ev, i, m) == ({
    if i < 0 || i >= ev.len() {
        Err(FaultView::Truncated)
    } else {
        match ev[i] {
            XmlEvent::Start(t) => if t.name@ == "bullet"@ {
                match bullet_of(t) {
                    Err(f) => Err(f),
                    Ok(b) => match skip_from(ev, i + 1, t.qname@, 0) {
                        Err(f) => Err(f),
                        Ok(j) => if i < j <= ev.len() {
                            bullets_loop(ev, j, m.insert(b.id, b))
                        } else {
                            Err(FaultView::Truncated)
                        },
                    },
                }
            } else {
                match skip_from(ev, i + 1, t.qname@, 0) {
                    Err(f) => Err(f),
                    Ok(j) => if i < j <= ev.len() {
                        bullets_loop(ev, j, m)
                    } else {
                        Err(FaultView::Truncated)
                    },
                }
            },
            XmlEvent::Empty(t) => if t.name@ == "bullet"@ {
                match bullet_of(t) {
                    Err(f) => Err(f),
                    Ok(b) => bullets_loop(ev, i + 1, m.insert(b.id, b)),
                }
            } else {
                bullets_loop(ev, i + 1, m)
            },
            XmlEvent::End(_, n) => if n@ == "bullets"@ {
                Ok((m, i + 1))
            } else {
                bullets_loop(ev, i + 1, m)
            },
            XmlEvent::Eof => Err(FaultView::Document("unexpected EOF inside <bullets>"@)),
            _ => bullets_loop(ev, i + 1, m),
        }
    }
        }),
{
    reveal_with_fuel(bullets_loop, 1);
}

/// `text_loop` unfolded once.
proof fn lemma_text_loop_unfold(ev: Seq<XmlEvent>, i: int, end: Seq<char>, out: Seq<char>)
    ensures
        text_loop(ev, i, end, out) == ({
    if i < 0 || i >= ev.len() {
        Err(FaultView::Truncated)
    } else {
        match ev[i] {
            XmlEvent::Text(s) => text_loop(ev, i + 1, end, out + s@),
            XmlEvent::GeneralRef(n) => text_loop(ev, i + 1, end, out + "&"@ + n@ + ";"@),
            XmlEvent::End(_, n) => if n@ == end {
                Ok((out, i + 1))
            } else {
                text_loop(ev, i + 1, end, out)
            },
            XmlEvent::Start(t) => match skip_from(ev, i + 1, t.qname@, 0) {
                Err(f) => Err(f),
                Ok(j) => if i < j <= ev.len() {
                    text_loop(ev, j, end, out)
                } else {
                    Err(FaultView::Truncated)
                },
            },
            XmlEvent::Eof => Err(FaultView::Document("unexpected EOF inside <"@ + end + ">"@)),
            _ => text_loop(ev, i + 1, end, out),
        }
    }
        }),
{
    reveal_with_fuel(text_loop, 1);
}

/// `numbering_loop` unfolded once.
proof fn lemma_numbering_loop_unfold(ev: Seq<XmlEvent>, i: int, x: NumberingV)
    ensures
        numbering_loop(ev, i, x) == ({
    if i < 0 || i >= ev.len() {
        Err(FaultView::Truncated)
    } else {
        match ev[i] {
            XmlEvent::Start(t) => if t.name@ == "paraHead"@ {
                match para_head_of(t) {
                    Err(f) => Err(f),
                    Ok(h) => match text_loop(ev, i + 1, "paraHead"@, Seq::empty()) {
                        Err(f) => Err(f),
                        Ok((s, j)) => if i < j <= ev.len() {
                            numbering_loop(
                                ev,
                                j,
                                NumberingV { para_heads: x.para_heads.push(ParaHeadV { num_format_text: s, ..h }), ..x },
                            )
                        } else {
                            Err(FaultView::Truncated)
                        },
                    },
                }
            } else {
                match skip_from(ev, i + 1, t.qname@, 0) {
                    Err(f) => Err(f),
                    Ok(j) => if i < j <= ev.len() {
                        numbering_loop(ev, j, x)
                    } else {
                        Err(FaultView::Truncated)
                    },
                }
            },
            XmlEvent::Empty(t) => if t.name@ == "paraHead"@ {
                match para_head_of(t) {
                    Err(f) => Err(f),
                    Ok(h) => numbering_loop(ev, i + 1, NumberingV { para_heads: x.para_heads.push(h), ..x }),
                }
            } else {
                numbering_loop(ev, i + 1, x)
            },
            XmlEvent::End(_, n) => if n@ == "numbering"@ {
                Ok((x, i + 1))
            } else {
                numbering_loop(ev, i + 1, x)
            },
            XmlEvent::Eof => Err(FaultView::Document("unexpected EOF inside <numbering>"@)),
            _ => numbering_loop(ev, i + 1, x),
        }
    }
        }),
{
    reveal_with_fuel(numbering_loop, 1);
}

/// `numberings_loop` unfolded once.
pub(crate) proof fn lemma_numberings_loop_unfold(ev: Seq<XmlEvent>, i: int, m: Map<u32, NumberingV>)
    ensures
        numberings_loop(ev, i, m) == ({
    if i < 0 || i >= ev.len() {
        Err(FaultView::Truncated)
    } else {
        match ev[i] {
            XmlEvent::Start(t) => if t.name@ == "numbering"@ {
                match numbering_head(t) {
                    Err(f) => Err(f),
                    Ok(h) => match numbering_loop(ev, i + 1, h) {
                        Err(f) => Err(f),
                        Ok((x, j)) => if i < j <= ev.len() {
                            numberings_loop(ev, j, m.insert(x.id, x))
                        } else {
                            Err(FaultView::Truncated)
                        },
                    },
                }
            } else {
                match skip_from(ev, i + 1, t.qname@, 0) {
                    Err(f) => Err(f),
                    Ok(j) => if i < j <= ev.len() {
                        numberings_loop(ev, j, m)
                    } else {
                        Err(FaultView::Truncated)
                    },
                }
            },
            XmlEvent::End(_, n) => if n@ == "numberings"@ {
                Ok((m, i + 1))
            } else {
                numberings_loop(ev, i + 1, m)
            },
            XmlEvent::Eof => Err(FaultView::Document("unexpected EOF inside <numberings>"@)),
            _ => numberings_loop(ev, i + 1, m),
        }
    }
        }),
{
    reveal_with_fuel(numberings_loop, 1);
}

/// `header_loop` unfolded once.
pub(crate) proof fn lemma_header_loop_unfold(ev: Seq<XmlEvent>, i: int, h: HeaderV)
    ensures
        header_loop(ev, i, h) == ({
    if i < 0 || i >= ev.len() {
        Err(FaultView::Truncated)
    } else {
        match ev[i] {
            XmlEvent::Start(t) => {
                let n = t.name@;
                if n == "fontfaces"@ {
                    match fontfaces_loop(ev, i + 1, h.font_faces) {
                        Err(f) => Err(f),
                        Ok((v, j)) => if i < j <= ev.len() { header_loop(ev, j, HeaderV { font_faces: v, ..h }) } else { Err(FaultView::Truncated) },
                    }
                } else if n == "borderFills"@ {
                    match border_fills_loop(ev, i + 1, h.border_fills) {
                        Err(f) => Err(f),
                        Ok((v, j)) => if i < j <= ev.len() { header_loop(ev, j, HeaderV { border_fills: v, ..h }) } else { Err(FaultView::Truncated) },
                    }
                } else if n == "charProperties"@ {
                    match char_props_loop(ev, i + 1, h.char_shapes) {
                        Err(f) => Err(f),
                        Ok((v, j)) => if i < j <= ev.len() { header_loop(ev, j, HeaderV { char_shapes: v, ..h }) } else { Err(FaultView::Truncated) },
                    }
                } else if n == "paraProperties"@ {
                    match para_props_loop(ev, i + 1, h.para_shapes) {
                        Err(f) => Err(f),
                        Ok((v, j)) => if i < j <= ev.len() { header_loop(ev, j, HeaderV { para_shapes: v, ..h }) } else { Err(FaultView::Truncated) },
                    }
                } else if n == "styles"@ {
                    match styles_loop(ev, i + 1, h.styles) {
                        Err(f) => Err(f),
                        Ok((v, j)) => if i < j <= ev.len() { header_loop(ev, j, HeaderV { styles: v, ..h }) } else { Err(FaultView::Truncated) },
                    }
                } else if n == "bullets"@ {
                    match bullets_loop(ev, i + 1, h.bullets) {
                        Err(f) => Err(f),
                        Ok((v, j)) => if i < j <= ev.len() { header_loop(ev, j, HeaderV { bullets: v, ..h }) } else { Err(FaultView::Truncated) },
                    }
                } else if n == "numberings"@ {
                    match numberings_loop(ev, i + 1, h.numberings) {
                        Err(f) => Err(f),
                        Ok((v, j)) => if i < j <= ev.len() { header_loop(ev, j, HeaderV { numberings: v, ..h }) } else { Err(FaultView::Truncated) },
                    }
                } else {
                    header_loop(ev, i + 1, h)
                }
            },
            XmlEvent::Eof => Ok(h),
            _ => header_loop(ev, i + 1, h),
        }
    }
        }),
{
    reveal_with_fuel(header_loop, 1);
}

// ---------------------------------------------------------------------------
// The parse, executed
// ---------------------------------------------------------------------------

/// A character shape from its start tag.
fn char_shape_head_exec(t: &XmlTag) -> (r: Result<CharShape, ParseFault>)
    ensures
        match char_shape_head(*t) {
            Ok(v) => r matches Ok(x) && char_shape_v(x) == v,
            Err(f) => r matches Err(e) && e@ == f,
        },
{
    let id = attr_u32(t, "id")?;
    let height = attr_u32(t, "height")?;
    let text_color = attr_string(t, "textColor")?;
    let shade_color = attr_string(t, "shadeColor")?;
    let use_font_space = attr_bool(t, "useFontSpace")?;
    let use_kerning = attr_bool(t, "useKerning")?;
    let sym_mark = attr_string(t, "symMark")?;
    let border_fill_id_ref = attr_u32(t, "borderFillIDRef")?;
    let x = CharShape { id, height, text_color, shade_color, use_font_space, use_kerning, sym_mark, border_fill_id_ref, font_ref: LangTuple { values: [0u32, 0u32, 0u32, 0u32, 0u32, 0u32, 0u32] }, ratio: LangTuple { values: [0u32, 0u32, 0u32, 0u32, 0u32, 0u32, 0u32] }, spacing: LangTuple { values: [0i32, 0i32, 0i32, 0i32, 0i32, 0i32, 0i32] }, rel_sz: LangTuple { values: [0u32, 0u32, 0u32, 0u32, 0u32, 0u32, 0u32] }, offset: LangTuple { values: [0i32, 0i32, 0i32, 0i32, 0i32, 0i32, 0i32] }, bold: false, italic: false, underline: false, strikeout: false, outline: false, emboss: false, engrave: false, shadow: false, supscript: false, subscript: false };
    assert(x.font_ref.values@ =~= seq![0u32, 0u32, 0u32, 0u32, 0u32, 0u32, 0u32]);
    assert(x.spacing.values@ =~= seq![0i32, 0i32, 0i32, 0i32, 0i32, 0i32, 0i32]);
    Ok(x)
}

/// A paragraph shape from its start tag.
fn para_shape_head_exec(t: &XmlTag) -> (r: Result<ParaShape, ParseFault>)
    ensures
        match para_shape_head(*t) {
            Ok(v) => r matches Ok(x) && para_shape_v(x) == v,
            Err(f) => r matches Err(e) && e@ == f,
        },
{
    let id = attr_u32(t, "id")?;
    let tab_pr_id_ref = attr_u32(t, "tabPrIDRef")?;
    let condense = attr_u32(t, "condense")?;
    let font_line_height = attr_bool(t, "fontLineHeight")?;
    let snap_to_grid = attr_bool(t, "snapToGrid")?;
    let suppress_line_numbers = attr_bool(t, "suppressLineNumbers")?;
    let checked = attr_bool(t, "checked")?;
    let x = ParaShape { id, tab_pr_id_ref, condense, font_line_height, snap_to_grid, suppress_line_numbers, checked, h_align: HAlign::Justify, v_align: VAlign::Baseline, heading_type: HeadingType::NoHeading, heading_id_ref: 0, heading_level: 0, break_latin_word: LineBreakWord::KeepWord, break_non_latin_word: LineBreakWord::KeepWord, widow_orphan: false, keep_with_next: false, keep_lines: false, page_break_before: false, line_wrap: false, auto_spacing_eng: false, auto_spacing_num: false, margin: Margin { indent: 0, left: 0, right: 0, prev: 0, next: 0 }, line_spacing: LineSpacing { type_: LineSpacingType::Percent, value: 0, unit: String::new() }, border_fill_id_ref: 0, border_offset_left: 0, border_offset_right: 0, border_offset_top: 0, border_offset_bottom: 0, connect: false, ignore_margin: false };
    Ok(x)
}

/// A border fill from its start tag.
fn border_fill_head_exec(t: &XmlTag) -> (r: Result<BorderFill, ParseFault>)
    ensures
        match border_fill_head(*t) {
            Ok(v) => r matches Ok(x) && border_fill_v(x) == v,
            Err(f) => r matches Err(e) && e@ == f,
        },
{
    let id = attr_u32(t, "id")?;
    let three_d = attr_bool(t, "threeD")?;
    let shadow = attr_bool(t, "shadow")?;
    let center_line = attr_string(t, "centerLine")?;
    let break_cell_separate_line = attr_bool(t, "breakCellSeparateLine")?;
    let x = BorderFill { id, three_d, shadow, center_line, break_cell_separate_line, left: Border { line_type: LineType::NoLine, width_nm: 0, color: String::new() }, right: Border { line_type: LineType::NoLine, width_nm: 0, color: String::new() }, top: Border { line_type: LineType::NoLine, width_nm: 0, color: String::new() }, bottom: Border { line_type: LineType::NoLine, width_nm: 0, color: String::new() }, diagonal: Border { line_type: LineType::NoLine, width_nm: 0, color: String::new() }, has_fill_brush: false, fill_brush: None };
    Ok(x)
}

/// A style from its tag.
fn style_exec(t: &XmlTag) -> (r: Result<Style, ParseFault>)
    ensures
        match style_of(*t) {
            Ok(v) => r matches Ok(x) && style_v(x) == v,
            Err(f) => r matches Err(e) && e@ == f,
        },
{
    let id = attr_u32(t, "id")?;
    let style_type = attr_string(t, "type")?;
    let name = attr_string(t, "name")?;
    let eng_name = attr_string(t, "engName")?;
    let para_pr_id_ref = attr_u32(t, "paraPrIDRef")?;
    let char_pr_id_ref = attr_u32(t, "charPrIDRef")?;
    let next_style_id_ref = attr_u32(t, "nextStyleIDRef")?;
    let lang_id = attr_u32(t, "langID")?;
    let lock_form = attr_bool(t, "lockForm")?;
    let x = Style { id, style_type, name, eng_name, para_pr_id_ref, char_pr_id_ref, next_style_id_ref, lang_id, lock_form };
    Ok(x)
}

/// A bullet from its tag.
fn bullet_exec(t: &XmlTag) -> (r: Result<Bullet, ParseFault>)
    ensures
        match bullet_of(*t) {
            Ok(v) => r matches Ok(x) && bullet_v(x) == v,
            Err(f) => r matches Err(e) && e@ == f,
        },
{
    let id = attr_u32(t, "id")?;
    let ch = attr_string(t, "char")?;
    let use_image = attr_bool(t, "useImage")?;
    let x = Bullet { id, char: ch, use_image };
    Ok(x)
}

/// A numbering from its start tag.
fn numbering_head_exec(t: &XmlTag) -> (r: Result<Numbering, ParseFault>)
    ensures
        match numbering_head(*t) {
            Ok(v) => r matches Ok(x) && numbering_v(x) == v,
            Err(f) => r matches Err(e) && e@ == f,
        },
{
    let id = attr_u32(t, "id")?;
    let start = attr_u32(t, "start")?;
    let x = Numbering { id, start, para_heads: Vec::new() };
    proof {
        lemma_empty_views();
    }
    Ok(x)
}

/// A level template from its tag.
fn para_head_exec(t: &XmlTag) -> (r: Result<ParaHead, ParseFault>)
    ensures
        match para_head_of(*t) {
            Ok(v) => r matches Ok(x) && para_head_v(x) == v,
            Err(f) => r matches Err(e) && e@ == f,
        },
{
    let start = attr_u32(t, "start")?;
    let level = attr_u32(t, "level")?;
    let align = attr_string(t, "align")?;
    let use_inst_width = attr_bool(t, "useInstWidth")?;
    let auto_indent = attr_bool(t, "autoIndent")?;
    let width_adjust = attr_bool(t, "widthAdjust")?;
    let text_offset_type = attr_string(t, "textOffsetType")?;
    let text_offset = attr_u32(t, "textOffset")?;
    let num_format = attr_string(t, "numFormat")?;
    let char_pr_id_ref = attr_u32(t, "charPrIDRef")?;
    let checkable = attr_bool(t, "checkable")?;
    let x = ParaHead { start, level, align, use_inst_width, auto_indent, width_adjust, text_offset_type, text_offset, num_format, char_pr_id_ref, checkable, num_format_text: String::new() };
    Ok(x)
}

/// A border edge from its tag.
fn border_exec(t: &XmlTag) -> (r: Result<Border, ParseFault>)
    ensures
        match border_of(*t) {
            Ok(v) => r matches Ok(x) && border_v(x) == v,
            Err(f) => r matches Err(e) && e@ == f,
        },
{
    let ty = attr_string(t, "type")?;
    let width = attr_string(t, "width")?;
    let color = attr_string(t, "color")?;
    let x = Border { line_type: LineType::parse(ty.as_str()), width_nm: parse_width_nm(width.as_str()), color };
    Ok(x)
}

/// Line spacing from its tag.
fn line_spacing_exec(t: &XmlTag) -> (r: Result<LineSpacing, ParseFault>)
    ensures
        match line_spacing_of(*t) {
            Ok(v) => r matches Ok(x) && line_spacing_v(x) == v,
            Err(f) => r matches Err(e) && e@ == f,
        },
{
    let ty = attr_string(t, "type")?;
    let value = attr_i32(t, "value")?;
    let unit = attr_string(t, "unit")?;
    let x = LineSpacing { type_: LineSpacingType::parse(ty.as_str()), value, unit };
    Ok(x)
}

/// A solid brush from its tag.
fn solid_brush_exec(t: &XmlTag) -> (r: Result<CellFillBrush, ParseFault>)
    ensures
        match solid_brush_of(*t) {
            Ok(v) => r matches Ok(x) && brush_v(x) == v,
            Err(f) => r matches Err(e) && e@ == f,
        },
{
    let face = attr_string(t, "faceColor")?;
    let hatch = attr_string(t, "hatchColor")?;
    let alpha = attr_u32(t, "alpha")?;
    let x = CellFillBrush::Solid { face, hatch, alpha };
    Ok(x)
}

/// A gradation from its tag.
fn gradation_exec(t: &XmlTag) -> (r: Result<CellFillBrush, ParseFault>)
    ensures
        match gradation_of(*t) {
            Ok(v) => r matches Ok(x) && brush_v(x) == v,
            Err(f) => r matches Err(e) && e@ == f,
        },
{
    let gradation_type = attr_string(t, "type")?;
    let start_color = attr_string(t, "startColor")?;
    let end_color = attr_string(t, "endColor")?;
    let width_center = attr_u32(t, "centerX")?;
    let height_center = attr_u32(t, "centerY")?;
    let angle = attr_u32(t, "angle")?;
    let blur_level = attr_u32(t, "step")?;
    let blur_center = attr_u32(t, "step_center")?;
    let x = CellFillBrush::Gradation { gradation_type, start_color, end_color, width_center, height_center, angle, blur_level, blur_center };
    Ok(x)
}

/// An image brush from its tag.
fn image_brush_exec(t: &XmlTag) -> (r: Result<CellFillBrush, ParseFault>)
    ensures
        match image_brush_of(*t) {
            Ok(v) => r matches Ok(x) && brush_v(x) == v,
            Err(f) => r matches Err(e) && e@ == f,
        },
{
    let included = attr_bool(t, "include")?;
    let fill_type = attr_string(t, "mode")?;
    let fill_value = attr_i32(t, "alpha")?;
    let effect_type = attr_string(t, "effect")?;
    let effect_value = attr_i32(t, "effectValue")?;
    let watermark = attr_u32(t, "watermark")?;
    let x = CellFillBrush::Image { file: String::new(), included, fill_type, fill_value, effect_type, effect_value, watermark };
    Ok(x)
}

/// A per-language tuple from a tag's language attributes.
fn lang_tuple_u32_exec(t: &XmlTag) -> (r: Result<LangTuple<u32>, ParseFault>)
    ensures
        match lang_tuple_u32_of(*t) {
            Ok(v) => r matches Ok(x) && x.values@ == v,
            Err(f) => r matches Err(e) && e@ == f,
        },
{
    let v0 = attr_u32(t, "hangul")?;
    let v1 = attr_u32(t, "latin")?;
    let v2 = attr_u32(t, "hanja")?;
    let v3 = attr_u32(t, "japanese")?;
    let v4 = attr_u32(t, "other")?;
    let v5 = attr_u32(t, "symbol")?;
    let v6 = attr_u32(t, "user")?;
    let x = LangTuple { values: [v0, v1, v2, v3, v4, v5, v6] };
    assert(x.values@ =~= seq![v0, v1, v2, v3, v4, v5, v6]);
    Ok(x)
}

/// A per-language tuple from a tag's language attributes.
fn lang_tuple_i32_exec(t: &XmlTag) -> (r: Result<LangTuple<i32>, ParseFault>)
    ensures
        match lang_tuple_i32_of(*t) {
            Ok(v) => r matches Ok(x) && x.values@ == v,
            Err(f) => r matches Err(e) && e@ == f,
        },
{
    let v0 = attr_i32(t, "hangul")?;
    let v1 = attr_i32(t, "latin")?;
    let v2 = attr_i32(t, "hanja")?;
    let v3 = attr_i32(t, "japanese")?;
    let v4 = attr_i32(t, "other")?;
    let v5 = attr_i32(t, "symbol")?;
    let v6 = attr_i32(t, "user")?;
    let x = LangTuple { values: [v0, v1, v2, v3, v4, v5, v6] };
    assert(x.values@ =~= seq![v0, v1, v2, v3, v4, v5, v6]);
    Ok(x)
}

/// Apply a child tag of `<hh:paraPr>` to a paragraph shape.
/// Apply a `<align>` child to a paragraph shape.
fn align_child_exec(x: ParaShape, t: &XmlTag) -> (r: Result<ParaShape, ParseFault>)
    ensures
        match align_child(para_shape_v(x), *t) {
            Ok(v) => r matches Ok(y) && para_shape_v(y) == v,
            Err(f) => r matches Err(e) && e@ == f,
        },
{
    let h = attr_string(t, "horizontal")?;
    let v = attr_string(t, "vertical")?;
    let mut y = x;
    y.h_align = HAlign::parse(h.as_str());
    y.v_align = VAlign::parse(v.as_str());
    Ok(y)
}

/// Apply a `<heading>` child to a paragraph shape.
fn heading_child_exec(x: ParaShape, t: &XmlTag) -> (r: Result<ParaShape, ParseFault>)
    ensures
        match heading_child(para_shape_v(x), *t) {
            Ok(v) => r matches Ok(y) && para_shape_v(y) == v,
            Err(f) => r matches Err(e) && e@ == f,
        },
{
    let ty = attr_string(t, "type")?;
    let heading_id_ref = attr_u32(t, "idRef")?;
    let heading_level = attr_u32(t, "level")?;
    let mut y = x;
    y.heading_type = HeadingType::parse(ty.as_str());
    y.heading_id_ref = heading_id_ref;
    y.heading_level = heading_level;
    Ok(y)
}

/// Apply a `<breakSetting>` child to a paragraph shape.
fn break_child_exec(x: ParaShape, t: &XmlTag) -> (r: Result<ParaShape, ParseFault>)
    ensures
        match break_child(para_shape_v(x), *t) {
            Ok(v) => r matches Ok(y) && para_shape_v(y) == v,
            Err(f) => r matches Err(e) && e@ == f,
        },
{
    let latin = attr_string(t, "breakLatinWord")?;
    let non_latin = attr_string(t, "breakNonLatinWord")?;
    let widow_orphan = attr_bool(t, "widowOrphan")?;
    let keep_with_next = attr_bool(t, "keepWithNext")?;
    let keep_lines = attr_bool(t, "keepLines")?;
    let page_break_before = attr_bool(t, "pageBreakBefore")?;
    let wrap = attr_string(t, "lineWrap")?;
    let mut y = x;
    y.break_latin_word = LineBreakWord::parse(latin.as_str());
    y.break_non_latin_word = LineBreakWord::parse(non_latin.as_str());
    y.widow_orphan = widow_orphan;
    y.keep_with_next = keep_with_next;
    y.keep_lines = keep_lines;
    y.page_break_before = page_break_before;
    y.line_wrap = str_eq(wrap.as_str(), "BREAK");
    Ok(y)
}

/// Apply a `<autoSpacing>` child to a paragraph shape.
fn auto_spacing_child_exec(x: ParaShape, t: &XmlTag) -> (r: Result<ParaShape, ParseFault>)
    ensures
        match auto_spacing_child(para_shape_v(x), *t) {
            Ok(v) => r matches Ok(y) && para_shape_v(y) == v,
            Err(f) => r matches Err(e) && e@ == f,
        },
{
    let auto_spacing_eng = attr_bool(t, "eAsianEng")?;
    let auto_spacing_num = attr_bool(t, "eAsianNum")?;
    let mut y = x;
    y.auto_spacing_eng = auto_spacing_eng;
    y.auto_spacing_num = auto_spacing_num;
    Ok(y)
}

/// Apply a `<border>` child to a paragraph shape.
fn para_border_child_exec(x: ParaShape, t: &XmlTag) -> (r: Result<ParaShape, ParseFault>)
    ensures
        match para_border_child(para_shape_v(x), *t) {
            Ok(v) => r matches Ok(y) && para_shape_v(y) == v,
            Err(f) => r matches Err(e) && e@ == f,
        },
{
    let border_fill_id_ref = attr_u32(t, "borderFillIDRef")?;
    let border_offset_left = attr_i32(t, "offsetLeft")?;
    let border_offset_right = attr_i32(t, "offsetRight")?;
    let border_offset_top = attr_i32(t, "offsetTop")?;
    let border_offset_bottom = attr_i32(t, "offsetBottom")?;
    let connect = attr_bool(t, "connect")?;
    let ignore_margin = attr_bool(t, "ignoreMargin")?;
    let mut y = x;
    y.border_fill_id_ref = border_fill_id_ref;
    y.border_offset_left = border_offset_left;
    y.border_offset_right = border_offset_right;
    y.border_offset_top = border_offset_top;
    y.border_offset_bottom = border_offset_bottom;
    y.connect = connect;
    y.ignore_margin = ignore_margin;
    Ok(y)
}

/// Apply a `<hh:lineSpacing>` child to a paragraph shape.
fn line_spacing_child_exec(x: ParaShape, t: &XmlTag) -> (r: Result<ParaShape, ParseFault>)
    ensures
        match line_spacing_child(para_shape_v(x), *t) {
            Ok(v) => r matches Ok(y) && para_shape_v(y) == v,
            Err(f) => r matches Err(e) && e@ == f,
        },
{
    let ls = line_spacing_exec(t)?;
    let mut y = x;
    y.line_spacing = ls;
    Ok(y)
}

/// Apply a child tag of `<hh:paraPr>` to a paragraph shape.
fn para_shape_child_exec(x: ParaShape, t: &XmlTag) -> (r: Result<ParaShape, ParseFault>)
    ensures
        match para_shape_child(para_shape_v(x), *t) {
            Ok(v) => r matches Ok(y) && para_shape_v(y) == v,
            Err(f) => r matches Err(e) && e@ == f,
        },
{
    proof {
        reveal(para_shape_child);
    }
    let n = t.name.as_str();
    if str_eq(n, "align") {
        align_child_exec(x, t)
    } else if str_eq(n, "heading") {
        heading_child_exec(x, t)
    } else if str_eq(n, "breakSetting") {
        break_child_exec(x, t)
    } else if str_eq(n, "autoSpacing") {
        auto_spacing_child_exec(x, t)
    } else if str_eq(n, "lineSpacing") {
        line_spacing_child_exec(x, t)
    } else if str_eq(n, "border") {
        para_border_child_exec(x, t)
    } else {
        Ok(x)
    }
}

/// Whether a child's `shape` or `type` is set and not `NONE`.
fn styled_flag_exec(t: &XmlTag, key: &str) -> (r: Result<bool, ParseFault>)
    ensures
        outcome(r) == styled_flag(*t, key@),
{
    let s = attr_string(t, key)?;
    Ok(!str_eq(s.as_str(), "NONE") && s.unicode_len() > 0)
}

/// Apply a per-language tuple child to a character shape.
#[verifier::rlimit(100)]
#[verifier::spinoff_prover]
fn tuple_child_exec(x: CharShape, t: &XmlTag) -> (r: Result<CharShape, ParseFault>)
    ensures
        match tuple_child(char_shape_v(x), *t) {
            Ok(v) => r matches Ok(y) && char_shape_v(y) == v,
            Err(f) => r matches Err(e) && e@ == f,
        },
{
    let n = t.name.as_str();
    let mut y = x;
    if str_eq(n, "fontRef") {
        y.font_ref = lang_tuple_u32_exec(t)?;
    } else if str_eq(n, "ratio") {
        y.ratio = lang_tuple_u32_exec(t)?;
    } else if str_eq(n, "spacing") {
        y.spacing = lang_tuple_i32_exec(t)?;
    } else if str_eq(n, "relSz") {
        y.rel_sz = lang_tuple_u32_exec(t)?;
    } else {
        y.offset = lang_tuple_i32_exec(t)?;
    }
    Ok(y)
}

/// Apply a flag child to a character shape.
fn flag_child_exec(x: CharShape, n: &str) -> (y: CharShape)
    ensures
        char_shape_v(y) == flag_child(char_shape_v(x), n@),
{
    let mut y = x;
    if str_eq(n, "bold") {
        y.bold = true;
    } else if str_eq(n, "italic") {
        y.italic = true;
    } else if str_eq(n, "underline") {
        y.underline = true;
    } else if str_eq(n, "emboss") {
        y.emboss = true;
    } else if str_eq(n, "engrave") {
        y.engrave = true;
    } else if str_eq(n, "supscript") {
        y.supscript = true;
    } else if str_eq(n, "subscript") {
        y.subscript = true;
    }
    y
}

/// Apply a child tag of `<hh:charPr>` to a character shape.
#[verifier::rlimit(100)]
#[verifier::spinoff_prover]
fn char_shape_child_exec(x: CharShape, t: &XmlTag) -> (r: Result<CharShape, ParseFault>)
    ensures
        match char_shape_child(char_shape_v(x), *t) {
            Ok(v) => r matches Ok(y) && char_shape_v(y) == v,
            Err(f) => r matches Err(e) && e@ == f,
        },
{
    proof {
        reveal(char_shape_child);
    }
    let n = t.name.as_str();
    if str_eq(n, "fontRef") || str_eq(n, "ratio") || str_eq(n, "spacing") || str_eq(n, "relSz")
        || str_eq(n, "offset") {
        tuple_child_exec(x, t)
    } else if str_eq(n, "strikeout") {
        let b = styled_flag_exec(t, "shape")?;
        let mut y = x;
        y.strikeout = b;
        Ok(y)
    } else if str_eq(n, "outline") {
        let b = styled_flag_exec(t, "type")?;
        let mut y = x;
        y.outline = b;
        Ok(y)
    } else if str_eq(n, "shadow") {
        let b = styled_flag_exec(t, "type")?;
        let mut y = x;
        y.shadow = b;
        Ok(y)
    } else {
        Ok(flag_child_exec(x, n))
    }
}

/// `numeric_prefix` over characters from `start`.
fn numeric_prefix_len(v: &Vec<char>) -> (k: usize)
    ensures
        k <= v@.len(),
        numeric_prefix(v@) == v@.take(k as int),
        forall|j: int| 0 <= j < k ==> (is_digit(v@[j]) || v@[j] == '.' || v@[j] == '-'),
{
    let mut k: usize = 0;
    assert(v@.take(0) + v@.skip(0) =~= v@);
    assert(v@.take(0) =~= Seq::<char>::empty());
    assert(Seq::<char>::empty() + numeric_prefix(v@.skip(0)) =~= numeric_prefix(v@));
    while k < v.len() && (('0' <= v[k] && v[k] <= '9') || v[k] == '.' || v[k] == '-')
        invariant
            k <= v@.len(),
            forall|j: int| 0 <= j < k ==> (is_digit(v@[j]) || v@[j] == '.' || v@[j] == '-'),
            numeric_prefix(v@) == v@.take(k as int) + numeric_prefix(v@.skip(k as int)),
        decreases v.len() - k,
    {
        proof {
            let rest = v@.skip(k as int);
            assert(rest[0] == v@[k as int]);
            assert(rest.drop_first() =~= v@.skip(k + 1));
            assert(v@.take(k + 1) =~= v@.take(k as int) + seq![v@[k as int]]);
        }
        k = k + 1;
    }
    proof {
        let rest = v@.skip(k as int);
        if k < v@.len() {
            assert(rest[0] == v@[k as int]);
        }
        assert(numeric_prefix(rest) =~= Seq::<char>::empty());
        assert(v@.take(k as int) + Seq::<char>::empty() =~= v@.take(k as int));
    }
    k
}

/// The position of the first `.` in `v[start..k]`, or `k`.
fn scan_dot(v: &Vec<char>, start: usize, k: usize) -> (dot: usize)
    requires
        start <= k <= v@.len(),
    ensures
        start <= dot <= k,
        dot - start == dot_index(v@.subrange(start as int, k as int)),
        forall|m: int| start <= m < dot ==> v@[m] != '.',
        dot < k ==> v@[dot as int] == '.',
{
    let ghost d = v@.subrange(start as int, k as int);
    let mut dot: usize = start;
    assert(d.skip(0) =~= d);
    while dot < k && v[dot] != '.'
        invariant
            start <= dot <= k <= v@.len(),
            d == v@.subrange(start as int, k as int),
            forall|m: int| start <= m < dot ==> v@[m] != '.',
            dot_index(d) == (dot - start) + dot_index(d.skip(dot - start)),
        decreases k - dot,
    {
        proof {
            let r = d.skip(dot - start);
            assert(r[0] == v@[dot as int]);
            assert(r.drop_first() =~= d.skip(dot - start + 1));
        }
        dot = dot + 1;
    }
    proof {
        let r = d.skip(dot - start);
        if dot < k {
            assert(r[0] == v@[dot as int]);
        }
    }
    dot
}

/// Whether `v[start..k]`, whose first `.` is at `dot`, is a plain
/// decimal.
fn is_plain(v: &Vec<char>, start: usize, dot: usize, k: usize) -> (b: bool)
    requires
        start <= dot <= k <= v@.len(),
        forall|m: int| start <= m < dot ==> v@[m] != '.',
        dot < k ==> v@[dot as int] == '.',
    ensures
        b == plain_decimal(v@.subrange(start as int, k as int)),
{
    let ghost d = v@.subrange(start as int, k as int);
    let mut plain = true;
    let mut j: usize = start;
    while j < k
        invariant
            start <= dot <= k <= v@.len(),
            start <= j <= k,
            plain <==> (forall|m: int| start <= m < j ==> v@[m] != '-') && (forall|m: int|
                dot < m < j ==> v@[m] != '.'),
        decreases k - j,
    {
        if v[j] == '-' || (j > dot && v[j] == '.') {
            plain = false;
        }
        j = j + 1;
    }
    proof {
        if plain {
            assert forall|a: int, c: int| 0 <= a < c < d.len() implies !(d[a] == '.' && d[c] == '.') by {
                assert(d[a] == v@[start + a]);
                assert(d[c] == v@[start + c]);
            }
            assert forall|a: int| 0 <= a < d.len() implies d[a] != '-' by {
                assert(d[a] == v@[start + a]);
            }
        } else {
            if exists|m: int| start <= m < k && v@[m] == '-' {
                let m = choose|m: int| start <= m < k && v@[m] == '-';
                assert(d[m - start] == '-');
            } else {
                let m = choose|m: int| dot < m < k && v@[m] == '.';
                assert(d[m - start] == '.');
                assert(d[dot - start] == '.');
            }
        }
    }
    plain
}

/// The capped value of the digits `v[start..end]`.
fn capped_value(v: &Vec<char>, start: usize, end: usize) -> (r: u64)
    requires
        start <= end <= v@.len(),
        forall|m: int| start <= m < end ==> is_digit(v@[m]),
    ensures
        r == capped_digits(v@.subrange(start as int, end as int), 1_000_000_000_000),
        r <= 1_000_000_000_000,
{
    let cap_int: u64 = 1_000_000_000_000;
    let mut acc: u64 = 0;
    let mut q: usize = start;
    assert(v@.subrange(start as int, start as int) =~= Seq::<char>::empty());
    while q < end
        invariant
            start <= q <= end <= v@.len(),
            forall|m: int| start <= m < end ==> is_digit(v@[m]),
            acc <= cap_int,
            cap_int == 1_000_000_000_000,
            acc == capped_digits(v@.subrange(start as int, q as int), cap_int as nat),
        decreases end - q,
    {
        let c = v[q];
        let dv = (c as u32 - '0' as u32) as u64;
        let next = acc * 10 + dv;
        proof {
            let pre = v@.subrange(start as int, q + 1);
            assert(pre.drop_last() =~= v@.subrange(start as int, q as int));
            assert(pre.last() == c);
        }
        acc = if next > cap_int {
            cap_int
        } else {
            next
        };
        q = q + 1;
    }
    acc
}

/// The millionths of the fraction digits `v[start..end]`.
fn frac_millionths(v: &Vec<char>, start: usize, end: usize) -> (r: u64)
    requires
        start <= end <= v@.len(),
        forall|m: int| start <= m < end ==> is_digit(v@[m]),
    ensures
        r == millionths(v@.subrange(start as int, end as int)),
        r < 1_000_000,
{
    let ghost f = v@.subrange(start as int, end as int);
    let n = end - start;
    let mut r: u64 = 0;
    let mut j: usize = 0;
    while j < 6
        invariant
            j <= 6,
            n == f.len(),
            f == v@.subrange(start as int, end as int),
            start <= end <= v@.len(),
            forall|m: int| start <= m < end ==> is_digit(v@[m]),
            r == frac_places(f, j as nat),
            r < pow10(j as nat),
            pow10(j as nat) <= 100_000 * 10,
        decreases 6 - j,
    {
        proof {
            reveal_with_fuel(pow10, 7);
        }
        let d: u64 = if j < n {
            assert(f[j as int] == v@[start + j]);
            (v[start + j] as u32 - '0' as u32) as u64
        } else {
            0
        };
        assert(d < 10);
        r = r * 10 + d;
        j = j + 1;
    }
    proof {
        reveal_with_fuel(pow10, 7);
    }
    r
}

/// A width attribute in whole nanometres, as `width_nm_of` states.
pub fn parse_width_nm(s: &str) -> (r: i64)
    ensures
        r == width_nm_of(s@),
{
    let v = to_chars(trim_str(s));
    let k = numeric_prefix_len(&v);
    let neg = k > 0 && v[0] == '-';
    let start: usize = if neg {
        1
    } else {
        0
    };
    let ghost p = v@.take(k as int);
    let ghost d = v@.subrange(start as int, k as int);
    assert(d =~= (if neg { p.drop_first() } else { p }));
    let dot = scan_dot(&v, start, k);
    let plain = is_plain(&v, start, dot, k);
    let frac_start: usize = if dot < k {
        dot + 1
    } else {
        k
    };
    assert(d.take(dot - start) =~= v@.subrange(start as int, dot as int));
    assert((if dot - start < d.len() { d.skip(dot - start + 1) } else { Seq::<char>::empty() })
        =~= v@.subrange(frac_start as int, k as int));
    if !plain || (dot - start) + (k - frac_start) == 0 {
        return 0;
    }
    assert forall|m: int| start <= m < k && m != dot implies is_digit(v@[m]) by {
        assert(d[m - start] == v@[m]);
        assert(v@[m] != '-');
        if v@[m] == '.' {
            assert(m > dot);
            assert(d[dot - start] == '.');
            assert(dot - start < m - start);
        }
    }
    let iv = capped_value(&v, start, dot);
    let th = frac_millionths(&v, frac_start, k);
    let total = iv * 1_000_000 + th;
    let m: u64 = if total > 1_000_000_000_000_000_000 {
        1_000_000_000_000_000_000
    } else {
        total
    };
    if neg {
        0 - (m as i64)
    } else {
        m as i64
    }
}

/// A margin after one child tag.
fn margin_child_exec(m: Margin, t: &XmlTag) -> (r: Result<Margin, ParseFault>)
    ensures
        outcome(r) == margin_child(m, *t),
{
    let v = attr_i32(t, "value")?;
    let n = t.name.as_str();
    let mut out = m;
    if str_eq(n, "intent") || str_eq(n, "indent") {
        out.indent = v;
    } else if str_eq(n, "left") {
        out.left = v;
    } else if str_eq(n, "right") {
        out.right = v;
    } else if str_eq(n, "prev") {
        out.prev = v;
    } else if str_eq(n, "next") {
        out.next = v;
    }
    Ok(out)
}

/// The id and face name of a `<hh:font>` tag.
fn font_entry_exec(t: &XmlTag) -> (r: Result<(u32, String), ParseFault>)
    ensures
        match font_entry(*t) {
            Ok((id, name)) => r matches Ok((i2, n2)) && i2 == id && n2@ == name,
            Err(f) => r matches Err(e) && e@ == f,
        },
{
    let id = attr_u32(t, "id")?;
    let name = attr_string(t, "face")?;
    Ok((id, name))
}

/// The font table a `<hh:fontface>` start tag opens.
fn font_face_head_exec(t: &XmlTag) -> (r: Result<FontFace, ParseFault>)
    ensures
        match font_face_head(*t) {
            Ok(v) => r matches Ok(x) && font_face_v(x) == v,
            Err(f) => r matches Err(e) && e@ == f,
        },
{
    let lang = attr_string(t, "lang")?;
    let l = match FontLang::parse(lang.as_str()) {
        Some(l) => l,
        None => FontLang::Hangul,
    };
    let x = FontFace { lang: l, fonts: HashMap::new() };
    proof {
        lemma_empty_views();
    }
    Ok(x)
}

/// The brush a child tag of `<hc:fillBrush>` gives, if any.
fn brush_child_exec(t: &XmlTag) -> (r: Result<Option<CellFillBrush>, ParseFault>)
    ensures
        match brush_child(*t) {
            Ok(b) => r matches Ok(x) && brush_opt_v(x) == b,
            Err(f) => r matches Err(e) && e@ == f,
        },
{
    let n = t.name.as_str();
    if str_eq(n, "winBrush") {
        Ok(Some(solid_brush_exec(t)?))
    } else if str_eq(n, "gradation") {
        Ok(Some(gradation_exec(t)?))
    } else if str_eq(n, "imgBrush") {
        Ok(Some(image_brush_exec(t)?))
    } else {
        Ok(None)
    }
}

/// The rest of a `<hh:fontface>` whose start tag precedes event `pos`.
#[verifier::loop_isolation(false)]
fn parse_fontface_body(ev: &Vec<XmlEvent>, pos: usize, face: FontFace) -> (r: Result<(FontFace, usize), ParseFault>)
    requires
        pos <= ev@.len(),
    ensures
        match fontface_loop(ev@, pos as int, font_face_v(face)) {
            Ok((v, j)) => r matches Ok((x, k)) && font_face_v(x) == v && k == j,
            Err(f) => r matches Err(e) && e@ == f,
        },
        r matches Ok((_, k)) ==> pos < k <= ev@.len(),
{
    let mut face = face;
    let ghost start = font_face_v(face);
    let mut i: usize = pos;
    while i < ev.len()
        invariant
            pos <= i <= ev@.len(),
            fontface_loop(ev@, pos as int, start) == fontface_loop(ev@, i as int, font_face_v(face)),
        decreases ev.len() - i,
    {
        proof {
            lemma_fontface_loop_unfold(ev@, i as int, font_face_v(face));
        }
        match &ev[i] {
            XmlEvent::Start(t) => {
                if str_eq(t.name.as_str(), "font") {
                    let (id, name) = font_entry_exec(t)?;
                    let j = skip(ev, i + 1, t.qname.as_str())?;
                    proof {
                        lemma_fonts_v_insert(face.fonts@, id, name);
                    }
                    face.fonts.insert(id, name);
                    i = j;
                } else {
                    let j = skip(ev, i + 1, t.qname.as_str())?;
                    i = j;
                }
            },
            XmlEvent::Empty(t) => {
                if str_eq(t.name.as_str(), "font") {
                    let (id, name) = font_entry_exec(t)?;
                    proof {
                        lemma_fonts_v_insert(face.fonts@, id, name);
                    }
                    face.fonts.insert(id, name);
                }
                i = i + 1;
            },
            XmlEvent::End(_, n) => {
                if str_eq(n.as_str(), "fontface") {
                    return Ok((face, i + 1));
                }
                i = i + 1;
            },
            XmlEvent::Eof => {
                return Err(ParseFault::Document(String::from_str("unexpected EOF inside <fontface>")));
            },
            _ => {
                i = i + 1;
            },
        }
    }
    proof {
        lemma_fontface_loop_unfold(ev@, i as int, font_face_v(face));
    }
    Err(ParseFault::Truncated)
}

/// The font tables of a `<hh:fontfaces>` whose start tag precedes event
/// `pos`, appended to `faces`.
fn parse_fontfaces(ev: &Vec<XmlEvent>, pos: usize, faces: &mut Vec<FontFace>) -> (r: Result<usize, ParseFault>)
    requires
        pos <= ev@.len(),
    ensures
        match fontfaces_loop(ev@, pos as int, font_faces_v(old(faces)@)) {
            Ok((v, j)) => r matches Ok(k) && font_faces_v(final(faces)@) == v && k == j,
            Err(f) => r matches Err(e) && e@ == f,
        },
        r matches Ok(k) ==> pos < k <= ev@.len(),
{
    let ghost start = font_faces_v(faces@);
    let mut i: usize = pos;
    while i < ev.len()
        invariant
            pos <= i <= ev@.len(),
            start == font_faces_v(old(faces)@),
            fontfaces_loop(ev@, pos as int, start) == fontfaces_loop(ev@, i as int, font_faces_v(faces@)),
        decreases ev.len() - i,
    {
        proof {
            lemma_fontfaces_loop_unfold(ev@, i as int, font_faces_v(faces@));
        }
        match &ev[i] {
            XmlEvent::Start(t) => {
                if str_eq(t.name.as_str(), "fontface") {
                    let head = font_face_head_exec(t)?;
                    let (x, j) = parse_fontface_body(ev, i + 1, head)?;
                    proof {
                        lemma_font_faces_v_push(faces@, x);
                    }
                    faces.push(x);
                    i = j;
                } else {
                    let j = skip(ev, i + 1, t.qname.as_str())?;
                    i = j;
                }
            },
            XmlEvent::End(_, n) => {
                if str_eq(n.as_str(), "fontfaces") {
                    return Ok(i + 1);
                }
                i = i + 1;
            },
            XmlEvent::Eof => {
                return Err(ParseFault::Document(String::from_str("unexpected EOF inside <fontfaces>")));
            },
            _ => {
                i = i + 1;
            },
        }
    }
    proof {
        lemma_fontfaces_loop_unfold(ev@, i as int, font_faces_v(faces@));
    }
    Err(ParseFault::Truncated)
}

/// The binary reference of an `<hc:imgBrush>` whose start tag precedes
/// event `pos`.
fn scan_img_ref(ev: &Vec<XmlEvent>, pos: usize) -> (r: Result<(String, usize), ParseFault>)
    requires
        pos <= ev@.len(),
    ensures
        match img_ref_loop(ev@, pos as int, Seq::empty()) {
            Ok((v, j)) => r matches Ok((x, k)) && x@ == v && k == j,
            Err(f) => r matches Err(e) && e@ == f,
        },
        r matches Ok((_, k)) ==> pos < k <= ev@.len(),
{
    let mut out = String::new();
    let mut i: usize = pos;
    while i < ev.len()
        invariant
            pos <= i <= ev@.len(),
            img_ref_loop(ev@, pos as int, Seq::empty()) == img_ref_loop(ev@, i as int, out@),
        decreases ev.len() - i,
    {
        proof {
            lemma_img_ref_loop_unfold(ev@, i as int, out@);
        }
        match &ev[i] {
            XmlEvent::Start(t) => {
                if str_eq(t.name.as_str(), "img") && out.unicode_len() == 0 {
                    out = attr_string(t, "binaryItemIDRef")?;
                }
                let j = skip(ev, i + 1, t.qname.as_str())?;
                i = j;
            },
            XmlEvent::Empty(t) => {
                if str_eq(t.name.as_str(), "img") && out.unicode_len() == 0 {
                    out = attr_string(t, "binaryItemIDRef")?;
                }
                i = i + 1;
            },
            XmlEvent::End(_, n) => {
                if str_eq(n.as_str(), "imgBrush") {
                    return Ok((out, i + 1));
                }
                i = i + 1;
            },
            XmlEvent::Eof => {
                return Err(ParseFault::Document(String::from_str("unexpected EOF inside <imgBrush>")));
            },
            _ => {
                i = i + 1;
            },
        }
    }
    proof {
        lemma_img_ref_loop_unfold(ev@, i as int, out@);
    }
    Err(ParseFault::Truncated)
}

/// An image brush with its file set.
fn set_file(b: CellFillBrush, file: String) -> (r: CellFillBrush)
    ensures
        brush_v(r) == with_file(brush_v(b), file@),
{
    match b {
        CellFillBrush::Image { file: _, included, fill_type, fill_value, effect_type, effect_value, watermark } => CellFillBrush::Image {
            file,
            included,
            fill_type,
            fill_value,
            effect_type,
            effect_value,
            watermark,
        },
        other => other,
    }
}

/// The brush of a `<hc:fillBrush>` whose start tag precedes event `pos`.
fn parse_fill_brush(ev: &Vec<XmlEvent>, pos: usize) -> (r: Result<(Option<CellFillBrush>, usize), ParseFault>)
    requires
        pos <= ev@.len(),
    ensures
        match brush_loop(ev@, pos as int, None) {
            Ok((v, j)) => r matches Ok((x, k)) && brush_opt_v(x) == v && k == j,
            Err(f) => r matches Err(e) && e@ == f,
        },
        r matches Ok((_, k)) ==> pos < k <= ev@.len(),
{
    let mut out: Option<CellFillBrush> = None;
    let mut i: usize = pos;
    while i < ev.len()
        invariant
            pos <= i <= ev@.len(),
            brush_loop(ev@, pos as int, None) == brush_loop(ev@, i as int, brush_opt_v(out)),
        decreases ev.len() - i,
    {
        proof {
            lemma_brush_loop_unfold(ev@, i as int, brush_opt_v(out));
        }
        match &ev[i] {
            XmlEvent::Start(t) => {
                let b = brush_child_exec(t)?;
                if str_eq(t.name.as_str(), "imgBrush") {
                    let (file, j) = scan_img_ref(ev, i + 1)?;
                    match b {
                        Some(img) => {
                            out = Some(set_file(img, file));
                        },
                        None => {},
                    }
                    i = j;
                } else {
                    let j = skip(ev, i + 1, t.qname.as_str())?;
                    if b.is_some() {
                        out = b;
                    }
                    i = j;
                }
            },
            XmlEvent::Empty(t) => {
                let b = brush_child_exec(t)?;
                if b.is_some() {
                    out = b;
                }
                i = i + 1;
            },
            XmlEvent::End(_, n) => {
                if str_eq(n.as_str(), "fillBrush") {
                    return Ok((out, i + 1));
                }
                i = i + 1;
            },
            XmlEvent::Eof => {
                return Err(ParseFault::Document(String::from_str("unexpected EOF inside <fillBrush>")));
            },
            _ => {
                i = i + 1;
            },
        }
    }
    proof {
        lemma_brush_loop_unfold(ev@, i as int, brush_opt_v(out));
    }
    Err(ParseFault::Truncated)
}

/// A border fill with the edge named `n` set to `b`.
fn set_edge(x: BorderFill, n: &str, b: Border) -> (r: BorderFill)
    ensures
        border_fill_v(r) == with_edge(border_fill_v(x), n@, border_v(b)),
{
    let mut y = x;
    if str_eq(n, "leftBorder") {
        y.left = b;
    } else if str_eq(n, "rightBorder") {
        y.right = b;
    } else if str_eq(n, "topBorder") {
        y.top = b;
    } else if str_eq(n, "bottomBorder") {
        y.bottom = b;
    } else {
        y.diagonal = b;
    }
    y
}

/// Whether `n` names a border edge.
fn is_edge_exec(n: &str) -> (r: bool)
    ensures
        r == is_edge(n@),
{
    str_eq(n, "leftBorder") || str_eq(n, "rightBorder") || str_eq(n, "topBorder") || str_eq(n, "bottomBorder")
        || str_eq(n, "diagonal")
}

/// The rest of a `<hh:borderFill>` whose start tag precedes event `pos`.
#[verifier::loop_isolation(false)]
fn parse_border_fill_body(ev: &Vec<XmlEvent>, pos: usize, bf: BorderFill) -> (r: Result<(BorderFill, usize), ParseFault>)
    requires
        pos <= ev@.len(),
    ensures
        match border_fill_loop(ev@, pos as int, border_fill_v(bf)) {
            Ok((v, j)) => r matches Ok((x, k)) && border_fill_v(x) == v && k == j,
            Err(f) => r matches Err(e) && e@ == f,
        },
        r matches Ok((_, k)) ==> pos < k <= ev@.len(),
{
    let mut bf = bf;
    let ghost start = border_fill_v(bf);
    let mut i: usize = pos;
    while i < ev.len()
        invariant
            pos <= i <= ev@.len(),
            border_fill_loop(ev@, pos as int, start) == border_fill_loop(ev@, i as int, border_fill_v(bf)),
        decreases ev.len() - i,
    {
        proof {
            lemma_border_fill_loop_unfold(ev@, i as int, border_fill_v(bf));
        }
        match &ev[i] {
            XmlEvent::Empty(t) => {
                if is_edge_exec(t.name.as_str()) {
                    let b = border_exec(t)?;
                    bf = set_edge(bf, t.name.as_str(), b);
                } else if str_eq(t.name.as_str(), "fillBrush") {
                    bf.has_fill_brush = true;
                }
                i = i + 1;
            },
            XmlEvent::Start(t) => {
                if is_edge_exec(t.name.as_str()) {
                    let b = border_exec(t)?;
                    let j = skip(ev, i + 1, t.qname.as_str())?;
                    bf = set_edge(bf, t.name.as_str(), b);
                    i = j;
                } else if str_eq(t.name.as_str(), "fillBrush") {
                    let (b, j) = parse_fill_brush(ev, i + 1)?;
                    bf.has_fill_brush = true;
                    bf.fill_brush = b;
                    i = j;
                } else {
                    let j = skip(ev, i + 1, t.qname.as_str())?;
                    i = j;
                }
            },
            XmlEvent::End(_, n) => {
                if str_eq(n.as_str(), "borderFill") {
                    return Ok((bf, i + 1));
                }
                i = i + 1;
            },
            XmlEvent::Eof => {
                return Err(ParseFault::Document(String::from_str("unexpected EOF inside <borderFill>")));
            },
            _ => {
                i = i + 1;
            },
        }
    }
    proof {
        lemma_border_fill_loop_unfold(ev@, i as int, border_fill_v(bf));
    }
    Err(ParseFault::Truncated)
}

/// The border fills of a `<hh:borderFills>` whose start tag precedes
/// event `pos`, stored into `m` by id.
fn parse_border_fills(ev: &Vec<XmlEvent>, pos: usize, m: &mut HashMap<u32, BorderFill>) -> (r: Result<usize, ParseFault>)
    requires
        pos <= ev@.len(),
    ensures
        match border_fills_loop(ev@, pos as int, border_fills_v(old(m)@)) {
            Ok((v, j)) => r matches Ok(k) && border_fills_v(final(m)@) == v && k == j,
            Err(f) => r matches Err(e) && e@ == f,
        },
        r matches Ok(k) ==> pos < k <= ev@.len(),
{
    let ghost start = border_fills_v(m@);
    let mut i: usize = pos;
    while i < ev.len()
        invariant
            pos <= i <= ev@.len(),
            start == border_fills_v(old(m)@),
            border_fills_loop(ev@, pos as int, start) == border_fills_loop(ev@, i as int, border_fills_v(m@)),
        decreases ev.len() - i,
    {
        proof {
            lemma_border_fills_loop_unfold(ev@, i as int, border_fills_v(m@));
        }
        match &ev[i] {
            XmlEvent::Start(t) => {
                if str_eq(t.name.as_str(), "borderFill") {
                    let head = border_fill_head_exec(t)?;
                    let (x, j) = parse_border_fill_body(ev, i + 1, head)?;
                    proof {
                        lemma_border_fills_v_insert(m@, x.id, x);
                    }
                    m.insert(x.id, x);
                    i = j;
                } else {
                    let j = skip(ev, i + 1, t.qname.as_str())?;
                    i = j;
                }
            },
            XmlEvent::End(_, n) => {
                if str_eq(n.as_str(), "borderFills") {
                    return Ok(i + 1);
                }
                i = i + 1;
            },
            XmlEvent::Eof => {
                return Err(ParseFault::Document(String::from_str("unexpected EOF inside <borderFills>")));
            },
            _ => {
                i = i + 1;
            },
        }
    }
    proof {
        lemma_border_fills_loop_unfold(ev@, i as int, border_fills_v(m@));
    }
    Err(ParseFault::Truncated)
}

/// The rest of a `<hh:charPr>` whose start tag precedes event `pos`.
#[verifier::loop_isolation(false)]
fn parse_char_pr_body(ev: &Vec<XmlEvent>, pos: usize, cs: CharShape) -> (r: Result<(CharShape, usize), ParseFault>)
    requires
        pos <= ev@.len(),
    ensures
        match char_pr_loop(ev@, pos as int, char_shape_v(cs)) {
            Ok((v, j)) => r matches Ok((x, k)) && char_shape_v(x) == v && k == j,
            Err(f) => r matches Err(e) && e@ == f,
        },
        r matches Ok((_, k)) ==> pos < k <= ev@.len(),
{
    let mut cs = cs;
    let ghost start = char_shape_v(cs);
    let mut i: usize = pos;
    while i < ev.len()
        invariant
            pos <= i <= ev@.len(),
            char_pr_loop(ev@, pos as int, start) == char_pr_loop(ev@, i as int, char_shape_v(cs)),
        decreases ev.len() - i,
    {
        proof {
            lemma_char_pr_loop_unfold(ev@, i as int, char_shape_v(cs));
        }
        match &ev[i] {
            XmlEvent::Start(t) => {
                let y = char_shape_child_exec(cs, t)?;
                let j = skip(ev, i + 1, t.qname.as_str())?;
                cs = y;
                i = j;
            },
            XmlEvent::Empty(t) => {
                cs = char_shape_child_exec(cs, t)?;
                i = i + 1;
            },
            XmlEvent::End(_, n) => {
                if str_eq(n.as_str(), "charPr") {
                    return Ok((cs, i + 1));
                }
                i = i + 1;
            },
            XmlEvent::Eof => {
                return Err(ParseFault::Document(String::from_str("unexpected EOF inside <charPr>")));
            },
            _ => {
                i = i + 1;
            },
        }
    }
    proof {
        lemma_char_pr_loop_unfold(ev@, i as int, char_shape_v(cs));
    }
    Err(ParseFault::Truncated)
}

/// The character shapes of a `<hh:charProperties>` whose start tag
/// precedes event `pos`, stored into `m` by id.
fn parse_char_props(ev: &Vec<XmlEvent>, pos: usize, m: &mut HashMap<u32, CharShape>) -> (r: Result<usize, ParseFault>)
    requires
        pos <= ev@.len(),
    ensures
        match char_props_loop(ev@, pos as int, char_shapes_v(old(m)@)) {
            Ok((v, j)) => r matches Ok(k) && char_shapes_v(final(m)@) == v && k == j,
            Err(f) => r matches Err(e) && e@ == f,
        },
        r matches Ok(k) ==> pos < k <= ev@.len(),
{
    let ghost start = char_shapes_v(m@);
    let mut i: usize = pos;
    while i < ev.len()
        invariant
            pos <= i <= ev@.len(),
            start == char_shapes_v(old(m)@),
            char_props_loop(ev@, pos as int, start) == char_props_loop(ev@, i as int, char_shapes_v(m@)),
        decreases ev.len() - i,
    {
        proof {
            lemma_char_props_loop_unfold(ev@, i as int, char_shapes_v(m@));
        }
        match &ev[i] {
            XmlEvent::Start(t) => {
                if str_eq(t.name.as_str(), "charPr") {
                    let head = char_shape_head_exec(t)?;
                    let (x, j) = parse_char_pr_body(ev, i + 1, head)?;
                    proof {
                        lemma_char_shapes_v_insert(m@, x.id, x);
                    }
                    m.insert(x.id, x);
                    i = j;
                } else {
                    let j = skip(ev, i + 1, t.qname.as_str())?;
                    i = j;
                }
            },
            XmlEvent::End(_, n) => {
                if str_eq(n.as_str(), "charProperties") {
                    return Ok(i + 1);
                }
                i = i + 1;
            },
            XmlEvent::Eof => {
                return Err(ParseFault::Document(String::from_str("unexpected EOF inside <charProperties>")));
            },
            _ => {
                i = i + 1;
            },
        }
    }
    proof {
        lemma_char_props_loop_unfold(ev@, i as int, char_shapes_v(m@));
    }
    Err(ParseFault::Truncated)
}

/// The margin of a `<hh:margin>` whose start tag precedes event `pos`.
fn parse_margin_body(ev: &Vec<XmlEvent>, pos: usize) -> (r: Result<(Margin, usize), ParseFault>)
    requires
        pos <= ev@.len(),
    ensures
        match margin_loop(ev@, pos as int, zero_margin()) {
            Ok((v, j)) => r matches Ok((x, k)) && x == v && k == j,
            Err(f) => r matches Err(e) && e@ == f,
        },
        r matches Ok((_, k)) ==> pos < k <= ev@.len(),
{
    let mut m = Margin { indent: 0, left: 0, right: 0, prev: 0, next: 0 };
    let mut i: usize = pos;
    while i < ev.len()
        invariant
            pos <= i <= ev@.len(),
            margin_loop(ev@, pos as int, zero_margin()) == margin_loop(ev@, i as int, m),
        decreases ev.len() - i,
    {
        proof {
            lemma_margin_loop_unfold(ev@, i as int, m);
        }
        match &ev[i] {
            XmlEvent::Start(t) => {
                let m2 = margin_child_exec(m, t)?;
                let j = skip(ev, i + 1, t.qname.as_str())?;
                m = m2;
                i = j;
            },
            XmlEvent::Empty(t) => {
                m = margin_child_exec(m, t)?;
                i = i + 1;
            },
            XmlEvent::End(_, n) => {
                if str_eq(n.as_str(), "margin") {
                    return Ok((m, i + 1));
                }
                i = i + 1;
            },
            XmlEvent::Eof => {
                return Err(ParseFault::Document(String::from_str("unexpected EOF inside <margin>")));
            },
            _ => {
                i = i + 1;
            },
        }
    }
    proof {
        lemma_margin_loop_unfold(ev@, i as int, m);
    }
    Err(ParseFault::Truncated)
}

/// A copy of a line spacing.
fn copy_line_spacing(x: &LineSpacing) -> (r: LineSpacing)
    ensures
        line_spacing_v(r) == line_spacing_v(*x),
{
    LineSpacing { type_: x.type_, value: x.value, unit: x.unit.clone() }
}

/// The margin and line spacing after an `<hp:switch>` inside
/// `<hh:paraPr>` whose start tag precedes event `pos`.
fn parse_para_pr_switch(ev: &Vec<XmlEvent>, pos: usize, m: Margin, ls: LineSpacing) -> (r: Result<(Margin, LineSpacing, usize), ParseFault>)
    requires
        pos <= ev@.len(),
    ensures
        match switch_loop(ev@, pos as int, m, line_spacing_v(ls), false, false) {
            Ok((m2, ls2, j)) => r matches Ok((x, y, k)) && x == m2 && line_spacing_v(y) == ls2 && k == j,
            Err(f) => r matches Err(e) && e@ == f,
        },
        r matches Ok((_, _, k)) ==> pos < k <= ev@.len(),
{
    let mut cm = m;
    let mut cls = ls;
    let ghost start = line_spacing_v(cls);
    let mut got_m = false;
    let mut got_ls = false;
    let mut i: usize = pos;
    while i < ev.len()
        invariant
            pos <= i <= ev@.len(),
            start == line_spacing_v(ls),
            switch_loop(ev@, pos as int, m, start, false, false) == switch_loop(
                ev@,
                i as int,
                cm,
                line_spacing_v(cls),
                got_m,
                got_ls,
            ),
        decreases ev.len() - i,
    {
        proof {
            reveal_with_fuel(switch_loop, 1);
        }
        match &ev[i] {
            XmlEvent::Start(t) => {
                if str_eq(t.name.as_str(), "margin") {
                    if !got_m {
                        let (m2, j) = parse_margin_body(ev, i + 1)?;
                        cm = m2;
                        got_m = true;
                        i = j;
                    } else {
                        let j = skip(ev, i + 1, t.qname.as_str())?;
                        i = j;
                    }
                } else {
                    i = i + 1;
                }
            },
            XmlEvent::Empty(t) => {
                if str_eq(t.name.as_str(), "lineSpacing") && !got_ls {
                    cls = line_spacing_exec(t)?;
                    got_ls = true;
                }
                i = i + 1;
            },
            XmlEvent::End(_, n) => {
                if str_eq(n.as_str(), "switch") {
                    return Ok((cm, cls, i + 1));
                }
                i = i + 1;
            },
            XmlEvent::Eof => {
                return Err(ParseFault::Document(String::from_str("unexpected EOF inside <paraPr switch>")));
            },
            _ => {
                i = i + 1;
            },
        }
    }
    proof {
        reveal_with_fuel(switch_loop, 1);
    }
    Err(ParseFault::Truncated)
}

/// The rest of a `<hh:paraPr>` whose start tag precedes event `pos`.
/// Read an `<hp:switch>` whose start tag precedes event `pos` into a
/// paragraph shape.
fn apply_switch(ev: &Vec<XmlEvent>, pos: usize, x: ParaShape) -> (r: Result<(ParaShape, usize), ParseFault>)
    requires
        pos <= ev@.len(),
    ensures
        match switch_loop(ev@, pos as int, para_shape_v(x).margin, para_shape_v(x).line_spacing, false, false) {
            Ok((m, ls, j)) => r matches Ok((y, k)) && para_shape_v(y) == (ParaShapeV { margin: m, line_spacing: ls, ..para_shape_v(x) }) && k == j,
            Err(f) => r matches Err(e) && e@ == f,
        },
        r matches Ok((_, k)) ==> pos < k <= ev@.len(),
{
    let (m, ls, j) = parse_para_pr_switch(ev, pos, x.margin, copy_line_spacing(&x.line_spacing))?;
    let mut y = x;
    y.margin = m;
    y.line_spacing = ls;
    Ok((y, j))
}

/// Read a `<hh:margin>` whose start tag precedes event `pos` into a
/// paragraph shape.
fn apply_margin(ev: &Vec<XmlEvent>, pos: usize, x: ParaShape) -> (r: Result<(ParaShape, usize), ParseFault>)
    requires
        pos <= ev@.len(),
    ensures
        match margin_loop(ev@, pos as int, zero_margin()) {
            Ok((m, j)) => r matches Ok((y, k)) && para_shape_v(y) == (ParaShapeV { margin: m, ..para_shape_v(x) }) && k == j,
            Err(f) => r matches Err(e) && e@ == f,
        },
        r matches Ok((_, k)) ==> pos < k <= ev@.len(),
{
    let (m, j) = parse_margin_body(ev, pos)?;
    let mut y = x;
    y.margin = m;
    Ok((y, j))
}

/// Apply a child start tag at event `i` and skip its body.
fn apply_child_start(ev: &Vec<XmlEvent>, i: usize, t: &XmlTag, x: ParaShape) -> (r: Result<(ParaShape, usize), ParseFault>)
    requires
        i < ev@.len(),
    ensures
        match para_shape_child(para_shape_v(x), *t) {
            Err(f) => r matches Err(e) && e@ == f,
            Ok(v) => match skip_from(ev@, i + 1, t.qname@, 0) {
                Err(f) => r matches Err(e) && e@ == f,
                Ok(j) => r matches Ok((y, k)) && para_shape_v(y) == v && k == j,
            },
        },
        r matches Ok((_, k)) ==> i < k <= ev@.len(),
{
    let len = ev.len();
    assert(i + 1 <= len);
    let y = para_shape_child_exec(x, t)?;
    let j = skip(ev, i + 1, t.qname.as_str())?;
    Ok((y, j))
}

/// The event at `i` inside a `<hh:paraPr>`, as `para_pr_step` states.
fn para_pr_step_exec(ev: &Vec<XmlEvent>, i: usize, x: ParaShape) -> (r: Result<(ParaShape, usize), ParseFault>)
    requires
        i < ev@.len(),
    ensures
        match para_pr_step(ev@, i as int, para_shape_v(x)) {
            Ok((v, j)) => r matches Ok((y, k)) && para_shape_v(y) == v && k == j,
            Err(f) => r matches Err(e) && e@ == f,
        },
        r matches Ok((_, k)) ==> i < k <= ev@.len(),
{
    let len = ev.len();
    assert(i + 1 <= len);
    match &ev[i] {
        XmlEvent::Start(t) => {
            if str_eq(t.name.as_str(), "switch") {
                apply_switch(ev, i + 1, x)
            } else if str_eq(t.name.as_str(), "margin") {
                apply_margin(ev, i + 1, x)
            } else {
                apply_child_start(ev, i, t, x)
            }
        },
        XmlEvent::Empty(t) => {
            let y = para_shape_child_exec(x, t)?;
            Ok((y, i + 1))
        },
        _ => Ok((x, i + 1)),
    }
}

/// The rest of a `<hh:paraPr>` whose start tag precedes event `pos`.
fn parse_para_pr_body(ev: &Vec<XmlEvent>, pos: usize, ps0: ParaShape) -> (r: Result<(ParaShape, usize), ParseFault>)
    requires
        pos <= ev@.len(),
    ensures
        match para_pr_loop(ev@, pos as int, para_shape_v(ps0)) {
            Ok((v, j)) => r matches Ok((x, k)) && para_shape_v(x) == v && k == j,
            Err(f) => r matches Err(e) && e@ == f,
        },
        r matches Ok((_, k)) ==> pos < k <= ev@.len(),
{
    let mut ps = ps0;
    let mut i: usize = pos;
    while i < ev.len()
        invariant
            pos <= i <= ev@.len(),
            para_pr_loop(ev@, pos as int, para_shape_v(ps0)) == para_pr_loop(ev@, i as int, para_shape_v(ps)),
        decreases ev.len() - i,
    {
        proof {
            reveal_with_fuel(para_pr_loop, 1);
        }
        match &ev[i] {
            XmlEvent::Eof => {
                return Err(ParseFault::Document(String::from_str("unexpected EOF inside <paraPr>")));
            },
            XmlEvent::End(_, n) => {
                if str_eq(n.as_str(), "paraPr") {
                    return Ok((ps, i + 1));
                }
            },
            _ => {},
        }
        let (y, j) = para_pr_step_exec(ev, i, ps)?;
        ps = y;
        i = j;
    }
    proof {
        reveal_with_fuel(para_pr_loop, 1);
    }
    Err(ParseFault::Truncated)
}

/// The paragraph shapes of a `<hh:paraProperties>` whose start tag
/// precedes event `pos`, stored into `m` by id.
fn parse_para_props(ev: &Vec<XmlEvent>, pos: usize, m: &mut HashMap<u32, ParaShape>) -> (r: Result<usize, ParseFault>)
    requires
        pos <= ev@.len(),
    ensures
        match para_props_loop(ev@, pos as int, para_shapes_v(old(m)@)) {
            Ok((v, j)) => r matches Ok(k) && para_shapes_v(final(m)@) == v && k == j,
            Err(f) => r matches Err(e) && e@ == f,
        },
        r matches Ok(k) ==> pos < k <= ev@.len(),
{
    let ghost start = para_shapes_v(m@);
    let mut i: usize = pos;
    while i < ev.len()
        invariant
            pos <= i <= ev@.len(),
            start == para_shapes_v(old(m)@),
            para_props_loop(ev@, pos as int, start) == para_props_loop(ev@, i as int, para_shapes_v(m@)),
        decreases ev.len() - i,
    {
        proof {
            lemma_para_props_loop_unfold(ev@, i as int, para_shapes_v(m@));
        }
        match &ev[i] {
            XmlEvent::Start(t) => {
                if str_eq(t.name.as_str(), "paraPr") {
                    let head = para_shape_head_exec(t)?;
                    let (x, j) = parse_para_pr_body(ev, i + 1, head)?;
                    proof {
                        lemma_para_shapes_v_insert(m@, x.id, x);
                    }
                    m.insert(x.id, x);
                    i = j;
                } else {
                    let j = skip(ev, i + 1, t.qname.as_str())?;
                    i = j;
                }
            },
            XmlEvent::End(_, n) => {
                if str_eq(n.as_str(), "paraProperties") {
                    return Ok(i + 1);
                }
                i = i + 1;
            },
            XmlEvent::Eof => {
                return Err(ParseFault::Document(String::from_str("unexpected EOF inside <paraProperties>")));
            },
            _ => {
                i = i + 1;
            },
        }
    }
    proof {
        lemma_para_props_loop_unfold(ev@, i as int, para_shapes_v(m@));
    }
    Err(ParseFault::Truncated)
}

/// The styles of a `<hh:styles>` whose start tag precedes event `pos`,
/// stored into `m` by id.
fn parse_styles(ev: &Vec<XmlEvent>, pos: usize, m: &mut HashMap<u32, Style>) -> (r: Result<usize, ParseFault>)
    requires
        pos <= ev@.len(),
    ensures
        match styles_loop(ev@, pos as int, styles_v(old(m)@)) {
            Ok((v, j)) => r matches Ok(k) && styles_v(final(m)@) == v && k == j,
            Err(f) => r matches Err(e) && e@ == f,
        },
        r matches Ok(k) ==> pos < k <= ev@.len(),
{
    let ghost start = styles_v(m@);
    let mut i: usize = pos;
    while i < ev.len()
        invariant
            pos <= i <= ev@.len(),
            start == styles_v(old(m)@),
            styles_loop(ev@, pos as int, start) == styles_loop(ev@, i as int, styles_v(m@)),
        decreases ev.len() - i,
    {
        proof {
            lemma_styles_loop_unfold(ev@, i as int, styles_v(m@));
        }
        match &ev[i] {
            XmlEvent::Start(t) => {
                if str_eq(t.name.as_str(), "style") {
                    let x = style_exec(t)?;
                    let j = skip(ev, i + 1, t.qname.as_str())?;
                    proof {
                        lemma_styles_v_insert(m@, x.id, x);
                    }
                    m.insert(x.id, x);
                    i = j;
                } else {
                    let j = skip(ev, i + 1, t.qname.as_str())?;
                    i = j;
                }
            },
            XmlEvent::Empty(t) => {
                if str_eq(t.name.as_str(), "style") {
                    let x = style_exec(t)?;
                    proof {
                        lemma_styles_v_insert(m@, x.id, x);
                    }
                    m.insert(x.id, x);
                }
                i = i + 1;
            },
            XmlEvent::End(_, n) => {
                if str_eq(n.as_str(), "styles") {
                    return Ok(i + 1);
                }
                i = i + 1;
            },
            XmlEvent::Eof => {
                return Err(ParseFault::Document(String::from_str("unexpected EOF inside <styles>")));
            },
            _ => {
                i = i + 1;
            },
        }
    }
    proof {
        lemma_styles_loop_unfold(ev@, i as int, styles_v(m@));
    }
    Err(ParseFault::Truncated)
}

/// The bullets of a `<hh:bullets>` whose start tag precedes event `pos`,
/// stored into `m` by id.
fn parse_bullets(ev: &Vec<XmlEvent>, pos: usize, m: &mut HashMap<u32, Bullet>) -> (r: Result<usize, ParseFault>)
    requires
        pos <= ev@.len(),
    ensures
        match bullets_loop(ev@, pos as int, bullets_v(old(m)@)) {
            Ok((v, j)) => r matches Ok(k) && bullets_v(final(m)@) == v && k == j,
            Err(f) => r matches Err(e) && e@ == f,
        },
        r matches Ok(k) ==> pos < k <= ev@.len(),
{
    let ghost start = bullets_v(m@);
    let mut i: usize = pos;
    while i < ev.len()
        invariant
            pos <= i <= ev@.len(),
            start == bullets_v(old(m)@),
            bullets_loop(ev@, pos as int, start) == bullets_loop(ev@, i as int, bullets_v(m@)),
        decreases ev.len() - i,
    {
        proof {
            lemma_bullets_loop_unfold(ev@, i as int, bullets_v(m@));
        }
        match &ev[i] {
            XmlEvent::Start(t) => {
                if str_eq(t.name.as_str(), "bullet") {
                    let x = bullet_exec(t)?;
                    let j = skip(ev, i + 1, t.qname.as_str())?;
                    proof {
                        lemma_bullets_v_insert(m@, x.id, x);
                    }
                    m.insert(x.id, x);
                    i = j;
                } else {
                    let j = skip(ev, i + 1, t.qname.as_str())?;
                    i = j;
                }
            },
            XmlEvent::Empty(t) => {
                if str_eq(t.name.as_str(), "bullet") {
                    let x = bullet_exec(t)?;
                    proof {
                        lemma_bullets_v_insert(m@, x.id, x);
                    }
                    m.insert(x.id, x);
                }
                i = i + 1;
            },
            XmlEvent::End(_, n) => {
                if str_eq(n.as_str(), "bullets") {
                    return Ok(i + 1);
                }
                i = i + 1;
            },
            XmlEvent::Eof => {
                return Err(ParseFault::Document(String::from_str("unexpected EOF inside <bullets>")));
            },
            _ => {
                i = i + 1;
            },
        }
    }
    proof {
        lemma_bullets_loop_unfold(ev@, i as int, bullets_v(m@));
    }
    Err(ParseFault::Truncated)
}

/// The text of an element named `end` whose start tag precedes event
/// `pos`.
fn read_text_until_end(ev: &Vec<XmlEvent>, pos: usize, end: &str) -> (r: Result<(String, usize), ParseFault>)
    requires
        pos <= ev@.len(),
    ensures
        match text_loop(ev@, pos as int, end@, Seq::empty()) {
            Ok((v, j)) => r matches Ok((x, k)) && x@ == v && k == j,
            Err(f) => r matches Err(e) && e@ == f,
        },
        r matches Ok((_, k)) ==> pos < k <= ev@.len(),
{
    let mut out = String::new();
    let mut i: usize = pos;
    while i < ev.len()
        invariant
            pos <= i <= ev@.len(),
            text_loop(ev@, pos as int, end@, Seq::empty()) == text_loop(ev@, i as int, end@, out@),
        decreases ev.len() - i,
    {
        proof {
            lemma_text_loop_unfold(ev@, i as int, end@, out@);
        }
        match &ev[i] {
            XmlEvent::Text(s) => {
                out.append(s.as_str());
                i = i + 1;
            },
            XmlEvent::GeneralRef(n) => {
                let ghost before = out@;
                out.append("&");
                out.append(n.as_str());
                out.append(";");
                assert(out@ =~= before + "&"@ + n@ + ";"@);
                i = i + 1;
            },
            XmlEvent::End(_, n) => {
                if str_eq(n.as_str(), end) {
                    return Ok((out, i + 1));
                }
                i = i + 1;
            },
            XmlEvent::Start(t) => {
                let j = skip(ev, i + 1, t.qname.as_str())?;
                i = j;
            },
            XmlEvent::Eof => {
                let mut msg = String::from_str("unexpected EOF inside <");
                msg.append(end);
                msg.append(">");
                return Err(ParseFault::Document(msg));
            },
            _ => {
                i = i + 1;
            },
        }
    }
    proof {
        lemma_text_loop_unfold(ev@, i as int, end@, out@);
    }
    Err(ParseFault::Truncated)
}

/// The rest of a `<hh:numbering>` whose start tag precedes event `pos`.
#[verifier::loop_isolation(false)]
fn parse_numbering_body(ev: &Vec<XmlEvent>, pos: usize, n: Numbering) -> (r: Result<(Numbering, usize), ParseFault>)
    requires
        pos <= ev@.len(),
    ensures
        match numbering_loop(ev@, pos as int, numbering_v(n)) {
            Ok((v, j)) => r matches Ok((x, k)) && numbering_v(x) == v && k == j,
            Err(f) => r matches Err(e) && e@ == f,
        },
        r matches Ok((_, k)) ==> pos < k <= ev@.len(),
{
    let mut n = n;
    let ghost start = numbering_v(n);
    let mut i: usize = pos;
    while i < ev.len()
        invariant
            pos <= i <= ev@.len(),
            numbering_loop(ev@, pos as int, start) == numbering_loop(ev@, i as int, numbering_v(n)),
        decreases ev.len() - i,
    {
        proof {
            lemma_numbering_loop_unfold(ev@, i as int, numbering_v(n));
        }
        match &ev[i] {
            XmlEvent::Start(t) => {
                if str_eq(t.name.as_str(), "paraHead") {
                    let head = para_head_exec(t)?;
                    let (text, j) = read_text_until_end(ev, i + 1, "paraHead")?;
                    let mut h = head;
                    h.num_format_text = text;
                    proof {
                        lemma_para_heads_v_push(n.para_heads@, h);
                    }
                    n.para_heads.push(h);
                    i = j;
                } else {
                    let j = skip(ev, i + 1, t.qname.as_str())?;
                    i = j;
                }
            },
            XmlEvent::Empty(t) => {
                if str_eq(t.name.as_str(), "paraHead") {
                    let h = para_head_exec(t)?;
                    proof {
                        lemma_para_heads_v_push(n.para_heads@, h);
                    }
                    n.para_heads.push(h);
                }
                i = i + 1;
            },
            XmlEvent::End(_, nm) => {
                if str_eq(nm.as_str(), "numbering") {
                    return Ok((n, i + 1));
                }
                i = i + 1;
            },
            XmlEvent::Eof => {
                return Err(ParseFault::Document(String::from_str("unexpected EOF inside <numbering>")));
            },
            _ => {
                i = i + 1;
            },
        }
    }
    proof {
        lemma_numbering_loop_unfold(ev@, i as int, numbering_v(n));
    }
    Err(ParseFault::Truncated)
}

/// The numberings of a `<hh:numberings>` whose start tag precedes event
/// `pos`, stored into `m` by id.
fn parse_numberings(ev: &Vec<XmlEvent>, pos: usize, m: &mut HashMap<u32, Numbering>) -> (r: Result<usize, ParseFault>)
    requires
        pos <= ev@.len(),
    ensures
        match numberings_loop(ev@, pos as int, numberings_v(old(m)@)) {
            Ok((v, j)) => r matches Ok(k) && numberings_v(final(m)@) == v && k == j,
            Err(f) => r matches Err(e) && e@ == f,
        },
        r matches Ok(k) ==> pos < k <= ev@.len(),
{
    let ghost start = numberings_v(m@);
    let mut i: usize = pos;
    while i < ev.len()
        invariant
            pos <= i <= ev@.len(),
            start == numberings_v(old(m)@),
            numberings_loop(ev@, pos as int, start) == numberings_loop(ev@, i as int, numberings_v(m@)),
        decreases ev.len() - i,
    {
        proof {
            lemma_numberings_loop_unfold(ev@, i as int, numberings_v(m@));
        }
        match &ev[i] {
            XmlEvent::Start(t) => {
                if str_eq(t.name.as_str(), "numbering") {
                    let head = numbering_head_exec(t)?;
                    let (x, j) = parse_numbering_body(ev, i + 1, head)?;
                    proof {
                        lemma_numberings_v_insert(m@, x.id, x);
                    }
                    m.insert(x.id, x);
                    i = j;
                } else {
                    let j = skip(ev, i + 1, t.qname.as_str())?;
                    i = j;
                }
            },
            XmlEvent::End(_, n) => {
                if str_eq(n.as_str(), "numberings") {
                    return Ok(i + 1);
                }
                i = i + 1;
            },
            XmlEvent::Eof => {
                return Err(ParseFault::Document(String::from_str("unexpected EOF inside <numberings>")));
            },
            _ => {
                i = i + 1;
            },
        }
    }
    proof {
        lemma_numberings_loop_unfold(ev@, i as int, numberings_v(m@));
    }
    Err(ParseFault::Truncated)
}

/// Walk the header events from `pos`, filling `tables`.
fn header_walk(ev: &Vec<XmlEvent>, tables: &mut HeaderTables) -> (r: Result<(), ParseFault>)
    ensures
        match header_loop(ev@, 0, header_v(*old(tables))) {
            Ok(v) => r is Ok && header_v(*final(tables)) == v,
            Err(f) => r matches Err(e) && e@ == f,
        },
{
    let ghost start = header_v(*tables);
    let mut i: usize = 0;
    while i < ev.len()
        invariant
            i <= ev@.len(),
            start == header_v(*old(tables)),
            header_loop(ev@, 0, start) == header_loop(ev@, i as int, header_v(*tables)),
        decreases ev.len() - i,
    {
        proof {
            lemma_header_loop_unfold(ev@, i as int, header_v(*tables));
        }
        match &ev[i] {
            XmlEvent::Start(t) => {
                let n = t.name.as_str();
                if str_eq(n, "fontfaces") {
                    let j = parse_fontfaces(ev, i + 1, &mut tables.font_faces)?;
                    i = j;
                } else if str_eq(n, "borderFills") {
                    let j = parse_border_fills(ev, i + 1, &mut tables.border_fills)?;
                    i = j;
                } else if str_eq(n, "charProperties") {
                    let j = parse_char_props(ev, i + 1, &mut tables.char_shapes)?;
                    i = j;
                } else if str_eq(n, "paraProperties") {
                    let j = parse_para_props(ev, i + 1, &mut tables.para_shapes)?;
                    i = j;
                } else if str_eq(n, "styles") {
                    let j = parse_styles(ev, i + 1, &mut tables.styles)?;
                    i = j;
                } else if str_eq(n, "bullets") {
                    let j = parse_bullets(ev, i + 1, &mut tables.bullets)?;
                    i = j;
                } else if str_eq(n, "numberings") {
                    let j = parse_numberings(ev, i + 1, &mut tables.numberings)?;
                    i = j;
                } else {
                    i = i + 1;
                }
            },
            XmlEvent::Eof => {
                return Ok(());
            },
            _ => {
                i = i + 1;
            },
        }
    }
    proof {
        lemma_header_loop_unfold(ev@, i as int, header_v(*tables));
    }
    Err(ParseFault::Truncated)
}

/// The header tables described by a tokenized `header.xml`.
pub fn header_from_stream(stream: XmlStream) -> (r: DvcResult<HeaderTables>)
    ensures
        match header_of(stream.events@) {
            Ok(v) => r matches Ok(h) && header_v(h) == v,
            Err(f) => r matches Err(e) && fault_error_matches(f, stream.fault, e),
        },
        r matches Ok(h) ==> header_wf(h),
{
    proof {
        law_header_records_keyed_by_id(stream.events@);
    }
    let XmlStream { events, fault } = stream;
    let mut tables = HeaderTables::new();
    proof {
        lemma_empty_views();
        assert(header_v(tables) == empty_header());
    }
    match header_walk(&events, &mut tables) {
        Ok(()) => {
            proof {
                lemma_header_wf_from_view(tables);
            }
            Ok(tables)
        },
        Err(f) => Err(fault_error(f, fault)),
    }
}

/// Whether `r` is what reading the header from events `ev`, which the
/// tokenizer ended with error `fault` (if any), gives.
pub open spec fn header_outcome(ev: Seq<XmlEvent>, fault: Option<quick_xml::Error>, r: DvcResult<HeaderTables>) -> bool {
    match header_of(ev) {
        Ok(v) => r matches Ok(h) && header_v(h) == v,
        Err(f) => r matches Err(e) && fault_error_matches(f, fault, e),
    }
}

/// Whether `r` is what reading the header from `bytes` gives: the
/// reading of events whose view is what the tokenizer, trimming text,
/// gives for the bytes, with a tokenizer error exactly when it stops on
/// one.
pub open spec fn header_reading(bytes: Seq<u8>, r: DvcResult<HeaderTables>) -> bool {
    exists|ev: Seq<XmlEvent>, fault: Option<quick_xml::Error>|
        events_v(ev) == xml_events(bytes, true) && (fault is Some <==> xml_faults(bytes, true))
            && #[trigger] header_outcome(ev, fault, r)
}

/// Parse `Contents/header.xml`: tokenize it, trimming text, and read
/// the tables from the events.
pub fn parse_header(bytes: &[u8]) -> (r: DvcResult<HeaderTables>)
    ensures
        header_reading(bytes@, r),
        r matches Ok(h) ==> header_wf(h),
{
    let stream = tokenize(bytes, true);
    let ghost ev = stream.events@;
    let ghost fault = stream.fault;
    let r = header_from_stream(stream);
    assert(header_outcome(ev, fault, r));
    r
}

} // verus!
