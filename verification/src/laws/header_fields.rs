//! How the header parser reads a record's start tag: it succeeds exactly
//! when every attribute it reads is well formed, and each field comes
//! from the attribute of its own name.

use vstd::prelude::*;
use crate::document::header::parser::{
    align_child, auto_spacing_child, break_child, heading_child, line_spacing_child, margin_child, para_border_child,
    para_shape_child,
    border_fill_head, border_of, bullet_of, char_shape_head, line_spacing_of, numbering_head, para_head_of,
    para_shape_head, style_of, width_nm_of,
};
use crate::document::header::types::{Margin, h_align_of, heading_type_of, line_break_word_of, line_spacing_type_of, line_type_of, v_align_of};
use crate::document::header::view::ParaShapeV;
use crate::text::trim;
use crate::xml::{attr_bool_of, attr_i32_of, attr_string_of, attr_u32_of, FaultView, XmlTag};

verus! {

/// Reading the attributes of a record's tag (`char_shape_head`): it succeeds exactly when every attribute it
/// reads is well formed, and each field is read from the attribute of
/// its own name.
pub proof fn law_char_shape_head_fields(t: XmlTag)
    ensures
        char_shape_head(t) is Ok <==> (attr_u32_of(t.attrs@, "id"@) is Ok && attr_u32_of(t.attrs@, "height"@) is Ok && attr_string_of(t.attrs@, "textColor"@) is Ok && attr_string_of(t.attrs@, "shadeColor"@) is Ok && attr_bool_of(t.attrs@, "useFontSpace"@) is Ok && attr_bool_of(t.attrs@, "useKerning"@) is Ok && attr_string_of(t.attrs@, "symMark"@) is Ok && attr_u32_of(t.attrs@, "borderFillIDRef"@) is Ok),
        char_shape_head(t) matches Ok(x) ==> (attr_u32_of(t.attrs@, "id"@) == Ok::<_, FaultView>(x.id)
            && attr_u32_of(t.attrs@, "height"@) == Ok::<_, FaultView>(x.height)
            && attr_string_of(t.attrs@, "textColor"@) == Ok::<_, FaultView>(x.text_color)
            && attr_string_of(t.attrs@, "shadeColor"@) == Ok::<_, FaultView>(x.shade_color)
            && attr_bool_of(t.attrs@, "useFontSpace"@) == Ok::<_, FaultView>(x.use_font_space)
            && attr_bool_of(t.attrs@, "useKerning"@) == Ok::<_, FaultView>(x.use_kerning)
            && attr_string_of(t.attrs@, "symMark"@) == Ok::<_, FaultView>(x.sym_mark)
            && attr_u32_of(t.attrs@, "borderFillIDRef"@) == Ok::<_, FaultView>(x.border_fill_id_ref)),
{
}

/// Reading the attributes of a record's tag (`para_shape_head`): it succeeds exactly when every attribute it
/// reads is well formed, and each field is read from the attribute of
/// its own name.
pub proof fn law_para_shape_head_fields(t: XmlTag)
    ensures
        para_shape_head(t) is Ok <==> (attr_u32_of(t.attrs@, "id"@) is Ok && attr_u32_of(t.attrs@, "tabPrIDRef"@) is Ok && attr_u32_of(t.attrs@, "condense"@) is Ok && attr_bool_of(t.attrs@, "fontLineHeight"@) is Ok && attr_bool_of(t.attrs@, "snapToGrid"@) is Ok && attr_bool_of(t.attrs@, "suppressLineNumbers"@) is Ok && attr_bool_of(t.attrs@, "checked"@) is Ok),
        para_shape_head(t) matches Ok(x) ==> (attr_u32_of(t.attrs@, "id"@) == Ok::<_, FaultView>(x.id)
            && attr_u32_of(t.attrs@, "tabPrIDRef"@) == Ok::<_, FaultView>(x.tab_pr_id_ref)
            && attr_u32_of(t.attrs@, "condense"@) == Ok::<_, FaultView>(x.condense)
            && attr_bool_of(t.attrs@, "fontLineHeight"@) == Ok::<_, FaultView>(x.font_line_height)
            && attr_bool_of(t.attrs@, "snapToGrid"@) == Ok::<_, FaultView>(x.snap_to_grid)
            && attr_bool_of(t.attrs@, "suppressLineNumbers"@) == Ok::<_, FaultView>(x.suppress_line_numbers)
            && attr_bool_of(t.attrs@, "checked"@) == Ok::<_, FaultView>(x.checked)),
{
}

/// Reading the attributes of a record's tag (`border_fill_head`): it succeeds exactly when every attribute it
/// reads is well formed, and each field is read from the attribute of
/// its own name.
pub proof fn law_border_fill_head_fields(t: XmlTag)
    ensures
        border_fill_head(t) is Ok <==> (attr_u32_of(t.attrs@, "id"@) is Ok && attr_bool_of(t.attrs@, "threeD"@) is Ok && attr_bool_of(t.attrs@, "shadow"@) is Ok && attr_string_of(t.attrs@, "centerLine"@) is Ok && attr_bool_of(t.attrs@, "breakCellSeparateLine"@) is Ok),
        border_fill_head(t) matches Ok(x) ==> (attr_u32_of(t.attrs@, "id"@) == Ok::<_, FaultView>(x.id)
            && attr_bool_of(t.attrs@, "threeD"@) == Ok::<_, FaultView>(x.three_d)
            && attr_bool_of(t.attrs@, "shadow"@) == Ok::<_, FaultView>(x.shadow)
            && attr_string_of(t.attrs@, "centerLine"@) == Ok::<_, FaultView>(x.center_line)
            && attr_bool_of(t.attrs@, "breakCellSeparateLine"@) == Ok::<_, FaultView>(x.break_cell_separate_line)),
{
}

/// Reading the attributes of a record's tag (`style_of`): it succeeds exactly when every attribute it
/// reads is well formed, and each field is read from the attribute of
/// its own name.
pub proof fn law_style_of_fields(t: XmlTag)
    ensures
        style_of(t) is Ok <==> (attr_u32_of(t.attrs@, "id"@) is Ok && attr_string_of(t.attrs@, "type"@) is Ok && attr_string_of(t.attrs@, "name"@) is Ok && attr_string_of(t.attrs@, "engName"@) is Ok && attr_u32_of(t.attrs@, "paraPrIDRef"@) is Ok && attr_u32_of(t.attrs@, "charPrIDRef"@) is Ok && attr_u32_of(t.attrs@, "nextStyleIDRef"@) is Ok && attr_u32_of(t.attrs@, "langID"@) is Ok && attr_bool_of(t.attrs@, "lockForm"@) is Ok),
        style_of(t) matches Ok(x) ==> (attr_u32_of(t.attrs@, "id"@) == Ok::<_, FaultView>(x.id)
            && attr_string_of(t.attrs@, "type"@) == Ok::<_, FaultView>(x.style_type)
            && attr_string_of(t.attrs@, "name"@) == Ok::<_, FaultView>(x.name)
            && attr_string_of(t.attrs@, "engName"@) == Ok::<_, FaultView>(x.eng_name)
            && attr_u32_of(t.attrs@, "paraPrIDRef"@) == Ok::<_, FaultView>(x.para_pr_id_ref)
            && attr_u32_of(t.attrs@, "charPrIDRef"@) == Ok::<_, FaultView>(x.char_pr_id_ref)
            && attr_u32_of(t.attrs@, "nextStyleIDRef"@) == Ok::<_, FaultView>(x.next_style_id_ref)
            && attr_u32_of(t.attrs@, "langID"@) == Ok::<_, FaultView>(x.lang_id)
            && attr_bool_of(t.attrs@, "lockForm"@) == Ok::<_, FaultView>(x.lock_form)),
{
}

/// Reading the attributes of a record's tag (`bullet_of`): it succeeds exactly when every attribute it
/// reads is well formed, and each field is read from the attribute of
/// its own name.
pub proof fn law_bullet_of_fields(t: XmlTag)
    ensures
        bullet_of(t) is Ok <==> (attr_u32_of(t.attrs@, "id"@) is Ok && attr_string_of(t.attrs@, "char"@) is Ok && attr_bool_of(t.attrs@, "useImage"@) is Ok),
        bullet_of(t) matches Ok(x) ==> (attr_u32_of(t.attrs@, "id"@) == Ok::<_, FaultView>(x.id)
            && attr_string_of(t.attrs@, "char"@) == Ok::<_, FaultView>(x.char)
            && attr_bool_of(t.attrs@, "useImage"@) == Ok::<_, FaultView>(x.use_image)),
{
}

/// Reading the attributes of a record's tag (`numbering_head`): it succeeds exactly when every attribute it
/// reads is well formed, and each field is read from the attribute of
/// its own name.
pub proof fn law_numbering_head_fields(t: XmlTag)
    ensures
        numbering_head(t) is Ok <==> (attr_u32_of(t.attrs@, "id"@) is Ok && attr_u32_of(t.attrs@, "start"@) is Ok),
        numbering_head(t) matches Ok(x) ==> (attr_u32_of(t.attrs@, "id"@) == Ok::<_, FaultView>(x.id)
            && attr_u32_of(t.attrs@, "start"@) == Ok::<_, FaultView>(x.start)),
{
}

/// Reading the attributes of a record's tag (`para_head_of`): it succeeds exactly when every attribute it
/// reads is well formed, and each field is read from the attribute of
/// its own name.
pub proof fn law_para_head_of_fields(t: XmlTag)
    ensures
        para_head_of(t) is Ok <==> (attr_u32_of(t.attrs@, "start"@) is Ok && attr_u32_of(t.attrs@, "level"@) is Ok && attr_string_of(t.attrs@, "align"@) is Ok && attr_bool_of(t.attrs@, "useInstWidth"@) is Ok && attr_bool_of(t.attrs@, "autoIndent"@) is Ok && attr_bool_of(t.attrs@, "widthAdjust"@) is Ok && attr_string_of(t.attrs@, "textOffsetType"@) is Ok && attr_u32_of(t.attrs@, "textOffset"@) is Ok && attr_string_of(t.attrs@, "numFormat"@) is Ok && attr_u32_of(t.attrs@, "charPrIDRef"@) is Ok && attr_bool_of(t.attrs@, "checkable"@) is Ok),
        para_head_of(t) matches Ok(x) ==> (attr_u32_of(t.attrs@, "start"@) == Ok::<_, FaultView>(x.start)
            && attr_u32_of(t.attrs@, "level"@) == Ok::<_, FaultView>(x.level)
            && attr_string_of(t.attrs@, "align"@) == Ok::<_, FaultView>(x.align)
            && attr_bool_of(t.attrs@, "useInstWidth"@) == Ok::<_, FaultView>(x.use_inst_width)
            && attr_bool_of(t.attrs@, "autoIndent"@) == Ok::<_, FaultView>(x.auto_indent)
            && attr_bool_of(t.attrs@, "widthAdjust"@) == Ok::<_, FaultView>(x.width_adjust)
            && attr_string_of(t.attrs@, "textOffsetType"@) == Ok::<_, FaultView>(x.text_offset_type)
            && attr_u32_of(t.attrs@, "textOffset"@) == Ok::<_, FaultView>(x.text_offset)
            && attr_string_of(t.attrs@, "numFormat"@) == Ok::<_, FaultView>(x.num_format)
            && attr_u32_of(t.attrs@, "charPrIDRef"@) == Ok::<_, FaultView>(x.char_pr_id_ref)
            && attr_bool_of(t.attrs@, "checkable"@) == Ok::<_, FaultView>(x.checkable)),
{
}

/// Reading the attributes of a record's tag (`border_of`): it succeeds exactly when every attribute it
/// reads is well formed, and each field is read from the attribute of
/// its own name.
pub proof fn law_border_of_fields(t: XmlTag)
    ensures
        border_of(t) is Ok <==> (attr_string_of(t.attrs@, "type"@) is Ok && attr_string_of(t.attrs@, "width"@) is Ok && attr_string_of(t.attrs@, "color"@) is Ok),
        border_of(t) matches Ok(x) ==> ((attr_string_of(t.attrs@, "type"@) matches Ok(v) && x.line_type == line_type_of(trim(v)))
            && (attr_string_of(t.attrs@, "width"@) matches Ok(v) && x.width_nm == width_nm_of(v))
            && attr_string_of(t.attrs@, "color"@) == Ok::<_, FaultView>(x.color)),
{
}

/// Reading the attributes of a record's tag (`line_spacing_of`): it succeeds exactly when every attribute it
/// reads is well formed, and each field is read from the attribute of
/// its own name.
pub proof fn law_line_spacing_of_fields(t: XmlTag)
    ensures
        line_spacing_of(t) is Ok <==> (attr_string_of(t.attrs@, "type"@) is Ok && attr_i32_of(t.attrs@, "value"@) is Ok && attr_string_of(t.attrs@, "unit"@) is Ok),
        line_spacing_of(t) matches Ok(x) ==> ((attr_string_of(t.attrs@, "type"@) matches Ok(v) && x.type_ == line_spacing_type_of(trim(v)))
            && attr_i32_of(t.attrs@, "value"@) == Ok::<_, FaultView>(x.value)
            && attr_string_of(t.attrs@, "unit"@) == Ok::<_, FaultView>(x.unit)),
{
}

/// Reading a `align_child` child: it succeeds exactly when every attribute it
/// reads is well formed; each field it sets comes from the attribute of
/// its own name, and every other field stays as it was.
pub proof fn law_align_child_fields(x: ParaShapeV, t: XmlTag)
    ensures
        align_child(x, t) is Ok <==> (attr_string_of(t.attrs@, "horizontal"@) is Ok && attr_string_of(t.attrs@, "vertical"@) is Ok),
        align_child(x, t) matches Ok(y) ==> ((attr_string_of(t.attrs@, "horizontal"@) matches Ok(v) && y.h_align == h_align_of(trim(v)))
            && (attr_string_of(t.attrs@, "vertical"@) matches Ok(v) && y.v_align == v_align_of(trim(v)))
            && y == (ParaShapeV { h_align: y.h_align, v_align: y.v_align, ..x })),
{
}

/// Reading a `heading_child` child: it succeeds exactly when every attribute it
/// reads is well formed; each field it sets comes from the attribute of
/// its own name, and every other field stays as it was.
pub proof fn law_heading_child_fields(x: ParaShapeV, t: XmlTag)
    ensures
        heading_child(x, t) is Ok <==> (attr_string_of(t.attrs@, "type"@) is Ok && attr_u32_of(t.attrs@, "idRef"@) is Ok && attr_u32_of(t.attrs@, "level"@) is Ok),
        heading_child(x, t) matches Ok(y) ==> ((attr_string_of(t.attrs@, "type"@) matches Ok(v) && y.heading_type == heading_type_of(trim(v)))
            && attr_u32_of(t.attrs@, "idRef"@) == Ok::<_, FaultView>(y.heading_id_ref)
            && attr_u32_of(t.attrs@, "level"@) == Ok::<_, FaultView>(y.heading_level)
            && y == (ParaShapeV { heading_type: y.heading_type, heading_id_ref: y.heading_id_ref, heading_level: y.heading_level, ..x })),
{
}

/// Reading a `break_child` child: it succeeds exactly when every attribute it
/// reads is well formed; each field it sets comes from the attribute of
/// its own name, and every other field stays as it was.
pub proof fn law_break_child_fields(x: ParaShapeV, t: XmlTag)
    ensures
        break_child(x, t) is Ok <==> (attr_string_of(t.attrs@, "breakLatinWord"@) is Ok && attr_string_of(t.attrs@, "breakNonLatinWord"@) is Ok && attr_bool_of(t.attrs@, "widowOrphan"@) is Ok && attr_bool_of(t.attrs@, "keepWithNext"@) is Ok && attr_bool_of(t.attrs@, "keepLines"@) is Ok && attr_bool_of(t.attrs@, "pageBreakBefore"@) is Ok && attr_string_of(t.attrs@, "lineWrap"@) is Ok),
        break_child(x, t) matches Ok(y) ==> ((attr_string_of(t.attrs@, "breakLatinWord"@) matches Ok(v) && y.break_latin_word == line_break_word_of(trim(v)))
            && (attr_string_of(t.attrs@, "breakNonLatinWord"@) matches Ok(v) && y.break_non_latin_word == line_break_word_of(trim(v)))
            && attr_bool_of(t.attrs@, "widowOrphan"@) == Ok::<_, FaultView>(y.widow_orphan)
            && attr_bool_of(t.attrs@, "keepWithNext"@) == Ok::<_, FaultView>(y.keep_with_next)
            && attr_bool_of(t.attrs@, "keepLines"@) == Ok::<_, FaultView>(y.keep_lines)
            && attr_bool_of(t.attrs@, "pageBreakBefore"@) == Ok::<_, FaultView>(y.page_break_before)
            && (attr_string_of(t.attrs@, "lineWrap"@) matches Ok(v) && y.line_wrap == (v == "BREAK"@))
            && y == (ParaShapeV { break_latin_word: y.break_latin_word, break_non_latin_word: y.break_non_latin_word, widow_orphan: y.widow_orphan, keep_with_next: y.keep_with_next, keep_lines: y.keep_lines, page_break_before: y.page_break_before, line_wrap: y.line_wrap, ..x })),
{
}

/// Reading a `auto_spacing_child` child: it succeeds exactly when every attribute it
/// reads is well formed; each field it sets comes from the attribute of
/// its own name, and every other field stays as it was.
pub proof fn law_auto_spacing_child_fields(x: ParaShapeV, t: XmlTag)
    ensures
        auto_spacing_child(x, t) is Ok <==> (attr_bool_of(t.attrs@, "eAsianEng"@) is Ok && attr_bool_of(t.attrs@, "eAsianNum"@) is Ok),
        auto_spacing_child(x, t) matches Ok(y) ==> (attr_bool_of(t.attrs@, "eAsianEng"@) == Ok::<_, FaultView>(y.auto_spacing_eng)
            && attr_bool_of(t.attrs@, "eAsianNum"@) == Ok::<_, FaultView>(y.auto_spacing_num)
            && y == (ParaShapeV { auto_spacing_eng: y.auto_spacing_eng, auto_spacing_num: y.auto_spacing_num, ..x })),
{
}

/// Reading a `para_border_child` child: it succeeds exactly when every attribute it
/// reads is well formed; each field it sets comes from the attribute of
/// its own name, and every other field stays as it was.
pub proof fn law_para_border_child_fields(x: ParaShapeV, t: XmlTag)
    ensures
        para_border_child(x, t) is Ok <==> (attr_u32_of(t.attrs@, "borderFillIDRef"@) is Ok && attr_i32_of(t.attrs@, "offsetLeft"@) is Ok && attr_i32_of(t.attrs@, "offsetRight"@) is Ok && attr_i32_of(t.attrs@, "offsetTop"@) is Ok && attr_i32_of(t.attrs@, "offsetBottom"@) is Ok && attr_bool_of(t.attrs@, "connect"@) is Ok && attr_bool_of(t.attrs@, "ignoreMargin"@) is Ok),
        para_border_child(x, t) matches Ok(y) ==> (attr_u32_of(t.attrs@, "borderFillIDRef"@) == Ok::<_, FaultView>(y.border_fill_id_ref)
            && attr_i32_of(t.attrs@, "offsetLeft"@) == Ok::<_, FaultView>(y.border_offset_left)
            && attr_i32_of(t.attrs@, "offsetRight"@) == Ok::<_, FaultView>(y.border_offset_right)
            && attr_i32_of(t.attrs@, "offsetTop"@) == Ok::<_, FaultView>(y.border_offset_top)
            && attr_i32_of(t.attrs@, "offsetBottom"@) == Ok::<_, FaultView>(y.border_offset_bottom)
            && attr_bool_of(t.attrs@, "connect"@) == Ok::<_, FaultView>(y.connect)
            && attr_bool_of(t.attrs@, "ignoreMargin"@) == Ok::<_, FaultView>(y.ignore_margin)
            && y == (ParaShapeV { border_fill_id_ref: y.border_fill_id_ref, border_offset_left: y.border_offset_left, border_offset_right: y.border_offset_right, border_offset_top: y.border_offset_top, border_offset_bottom: y.border_offset_bottom, connect: y.connect, ignore_margin: y.ignore_margin, ..x })),
{
}

proof fn lemma_para_child_names_differ()
    ensures
        "align"@ != "heading"@,
        "align"@ != "breakSetting"@,
        "align"@ != "autoSpacing"@,
        "align"@ != "lineSpacing"@,
        "align"@ != "border"@,
        "heading"@ != "breakSetting"@,
        "heading"@ != "autoSpacing"@,
        "heading"@ != "lineSpacing"@,
        "heading"@ != "border"@,
        "breakSetting"@ != "autoSpacing"@,
        "breakSetting"@ != "lineSpacing"@,
        "breakSetting"@ != "border"@,
        "autoSpacing"@ != "lineSpacing"@,
        "autoSpacing"@ != "border"@,
        "lineSpacing"@ != "border"@,
{
    reveal_strlit("align");
    reveal_strlit("heading");
    reveal_strlit("breakSetting");
    reveal_strlit("autoSpacing");
    reveal_strlit("lineSpacing");
    reveal_strlit("border");
    assert("align"@ != "heading"@) by { if "align"@ == "heading"@ { assert("align"@.len() == "heading"@.len()); } }
    assert("align"@ != "breakSetting"@) by { if "align"@ == "breakSetting"@ { assert("align"@.len() == "breakSetting"@.len()); } }
    assert("align"@ != "autoSpacing"@) by { if "align"@ == "autoSpacing"@ { assert("align"@.len() == "autoSpacing"@.len()); } }
    assert("align"@ != "lineSpacing"@) by { if "align"@ == "lineSpacing"@ { assert("align"@.len() == "lineSpacing"@.len()); } }
    assert("align"@ != "border"@) by { if "align"@ == "border"@ { assert("align"@.len() == "border"@.len()); } }
    assert("heading"@ != "breakSetting"@) by { if "heading"@ == "breakSetting"@ { assert("heading"@.len() == "breakSetting"@.len()); } }
    assert("heading"@ != "autoSpacing"@) by { if "heading"@ == "autoSpacing"@ { assert("heading"@.len() == "autoSpacing"@.len()); } }
    assert("heading"@ != "lineSpacing"@) by { if "heading"@ == "lineSpacing"@ { assert("heading"@.len() == "lineSpacing"@.len()); } }
    assert("heading"@ != "border"@) by { if "heading"@ == "border"@ { assert("heading"@.len() == "border"@.len()); } }
    assert("breakSetting"@ != "autoSpacing"@) by { if "breakSetting"@ == "autoSpacing"@ { assert("breakSetting"@.len() == "autoSpacing"@.len()); } }
    assert("breakSetting"@ != "lineSpacing"@) by { if "breakSetting"@ == "lineSpacing"@ { assert("breakSetting"@.len() == "lineSpacing"@.len()); } }
    assert("breakSetting"@ != "border"@) by { if "breakSetting"@ == "border"@ { assert("breakSetting"@.len() == "border"@.len()); } }
    assert("autoSpacing"@ != "lineSpacing"@) by { if "autoSpacing"@ == "lineSpacing"@ { assert("autoSpacing"@[0] == "lineSpacing"@[0]); } }
    assert("autoSpacing"@ != "border"@) by { if "autoSpacing"@ == "border"@ { assert("autoSpacing"@.len() == "border"@.len()); } }
    assert("lineSpacing"@ != "border"@) by { if "lineSpacing"@ == "border"@ { assert("lineSpacing"@.len() == "border"@.len()); } }
}

proof fn lemma_margin_names_differ()
    ensures
        "intent"@ != "indent"@,
        "intent"@ != "left"@,
        "intent"@ != "right"@,
        "intent"@ != "prev"@,
        "intent"@ != "next"@,
        "indent"@ != "left"@,
        "indent"@ != "right"@,
        "indent"@ != "prev"@,
        "indent"@ != "next"@,
        "left"@ != "right"@,
        "left"@ != "prev"@,
        "left"@ != "next"@,
        "right"@ != "prev"@,
        "right"@ != "next"@,
        "prev"@ != "next"@,
{
    reveal_strlit("intent");
    reveal_strlit("indent");
    reveal_strlit("left");
    reveal_strlit("right");
    reveal_strlit("prev");
    reveal_strlit("next");
    assert("intent"@ != "indent"@) by { if "intent"@ == "indent"@ { assert("intent"@[2] == "indent"@[2]); } }
    assert("intent"@ != "left"@) by { if "intent"@ == "left"@ { assert("intent"@.len() == "left"@.len()); } }
    assert("intent"@ != "right"@) by { if "intent"@ == "right"@ { assert("intent"@.len() == "right"@.len()); } }
    assert("intent"@ != "prev"@) by { if "intent"@ == "prev"@ { assert("intent"@.len() == "prev"@.len()); } }
    assert("intent"@ != "next"@) by { if "intent"@ == "next"@ { assert("intent"@.len() == "next"@.len()); } }
    assert("indent"@ != "left"@) by { if "indent"@ == "left"@ { assert("indent"@.len() == "left"@.len()); } }
    assert("indent"@ != "right"@) by { if "indent"@ == "right"@ { assert("indent"@.len() == "right"@.len()); } }
    assert("indent"@ != "prev"@) by { if "indent"@ == "prev"@ { assert("indent"@.len() == "prev"@.len()); } }
    assert("indent"@ != "next"@) by { if "indent"@ == "next"@ { assert("indent"@.len() == "next"@.len()); } }
    assert("left"@ != "right"@) by { if "left"@ == "right"@ { assert("left"@.len() == "right"@.len()); } }
    assert("left"@ != "prev"@) by { if "left"@ == "prev"@ { assert("left"@[0] == "prev"@[0]); } }
    assert("left"@ != "next"@) by { if "left"@ == "next"@ { assert("left"@[0] == "next"@[0]); } }
    assert("right"@ != "prev"@) by { if "right"@ == "prev"@ { assert("right"@.len() == "prev"@.len()); } }
    assert("right"@ != "next"@) by { if "right"@ == "next"@ { assert("right"@.len() == "next"@.len()); } }
    assert("prev"@ != "next"@) by { if "prev"@ == "next"@ { assert("prev"@[0] == "next"@[0]); } }
}

/// Reading a child of a `<hh:paraPr>`: `align`, `heading`,
/// `breakSetting`, `autoSpacing`, `lineSpacing` and `border` are read by
/// their own readers, and any other child leaves the shape as it was.
pub proof fn law_para_shape_child_dispatch(x: ParaShapeV, t: XmlTag)
    ensures
        t.name@ == "align"@ ==> para_shape_child(x, t) == align_child(x, t),
        t.name@ == "heading"@ ==> para_shape_child(x, t) == heading_child(x, t),
        t.name@ == "breakSetting"@ ==> para_shape_child(x, t) == break_child(x, t),
        t.name@ == "autoSpacing"@ ==> para_shape_child(x, t) == auto_spacing_child(x, t),
        t.name@ == "lineSpacing"@ ==> para_shape_child(x, t) == line_spacing_child(x, t),
        t.name@ == "border"@ ==> para_shape_child(x, t) == para_border_child(x, t),
        !(t.name@ == "align"@ || t.name@ == "heading"@ || t.name@ == "breakSetting"@ || t.name@ == "autoSpacing"@
            || t.name@ == "lineSpacing"@ || t.name@ == "border"@) ==> para_shape_child(x, t) == Ok::<ParaShapeV, FaultView>(x),
{
    reveal(para_shape_child);
    lemma_para_child_names_differ();
}

/// Reading a child of a `<hh:margin>`: it needs a well-formed `value`;
/// `intent` (or `indent`), `left`, `right`, `prev` and `next` set their
/// own side to it, and any other child leaves the margin as it was.
pub proof fn law_margin_child(m: Margin, t: XmlTag)
    ensures
        margin_child(m, t) is Ok <==> attr_i32_of(t.attrs@, "value"@) is Ok,
        margin_child(m, t) matches Ok(m2) ==> (attr_i32_of(t.attrs@, "value"@) matches Ok(v) && m2 == if t.name@ == "intent"@
            || t.name@ == "indent"@ {
            Margin { indent: v, ..m }
        } else if t.name@ == "left"@ {
            Margin { left: v, ..m }
        } else if t.name@ == "right"@ {
            Margin { right: v, ..m }
        } else if t.name@ == "prev"@ {
            Margin { prev: v, ..m }
        } else if t.name@ == "next"@ {
            Margin { next: v, ..m }
        } else {
            m
        }),
{
    lemma_margin_names_differ();
}

} // verus!
