//! How the flag children of a `<hh:charPr>` set a character shape's
//! flags: `<hh:bold/>` makes the shape bold, and so on; no child clears a
//! flag, and a shape without the child keeps the flag it started with.

use vstd::prelude::*;
use crate::document::header::parser::{char_pr_loop, char_shape_child, lang_tuple_i32_of, lang_tuple_u32_of};
use crate::document::header::view::CharShapeV;
use crate::xml::{attr_i32_of, attr_string_of, attr_u32_of, FaultView, XmlEvent, XmlTag};

verus! {

/// Whether `n` names a flag child: `bold`, `italic`, `underline`,
/// `emboss`, `engrave`, `supscript` or `subscript`.
pub open spec fn is_flag_name(n: Seq<char>) -> bool {
    n == "bold"@ || n == "italic"@ || n == "underline"@ || n == "emboss"@ || n == "engrave"@ || n == "supscript"@
        || n == "subscript"@
}

/// The flag of `x` that the child named `n` sets.
pub open spec fn flag_named(x: CharShapeV, n: Seq<char>) -> bool {
    if n == "bold"@ {
        x.bold
    } else if n == "italic"@ {
        x.italic
    } else if n == "underline"@ {
        x.underline
    } else if n == "emboss"@ {
        x.emboss
    } else if n == "engrave"@ {
        x.engrave
    } else if n == "supscript"@ {
        x.supscript
    } else {
        x.subscript
    }
}

/// Whether event `e` is a start or empty tag named `n`.
pub open spec fn is_tag_named(e: XmlEvent, n: Seq<char>) -> bool {
    match e {
        XmlEvent::Start(t) => t.name@ == n,
        XmlEvent::Empty(t) => t.name@ == n,
        _ => false,
    }
}

/// The child names of a `<hh:charPr>` differ from each other.
pub proof fn lemma_all_child_names_differ()
    ensures
        "bold"@ != "italic"@,
        "bold"@ != "underline"@,
        "bold"@ != "emboss"@,
        "bold"@ != "engrave"@,
        "bold"@ != "supscript"@,
        "bold"@ != "subscript"@,
        "bold"@ != "strikeout"@,
        "bold"@ != "outline"@,
        "bold"@ != "shadow"@,
        "bold"@ != "fontRef"@,
        "bold"@ != "ratio"@,
        "bold"@ != "spacing"@,
        "bold"@ != "relSz"@,
        "bold"@ != "offset"@,
        "italic"@ != "underline"@,
        "italic"@ != "emboss"@,
        "italic"@ != "engrave"@,
        "italic"@ != "supscript"@,
        "italic"@ != "subscript"@,
        "italic"@ != "strikeout"@,
        "italic"@ != "outline"@,
        "italic"@ != "shadow"@,
        "italic"@ != "fontRef"@,
        "italic"@ != "ratio"@,
        "italic"@ != "spacing"@,
        "italic"@ != "relSz"@,
        "italic"@ != "offset"@,
        "underline"@ != "emboss"@,
        "underline"@ != "engrave"@,
        "underline"@ != "supscript"@,
        "underline"@ != "subscript"@,
        "underline"@ != "strikeout"@,
        "underline"@ != "outline"@,
        "underline"@ != "shadow"@,
        "underline"@ != "fontRef"@,
        "underline"@ != "ratio"@,
        "underline"@ != "spacing"@,
        "underline"@ != "relSz"@,
        "underline"@ != "offset"@,
        "emboss"@ != "engrave"@,
        "emboss"@ != "supscript"@,
        "emboss"@ != "subscript"@,
        "emboss"@ != "strikeout"@,
        "emboss"@ != "outline"@,
        "emboss"@ != "shadow"@,
        "emboss"@ != "fontRef"@,
        "emboss"@ != "ratio"@,
        "emboss"@ != "spacing"@,
        "emboss"@ != "relSz"@,
        "emboss"@ != "offset"@,
        "engrave"@ != "supscript"@,
        "engrave"@ != "subscript"@,
        "engrave"@ != "strikeout"@,
        "engrave"@ != "outline"@,
        "engrave"@ != "shadow"@,
        "engrave"@ != "fontRef"@,
        "engrave"@ != "ratio"@,
        "engrave"@ != "spacing"@,
        "engrave"@ != "relSz"@,
        "engrave"@ != "offset"@,
        "supscript"@ != "subscript"@,
        "supscript"@ != "strikeout"@,
        "supscript"@ != "outline"@,
        "supscript"@ != "shadow"@,
        "supscript"@ != "fontRef"@,
        "supscript"@ != "ratio"@,
        "supscript"@ != "spacing"@,
        "supscript"@ != "relSz"@,
        "supscript"@ != "offset"@,
        "subscript"@ != "strikeout"@,
        "subscript"@ != "outline"@,
        "subscript"@ != "shadow"@,
        "subscript"@ != "fontRef"@,
        "subscript"@ != "ratio"@,
        "subscript"@ != "spacing"@,
        "subscript"@ != "relSz"@,
        "subscript"@ != "offset"@,
        "strikeout"@ != "outline"@,
        "strikeout"@ != "shadow"@,
        "strikeout"@ != "fontRef"@,
        "strikeout"@ != "ratio"@,
        "strikeout"@ != "spacing"@,
        "strikeout"@ != "relSz"@,
        "strikeout"@ != "offset"@,
        "outline"@ != "shadow"@,
        "outline"@ != "fontRef"@,
        "outline"@ != "ratio"@,
        "outline"@ != "spacing"@,
        "outline"@ != "relSz"@,
        "outline"@ != "offset"@,
        "shadow"@ != "fontRef"@,
        "shadow"@ != "ratio"@,
        "shadow"@ != "spacing"@,
        "shadow"@ != "relSz"@,
        "shadow"@ != "offset"@,
        "fontRef"@ != "ratio"@,
        "fontRef"@ != "spacing"@,
        "fontRef"@ != "relSz"@,
        "fontRef"@ != "offset"@,
        "ratio"@ != "spacing"@,
        "ratio"@ != "relSz"@,
        "ratio"@ != "offset"@,
        "spacing"@ != "relSz"@,
        "spacing"@ != "offset"@,
        "relSz"@ != "offset"@,
{
    reveal_strlit("bold");
    reveal_strlit("italic");
    reveal_strlit("underline");
    reveal_strlit("emboss");
    reveal_strlit("engrave");
    reveal_strlit("supscript");
    reveal_strlit("subscript");
    reveal_strlit("strikeout");
    reveal_strlit("outline");
    reveal_strlit("shadow");
    reveal_strlit("fontRef");
    reveal_strlit("ratio");
    reveal_strlit("spacing");
    reveal_strlit("relSz");
    reveal_strlit("offset");
    assert("bold"@ != "italic"@) by { if "bold"@ == "italic"@ { assert("bold"@.len() == "italic"@.len()); } }
    assert("bold"@ != "underline"@) by { if "bold"@ == "underline"@ { assert("bold"@.len() == "underline"@.len()); } }
    assert("bold"@ != "emboss"@) by { if "bold"@ == "emboss"@ { assert("bold"@.len() == "emboss"@.len()); } }
    assert("bold"@ != "engrave"@) by { if "bold"@ == "engrave"@ { assert("bold"@.len() == "engrave"@.len()); } }
    assert("bold"@ != "supscript"@) by { if "bold"@ == "supscript"@ { assert("bold"@.len() == "supscript"@.len()); } }
    assert("bold"@ != "subscript"@) by { if "bold"@ == "subscript"@ { assert("bold"@.len() == "subscript"@.len()); } }
    assert("bold"@ != "strikeout"@) by { if "bold"@ == "strikeout"@ { assert("bold"@.len() == "strikeout"@.len()); } }
    assert("bold"@ != "outline"@) by { if "bold"@ == "outline"@ { assert("bold"@.len() == "outline"@.len()); } }
    assert("bold"@ != "shadow"@) by { if "bold"@ == "shadow"@ { assert("bold"@.len() == "shadow"@.len()); } }
    assert("bold"@ != "fontRef"@) by { if "bold"@ == "fontRef"@ { assert("bold"@.len() == "fontRef"@.len()); } }
    assert("bold"@ != "ratio"@) by { if "bold"@ == "ratio"@ { assert("bold"@.len() == "ratio"@.len()); } }
    assert("bold"@ != "spacing"@) by { if "bold"@ == "spacing"@ { assert("bold"@.len() == "spacing"@.len()); } }
    assert("bold"@ != "relSz"@) by { if "bold"@ == "relSz"@ { assert("bold"@.len() == "relSz"@.len()); } }
    assert("bold"@ != "offset"@) by { if "bold"@ == "offset"@ { assert("bold"@.len() == "offset"@.len()); } }
    assert("italic"@ != "underline"@) by { if "italic"@ == "underline"@ { assert("italic"@.len() == "underline"@.len()); } }
    assert("italic"@ != "emboss"@) by { if "italic"@ == "emboss"@ { assert("italic"@[0] == "emboss"@[0]); } }
    assert("italic"@ != "engrave"@) by { if "italic"@ == "engrave"@ { assert("italic"@.len() == "engrave"@.len()); } }
    assert("italic"@ != "supscript"@) by { if "italic"@ == "supscript"@ { assert("italic"@.len() == "supscript"@.len()); } }
    assert("italic"@ != "subscript"@) by { if "italic"@ == "subscript"@ { assert("italic"@.len() == "subscript"@.len()); } }
    assert("italic"@ != "strikeout"@) by { if "italic"@ == "strikeout"@ { assert("italic"@.len() == "strikeout"@.len()); } }
    assert("italic"@ != "outline"@) by { if "italic"@ == "outline"@ { assert("italic"@.len() == "outline"@.len()); } }
    assert("italic"@ != "shadow"@) by { if "italic"@ == "shadow"@ { assert("italic"@[0] == "shadow"@[0]); } }
    assert("italic"@ != "fontRef"@) by { if "italic"@ == "fontRef"@ { assert("italic"@.len() == "fontRef"@.len()); } }
    assert("italic"@ != "ratio"@) by { if "italic"@ == "ratio"@ { assert("italic"@.len() == "ratio"@.len()); } }
    assert("italic"@ != "spacing"@) by { if "italic"@ == "spacing"@ { assert("italic"@.len() == "spacing"@.len()); } }
    assert("italic"@ != "relSz"@) by { if "italic"@ == "relSz"@ { assert("italic"@.len() == "relSz"@.len()); } }
    assert("italic"@ != "offset"@) by { if "italic"@ == "offset"@ { assert("italic"@[0] == "offset"@[0]); } }
    assert("underline"@ != "emboss"@) by { if "underline"@ == "emboss"@ { assert("underline"@.len() == "emboss"@.len()); } }
    assert("underline"@ != "engrave"@) by { if "underline"@ == "engrave"@ { assert("underline"@.len() == "engrave"@.len()); } }
    assert("underline"@ != "supscript"@) by { if "underline"@ == "supscript"@ { assert("underline"@[0] == "supscript"@[0]); } }
    assert("underline"@ != "subscript"@) by { if "underline"@ == "subscript"@ { assert("underline"@[0] == "subscript"@[0]); } }
    assert("underline"@ != "strikeout"@) by { if "underline"@ == "strikeout"@ { assert("underline"@[0] == "strikeout"@[0]); } }
    assert("underline"@ != "outline"@) by { if "underline"@ == "outline"@ { assert("underline"@.len() == "outline"@.len()); } }
    assert("underline"@ != "shadow"@) by { if "underline"@ == "shadow"@ { assert("underline"@.len() == "shadow"@.len()); } }
    assert("underline"@ != "fontRef"@) by { if "underline"@ == "fontRef"@ { assert("underline"@.len() == "fontRef"@.len()); } }
    assert("underline"@ != "ratio"@) by { if "underline"@ == "ratio"@ { assert("underline"@.len() == "ratio"@.len()); } }
    assert("underline"@ != "spacing"@) by { if "underline"@ == "spacing"@ { assert("underline"@.len() == "spacing"@.len()); } }
    assert("underline"@ != "relSz"@) by { if "underline"@ == "relSz"@ { assert("underline"@.len() == "relSz"@.len()); } }
    assert("underline"@ != "offset"@) by { if "underline"@ == "offset"@ { assert("underline"@.len() == "offset"@.len()); } }
    assert("emboss"@ != "engrave"@) by { if "emboss"@ == "engrave"@ { assert("emboss"@.len() == "engrave"@.len()); } }
    assert("emboss"@ != "supscript"@) by { if "emboss"@ == "supscript"@ { assert("emboss"@.len() == "supscript"@.len()); } }
    assert("emboss"@ != "subscript"@) by { if "emboss"@ == "subscript"@ { assert("emboss"@.len() == "subscript"@.len()); } }
    assert("emboss"@ != "strikeout"@) by { if "emboss"@ == "strikeout"@ { assert("emboss"@.len() == "strikeout"@.len()); } }
    assert("emboss"@ != "outline"@) by { if "emboss"@ == "outline"@ { assert("emboss"@.len() == "outline"@.len()); } }
    assert("emboss"@ != "shadow"@) by { if "emboss"@ == "shadow"@ { assert("emboss"@[0] == "shadow"@[0]); } }
    assert("emboss"@ != "fontRef"@) by { if "emboss"@ == "fontRef"@ { assert("emboss"@.len() == "fontRef"@.len()); } }
    assert("emboss"@ != "ratio"@) by { if "emboss"@ == "ratio"@ { assert("emboss"@.len() == "ratio"@.len()); } }
    assert("emboss"@ != "spacing"@) by { if "emboss"@ == "spacing"@ { assert("emboss"@.len() == "spacing"@.len()); } }
    assert("emboss"@ != "relSz"@) by { if "emboss"@ == "relSz"@ { assert("emboss"@.len() == "relSz"@.len()); } }
    assert("emboss"@ != "offset"@) by { if "emboss"@ == "offset"@ { assert("emboss"@[0] == "offset"@[0]); } }
    assert("engrave"@ != "supscript"@) by { if "engrave"@ == "supscript"@ { assert("engrave"@.len() == "supscript"@.len()); } }
    assert("engrave"@ != "subscript"@) by { if "engrave"@ == "subscript"@ { assert("engrave"@.len() == "subscript"@.len()); } }
    assert("engrave"@ != "strikeout"@) by { if "engrave"@ == "strikeout"@ { assert("engrave"@.len() == "strikeout"@.len()); } }
    assert("engrave"@ != "outline"@) by { if "engrave"@ == "outline"@ { assert("engrave"@[0] == "outline"@[0]); } }
    assert("engrave"@ != "shadow"@) by { if "engrave"@ == "shadow"@ { assert("engrave"@.len() == "shadow"@.len()); } }
    assert("engrave"@ != "fontRef"@) by { if "engrave"@ == "fontRef"@ { assert("engrave"@[0] == "fontRef"@[0]); } }
    assert("engrave"@ != "ratio"@) by { if "engrave"@ == "ratio"@ { assert("engrave"@.len() == "ratio"@.len()); } }
    assert("engrave"@ != "spacing"@) by { if "engrave"@ == "spacing"@ { assert("engrave"@[0] == "spacing"@[0]); } }
    assert("engrave"@ != "relSz"@) by { if "engrave"@ == "relSz"@ { assert("engrave"@.len() == "relSz"@.len()); } }
    assert("engrave"@ != "offset"@) by { if "engrave"@ == "offset"@ { assert("engrave"@.len() == "offset"@.len()); } }
    assert("supscript"@ != "subscript"@) by { if "supscript"@ == "subscript"@ { assert("supscript"@[2] == "subscript"@[2]); } }
    assert("supscript"@ != "strikeout"@) by { if "supscript"@ == "strikeout"@ { assert("supscript"@[1] == "strikeout"@[1]); } }
    assert("supscript"@ != "outline"@) by { if "supscript"@ == "outline"@ { assert("supscript"@.len() == "outline"@.len()); } }
    assert("supscript"@ != "shadow"@) by { if "supscript"@ == "shadow"@ { assert("supscript"@.len() == "shadow"@.len()); } }
    assert("supscript"@ != "fontRef"@) by { if "supscript"@ == "fontRef"@ { assert("supscript"@.len() == "fontRef"@.len()); } }
    assert("supscript"@ != "ratio"@) by { if "supscript"@ == "ratio"@ { assert("supscript"@.len() == "ratio"@.len()); } }
    assert("supscript"@ != "spacing"@) by { if "supscript"@ == "spacing"@ { assert("supscript"@.len() == "spacing"@.len()); } }
    assert("supscript"@ != "relSz"@) by { if "supscript"@ == "relSz"@ { assert("supscript"@.len() == "relSz"@.len()); } }
    assert("supscript"@ != "offset"@) by { if "supscript"@ == "offset"@ { assert("supscript"@.len() == "offset"@.len()); } }
    assert("subscript"@ != "strikeout"@) by { if "subscript"@ == "strikeout"@ { assert("subscript"@[1] == "strikeout"@[1]); } }
    assert("subscript"@ != "outline"@) by { if "subscript"@ == "outline"@ { assert("subscript"@.len() == "outline"@.len()); } }
    assert("subscript"@ != "shadow"@) by { if "subscript"@ == "shadow"@ { assert("subscript"@.len() == "shadow"@.len()); } }
    assert("subscript"@ != "fontRef"@) by { if "subscript"@ == "fontRef"@ { assert("subscript"@.len() == "fontRef"@.len()); } }
    assert("subscript"@ != "ratio"@) by { if "subscript"@ == "ratio"@ { assert("subscript"@.len() == "ratio"@.len()); } }
    assert("subscript"@ != "spacing"@) by { if "subscript"@ == "spacing"@ { assert("subscript"@.len() == "spacing"@.len()); } }
    assert("subscript"@ != "relSz"@) by { if "subscript"@ == "relSz"@ { assert("subscript"@.len() == "relSz"@.len()); } }
    assert("subscript"@ != "offset"@) by { if "subscript"@ == "offset"@ { assert("subscript"@.len() == "offset"@.len()); } }
    assert("strikeout"@ != "outline"@) by { if "strikeout"@ == "outline"@ { assert("strikeout"@.len() == "outline"@.len()); } }
    assert("strikeout"@ != "shadow"@) by { if "strikeout"@ == "shadow"@ { assert("strikeout"@.len() == "shadow"@.len()); } }
    assert("strikeout"@ != "fontRef"@) by { if "strikeout"@ == "fontRef"@ { assert("strikeout"@.len() == "fontRef"@.len()); } }
    assert("strikeout"@ != "ratio"@) by { if "strikeout"@ == "ratio"@ { assert("strikeout"@.len() == "ratio"@.len()); } }
    assert("strikeout"@ != "spacing"@) by { if "strikeout"@ == "spacing"@ { assert("strikeout"@.len() == "spacing"@.len()); } }
    assert("strikeout"@ != "relSz"@) by { if "strikeout"@ == "relSz"@ { assert("strikeout"@.len() == "relSz"@.len()); } }
    assert("strikeout"@ != "offset"@) by { if "strikeout"@ == "offset"@ { assert("strikeout"@.len() == "offset"@.len()); } }
    assert("outline"@ != "shadow"@) by { if "outline"@ == "shadow"@ { assert("outline"@.len() == "shadow"@.len()); } }
    assert("outline"@ != "fontRef"@) by { if "outline"@ == "fontRef"@ { assert("outline"@[0] == "fontRef"@[0]); } }
    assert("outline"@ != "ratio"@) by { if "outline"@ == "ratio"@ { assert("outline"@.len() == "ratio"@.len()); } }
    assert("outline"@ != "spacing"@) by { if "outline"@ == "spacing"@ { assert("outline"@[0] == "spacing"@[0]); } }
    assert("outline"@ != "relSz"@) by { if "outline"@ == "relSz"@ { assert("outline"@.len() == "relSz"@.len()); } }
    assert("outline"@ != "offset"@) by { if "outline"@ == "offset"@ { assert("outline"@.len() == "offset"@.len()); } }
    assert("shadow"@ != "fontRef"@) by { if "shadow"@ == "fontRef"@ { assert("shadow"@.len() == "fontRef"@.len()); } }
    assert("shadow"@ != "ratio"@) by { if "shadow"@ == "ratio"@ { assert("shadow"@.len() == "ratio"@.len()); } }
    assert("shadow"@ != "spacing"@) by { if "shadow"@ == "spacing"@ { assert("shadow"@.len() == "spacing"@.len()); } }
    assert("shadow"@ != "relSz"@) by { if "shadow"@ == "relSz"@ { assert("shadow"@.len() == "relSz"@.len()); } }
    assert("shadow"@ != "offset"@) by { if "shadow"@ == "offset"@ { assert("shadow"@[0] == "offset"@[0]); } }
    assert("fontRef"@ != "ratio"@) by { if "fontRef"@ == "ratio"@ { assert("fontRef"@.len() == "ratio"@.len()); } }
    assert("fontRef"@ != "spacing"@) by { if "fontRef"@ == "spacing"@ { assert("fontRef"@[0] == "spacing"@[0]); } }
    assert("fontRef"@ != "relSz"@) by { if "fontRef"@ == "relSz"@ { assert("fontRef"@.len() == "relSz"@.len()); } }
    assert("fontRef"@ != "offset"@) by { if "fontRef"@ == "offset"@ { assert("fontRef"@.len() == "offset"@.len()); } }
    assert("ratio"@ != "spacing"@) by { if "ratio"@ == "spacing"@ { assert("ratio"@.len() == "spacing"@.len()); } }
    assert("ratio"@ != "relSz"@) by { if "ratio"@ == "relSz"@ { assert("ratio"@[1] == "relSz"@[1]); } }
    assert("ratio"@ != "offset"@) by { if "ratio"@ == "offset"@ { assert("ratio"@.len() == "offset"@.len()); } }
    assert("spacing"@ != "relSz"@) by { if "spacing"@ == "relSz"@ { assert("spacing"@.len() == "relSz"@.len()); } }
    assert("spacing"@ != "offset"@) by { if "spacing"@ == "offset"@ { assert("spacing"@.len() == "offset"@.len()); } }
    assert("relSz"@ != "offset"@) by { if "relSz"@ == "offset"@ { assert("relSz"@.len() == "offset"@.len()); } }
}

/// Reading a styled-flag or per-language child of a `<hh:charPr>`:
/// `strikeout` sets the strikeout flag from its `shape` attribute,
/// `outline` and `shadow` set their flags from their `type` attribute (a
/// flag is set when the attribute is present and not `NONE`), and
/// `fontRef`, `ratio`, `spacing`, `relSz` and `offset` set the tuple of
/// their name from the seven per-language attributes; every other field
/// stays as it was.
pub proof fn law_char_pr_child_fields(x: CharShapeV, t: XmlTag)
    ensures
        t.name@ == "strikeout"@ ==> match char_shape_child(x, t) {
            Ok(y) => attr_string_of(t.attrs@, "shape"@) matches Ok(s) && y == (CharShapeV { strikeout: s != "NONE"@ && s.len() > 0, ..x }),
            Err(_) => attr_string_of(t.attrs@, "shape"@) is Err,
        },
        t.name@ == "outline"@ ==> match char_shape_child(x, t) {
            Ok(y) => attr_string_of(t.attrs@, "type"@) matches Ok(s) && y == (CharShapeV { outline: s != "NONE"@ && s.len() > 0, ..x }),
            Err(_) => attr_string_of(t.attrs@, "type"@) is Err,
        },
        t.name@ == "shadow"@ ==> match char_shape_child(x, t) {
            Ok(y) => attr_string_of(t.attrs@, "type"@) matches Ok(s) && y == (CharShapeV { shadow: s != "NONE"@ && s.len() > 0, ..x }),
            Err(_) => attr_string_of(t.attrs@, "type"@) is Err,
        },
        t.name@ == "fontRef"@ ==> char_shape_child(x, t) == match lang_tuple_u32_of(t) {
            Ok(v) => Ok(CharShapeV { font_ref: v, ..x }),
            Err(f) => Err::<CharShapeV, FaultView>(f),
        },
        t.name@ == "ratio"@ ==> char_shape_child(x, t) == match lang_tuple_u32_of(t) {
            Ok(v) => Ok(CharShapeV { ratio: v, ..x }),
            Err(f) => Err::<CharShapeV, FaultView>(f),
        },
        t.name@ == "spacing"@ ==> char_shape_child(x, t) == match lang_tuple_i32_of(t) {
            Ok(v) => Ok(CharShapeV { spacing: v, ..x }),
            Err(f) => Err::<CharShapeV, FaultView>(f),
        },
        t.name@ == "relSz"@ ==> char_shape_child(x, t) == match lang_tuple_u32_of(t) {
            Ok(v) => Ok(CharShapeV { rel_sz: v, ..x }),
            Err(f) => Err::<CharShapeV, FaultView>(f),
        },
        t.name@ == "offset"@ ==> char_shape_child(x, t) == match lang_tuple_i32_of(t) {
            Ok(v) => Ok(CharShapeV { offset: v, ..x }),
            Err(f) => Err::<CharShapeV, FaultView>(f),
        },
{
    reveal(char_shape_child);
    lemma_all_child_names_differ();
}

/// The per-language tuple of a tag: its `hangul`, `latin`, `hanja`,
/// `japanese`, `other`, `symbol` and `user` attributes, in that order.
pub proof fn law_lang_tuples(t: XmlTag)
    ensures
        lang_tuple_u32_of(t) matches Ok(v) ==> (v.len() == 7 && attr_u32_of(t.attrs@, "hangul"@) == Ok::<_, FaultView>(v[0])
            && attr_u32_of(t.attrs@, "latin"@) == Ok::<_, FaultView>(v[1]) && attr_u32_of(t.attrs@, "hanja"@) == Ok::<_, FaultView>(v[2])
            && attr_u32_of(t.attrs@, "japanese"@) == Ok::<_, FaultView>(v[3]) && attr_u32_of(t.attrs@, "other"@) == Ok::<_, FaultView>(v[4])
            && attr_u32_of(t.attrs@, "symbol"@) == Ok::<_, FaultView>(v[5]) && attr_u32_of(t.attrs@, "user"@) == Ok::<_, FaultView>(v[6])),
        lang_tuple_i32_of(t) matches Ok(v) ==> (v.len() == 7 && attr_i32_of(t.attrs@, "hangul"@) == Ok::<_, FaultView>(v[0])
            && attr_i32_of(t.attrs@, "latin"@) == Ok::<_, FaultView>(v[1]) && attr_i32_of(t.attrs@, "hanja"@) == Ok::<_, FaultView>(v[2])
            && attr_i32_of(t.attrs@, "japanese"@) == Ok::<_, FaultView>(v[3]) && attr_i32_of(t.attrs@, "other"@) == Ok::<_, FaultView>(v[4])
            && attr_i32_of(t.attrs@, "symbol"@) == Ok::<_, FaultView>(v[5]) && attr_i32_of(t.attrs@, "user"@) == Ok::<_, FaultView>(v[6])),
{
}

/// Reading one child tag of a `<hh:charPr>`: a flag child named `n` is
/// always accepted and sets the flag it names; any other child leaves
/// that flag as it was.
pub proof fn law_char_pr_flag_child(x: CharShapeV, t: XmlTag, n: Seq<char>)
    requires
        is_flag_name(n),
    ensures
        t.name@ == n ==> (char_shape_child(x, t) matches Ok(y) && flag_named(y, n)),
        char_shape_child(x, t) matches Ok(y) ==> flag_named(y, n) == (flag_named(x, n) || t.name@ == n),
{
    reveal(char_shape_child);
    lemma_all_child_names_differ();
}

/// Reading the rest of a `<hh:charPr>` from event `i`: a flag once set
/// stays set; a start or empty tag at `i` named after a flag sets it; and
/// when no tag from `i` on is named after the flag, the flag read is the
/// one the shape had.
pub proof fn law_char_pr_flags(ev: Seq<XmlEvent>, i: int, x: CharShapeV, n: Seq<char>)
    requires
        is_flag_name(n),
        char_pr_loop(ev, i, x) is Ok,
    ensures
        flag_named(x, n) ==> flag_named(char_pr_loop(ev, i, x)->Ok_0.0, n),
        is_tag_named(ev[i], n) ==> flag_named(char_pr_loop(ev, i, x)->Ok_0.0, n),
        (forall|k: int| i <= k < ev.len() ==> !is_tag_named(#[trigger] ev[k], n)) ==> flag_named(
            char_pr_loop(ev, i, x)->Ok_0.0,
            n,
        ) == flag_named(x, n),
    decreases ev.len() - i,
{
    reveal(char_pr_loop);
    match ev[i] {
        XmlEvent::Start(t) => {
            law_char_pr_flag_child(x, t, n);
            let y = char_shape_child(x, t)->Ok_0;
            let j = crate::xml::skip_from(ev, i + 1, t.qname@, 0)->Ok_0;
            law_char_pr_flags(ev, j, y, n);
        },
        XmlEvent::Empty(t) => {
            law_char_pr_flag_child(x, t, n);
            let y = char_shape_child(x, t)->Ok_0;
            law_char_pr_flags(ev, i + 1, y, n);
        },
        XmlEvent::End(_, m) => {
            if m@ != "charPr"@ {
                law_char_pr_flags(ev, i + 1, x, n);
            }
        },
        XmlEvent::Eof => {},
        _ => {
            law_char_pr_flags(ev, i + 1, x, n);
        },
    }
}

} // verus!
