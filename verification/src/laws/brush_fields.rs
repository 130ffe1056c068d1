//! How the header parser reads a border fill's parts: each brush tag
//! gives the brush of its own kind, with every field from the attribute
//! of its own name, and each edge tag sets the edge it names.

use vstd::prelude::*;
use vstd::string::*;
use crate::document::header::parser::{
    border_fill_loop, border_of, brush_child, brush_loop, gradation_of, image_brush_of, is_edge, lemma_border_fill_loop_unfold,
    lemma_brush_loop_unfold, solid_brush_of, with_edge,
};
use crate::document::header::view::{BorderFillV, BorderV, BrushV};
use crate::xml::{attr_bool_of, attr_i32_of, attr_string_of, attr_u32_of, FaultView, XmlEvent, XmlTag};

verus! {

/// A `<hc:winBrush>` reads as a solid brush: it succeeds exactly when
/// `faceColor`, `hatchColor` and `alpha` are well formed, and its colours
/// and alpha are those attributes.
pub proof fn law_solid_brush_fields(t: XmlTag)
    ensures
        solid_brush_of(t) is Ok <==> (attr_string_of(t.attrs@, "faceColor"@) is Ok && attr_string_of(t.attrs@, "hatchColor"@)
            is Ok && attr_u32_of(t.attrs@, "alpha"@) is Ok),
        solid_brush_of(t) matches Ok(b) ==> (b matches BrushV::Solid { face, hatch, alpha } && attr_string_of(
            t.attrs@,
            "faceColor"@,
        ) == Ok::<_, FaultView>(face) && attr_string_of(t.attrs@, "hatchColor"@) == Ok::<_, FaultView>(hatch) && attr_u32_of(
            t.attrs@,
            "alpha"@,
        ) == Ok::<_, FaultView>(alpha)),
{
}

/// A `<hc:gradation>` reads as a gradation: it succeeds exactly when each
/// attribute it reads is well formed, and each field is the attribute of
/// its own name (`type`, `startColor`, `endColor`, `centerX`, `centerY`,
/// `angle`, `step`, `step_center`).
pub proof fn law_gradation_fields(t: XmlTag)
    ensures
        gradation_of(t) is Ok <==> (attr_string_of(t.attrs@, "type"@) is Ok && attr_string_of(t.attrs@, "startColor"@) is Ok
            && attr_string_of(t.attrs@, "endColor"@) is Ok && attr_u32_of(t.attrs@, "centerX"@) is Ok && attr_u32_of(
            t.attrs@,
            "centerY"@,
        ) is Ok && attr_u32_of(t.attrs@, "angle"@) is Ok && attr_u32_of(t.attrs@, "step"@) is Ok && attr_u32_of(
            t.attrs@,
            "step_center"@,
        ) is Ok),
        gradation_of(t) matches Ok(b) ==> (b matches BrushV::Gradation {
            gradation_type,
            start_color,
            end_color,
            width_center,
            height_center,
            angle,
            blur_level,
            blur_center,
        } && attr_string_of(t.attrs@, "type"@) == Ok::<_, FaultView>(gradation_type) && attr_string_of(t.attrs@, "startColor"@)
            == Ok::<_, FaultView>(start_color) && attr_string_of(t.attrs@, "endColor"@) == Ok::<_, FaultView>(end_color)
            && attr_u32_of(t.attrs@, "centerX"@) == Ok::<_, FaultView>(width_center) && attr_u32_of(t.attrs@, "centerY"@)
            == Ok::<_, FaultView>(height_center) && attr_u32_of(t.attrs@, "angle"@) == Ok::<_, FaultView>(angle)
            && attr_u32_of(t.attrs@, "step"@) == Ok::<_, FaultView>(blur_level) && attr_u32_of(t.attrs@, "step_center"@)
            == Ok::<_, FaultView>(blur_center)),
{
}

/// An `<hc:imgBrush>` reads as an image brush with no file yet: it
/// succeeds exactly when each attribute it reads is well formed, and each
/// field is the attribute of its own name (`include`, `mode`, `alpha`,
/// `effect`, `effectValue`, `watermark`).
pub proof fn law_image_brush_fields(t: XmlTag)
    ensures
        image_brush_of(t) is Ok <==> (attr_bool_of(t.attrs@, "include"@) is Ok && attr_string_of(t.attrs@, "mode"@) is Ok
            && attr_i32_of(t.attrs@, "alpha"@) is Ok && attr_string_of(t.attrs@, "effect"@) is Ok && attr_i32_of(
            t.attrs@,
            "effectValue"@,
        ) is Ok && attr_u32_of(t.attrs@, "watermark"@) is Ok),
        image_brush_of(t) matches Ok(b) ==> (b matches BrushV::Image {
            file,
            included,
            fill_type,
            fill_value,
            effect_type,
            effect_value,
            watermark,
        } && file.len() == 0 && attr_bool_of(t.attrs@, "include"@) == Ok::<_, FaultView>(included) && attr_string_of(
            t.attrs@,
            "mode"@,
        ) == Ok::<_, FaultView>(fill_type) && attr_i32_of(t.attrs@, "alpha"@) == Ok::<_, FaultView>(fill_value)
            && attr_string_of(t.attrs@, "effect"@) == Ok::<_, FaultView>(effect_type) && attr_i32_of(
            t.attrs@,
            "effectValue"@,
        ) == Ok::<_, FaultView>(effect_value) && attr_u32_of(t.attrs@, "watermark"@) == Ok::<_, FaultView>(watermark)),
{
}

proof fn lemma_brush_names_differ()
    ensures
        "winBrush"@ != "gradation"@,
        "winBrush"@ != "imgBrush"@,
        "gradation"@ != "imgBrush"@,
{
    reveal_strlit("winBrush");
    reveal_strlit("gradation");
    reveal_strlit("imgBrush");
    assert("winBrush"@ != "gradation"@) by { if "winBrush"@ == "gradation"@ { assert("winBrush"@[0] == "gradation"@[0]); } }
    assert("winBrush"@ != "imgBrush"@) by { if "winBrush"@ == "imgBrush"@ { assert("winBrush"@[0] == "imgBrush"@[0]); } }
    assert("gradation"@ != "imgBrush"@) by { if "gradation"@ == "imgBrush"@ { assert("gradation"@[0] == "imgBrush"@[0]); } }
}

/// A child of `<hc:fillBrush>` gives a brush of the kind its name says
/// (`winBrush` solid, `gradation` a gradation, `imgBrush` an image), read
/// by that kind's reader; any other child gives none and cannot fail.
pub proof fn law_brush_child_kind(t: XmlTag)
    ensures
        t.name@ == "winBrush"@ ==> (brush_child(t) is Ok <==> solid_brush_of(t) is Ok) && (solid_brush_of(t) matches Ok(
            b,
        ) ==> brush_child(t) == Ok::<_, FaultView>(Some(b))) && (brush_child(t) matches Ok(Some(b)) ==> b is Solid),
        t.name@ == "gradation"@ ==> (brush_child(t) is Ok <==> gradation_of(t) is Ok) && (gradation_of(t) matches Ok(b)
            ==> brush_child(t) == Ok::<_, FaultView>(Some(b))) && (brush_child(t) matches Ok(Some(b)) ==> b is Gradation),
        t.name@ == "imgBrush"@ ==> (brush_child(t) is Ok <==> image_brush_of(t) is Ok) && (image_brush_of(t) matches Ok(b)
            ==> brush_child(t) == Ok::<_, FaultView>(Some(b))) && (brush_child(t) matches Ok(Some(b)) ==> b is Image),
        !(t.name@ == "winBrush"@ || t.name@ == "gradation"@ || t.name@ == "imgBrush"@) ==> brush_child(t) == Ok::<
            _,
            FaultView,
        >(None::<BrushV>),
{
    lemma_brush_names_differ();
}

proof fn lemma_edge_names_differ()
    ensures
        "leftBorder"@ != "rightBorder"@,
        "leftBorder"@ != "topBorder"@,
        "leftBorder"@ != "bottomBorder"@,
        "leftBorder"@ != "diagonal"@,
        "rightBorder"@ != "topBorder"@,
        "rightBorder"@ != "bottomBorder"@,
        "rightBorder"@ != "diagonal"@,
        "topBorder"@ != "bottomBorder"@,
        "topBorder"@ != "diagonal"@,
        "bottomBorder"@ != "diagonal"@,
{
    reveal_strlit("leftBorder");
    reveal_strlit("rightBorder");
    reveal_strlit("topBorder");
    reveal_strlit("bottomBorder");
    reveal_strlit("diagonal");
    assert("leftBorder"@ != "rightBorder"@) by { if "leftBorder"@ == "rightBorder"@ { assert("leftBorder"@[0] == "rightBorder"@[0]); } }
    assert("leftBorder"@ != "topBorder"@) by { if "leftBorder"@ == "topBorder"@ { assert("leftBorder"@[0] == "topBorder"@[0]); } }
    assert("leftBorder"@ != "bottomBorder"@) by { if "leftBorder"@ == "bottomBorder"@ { assert("leftBorder"@[0] == "bottomBorder"@[0]); } }
    assert("leftBorder"@ != "diagonal"@) by { if "leftBorder"@ == "diagonal"@ { assert("leftBorder"@[0] == "diagonal"@[0]); } }
    assert("rightBorder"@ != "topBorder"@) by { if "rightBorder"@ == "topBorder"@ { assert("rightBorder"@[0] == "topBorder"@[0]); } }
    assert("rightBorder"@ != "bottomBorder"@) by { if "rightBorder"@ == "bottomBorder"@ { assert("rightBorder"@[0] == "bottomBorder"@[0]); } }
    assert("rightBorder"@ != "diagonal"@) by { if "rightBorder"@ == "diagonal"@ { assert("rightBorder"@[0] == "diagonal"@[0]); } }
    assert("topBorder"@ != "bottomBorder"@) by { if "topBorder"@ == "bottomBorder"@ { assert("topBorder"@[0] == "bottomBorder"@[0]); } }
    assert("topBorder"@ != "diagonal"@) by { if "topBorder"@ == "diagonal"@ { assert("topBorder"@[0] == "diagonal"@[0]); } }
    assert("bottomBorder"@ != "diagonal"@) by { if "bottomBorder"@ == "diagonal"@ { assert("bottomBorder"@[0] == "diagonal"@[0]); } }
}

/// An edge tag sets the edge of its own name (`leftBorder` the left,
/// `rightBorder` the right, `topBorder` the top, `bottomBorder` the
/// bottom, `diagonal` the diagonal) to the border read, and leaves every
/// other edge and field of the border fill as it was.
pub proof fn law_edge_sets_own_side(x: BorderFillV, n: Seq<char>, b: BorderV)
    requires
        is_edge(n),
    ensures
        with_edge(x, n, b).left == (if n == "leftBorder"@ { b } else { x.left }),
        with_edge(x, n, b).right == (if n == "rightBorder"@ { b } else { x.right }),
        with_edge(x, n, b).top == (if n == "topBorder"@ { b } else { x.top }),
        with_edge(x, n, b).bottom == (if n == "bottomBorder"@ { b } else { x.bottom }),
        with_edge(x, n, b).diagonal == (if n == "diagonal"@ { b } else { x.diagonal }),
        with_edge(x, n, b).id == x.id,
        with_edge(x, n, b).three_d == x.three_d,
        with_edge(x, n, b).shadow == x.shadow,
        with_edge(x, n, b).center_line == x.center_line,
        with_edge(x, n, b).break_cell_separate_line == x.break_cell_separate_line,
        with_edge(x, n, b).has_fill_brush == x.has_fill_brush,
        with_edge(x, n, b).fill_brush == x.fill_brush,
{
    lemma_edge_names_differ();
}

/// Inside a `<hc:fillBrush>`, an empty brush tag replaces the brush read
/// so far by its own, any other empty tag keeps it, and a malformed brush
/// tag fails the read.
pub proof fn law_brush_tag_replaces(ev: Seq<XmlEvent>, i: int, t: XmlTag, out: Option<BrushV>)
    requires
        0 <= i < ev.len(),
        ev[i] == XmlEvent::Empty(t),
    ensures
        brush_child(t) is Err ==> brush_loop(ev, i, out) is Err,
        brush_child(t) matches Ok(Some(b)) ==> brush_loop(ev, i, out) == brush_loop(ev, i + 1, Some(b)),
        brush_child(t) == Ok::<_, FaultView>(None::<BrushV>) ==> brush_loop(ev, i, out) == brush_loop(ev, i + 1, out),
{
    lemma_brush_loop_unfold(ev, i, out);
}

/// Once a brush has been read inside a `<hc:fillBrush>`, the fill read
/// from it has a brush: no later tag clears it.
pub proof fn law_brush_never_cleared(ev: Seq<XmlEvent>, i: int, out: Option<BrushV>)
    requires
        out is Some,
    ensures
        brush_loop(ev, i, out) matches Ok((b, _)) ==> b is Some,
    decreases ev.len() - i,
{
    lemma_brush_loop_unfold(ev, i, out);
    if 0 <= i < ev.len() {
        match ev[i] {
            XmlEvent::Start(t) => match brush_child(t) {
                Err(_) => {},
                Ok(b) => if t.name@ == "imgBrush"@ {
                    match crate::document::header::parser::img_ref_loop(ev, i + 1, Seq::empty()) {
                        Err(_) => {},
                        Ok((file, j)) => if i < j <= ev.len() {
                            law_brush_never_cleared(ev, j, Some(crate::document::header::parser::with_file(b->0, file)));
                        },
                    }
                } else {
                    match crate::xml::skip_from(ev, i + 1, t.qname@, 0) {
                        Err(_) => {},
                        Ok(j) => if i < j <= ev.len() {
                            law_brush_never_cleared(ev, j, if b is Some { b } else { out });
                        },
                    }
                },
            },
            XmlEvent::Empty(t) => match brush_child(t) {
                Err(_) => {},
                Ok(b) => law_brush_never_cleared(ev, i + 1, if b is Some { b } else { out }),
            },
            XmlEvent::End(_, n) => if n@ != "fillBrush"@ {
                law_brush_never_cleared(ev, i + 1, out);
            },
            XmlEvent::Eof => {},
            _ => law_brush_never_cleared(ev, i + 1, out),
        }
    }
}

/// Inside a `<hh:borderFill>`, an empty edge tag sets the edge it names
/// to the border it describes (a malformed one fails the read), and an
/// empty `<hc:fillBrush>` marks the fill as having a brush.
pub proof fn law_border_fill_empty_tags(ev: Seq<XmlEvent>, i: int, t: XmlTag, x: BorderFillV)
    requires
        0 <= i < ev.len(),
        ev[i] == XmlEvent::Empty(t),
    ensures
        is_edge(t.name@) && border_of(t) is Err ==> border_fill_loop(ev, i, x) is Err,
        is_edge(t.name@) ==> (border_of(t) matches Ok(b) ==> border_fill_loop(ev, i, x) == border_fill_loop(
            ev,
            i + 1,
            with_edge(x, t.name@, b),
        )),
        t.name@ == "fillBrush"@ ==> border_fill_loop(ev, i, x) == border_fill_loop(ev, i + 1, (BorderFillV { has_fill_brush: true, ..x })),
{
    lemma_border_fill_loop_unfold(ev, i, x);
    lemma_edge_names_differ();
    reveal_strlit("fillBrush");
    reveal_strlit("leftBorder");
    reveal_strlit("rightBorder");
    reveal_strlit("topBorder");
    reveal_strlit("bottomBorder");
    reveal_strlit("diagonal");
    assert(t.name@ == "fillBrush"@ ==> !is_edge(t.name@)) by {
        if t.name@ == "fillBrush"@ {
            assert("fillBrush"@[0] != "leftBorder"@[0]);
            assert("fillBrush"@[0] != "rightBorder"@[0]);
            assert("fillBrush"@[0] != "topBorder"@[0]);
            assert("fillBrush"@[0] != "bottomBorder"@[0]);
            assert("fillBrush"@[0] != "diagonal"@[0]);
        }
    }
}

} // verus!
