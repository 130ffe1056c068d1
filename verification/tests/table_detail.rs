use hwp_dvc_core::checker::table_detail::{color_matches, fill_kind, grad_type_matches};
use hwp_dvc_core::document::header::types::CellFillBrush;

#[test]
fn fill_kind_none_when_facecolor_is_literal_none_string() {
    let brush = CellFillBrush::Solid {
        face: "none".into(),
        hatch: "#000000".into(),
        alpha: 0,
    };
    assert_eq!(fill_kind(Some(&brush)), "none");
}

#[test]
fn fill_kind_color_for_concrete_face_color() {
    let brush = CellFillBrush::Solid {
        face: "#FFFFFF".into(),
        hatch: "#000000".into(),
        alpha: 0,
    };
    assert_eq!(fill_kind(Some(&brush)), "color");
}

#[test]
fn fill_kind_none_when_no_brush() {
    assert_eq!(fill_kind(None), "none");
}

#[test]
fn color_matches_compares_hex_string_case_insensitively() {
    assert!(color_matches("#ff0000", 0x00FF0000));
    assert!(color_matches("#FF0000", 0x00FF0000));
    assert!(!color_matches("#00FF00", 0x00FF0000));
}

#[test]
fn color_matches_rejects_none() {
    assert!(!color_matches("none", 0x00FF0000));
}

#[test]
fn grad_type_matches_canonicalises_conial_to_conical() {
    assert!(grad_type_matches("conial", "conical"));
    assert!(grad_type_matches("CONIAL", "CONICAL"));
    assert!(grad_type_matches("linear", "LINEAR"));
    assert!(!grad_type_matches("radial", "linear"));
}
