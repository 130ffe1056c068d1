use std::collections::HashMap;

use hwp_dvc_core::document::header::types::{
    BorderFill, CharShape, FontFace, FontLang, LangTuple, LineType,
};

#[test]
fn font_lang_parses_all_seven() {
    assert_eq!(FontLang::parse("HANGUL"), Some(FontLang::Hangul));
    assert_eq!(FontLang::parse("LATIN"), Some(FontLang::Latin));
    assert_eq!(FontLang::parse("HANJA"), Some(FontLang::Hanja));
    assert_eq!(FontLang::parse("JAPANESE"), Some(FontLang::Japanese));
    assert_eq!(FontLang::parse("OTHER"), Some(FontLang::Other));
    assert_eq!(FontLang::parse("SYMBOL"), Some(FontLang::Symbol));
    assert_eq!(FontLang::parse("USER"), Some(FontLang::User));
    assert_eq!(FontLang::parse("unknown"), None);
    assert_eq!(FontLang::parse(""), None);
}

#[test]
fn font_lang_indices_are_contiguous() {
    for (i, &lang) in FontLang::ALL.iter().enumerate() {
        assert_eq!(lang.index(), i);
    }
}

#[test]
fn line_type_parses_common_values() {
    assert_eq!(LineType::parse("NONE"), LineType::NoLine);
    assert_eq!(LineType::parse("SOLID"), LineType::Solid);
    assert_eq!(LineType::parse("DASH"), LineType::Dash);
    assert_eq!(LineType::parse("SLIM_THICK_SLIM"), LineType::SlimThickSlim);
    assert_eq!(LineType::parse("THICK_3D"), LineType::ThickThreeD);
    assert_eq!(LineType::parse("SOMETHING_ELSE"), LineType::Other);
}

#[test]
fn four_sides_solid_detects_all_solid_correctly() {
    let mut bf = BorderFill::default();
    assert!(!bf.four_sides_solid(), "default is None, not Solid");
    bf.left.line_type = LineType::Solid;
    bf.right.line_type = LineType::Solid;
    bf.top.line_type = LineType::Solid;
    assert!(!bf.four_sides_solid(), "only three sides Solid");
    bf.bottom.line_type = LineType::Solid;
    assert!(bf.four_sides_solid(), "all four sides Solid");
    bf.bottom.line_type = LineType::Dash;
    assert!(!bf.four_sides_solid(), "bottom became Dash");
}

#[test]
fn char_shape_font_names_dedups_while_preserving_order() {
    let mut face = FontFace {
        lang: FontLang::Hangul,
        fonts: HashMap::new(),
    };
    face.fonts.insert(0, "Hamcho".into());
    face.fonts.insert(1, "Nanum".into());
    let faces = vec![
        face,
        FontFace {
            lang: FontLang::Latin,
            fonts: {
                let mut m = HashMap::new();
                m.insert(0, "Hamcho".into());
                m
            },
        },
    ];
    let cs = CharShape {
        id: 0,
        font_ref: {
            let mut t = LangTuple::<u32>::default();
            t.set(FontLang::Hangul, 1);
            t.set(FontLang::Latin, 0);
            t
        },
        ..Default::default()
    };
    let names = cs.font_names(&faces);
    // Hangul→Nanum, Latin→Hamcho, rest default to id=0 in Hangul
    // face which maps to Hamcho — so Hamcho should appear exactly
    // once.
    assert_eq!(
        names.iter().filter(|n| n.as_str() == "Hamcho").count(),
        1,
        "Hamcho must be deduplicated"
    );
    assert!(names.contains(&"Nanum".to_string()));
}
