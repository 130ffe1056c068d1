use std::collections::HashMap;

use hwp_dvc_core::checker::char_shape::check;
use hwp_dvc_core::checker::CheckLevel;
use hwp_dvc_core::document::header::types::{CharShape, FontFace, FontLang, LangTuple};
use hwp_dvc_core::document::{HeaderTables, RunTypeInfo};
use hwp_dvc_core::error::{CHARSHAPE_BG_BORDER, CHARSHAPE_BOLD, CHARSHAPE_EMBOSS, CHARSHAPE_EMPTYSPACE, CHARSHAPE_ENGRAVE, CHARSHAPE_FONT, CHARSHAPE_FONTSIZE, CHARSHAPE_ITALIC, CHARSHAPE_KERNING, CHARSHAPE_OUTLINE, CHARSHAPE_POINT, CHARSHAPE_POSITION, CHARSHAPE_RATIO, CHARSHAPE_RSIZE, CHARSHAPE_SHADOW, CHARSHAPE_SPACING, CHARSHAPE_STRIKEOUT, CHARSHAPE_SUBSCRIPT, CHARSHAPE_SUPSCRIPT, CHARSHAPE_UNDERLINE};
use hwp_dvc_core::spec::CharShapeSpec;
use hwp_dvc_core::spec::CharShapeBorderSpec;

fn make_font_faces(hangul_fonts: &[(u32, &str)]) -> Vec<FontFace> {
    let mut face = FontFace {
        lang: FontLang::Hangul,
        fonts: HashMap::new(),
    };
    for (id, name) in hangul_fonts {
        face.fonts.insert(*id, name.to_string());
    }
    vec![face]
}

fn make_char_shape(
    id: u32,
    font_ref_hangul: u32,
    ratio_hangul: u32,
    spacing_hangul: i32,
) -> CharShape {
    let mut font_ref = LangTuple::<u32>::default();
    font_ref.set(FontLang::Hangul, font_ref_hangul);

    let mut ratio = LangTuple::<u32>::default();
    ratio.set(FontLang::Hangul, ratio_hangul);

    let mut spacing = LangTuple::<i32>::default();
    spacing.set(FontLang::Hangul, spacing_hangul);

    CharShape {
        id,
        font_ref,
        ratio,
        spacing,
        ..Default::default()
    }
}

fn make_tables_with(cs: CharShape, font_faces: Vec<FontFace>) -> HeaderTables {
    let mut char_shapes = HashMap::new();
    char_shapes.insert(cs.id, cs);
    HeaderTables {
        char_shapes,
        font_faces,
        ..Default::default()
    }
}

fn make_run(char_pr_id_ref: u32) -> RunTypeInfo {
    RunTypeInfo {
        char_pr_id_ref,
        text: "test".to_string(),
        ..Default::default()
    }
}

// ── font allow-list ────────────────────────────────────────────────────────

#[test]
fn font_allowed_produces_no_error() {
    let font_faces = make_font_faces(&[(1, "함초롬바탕")]);
    let cs = make_char_shape(0, 1, 100, 0);
    let tables = make_tables_with(cs, font_faces);
    let runs = vec![make_run(0)];

    let spec = CharShapeSpec {
        font: vec!["함초롬바탕".to_string(), "함초롬돋움".to_string()],
        ratio: Some(100),
        spacing: Some(0),
        ..Default::default()
    };

    let errors = check(&spec, &tables, &runs, CheckLevel::All);
    assert!(
        errors.is_empty(),
        "no errors expected for compliant charshape; got: {errors:?}"
    );
}

#[test]
fn font_not_in_allowlist_produces_font_error() {
    let font_faces = make_font_faces(&[(1, "나눔고딕")]);
    let cs = make_char_shape(0, 1, 100, 0);
    let tables = make_tables_with(cs, font_faces);
    let runs = vec![make_run(0)];

    let spec = CharShapeSpec {
        font: vec!["함초롬바탕".to_string()],
        ratio: Some(100),
        spacing: Some(0),
        ..Default::default()
    };

    let errors = check(&spec, &tables, &runs, CheckLevel::All);
    assert!(
        errors.iter().any(|e| e.error_code == CHARSHAPE_FONT),
        "expected CHARSHAPE_FONT error; got: {errors:?}"
    );
}

#[test]
fn empty_font_list_in_spec_skips_font_check() {
    let font_faces = make_font_faces(&[(1, "나눔고딕")]);
    let cs = make_char_shape(0, 1, 100, 0);
    let tables = make_tables_with(cs, font_faces);
    let runs = vec![make_run(0)];

    let spec = CharShapeSpec::default();

    let errors = check(&spec, &tables, &runs, CheckLevel::All);
    assert!(
        errors.is_empty(),
        "empty font list must skip the font check"
    );
}

// ── ratio ──────────────────────────────────────────────────────────────────

#[test]
fn ratio_match_produces_no_error() {
    let font_faces = make_font_faces(&[(1, "함초롬바탕")]);
    let cs = make_char_shape(0, 1, 100, 0);
    let tables = make_tables_with(cs, font_faces);
    let runs = vec![make_run(0)];

    let spec = CharShapeSpec {
        font: vec!["함초롬바탕".to_string()],
        ratio: Some(100),
        spacing: Some(0),
        ..Default::default()
    };

    let errors = check(&spec, &tables, &runs, CheckLevel::All);
    let ratio_errors: Vec<_> = errors
        .iter()
        .filter(|e| e.error_code == CHARSHAPE_RATIO)
        .collect();
    assert!(
        ratio_errors.is_empty(),
        "no CHARSHAPE_RATIO error expected; got: {ratio_errors:?}"
    );
}

#[test]
fn ratio_mismatch_produces_ratio_error() {
    let font_faces = make_font_faces(&[(1, "함초롬바탕")]);
    let cs = make_char_shape(0, 1, 150, 0); // ratio = 150, spec wants 100
    let tables = make_tables_with(cs, font_faces);
    let runs = vec![make_run(0)];

    let spec = CharShapeSpec {
        font: vec!["함초롬바탕".to_string()],
        ratio: Some(100),
        spacing: Some(0),
        ..Default::default()
    };

    let errors = check(&spec, &tables, &runs, CheckLevel::All);
    assert!(
        errors.iter().any(|e| e.error_code == CHARSHAPE_RATIO),
        "expected CHARSHAPE_RATIO error; got: {errors:?}"
    );
}

// ── spacing ────────────────────────────────────────────────────────────────

#[test]
fn spacing_match_produces_no_error() {
    let font_faces = make_font_faces(&[(1, "함초롬바탕")]);
    let cs = make_char_shape(0, 1, 100, 0);
    let tables = make_tables_with(cs, font_faces);
    let runs = vec![make_run(0)];

    let spec = CharShapeSpec {
        font: vec!["함초롬바탕".to_string()],
        ratio: Some(100),
        spacing: Some(0),
        ..Default::default()
    };

    let errors = check(&spec, &tables, &runs, CheckLevel::All);
    let spacing_errors: Vec<_> = errors
        .iter()
        .filter(|e| e.error_code == CHARSHAPE_SPACING)
        .collect();
    assert!(
        spacing_errors.is_empty(),
        "no CHARSHAPE_SPACING error expected"
    );
}

#[test]
fn spacing_mismatch_produces_spacing_error() {
    let font_faces = make_font_faces(&[(1, "함초롬바탕")]);
    let cs = make_char_shape(0, 1, 100, 10); // spacing = 10, spec wants 0
    let tables = make_tables_with(cs, font_faces);
    let runs = vec![make_run(0)];

    let spec = CharShapeSpec {
        font: vec!["함초롬바탕".to_string()],
        ratio: Some(100),
        spacing: Some(0),
        ..Default::default()
    };

    let errors = check(&spec, &tables, &runs, CheckLevel::All);
    assert!(
        errors.iter().any(|e| e.error_code == CHARSHAPE_SPACING),
        "expected CHARSHAPE_SPACING error; got: {errors:?}"
    );
}

// ── fontsize ───────────────────────────────────────────────────────────────

#[test]
fn fontsize_match_produces_no_error() {
    let font_faces = make_font_faces(&[(1, "함초롬바탕")]);
    let mut cs = make_char_shape(0, 1, 100, 0);
    cs.height = 1000; // 10pt in 0.1pt units
    let tables = make_tables_with(cs, font_faces);
    let runs = vec![make_run(0)];

    let spec = CharShapeSpec {
        fontsize: Some(1000),
        ..Default::default()
    };

    let errors = check(&spec, &tables, &runs, CheckLevel::All);
    assert!(
        errors.iter().all(|e| e.error_code != CHARSHAPE_FONTSIZE),
        "no CHARSHAPE_FONTSIZE error expected; got: {errors:?}"
    );
}

#[test]
fn fontsize_mismatch_produces_fontsize_error() {
    let font_faces = make_font_faces(&[(1, "함초롬바탕")]);
    let mut cs = make_char_shape(0, 1, 100, 0);
    cs.height = 1200; // 12pt, spec wants 10pt
    let tables = make_tables_with(cs, font_faces);
    let runs = vec![make_run(0)];

    let spec = CharShapeSpec {
        fontsize: Some(1000), // 10pt
        ..Default::default()
    };

    let errors = check(&spec, &tables, &runs, CheckLevel::All);
    assert!(
        errors.iter().any(|e| e.error_code == CHARSHAPE_FONTSIZE),
        "expected CHARSHAPE_FONTSIZE error; got: {errors:?}"
    );
}

// ── bold ───────────────────────────────────────────────────────────────────

#[test]
fn bold_match_produces_no_error() {
    let font_faces = make_font_faces(&[(1, "함초롬바탕")]);
    let mut cs = make_char_shape(0, 1, 100, 0);
    cs.bold = false;
    let tables = make_tables_with(cs, font_faces);
    let runs = vec![make_run(0)];

    let spec = CharShapeSpec {
        bold: Some(false),
        ..Default::default()
    };

    let errors = check(&spec, &tables, &runs, CheckLevel::All);
    assert!(
        errors.iter().all(|e| e.error_code != CHARSHAPE_BOLD),
        "no CHARSHAPE_BOLD error expected; got: {errors:?}"
    );
}

#[test]
fn bold_mismatch_produces_bold_error() {
    let font_faces = make_font_faces(&[(1, "함초롬바탕")]);
    let mut cs = make_char_shape(0, 1, 100, 0);
    cs.bold = true; // doc is bold, spec wants false
    let tables = make_tables_with(cs, font_faces);
    let runs = vec![make_run(0)];

    let spec = CharShapeSpec {
        bold: Some(false),
        ..Default::default()
    };

    let errors = check(&spec, &tables, &runs, CheckLevel::All);
    assert!(
        errors.iter().any(|e| e.error_code == CHARSHAPE_BOLD),
        "expected CHARSHAPE_BOLD error; got: {errors:?}"
    );
}

// ── italic ─────────────────────────────────────────────────────────────────

#[test]
fn italic_mismatch_produces_italic_error() {
    let font_faces = make_font_faces(&[(1, "함초롬바탕")]);
    let mut cs = make_char_shape(0, 1, 100, 0);
    cs.italic = true; // doc is italic, spec wants false
    let tables = make_tables_with(cs, font_faces);
    let runs = vec![make_run(0)];

    let spec = CharShapeSpec {
        italic: Some(false),
        ..Default::default()
    };

    let errors = check(&spec, &tables, &runs, CheckLevel::All);
    assert!(
        errors.iter().any(|e| e.error_code == CHARSHAPE_ITALIC),
        "expected CHARSHAPE_ITALIC error; got: {errors:?}"
    );
}

// ── underline ──────────────────────────────────────────────────────────────

#[test]
fn underline_mismatch_produces_underline_error() {
    let font_faces = make_font_faces(&[(1, "함초롬바탕")]);
    let mut cs = make_char_shape(0, 1, 100, 0);
    cs.underline = true; // doc has underline, spec wants false
    let tables = make_tables_with(cs, font_faces);
    let runs = vec![make_run(0)];

    let spec = CharShapeSpec {
        underline: Some(false),
        ..Default::default()
    };

    let errors = check(&spec, &tables, &runs, CheckLevel::All);
    assert!(
        errors.iter().any(|e| e.error_code == CHARSHAPE_UNDERLINE),
        "expected CHARSHAPE_UNDERLINE error; got: {errors:?}"
    );
}

// ── strikeout ──────────────────────────────────────────────────────────────

#[test]
fn strikeout_mismatch_produces_strikeout_error() {
    let font_faces = make_font_faces(&[(1, "함초롬바탕")]);
    let mut cs = make_char_shape(0, 1, 100, 0);
    cs.strikeout = true;
    let tables = make_tables_with(cs, font_faces);
    let runs = vec![make_run(0)];

    let spec = CharShapeSpec {
        strikeout: Some(false),
        ..Default::default()
    };

    let errors = check(&spec, &tables, &runs, CheckLevel::All);
    assert!(
        errors.iter().any(|e| e.error_code == CHARSHAPE_STRIKEOUT),
        "expected CHARSHAPE_STRIKEOUT error; got: {errors:?}"
    );
}

// ── outline ────────────────────────────────────────────────────────────────

#[test]
fn outline_mismatch_produces_outline_error() {
    let font_faces = make_font_faces(&[(1, "함초롬바탕")]);
    let mut cs = make_char_shape(0, 1, 100, 0);
    cs.outline = true;
    let tables = make_tables_with(cs, font_faces);
    let runs = vec![make_run(0)];

    let spec = CharShapeSpec {
        outline: Some(false),
        ..Default::default()
    };

    let errors = check(&spec, &tables, &runs, CheckLevel::All);
    assert!(
        errors.iter().any(|e| e.error_code == CHARSHAPE_OUTLINE),
        "expected CHARSHAPE_OUTLINE error; got: {errors:?}"
    );
}

// ── emboss ─────────────────────────────────────────────────────────────────

#[test]
fn emboss_mismatch_produces_emboss_error() {
    let font_faces = make_font_faces(&[(1, "함초롬바탕")]);
    let mut cs = make_char_shape(0, 1, 100, 0);
    cs.emboss = true;
    let tables = make_tables_with(cs, font_faces);
    let runs = vec![make_run(0)];

    let spec = CharShapeSpec {
        emboss: Some(false),
        ..Default::default()
    };

    let errors = check(&spec, &tables, &runs, CheckLevel::All);
    assert!(
        errors.iter().any(|e| e.error_code == CHARSHAPE_EMBOSS),
        "expected CHARSHAPE_EMBOSS error; got: {errors:?}"
    );
}

// ── engrave ────────────────────────────────────────────────────────────────

#[test]
fn engrave_mismatch_produces_engrave_error() {
    let font_faces = make_font_faces(&[(1, "함초롬바탕")]);
    let mut cs = make_char_shape(0, 1, 100, 0);
    cs.engrave = true;
    let tables = make_tables_with(cs, font_faces);
    let runs = vec![make_run(0)];

    let spec = CharShapeSpec {
        engrave: Some(false),
        ..Default::default()
    };

    let errors = check(&spec, &tables, &runs, CheckLevel::All);
    assert!(
        errors.iter().any(|e| e.error_code == CHARSHAPE_ENGRAVE),
        "expected CHARSHAPE_ENGRAVE error; got: {errors:?}"
    );
}

// ── shadow ─────────────────────────────────────────────────────────────────

#[test]
fn shadow_mismatch_produces_shadow_error() {
    let font_faces = make_font_faces(&[(1, "함초롬바탕")]);
    let mut cs = make_char_shape(0, 1, 100, 0);
    cs.shadow = true;
    let tables = make_tables_with(cs, font_faces);
    let runs = vec![make_run(0)];

    let spec = CharShapeSpec {
        shadow: Some(false),
        ..Default::default()
    };

    let errors = check(&spec, &tables, &runs, CheckLevel::All);
    assert!(
        errors.iter().any(|e| e.error_code == CHARSHAPE_SHADOW),
        "expected CHARSHAPE_SHADOW error; got: {errors:?}"
    );
}

// ── supscript / subscript ──────────────────────────────────────────────────

#[test]
fn supscript_mismatch_produces_supscript_error() {
    let font_faces = make_font_faces(&[(1, "함초롬바탕")]);
    let mut cs = make_char_shape(0, 1, 100, 0);
    cs.supscript = true;
    let tables = make_tables_with(cs, font_faces);
    let runs = vec![make_run(0)];

    let spec = CharShapeSpec {
        supscript: Some(false),
        ..Default::default()
    };

    let errors = check(&spec, &tables, &runs, CheckLevel::All);
    assert!(
        errors.iter().any(|e| e.error_code == CHARSHAPE_SUPSCRIPT),
        "expected CHARSHAPE_SUPSCRIPT error; got: {errors:?}"
    );
}

#[test]
fn subscript_mismatch_produces_subscript_error() {
    let font_faces = make_font_faces(&[(1, "함초롬바탕")]);
    let mut cs = make_char_shape(0, 1, 100, 0);
    cs.subscript = true;
    let tables = make_tables_with(cs, font_faces);
    let runs = vec![make_run(0)];

    let spec = CharShapeSpec {
        subscript: Some(false),
        ..Default::default()
    };

    let errors = check(&spec, &tables, &runs, CheckLevel::All);
    assert!(
        errors.iter().any(|e| e.error_code == CHARSHAPE_SUBSCRIPT),
        "expected CHARSHAPE_SUBSCRIPT error; got: {errors:?}"
    );
}

// ── rsize ──────────────────────────────────────────────────────────────────

#[test]
fn rsize_mismatch_produces_rsize_error() {
    let font_faces = make_font_faces(&[(1, "함초롬바탕")]);
    let mut cs = make_char_shape(0, 1, 100, 0);
    let mut rel_sz = LangTuple::<u32>::default();
    rel_sz.set(FontLang::Hangul, 80); // 80%, spec wants 100%
    cs.rel_sz = rel_sz;
    let tables = make_tables_with(cs, font_faces);
    let runs = vec![make_run(0)];

    let spec = CharShapeSpec {
        rsize: Some(100),
        ..Default::default()
    };

    let errors = check(&spec, &tables, &runs, CheckLevel::All);
    assert!(
        errors.iter().any(|e| e.error_code == CHARSHAPE_RSIZE),
        "expected CHARSHAPE_RSIZE error; got: {errors:?}"
    );
}

// ── position ───────────────────────────────────────────────────────────────

#[test]
fn position_mismatch_produces_position_error() {
    let font_faces = make_font_faces(&[(1, "함초롬바탕")]);
    let mut cs = make_char_shape(0, 1, 100, 0);
    let mut offset = LangTuple::<i32>::default();
    offset.set(FontLang::Hangul, 5); // offset = 5, spec wants 0
    cs.offset = offset;
    let tables = make_tables_with(cs, font_faces);
    let runs = vec![make_run(0)];

    let spec = CharShapeSpec {
        position: Some(0),
        ..Default::default()
    };

    let errors = check(&spec, &tables, &runs, CheckLevel::All);
    assert!(
        errors.iter().any(|e| e.error_code == CHARSHAPE_POSITION),
        "expected CHARSHAPE_POSITION error; got: {errors:?}"
    );
}

// ── emptyspace ─────────────────────────────────────────────────────────────

#[test]
fn emptyspace_mismatch_produces_emptyspace_error() {
    let font_faces = make_font_faces(&[(1, "함초롬바탕")]);
    let mut cs = make_char_shape(0, 1, 100, 0);
    cs.use_font_space = true; // doc uses font space, spec wants false
    let tables = make_tables_with(cs, font_faces);
    let runs = vec![make_run(0)];

    let spec = CharShapeSpec {
        emptyspace: Some(false),
        ..Default::default()
    };

    let errors = check(&spec, &tables, &runs, CheckLevel::All);
    assert!(
        errors.iter().any(|e| e.error_code == CHARSHAPE_EMPTYSPACE),
        "expected CHARSHAPE_EMPTYSPACE error; got: {errors:?}"
    );
}

// ── point ──────────────────────────────────────────────────────────────────

#[test]
fn point_match_produces_no_error() {
    let font_faces = make_font_faces(&[(1, "함초롬바탕")]);
    let mut cs = make_char_shape(0, 1, 100, 0);
    cs.height = 1000; // 10pt
    let tables = make_tables_with(cs, font_faces);
    let runs = vec![make_run(0)];

    let spec = CharShapeSpec {
        point_centi: Some(1000),
        ..Default::default()
    };

    let errors = check(&spec, &tables, &runs, CheckLevel::All);
    assert!(
        errors.iter().all(|e| e.error_code != CHARSHAPE_POINT),
        "no CHARSHAPE_POINT error expected; got: {errors:?}"
    );
}

#[test]
fn point_mismatch_produces_point_error() {
    let font_faces = make_font_faces(&[(1, "함초롬바탕")]);
    let mut cs = make_char_shape(0, 1, 100, 0);
    cs.height = 1200; // 12pt, spec wants 10pt
    let tables = make_tables_with(cs, font_faces);
    let runs = vec![make_run(0)];

    let spec = CharShapeSpec {
        point_centi: Some(1000),
        ..Default::default()
    };

    let errors = check(&spec, &tables, &runs, CheckLevel::All);
    assert!(
        errors.iter().any(|e| e.error_code == CHARSHAPE_POINT),
        "expected CHARSHAPE_POINT error; got: {errors:?}"
    );
}

// ── kerning ────────────────────────────────────────────────────────────────

#[test]
fn kerning_mismatch_produces_kerning_error() {
    let font_faces = make_font_faces(&[(1, "함초롬바탕")]);
    let mut cs = make_char_shape(0, 1, 100, 0);
    cs.use_kerning = true; // doc has kerning, spec wants false
    let tables = make_tables_with(cs, font_faces);
    let runs = vec![make_run(0)];

    let spec = CharShapeSpec {
        kerning: Some(false),
        ..Default::default()
    };

    let errors = check(&spec, &tables, &runs, CheckLevel::All);
    assert!(
        errors.iter().any(|e| e.error_code == CHARSHAPE_KERNING),
        "expected CHARSHAPE_KERNING error; got: {errors:?}"
    );
}

// ── check level ───────────────────────────────────────────────────────────

#[test]
fn mod_simple_level_stops_at_first_error() {
    let font_faces = make_font_faces(&[(1, "나눔고딕")]);
    // Create two runs both referencing the same non-compliant charshape.
    let cs = make_char_shape(0, 1, 100, 0);
    let tables = make_tables_with(cs, font_faces);
    let runs = vec![make_run(0), make_run(0)];

    let spec = CharShapeSpec {
        font: vec!["함초롬바탕".to_string()],
        ..Default::default()
    };

    let errors = check(&spec, &tables, &runs, CheckLevel::Simple);
    assert_eq!(
        errors.len(),
        1,
        "Simple level must stop after the first error"
    );
}

#[test]
fn all_level_collects_all_errors() {
    let font_faces = make_font_faces(&[(1, "나눔고딕")]);
    let cs = make_char_shape(0, 1, 100, 0);
    let tables = make_tables_with(cs, font_faces);
    // Two runs both violating the font rule.
    let runs = vec![make_run(0), make_run(0)];

    let spec = CharShapeSpec {
        font: vec!["함초롬바탕".to_string()],
        ..Default::default()
    };

    let errors = check(&spec, &tables, &runs, CheckLevel::All);
    assert_eq!(
        errors.len(),
        2,
        "All level must collect errors for every run"
    );
}

// ── run metadata propagation ───────────────────────────────────────────────

#[test]
fn error_carries_run_metadata() {
    let font_faces = make_font_faces(&[(1, "나눔고딕")]);
    let cs = make_char_shape(42, 1, 100, 0);
    let tables = make_tables_with(cs, font_faces);
    let run = RunTypeInfo {
        char_pr_id_ref: 42,
        para_pr_id_ref: 7,
        text: "Hello".to_string(),
        is_in_table: true,
        table_id: 3,
        table_row: 1,
        table_col: 2,
        ..Default::default()
    };
    let runs = vec![run];

    let spec = CharShapeSpec {
        font: vec!["함초롬바탕".to_string()],
        ..Default::default()
    };

    let errors = check(&spec, &tables, &runs, CheckLevel::All);
    assert_eq!(errors.len(), 1);
    let e = &errors[0];
    assert_eq!(e.char_pr_id_ref, 42);
    assert_eq!(e.para_pr_id_ref, 7);
    assert_eq!(e.text, "Hello");
    assert!(e.is_in_table);
    assert_eq!(e.table_id, 3);
    assert_eq!(e.table_row, 1);
    assert_eq!(e.table_col, 2);
    assert!(
        e.error_code >= 1000 && e.error_code < 2000,
        "error code must be in CharShape range"
    );
}

// ── bg_border presence check ───────────────────────────────────────────────

#[test]
fn bg_border_absent_when_spec_requires_produces_error() {
    let font_faces = make_font_faces(&[(1, "함초롬바탕")]);
    let mut cs = make_char_shape(0, 1, 100, 0);
    cs.border_fill_id_ref = 0; // no border fill referenced
    let tables = make_tables_with(cs, font_faces);
    let runs = vec![make_run(0)];

    let spec = CharShapeSpec {
        border: Some(CharShapeBorderSpec {
            position: Some(1),
            bordertype: Some(1),
            size_nm: Some(120_000),
            color: Some("#000000".to_string()),
        }),
        ..Default::default()
    };

    let errors = check(&spec, &tables, &runs, CheckLevel::All);
    assert!(
        errors.iter().any(|e| e.error_code == CHARSHAPE_BG_BORDER),
        "expected CHARSHAPE_BG_BORDER error when border_fill_id_ref=0; got: {errors:?}"
    );
}

#[test]
fn bg_border_present_with_spec_does_not_produce_error() {
    let font_faces = make_font_faces(&[(1, "함초롬바탕")]);
    let mut cs = make_char_shape(0, 1, 100, 0);
    cs.border_fill_id_ref = 1; // border fill is referenced
    let tables = make_tables_with(cs, font_faces);
    let runs = vec![make_run(0)];

    let spec = CharShapeSpec {
        border: Some(CharShapeBorderSpec {
            position: Some(1),
            bordertype: Some(1),
            size_nm: Some(120_000),
            color: Some("#000000".to_string()),
        }),
        ..Default::default()
    };

    let errors = check(&spec, &tables, &runs, CheckLevel::All);
    assert!(
        errors.iter().all(|e| e.error_code != CHARSHAPE_BG_BORDER),
        "no CHARSHAPE_BG_BORDER error expected when border_fill present; got: {errors:?}"
    );
}
