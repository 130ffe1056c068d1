use hwp_dvc_core::checker::para_shape::check;
use hwp_dvc_core::document::header::types::{
    HAlign, HeadingType, LineBreakWord, LineSpacing, LineSpacingType as LST, Margin,
    ParaShape as HdrParaShape, VAlign,
};
use hwp_dvc_core::document::{Document, HeaderTables, RunTypeInfo};
use hwp_dvc_core::error::{PARASHAPE_AUTOSPACEEASIANENG, PARASHAPE_HORIZONTAL, PARASHAPE_INDENT, PARASHAPE_LINEBREAKCONDENSE, PARASHAPE_LINEBREAKENGLISH, PARASHAPE_LINEBREAKKOREAN, PARASHAPE_LINESPACING, PARASHAPE_LINESPACINGVALUE, PARASHAPE_MARGINLEFT, PARASHAPE_MARGINRIGHT, PARASHAPE_OUTDENT, PARASHAPE_PARATYPE, PARASHAPE_SPACINGGRIDPAPER, PARASHAPE_SPACINGIGNORE, PARASHAPE_SPACINGPARABOTTOM, PARASHAPE_SPACINGPARAUP, PARASHAPE_VERTICALALIGN, PARASHAPE_WIDOWORPHAN};
use hwp_dvc_core::spec::ParaShapeSpec;

/// Build a minimal [`Document`] with one run referencing para shape `id`.
fn doc_with_para_shape(id: u32, ps: HdrParaShape) -> Document {
    let mut header = HeaderTables::default();
    header.para_shapes.insert(id, ps);

    let run = RunTypeInfo {
        para_pr_id_ref: id,
        ..Default::default()
    };

    Document {
        header: Some(header),
        run_type_infos: vec![run],
        ..Default::default()
    }
}

fn default_spec() -> ParaShapeSpec {
    ParaShapeSpec {
        spacing_paraup: Some(0),
        spacing_parabottom: Some(0),
        linespacing: Some(0),
        linespacingvalue: Some(160),
        indent: Some(0),
        outdent: Some(0),
        ..Default::default()
    }
}

fn default_para_shape(id: u32) -> HdrParaShape {
    HdrParaShape {
        id,
        line_spacing: LineSpacing {
            type_: LST::Percent,
            value: 160,
            unit: "HWPUNIT".into(),
        },
        margin: Margin {
            indent: 0,
            left: 0,
            right: 0,
            prev: 0,
            next: 0,
        },
        ..Default::default()
    }
}

// ── spacing_paraup ────────────────────────────────────────────────────────

#[test]
fn spacing_paraup_pass() {
    let doc = doc_with_para_shape(0, default_para_shape(0));
    let spec = default_spec();
    let errs = check(&doc, &spec);
    assert!(
        errs.iter().all(|e| e.error_code != PARASHAPE_SPACINGPARAUP),
        "no SPACINGPARAUP error expected when margin.prev matches spec"
    );
}

#[test]
fn spacing_paraup_fail() {
    let mut ps = default_para_shape(0);
    ps.margin.prev = 500;
    let doc = doc_with_para_shape(0, ps);
    let spec = default_spec();
    let errs = check(&doc, &spec);
    assert!(
        errs.iter().any(|e| e.error_code == PARASHAPE_SPACINGPARAUP),
        "expected PARASHAPE_SPACINGPARAUP when margin.prev != spec"
    );
}

// ── spacing_parabottom ────────────────────────────────────────────────────

#[test]
fn spacing_parabottom_pass() {
    let doc = doc_with_para_shape(0, default_para_shape(0));
    let errs = check(&doc, &default_spec());
    assert!(errs
        .iter()
        .all(|e| e.error_code != PARASHAPE_SPACINGPARABOTTOM));
}

#[test]
fn spacing_parabottom_fail() {
    let mut ps = default_para_shape(0);
    ps.margin.next = 300;
    let errs = check(&doc_with_para_shape(0, ps), &default_spec());
    assert!(errs
        .iter()
        .any(|e| e.error_code == PARASHAPE_SPACINGPARABOTTOM));
}

// ── linespacing type ──────────────────────────────────────────────────────

#[test]
fn linespacing_type_pass() {
    let doc = doc_with_para_shape(0, default_para_shape(0));
    let errs = check(&doc, &default_spec());
    assert!(errs.iter().all(|e| e.error_code != PARASHAPE_LINESPACING));
}

#[test]
fn linespacing_type_fail() {
    let mut ps = default_para_shape(0);
    ps.line_spacing.type_ = LST::Fixed; // ordinal 1, spec wants 0
    let errs = check(&doc_with_para_shape(0, ps), &default_spec());
    assert!(errs.iter().any(|e| e.error_code == PARASHAPE_LINESPACING));
}

// ── linespacingvalue ──────────────────────────────────────────────────────

#[test]
fn linespacingvalue_pass() {
    let doc = doc_with_para_shape(0, default_para_shape(0));
    let errs = check(&doc, &default_spec());
    assert!(errs
        .iter()
        .all(|e| e.error_code != PARASHAPE_LINESPACINGVALUE));
}

#[test]
fn linespacingvalue_fail() {
    let mut ps = default_para_shape(0);
    ps.line_spacing.value = 200; // spec wants 160
    let errs = check(&doc_with_para_shape(0, ps), &default_spec());
    assert!(errs
        .iter()
        .any(|e| e.error_code == PARASHAPE_LINESPACINGVALUE));
}

// ── indent ────────────────────────────────────────────────────────────────

#[test]
fn indent_pass() {
    let doc = doc_with_para_shape(0, default_para_shape(0));
    let errs = check(&doc, &default_spec());
    assert!(errs.iter().all(|e| e.error_code != PARASHAPE_INDENT));
}

#[test]
fn indent_fail() {
    let mut ps = default_para_shape(0);
    ps.margin.indent = 1000;
    let errs = check(&doc_with_para_shape(0, ps), &default_spec());
    assert!(errs.iter().any(|e| e.error_code == PARASHAPE_INDENT));
}

// ── outdent ───────────────────────────────────────────────────────────────

#[test]
fn outdent_pass() {
    let doc = doc_with_para_shape(0, default_para_shape(0));
    let errs = check(&doc, &default_spec());
    assert!(errs.iter().all(|e| e.error_code != PARASHAPE_OUTDENT));
}

#[test]
fn outdent_fail() {
    let mut ps = default_para_shape(0);
    ps.margin.left = 800;
    let errs = check(&doc_with_para_shape(0, ps), &default_spec());
    assert!(errs.iter().any(|e| e.error_code == PARASHAPE_OUTDENT));
}

// ── horizontal alignment ──────────────────────────────────────────────────

#[test]
fn horizontal_pass() {
    let ps = default_para_shape(0); // h_align defaults to Justify → ordinal 0
    let doc = doc_with_para_shape(0, ps);
    let spec = ParaShapeSpec {
        horizontal: Some(0),
        ..Default::default()
    };
    let errs = check(&doc, &spec);
    assert!(errs.iter().all(|e| e.error_code != PARASHAPE_HORIZONTAL));
}

#[test]
fn horizontal_fail() {
    let mut ps = default_para_shape(0);
    ps.h_align = HAlign::Center; // ordinal 2, spec wants 0 (Justify)
    let doc = doc_with_para_shape(0, ps);
    let spec = ParaShapeSpec {
        horizontal: Some(0),
        ..Default::default()
    };
    let errs = check(&doc, &spec);
    assert!(errs.iter().any(|e| e.error_code == PARASHAPE_HORIZONTAL));
}

// ── margin-left ───────────────────────────────────────────────────────────

#[test]
fn margin_left_pass() {
    let doc = doc_with_para_shape(0, default_para_shape(0));
    let spec = ParaShapeSpec {
        margin_left: Some(0),
        ..Default::default()
    };
    assert!(check(&doc, &spec)
        .iter()
        .all(|e| e.error_code != PARASHAPE_MARGINLEFT));
}

#[test]
fn margin_left_fail() {
    let mut ps = default_para_shape(0);
    ps.margin.left = 200;
    let doc = doc_with_para_shape(0, ps);
    let spec = ParaShapeSpec {
        margin_left: Some(0),
        ..Default::default()
    };
    assert!(check(&doc, &spec)
        .iter()
        .any(|e| e.error_code == PARASHAPE_MARGINLEFT));
}

// ── margin-right ──────────────────────────────────────────────────────────

#[test]
fn margin_right_pass() {
    let doc = doc_with_para_shape(0, default_para_shape(0));
    let spec = ParaShapeSpec {
        margin_right: Some(0),
        ..Default::default()
    };
    assert!(check(&doc, &spec)
        .iter()
        .all(|e| e.error_code != PARASHAPE_MARGINRIGHT));
}

#[test]
fn margin_right_fail() {
    let mut ps = default_para_shape(0);
    ps.margin.right = 200;
    let doc = doc_with_para_shape(0, ps);
    let spec = ParaShapeSpec {
        margin_right: Some(0),
        ..Default::default()
    };
    assert!(check(&doc, &spec)
        .iter()
        .any(|e| e.error_code == PARASHAPE_MARGINRIGHT));
}

// ── snap-to-grid / spacing-gridpaper ──────────────────────────────────────

#[test]
fn spacing_gridpaper_pass() {
    let mut ps = default_para_shape(0);
    ps.snap_to_grid = true;
    let doc = doc_with_para_shape(0, ps);
    let spec = ParaShapeSpec {
        spacing_gridpaper: Some(true),
        ..Default::default()
    };
    assert!(check(&doc, &spec)
        .iter()
        .all(|e| e.error_code != PARASHAPE_SPACINGGRIDPAPER));
}

#[test]
fn spacing_gridpaper_fail() {
    let ps = default_para_shape(0); // snap_to_grid = false by default
    let doc = doc_with_para_shape(0, ps);
    let spec = ParaShapeSpec {
        spacing_gridpaper: Some(true),
        ..Default::default()
    };
    assert!(check(&doc, &spec)
        .iter()
        .any(|e| e.error_code == PARASHAPE_SPACINGGRIDPAPER));
}

// ── linebreak-korean ──────────────────────────────────────────────────────

#[test]
fn linebreak_korean_pass() {
    let mut ps = default_para_shape(0);
    ps.break_non_latin_word = LineBreakWord::BreakWord;
    let doc = doc_with_para_shape(0, ps);
    let spec = ParaShapeSpec {
        linebreak_korean: Some(true),
        ..Default::default()
    };
    assert!(check(&doc, &spec)
        .iter()
        .all(|e| e.error_code != PARASHAPE_LINEBREAKKOREAN));
}

#[test]
fn linebreak_korean_fail() {
    let ps = default_para_shape(0); // break_non_latin_word = KeepWord → false
    let doc = doc_with_para_shape(0, ps);
    let spec = ParaShapeSpec {
        linebreak_korean: Some(true), // expects BreakWord
        ..Default::default()
    };
    assert!(check(&doc, &spec)
        .iter()
        .any(|e| e.error_code == PARASHAPE_LINEBREAKKOREAN));
}

// ── linebreak-english ─────────────────────────────────────────────────────

#[test]
fn linebreak_english_pass() {
    let ps = default_para_shape(0); // break_latin_word = KeepWord → ordinal 0
    let doc = doc_with_para_shape(0, ps);
    let spec = ParaShapeSpec {
        linebreak_english: Some(0),
        ..Default::default()
    };
    assert!(check(&doc, &spec)
        .iter()
        .all(|e| e.error_code != PARASHAPE_LINEBREAKENGLISH));
}

#[test]
fn linebreak_english_fail() {
    let mut ps = default_para_shape(0);
    ps.break_latin_word = LineBreakWord::BreakWord; // ordinal 2
    let doc = doc_with_para_shape(0, ps);
    let spec = ParaShapeSpec {
        linebreak_english: Some(0), // expects KeepWord
        ..Default::default()
    };
    assert!(check(&doc, &spec)
        .iter()
        .any(|e| e.error_code == PARASHAPE_LINEBREAKENGLISH));
}

// ── linebreak-condense ────────────────────────────────────────────────────

#[test]
fn linebreak_condense_pass() {
    let mut ps = default_para_shape(0);
    ps.condense = 50;
    let doc = doc_with_para_shape(0, ps);
    let spec = ParaShapeSpec {
        linebreak_condense: Some(50),
        ..Default::default()
    };
    assert!(check(&doc, &spec)
        .iter()
        .all(|e| e.error_code != PARASHAPE_LINEBREAKCONDENSE));
}

#[test]
fn linebreak_condense_fail() {
    let ps = default_para_shape(0); // condense = 0
    let doc = doc_with_para_shape(0, ps);
    let spec = ParaShapeSpec {
        linebreak_condense: Some(50),
        ..Default::default()
    };
    assert!(check(&doc, &spec)
        .iter()
        .any(|e| e.error_code == PARASHAPE_LINEBREAKCONDENSE));
}

// ── paratype ──────────────────────────────────────────────────────────────

#[test]
fn paratype_pass() {
    let mut ps = default_para_shape(0);
    ps.heading_type = HeadingType::Outline; // ordinal 1
    let doc = doc_with_para_shape(0, ps);
    let spec = ParaShapeSpec {
        paratype: Some(1),
        ..Default::default()
    };
    assert!(check(&doc, &spec)
        .iter()
        .all(|e| e.error_code != PARASHAPE_PARATYPE));
}

#[test]
fn paratype_fail() {
    let ps = default_para_shape(0); // heading_type = None → ordinal 0
    let doc = doc_with_para_shape(0, ps);
    let spec = ParaShapeSpec {
        paratype: Some(1), // expects Outline
        ..Default::default()
    };
    assert!(check(&doc, &spec)
        .iter()
        .any(|e| e.error_code == PARASHAPE_PARATYPE));
}

// ── widow-orphan ──────────────────────────────────────────────────────────

#[test]
fn widow_orphan_pass() {
    let mut ps = default_para_shape(0);
    ps.widow_orphan = true;
    let doc = doc_with_para_shape(0, ps);
    let spec = ParaShapeSpec {
        widow_orphan: Some(true),
        ..Default::default()
    };
    assert!(check(&doc, &spec)
        .iter()
        .all(|e| e.error_code != PARASHAPE_WIDOWORPHAN));
}

#[test]
fn widow_orphan_fail() {
    let ps = default_para_shape(0); // widow_orphan = false by default
    let doc = doc_with_para_shape(0, ps);
    let spec = ParaShapeSpec {
        widow_orphan: Some(true),
        ..Default::default()
    };
    assert!(check(&doc, &spec)
        .iter()
        .any(|e| e.error_code == PARASHAPE_WIDOWORPHAN));
}

// ── autospace-easian-eng ──────────────────────────────────────────────────

#[test]
fn autospace_easian_eng_pass() {
    let mut ps = default_para_shape(0);
    ps.auto_spacing_eng = true;
    let doc = doc_with_para_shape(0, ps);
    let spec = ParaShapeSpec {
        autospace_easian_eng: Some(true),
        ..Default::default()
    };
    assert!(check(&doc, &spec)
        .iter()
        .all(|e| e.error_code != PARASHAPE_AUTOSPACEEASIANENG));
}

#[test]
fn autospace_easian_eng_fail() {
    let ps = default_para_shape(0); // auto_spacing_eng = false
    let doc = doc_with_para_shape(0, ps);
    let spec = ParaShapeSpec {
        autospace_easian_eng: Some(true),
        ..Default::default()
    };
    assert!(check(&doc, &spec)
        .iter()
        .any(|e| e.error_code == PARASHAPE_AUTOSPACEEASIANENG));
}

// ── verticalalign ─────────────────────────────────────────────────────────

#[test]
fn verticalalign_pass() {
    let ps = default_para_shape(0); // v_align defaults to Baseline → ordinal 0
    let doc = doc_with_para_shape(0, ps);
    let spec = ParaShapeSpec {
        verticalalign: Some(0),
        ..Default::default()
    };
    assert!(check(&doc, &spec)
        .iter()
        .all(|e| e.error_code != PARASHAPE_VERTICALALIGN));
}

#[test]
fn verticalalign_fail() {
    let mut ps = default_para_shape(0);
    ps.v_align = VAlign::Center; // ordinal 2
    let doc = doc_with_para_shape(0, ps);
    let spec = ParaShapeSpec {
        verticalalign: Some(0), // expects Baseline
        ..Default::default()
    };
    assert!(check(&doc, &spec)
        .iter()
        .any(|e| e.error_code == PARASHAPE_VERTICALALIGN));
}

// ── spacing-ignore ────────────────────────────────────────────────────────

#[test]
fn spacing_ignore_pass() {
    let mut ps = default_para_shape(0);
    ps.ignore_margin = true;
    let doc = doc_with_para_shape(0, ps);
    let spec = ParaShapeSpec {
        spacing_ignore: Some(true),
        ..Default::default()
    };
    assert!(check(&doc, &spec)
        .iter()
        .all(|e| e.error_code != PARASHAPE_SPACINGIGNORE));
}

#[test]
fn spacing_ignore_fail() {
    let ps = default_para_shape(0); // ignore_margin = false
    let doc = doc_with_para_shape(0, ps);
    let spec = ParaShapeSpec {
        spacing_ignore: Some(true),
        ..Default::default()
    };
    assert!(check(&doc, &spec)
        .iter()
        .any(|e| e.error_code == PARASHAPE_SPACINGIGNORE));
}

// ── optional-field skipping ───────────────────────────────────────────────

#[test]
fn none_spec_fields_are_skipped() {
    let mut ps = default_para_shape(0);
    // Set every field to a non-zero / non-default value.
    ps.margin.prev = 999;
    ps.margin.next = 999;
    ps.margin.indent = 999;
    ps.margin.left = 999;
    ps.line_spacing.value = 999;
    ps.line_spacing.type_ = LST::Fixed;
    ps.h_align = HAlign::Right;
    ps.widow_orphan = true;

    let doc = doc_with_para_shape(0, ps);
    // Spec with all fields None — nothing should fire.
    let spec = ParaShapeSpec::default();
    let errs = check(&doc, &spec);
    assert!(
        errs.is_empty(),
        "no errors expected when all spec fields are None"
    );
}

// ── deduplication ────────────────────────────────────────────────────────

#[test]
fn mod_duplicate_para_pr_id_refs_produce_one_error() {
    let mut ps = default_para_shape(5);
    ps.line_spacing.value = 200;

    let mut header = HeaderTables::default();
    header.para_shapes.insert(5, ps);

    // Three runs, all referencing para shape 5.
    let run_a = RunTypeInfo {
        para_pr_id_ref: 5,
        text: "a".into(),
        ..Default::default()
    };
    let run_b = RunTypeInfo {
        para_pr_id_ref: 5,
        text: "b".into(),
        ..Default::default()
    };
    let run_c = RunTypeInfo {
        para_pr_id_ref: 5,
        text: "c".into(),
        ..Default::default()
    };

    let doc = Document {
        header: Some(header),
        run_type_infos: vec![run_a, run_b, run_c],
        ..Default::default()
    };

    let errs = check(&doc, &default_spec());
    let lsv_errs: Vec<_> = errs
        .iter()
        .filter(|e| e.error_code == PARASHAPE_LINESPACINGVALUE)
        .collect();
    assert_eq!(
        lsv_errs.len(),
        1,
        "duplicate id_refs must produce exactly one error"
    );
}
