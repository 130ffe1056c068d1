use hwp_dvc_core::checker::numbering::num_shape_to_str;
use hwp_dvc_core::checker::outline_shape::check;
use hwp_dvc_core::document::header::types::{HeadingType, Numbering, ParaHead, ParaShape};
use hwp_dvc_core::document::{Document, HeaderTables, RunTypeInfo};
use hwp_dvc_core::error::{
    OUTLINESHAPE_LEVELTYPE, OUTLINESHAPE_LEVELTYPE_LEVEL, OUTLINESHAPE_LEVEL_NUMBERSHAPE,
    OUTLINESHAPE_LEVEL_NUMBERTYPE, OUTLINESHAPE_STARTNUMBER, OUTLINESHAPE_VALUE,
};
use hwp_dvc_core::spec::{LevelType, OutlineShapeSpec};

// -----------------------------------------------------------------------
// Helpers
// -----------------------------------------------------------------------

/// Build a minimal [`Document`] with one run referencing a given
/// paragraph shape. The paragraph shape has the supplied heading type,
/// heading level. The `outline_shape_id_ref` on the run is set to
/// `numbering_id` to mirror the section-level `outlineShapeIDRef`
/// path used by the validator.
fn doc_with_outline_para(
    para_id: u32,
    numbering_id: u32,
    heading_level: u32, // 0-indexed (heading_level=0 → level 1)
    numbering: Numbering,
) -> Document {
    let mut header = HeaderTables::default();

    let ps = ParaShape {
        id: para_id,
        heading_type: HeadingType::Outline,
        heading_id_ref: 0, // always 0 for section-wide outline shapes
        heading_level,
        ..Default::default()
    };
    header.para_shapes.insert(para_id, ps);
    header.numberings.insert(numbering_id, numbering);

    let run = RunTypeInfo {
        para_pr_id_ref: para_id,
        // The section's outlineShapeIDRef maps to the numbering id.
        outline_shape_id_ref: numbering_id,
        ..Default::default()
    };

    Document {
        header: Some(header),
        run_type_infos: vec![run],
        ..Default::default()
    }
}

/// Build a one-level [`Numbering`] with the given `num_format` and
/// `num_format_text` at level 1.  `start` defaults to 0.
fn one_level_numbering(id: u32, num_format: &str, num_format_text: &str) -> Numbering {
    Numbering {
        id,
        start: 0,
        para_heads: vec![ParaHead {
            level: 1,
            num_format: num_format.into(),
            num_format_text: num_format_text.into(),
            ..Default::default()
        }],
    }
}

/// Build a one-level [`Numbering`] with an explicit top-level `start` value.
fn one_level_numbering_with_start(
    id: u32,
    numbering_start: u32,
    num_format: &str,
    num_format_text: &str,
    para_head_start: u32,
) -> Numbering {
    Numbering {
        id,
        start: numbering_start,
        para_heads: vec![ParaHead {
            level: 1,
            start: para_head_start,
            num_format: num_format.into(),
            num_format_text: num_format_text.into(),
            ..Default::default()
        }],
    }
}

/// A spec with a single `LevelType` entry at level 1.
fn spec_for_level1(numbertype: Option<&str>, numbershape: u32) -> OutlineShapeSpec {
    OutlineShapeSpec {
        leveltype: vec![LevelType {
            level: 1,
            numbertype: numbertype.map(str::to_string),
            numbershape,
        }],
        ..Default::default()
    }
}

// -----------------------------------------------------------------------
// Passing cases
// -----------------------------------------------------------------------

/// When the document's outline level 1 matches the spec exactly, no errors.
#[test]
fn matching_numbershape_and_numbertype_produces_no_errors() {
    // level 1: DIGIT ("^1.")  → spec ordinal 0, numbertype "^1."
    let num = one_level_numbering(1, "DIGIT", "^1.");
    let doc = doc_with_outline_para(0, 1, 0, num);
    let spec = spec_for_level1(Some("^1."), 0);
    let errors = check(&doc, &spec);
    assert!(
        errors.is_empty(),
        "matching outline spec must produce no errors; got {errors:?}"
    );
}

/// When `numbertype` is absent from the spec, only `numbershape` is checked.
#[test]
fn absent_numbertype_skips_template_check() {
    let num = one_level_numbering(1, "DIGIT", "^1.");
    let doc = doc_with_outline_para(0, 1, 0, num);
    let spec = spec_for_level1(None, 0); // no numbertype in spec
    let errors = check(&doc, &spec);
    assert!(
        errors.is_empty(),
        "absent numbertype must not produce NUMBERTYPE errors; got {errors:?}"
    );
}

/// Non-outline paragraphs (HeadingType::NoHeading) are silently ignored.
#[test]
fn non_outline_paragraphs_are_skipped() {
    let mut header = HeaderTables::default();
    let ps = ParaShape {
        id: 5,
        heading_type: HeadingType::NoHeading, // not an outline paragraph
        ..Default::default()
    };
    header.para_shapes.insert(5, ps);

    let run = RunTypeInfo {
        para_pr_id_ref: 5,
        ..Default::default()
    };

    let doc = Document {
        header: Some(header),
        run_type_infos: vec![run],
        ..Default::default()
    };

    let spec = spec_for_level1(Some("^1."), 0);
    let errors = check(&doc, &spec);
    assert!(
        errors.is_empty(),
        "non-outline paragraphs must not produce errors; got {errors:?}"
    );
}

/// A fully empty spec (no leveltype, no start_number, no value) is a no-op.
#[test]
fn mod_empty_spec_produces_no_errors() {
    let num = one_level_numbering(1, "HANGUL_SYLLABLE", "^2.");
    let doc = doc_with_outline_para(0, 1, 1, num);
    let spec = OutlineShapeSpec::default();
    let errors = check(&doc, &spec);
    assert!(errors.is_empty(), "empty spec must produce no errors");
}

// -----------------------------------------------------------------------
// Failing cases
// -----------------------------------------------------------------------

/// `numbershape` mismatch fires `OUTLINESHAPE_LEVEL_NUMBERSHAPE`.
///
/// **Synthetic fail case**: document has `HANGUL_SYLLABLE` (ordinal 8)
/// at level 1, but the spec requires ordinal 0 (`DIGIT`).
#[test]
fn numbershape_mismatch_fires_error() {
    // Document: level 1, HANGUL_SYLLABLE
    let num = one_level_numbering(1, "HANGUL_SYLLABLE", "^1.");
    let doc = doc_with_outline_para(0, 1, 0, num);
    // Spec: level 1, expects DIGIT (ordinal 0)
    let spec = spec_for_level1(None, 0);
    let errors = check(&doc, &spec);
    assert!(
        errors
            .iter()
            .any(|e| e.error_code == OUTLINESHAPE_LEVEL_NUMBERSHAPE),
        "HANGUL_SYLLABLE vs DIGIT must fire OUTLINESHAPE_LEVEL_NUMBERSHAPE; got {errors:?}"
    );
}

/// `numbertype` mismatch fires `OUTLINESHAPE_LEVEL_NUMBERTYPE`.
///
/// **Synthetic fail case**: document template is `"^1)"` but spec expects `"^1."`.
#[test]
fn numbertype_mismatch_fires_error() {
    let num = one_level_numbering(1, "DIGIT", "^1)"); // wrong suffix
    let doc = doc_with_outline_para(0, 1, 0, num);
    let spec = spec_for_level1(Some("^1."), 0); // expects "^1."
    let errors = check(&doc, &spec);
    assert!(
        errors
            .iter()
            .any(|e| e.error_code == OUTLINESHAPE_LEVEL_NUMBERTYPE),
        "wrong numbertype must fire OUTLINESHAPE_LEVEL_NUMBERTYPE; got {errors:?}"
    );
}

/// Duplicate `para_pr_id_ref`s produce at most one error per shape
/// (deduplication by para shape id).
#[test]
fn duplicate_para_ids_produce_one_error() {
    let mut header = HeaderTables::default();

    let ps = ParaShape {
        id: 3,
        heading_type: HeadingType::Outline,
        heading_id_ref: 0, // section-wide; actual numbering key is on run
        heading_level: 0,
        ..Default::default()
    };
    header.para_shapes.insert(3, ps);
    header.numberings.insert(
        1,
        Numbering {
            id: 1,
            start: 0,
            para_heads: vec![ParaHead {
                level: 1,
                num_format: "HANGUL_SYLLABLE".into(), // wrong
                num_format_text: "^1.".into(),
                ..Default::default()
            }],
        },
    );

    // Three runs all referencing the same para shape.
    let make_run = || RunTypeInfo {
        para_pr_id_ref: 3,
        outline_shape_id_ref: 1, // section outline shape → numbering id 1
        ..Default::default()
    };

    let doc = Document {
        header: Some(header),
        run_type_infos: vec![make_run(), make_run(), make_run()],
        ..Default::default()
    };

    let spec = spec_for_level1(None, 0); // expects DIGIT
    let errors = check(&doc, &spec);
    let shape_errors: Vec<_> = errors
        .iter()
        .filter(|e| e.error_code == OUTLINESHAPE_LEVEL_NUMBERSHAPE)
        .collect();
    assert_eq!(
        shape_errors.len(),
        1,
        "three runs with the same para_pr_id_ref must produce exactly one NUMBERSHAPE error"
    );
}

// -----------------------------------------------------------------------
// New sub-code tests: STARTNUMBER (3202), VALUE (3203),
//                     LEVELTYPE (3204), LEVELTYPE_LEVEL (3205)
// -----------------------------------------------------------------------

/// `start_number` mismatch fires `OUTLINESHAPE_STARTNUMBER` (3202).
///
/// The spec declares `start_number: 1` but the document's `<hh:numbering
/// start="0"/>` has start=0.
#[test]
fn start_number_mismatch_fires_error() {
    // numbering_start=0, para_head_start=0, format="DIGIT"
    let num = one_level_numbering_with_start(1, 0, "DIGIT", "^1.", 0);
    let doc = doc_with_outline_para(0, 1, 0, num);
    let spec = OutlineShapeSpec {
        start_number: Some(1), // document has 0, expects 1
        leveltype: vec![LevelType {
            level: 1,
            numbertype: None,
            numbershape: 0, // DIGIT
        }],
        ..Default::default()
    };
    let errors = check(&doc, &spec);
    assert!(
        errors
            .iter()
            .any(|e| e.error_code == OUTLINESHAPE_STARTNUMBER),
        "start_number mismatch must fire OUTLINESHAPE_STARTNUMBER (3202); got {errors:?}"
    );
}

/// When `start_number` matches, no `OUTLINESHAPE_STARTNUMBER` error.
#[test]
fn matching_start_number_produces_no_error() {
    let num = one_level_numbering_with_start(1, 1, "DIGIT", "^1.", 1);
    let doc = doc_with_outline_para(0, 1, 0, num);
    let spec = OutlineShapeSpec {
        start_number: Some(1), // matches
        leveltype: vec![LevelType {
            level: 1,
            numbertype: None,
            numbershape: 0, // DIGIT
        }],
        ..Default::default()
    };
    let errors = check(&doc, &spec);
    let start_errors: Vec<_> = errors
        .iter()
        .filter(|e| e.error_code == OUTLINESHAPE_STARTNUMBER)
        .collect();
    assert!(
        start_errors.is_empty(),
        "matching start_number must not produce STARTNUMBER errors; got {errors:?}"
    );
}

/// `value` mismatch fires `OUTLINESHAPE_VALUE` (3203).
///
/// The spec declares `value: 1` (expected per-level start) but the
/// document's `<hh:paraHead start="0"/>` has start=0.
#[test]
fn value_mismatch_fires_error() {
    // para_head_start=0, but spec expects value=1
    let num = one_level_numbering_with_start(1, 0, "DIGIT", "^1.", 0);
    let doc = doc_with_outline_para(0, 1, 0, num);
    let spec = OutlineShapeSpec {
        value: Some(1), // expects per-level start=1; document has 0
        leveltype: vec![LevelType {
            level: 1,
            numbertype: None,
            numbershape: 0,
        }],
        ..Default::default()
    };
    let errors = check(&doc, &spec);
    assert!(
        errors.iter().any(|e| e.error_code == OUTLINESHAPE_VALUE),
        "value mismatch must fire OUTLINESHAPE_VALUE (3203); got {errors:?}"
    );
}

/// When `value` matches, no `OUTLINESHAPE_VALUE` error.
#[test]
fn matching_value_produces_no_error() {
    let num = one_level_numbering_with_start(1, 0, "DIGIT", "^1.", 1);
    let doc = doc_with_outline_para(0, 1, 0, num);
    let spec = OutlineShapeSpec {
        value: Some(1), // matches para_head_start=1
        leveltype: vec![LevelType {
            level: 1,
            numbertype: None,
            numbershape: 0,
        }],
        ..Default::default()
    };
    let errors = check(&doc, &spec);
    let val_errors: Vec<_> = errors
        .iter()
        .filter(|e| e.error_code == OUTLINESHAPE_VALUE)
        .collect();
    assert!(
        val_errors.is_empty(),
        "matching value must not produce VALUE errors; got {errors:?}"
    );
}

/// Level-count mismatch fires `OUTLINESHAPE_LEVELTYPE` (3204).
///
/// The spec has 2 leveltype entries but the document only declares 1
/// `<hh:paraHead>` level — the level-count wrapper is violated.
#[test]
fn level_count_mismatch_fires_leveltype_error() {
    // Document: only 1 level (level 1).
    let num = one_level_numbering(1, "DIGIT", "^1.");
    let doc = doc_with_outline_para(0, 1, 0, num);
    // Spec: 2 levels — document has only 1.
    let spec = OutlineShapeSpec {
        leveltype: vec![
            LevelType {
                level: 1,
                numbertype: None,
                numbershape: 0,
            },
            LevelType {
                level: 2,
                numbertype: None,
                numbershape: 0,
            },
        ],
        ..Default::default()
    };
    let errors = check(&doc, &spec);
    assert!(
        errors
            .iter()
            .any(|e| e.error_code == OUTLINESHAPE_LEVELTYPE),
        "level count mismatch must fire OUTLINESHAPE_LEVELTYPE (3204); got {errors:?}"
    );
}

/// `level` index within a `leveltype` entry that is not sequential fires
/// `OUTLINESHAPE_LEVELTYPE_LEVEL` (3205).
///
/// The spec's `leveltype` array must have entries with `level` values that
/// are sequential 1-indexed integers (entry 0 → level 1, entry 1 → level 2,
/// …). If an entry's `level` field skips or repeats an index, 3205 fires.
///
/// **Synthetic fail case**: spec declares two entries with levels `[1, 3]`
/// (gap at 2 — entry index 1 should be level 2 but is level 3).
#[test]
fn level_index_mismatch_fires_leveltype_level_error() {
    // Two-level numbering (para_heads at levels 1 and 3).
    let num = Numbering {
        id: 1,
        start: 0,
        para_heads: vec![
            ParaHead {
                level: 1,
                num_format: "DIGIT".into(),
                num_format_text: "^1.".into(),
                ..Default::default()
            },
            ParaHead {
                level: 3, // note: level 2 is skipped
                num_format: "DIGIT".into(),
                num_format_text: "^2.".into(),
                ..Default::default()
            },
        ],
    };
    let doc = doc_with_outline_para(0, 1, 0, num); // heading_level=0 → para_level=1
                                                   // Spec leveltype entries at index 0 → level=1 (ok) and index 1 → level=3 (bad; expected 2).
    let spec = OutlineShapeSpec {
        leveltype: vec![
            LevelType {
                level: 1,
                numbertype: None,
                numbershape: 0,
            },
            LevelType {
                level: 3,
                numbertype: None,
                numbershape: 0,
            }, // wrong: expected level=2
        ],
        ..Default::default()
    };
    let errors = check(&doc, &spec);
    assert!(
        errors
            .iter()
            .any(|e| e.error_code == OUTLINESHAPE_LEVELTYPE_LEVEL),
        "non-sequential level index must fire OUTLINESHAPE_LEVELTYPE_LEVEL (3205); got {errors:?}"
    );
}

// -----------------------------------------------------------------------
// num_shape_to_str (via shared numbering helper)
// -----------------------------------------------------------------------

#[test]
fn ordinal_mapping_spot_checks() {
    assert_eq!(num_shape_to_str(0), Some("DIGIT"));
    assert_eq!(num_shape_to_str(1), Some("CIRCLED_DIGIT"));
    assert_eq!(num_shape_to_str(8), Some("HANGUL_SYLLABLE"));
    assert_eq!(num_shape_to_str(9), Some("CIRCLED_HANGUL_SYLLABLE"));
    assert_eq!(num_shape_to_str(10), Some("HANGUL_JAMO"));
    assert_eq!(num_shape_to_str(16), Some("DECAGON_CIRCLE_HANJA"));
    assert_eq!(num_shape_to_str(99), None); // unknown → None
}
