use std::collections::HashMap;

use hwp_dvc_core::checker::bullet::check;
use hwp_dvc_core::document::header::types::Bullet;
use hwp_dvc_core::document::HeaderTables;
use hwp_dvc_core::error::{BULLET_CHECKTYPE, BULLET_CODE, BULLET_SHAPES};
use hwp_dvc_core::spec::BulletSpec;

fn make_header_with_bullets(bullets: Vec<Bullet>) -> HeaderTables {
    let mut h = HeaderTables::default();
    for b in bullets {
        h.bullets.insert(b.id, b);
    }
    h
}

fn spec_with_shapes(shapes: &str) -> BulletSpec {
    BulletSpec {
        bulletshapes: Some(shapes.to_string()),
    }
}

fn spec_no_shapes() -> BulletSpec {
    BulletSpec { bulletshapes: None }
}

// ── no spec → skip ────────────────────────────────────────────────────────

#[test]
fn no_bulletshapes_in_spec_produces_no_errors() {
    let header = make_header_with_bullets(vec![Bullet {
        id: 1,
        char: "X".to_string(),
        use_image: false,
    }]);
    let errors = check(&spec_no_shapes(), &header);
    assert!(
        errors.is_empty(),
        "no bulletshapes spec must produce no errors"
    );
}

// ── empty allow-list → skip ────────────────────────────────────────────────

#[test]
fn empty_bulletshapes_string_produces_no_errors() {
    let header = make_header_with_bullets(vec![Bullet {
        id: 1,
        char: "X".to_string(),
        use_image: false,
    }]);
    let spec = BulletSpec {
        bulletshapes: Some(String::new()),
    };
    let errors = check(&spec, &header);
    assert!(errors.is_empty(), "empty allow-list must skip the check");
}

// ── allowed bullets → no errors ───────────────────────────────────────────

#[test]
fn bullet_in_allowlist_produces_no_error() {
    let header = make_header_with_bullets(vec![
        Bullet {
            id: 1,
            char: "□".to_string(),
            use_image: false,
        },
        Bullet {
            id: 2,
            char: "○".to_string(),
            use_image: false,
        },
    ]);
    let spec = spec_with_shapes("□○-•*");
    let errors = check(&spec, &header);
    assert!(
        errors.is_empty(),
        "all bullets in allow-list must produce no errors; got: {errors:?}"
    );
}

// ── disallowed bullet → BULLET_SHAPES error ────────────────────────────────

#[test]
fn bullet_not_in_allowlist_produces_bullet_shapes_error() {
    let header = make_header_with_bullets(vec![Bullet {
        id: 1,
        char: "X".to_string(), // 'X' not in "□○-•*"
        use_image: false,
    }]);
    let spec = spec_with_shapes("□○-•*");
    let errors = check(&spec, &header);
    assert!(
        errors.iter().any(|e| e.error_code == BULLET_SHAPES),
        "bullet 'X' not in allow-list must produce BULLET_SHAPES (3304); got: {errors:?}"
    );
}

// ── image bullets are skipped ──────────────────────────────────────────────

#[test]
fn image_bullet_is_skipped_even_if_char_is_disallowed() {
    let header = make_header_with_bullets(vec![Bullet {
        id: 1,
        char: "X".to_string(),
        use_image: true, // image bullet — char field is irrelevant
    }]);
    let spec = spec_with_shapes("□○-•*");
    let errors = check(&spec, &header);
    assert!(
        errors.is_empty(),
        "image bullets must be skipped regardless of char; got: {errors:?}"
    );
}

// ── mixed bullets: one allowed, one not ───────────────────────────────────

#[test]
fn mixed_bullets_emits_error_only_for_disallowed() {
    let header = make_header_with_bullets(vec![
        Bullet {
            id: 1,
            char: "□".to_string(), // allowed
            use_image: false,
        },
        Bullet {
            id: 2,
            char: "Z".to_string(), // disallowed
            use_image: false,
        },
    ]);
    let spec = spec_with_shapes("□○-•*");
    let errors = check(&spec, &header);
    assert_eq!(
        errors.len(),
        1,
        "only one disallowed bullet; expected 1 error, got: {errors:?}"
    );
    assert_eq!(errors[0].error_code, BULLET_SHAPES);
    assert_eq!(errors[0].error_string, "Z");
}

// ── PUA characters are skipped ────────────────────────────────────────────

#[test]
fn private_use_area_bullet_is_treated_as_allowed() {
    // U+F0A7 is a Wingdings PUA bullet (visual "•" in that font).
    // It must not produce an error regardless of the allow-list.
    let header = make_header_with_bullets(vec![Bullet {
        id: 1,
        char: "\u{F0A7}".to_string(),
        use_image: false,
    }]);
    let spec = spec_with_shapes("□○-•*");
    let errors = check(&spec, &header);
    assert!(
        errors.is_empty(),
        "PUA bullet U+F0A7 must be treated as allowed; got: {errors:?}"
    );
}

// ── empty char is skipped ──────────────────────────────────────────────────

#[test]
fn empty_char_bullet_is_skipped() {
    let header = make_header_with_bullets(vec![Bullet {
        id: 1,
        char: String::new(),
        use_image: false,
    }]);
    let spec = spec_with_shapes("□○-•*");
    let errors = check(&spec, &header);
    assert!(
        errors.is_empty(),
        "empty-char bullet must be skipped; got: {errors:?}"
    );
}

// ── error range check ─────────────────────────────────────────────────────

#[test]
fn bullet_error_constants_have_correct_values() {
    // Use equality assertions (not range assertions on constants) to
    // satisfy `clippy::assertions_on_constants`.
    assert_eq!(BULLET_CHECKTYPE, 3302);
    assert_eq!(BULLET_CODE, 3303);
    assert_eq!(BULLET_SHAPES, 3304);
}

// ── empty bullet table → no errors ────────────────────────────────────────

#[test]
fn empty_bullet_table_produces_no_errors() {
    let header = HeaderTables {
        bullets: HashMap::new(),
        ..Default::default()
    };
    let spec = spec_with_shapes("□○-•*");
    let errors = check(&spec, &header);
    assert!(
        errors.is_empty(),
        "empty bullet table must produce no errors"
    );
}
