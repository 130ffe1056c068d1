use hwp_dvc_core::{error_string, ErrorContext};

fn ctx() -> ErrorContext<'static> {
    ErrorContext::default()
}

// ── Korean output (default) ───────────────────────────────────────────────

#[test]
fn charshape_font_without_name_contains_glyph_word() {
    let msg = error_string(1004, ctx());
    assert!(
        msg.contains("글꼴"),
        "1004 without name must mention 글꼴: {msg}"
    );
}

#[test]
fn charshape_font_with_name_contains_font_name_and_glyph_word() {
    let msg = error_string(1004, ErrorContext::with_font("나눔고딕"));
    assert!(msg.contains("나눔고딕"), "must include font name: {msg}");
    assert!(msg.contains("글꼴"), "must mention 글꼴: {msg}");
}

#[test]
fn charshape_ratio_message_is_korean() {
    let msg = error_string(1007, ctx());
    assert!(!msg.is_empty(), "1007 must have a message");
    // Korean text is non-ASCII — verify the message contains Korean
    assert!(
        msg.chars().any(|c| c > '\u{0080}'),
        "1007 message must contain Korean characters: {msg}"
    );
}

#[test]
fn charshape_spacing_message_is_korean() {
    let msg = error_string(1008, ctx());
    assert!(!msg.is_empty(), "1008 must have a message");
}

#[test]
fn parashape_linespacing_message_is_korean() {
    let msg = error_string(2007, ctx());
    assert!(!msg.is_empty(), "2007 must have a message");
    assert!(msg.chars().any(|c| c > '\u{0080}'));
}

#[test]
fn table_in_table_message_is_korean() {
    let msg = error_string(3056, ctx());
    assert!(!msg.is_empty(), "3056 must have a message");
    assert!(msg.contains("표"), "must mention 표 (table): {msg}");
}

#[test]
fn bullet_shapes_without_char_contains_bullet_word() {
    let msg = error_string(3304, ctx());
    assert!(
        msg.contains("글머리표"),
        "3304 without char must mention 글머리표: {msg}"
    );
}

#[test]
fn bullet_shapes_with_char_contains_char() {
    let ctx = ErrorContext {
        bullet_char: Some("□"),
        ..Default::default()
    };
    let msg = error_string(3304, ctx);
    assert!(
        msg.contains("□"),
        "3304 with char must include the char: {msg}"
    );
    assert!(msg.contains("글머리표"), "must mention 글머리표: {msg}");
}

#[test]
fn hyperlink_message_is_korean() {
    let msg = error_string(6901, ctx());
    assert!(!msg.is_empty(), "6901 must have a message");
    assert!(msg.contains("하이퍼링크"), "must mention 하이퍼링크: {msg}");
}

#[test]
fn macro_message_contains_macro_word() {
    let msg = error_string(7001, ctx());
    assert!(!msg.is_empty(), "7001 must have a message");
    assert!(msg.contains("매크로"), "must mention 매크로: {msg}");
}

#[test]
fn style_message_is_korean() {
    let msg = error_string(3502, ctx());
    assert!(!msg.is_empty(), "3502 must have a message");
    assert!(msg.contains("스타일"), "must mention 스타일: {msg}");
}

#[test]
fn unknown_code_returns_empty_string() {
    let msg = error_string(9999, ctx());
    assert!(
        msg.is_empty(),
        "unknown code must return empty string: {msg}"
    );
}

#[test]
fn all_documented_codes_have_non_empty_messages() {
    let codes: &[u32] = &[
        // CharShape (1000-range)
        1001, 1002, 1003, 1004, 1005, 1006, 1007, 1008, 1009, 1010, 1011, 1012, 1013, 1014,
        1015, 1016, 1017, 1018, 1019, 1020, 1021, 1022, 1023, 1024, 1025, 1026, 1027, 1028,
        1029, 1030, 1031, 1032, 1033, 1034, 1035, 1036, 1037, 1038, 1039,
        // ParaShape (2000-range)
        2004, 2005, 2006, 2007, 2008, 2009, 2010, // Table standard-mode (3000-range)
        3004, 3033, 3034, 3035,
        // Table cell-detail (3037-3055) — --tabledetail only
        3037, 3038, 3039, 3040, 3041, 3042, 3043, 3044, 3045, 3046, 3047, 3048, 3049, 3050,
        3051, 3052, 3053, 3054, 3055, 3056, // SpecialCharacter (3100-range)
        3101, 3102, // OutlineShape (3200-range)
        3201, 3206, 3207, // Bullet (3300-range)
        3302, 3303, 3304, // ParaNumBullet (3400-range)
        3401, 3406, 3407, // Style (3500-range)
        3502, // Hyperlink (6900-range)
        6901, // Macro (7000-range)
        7001,
    ];
    for &code in codes {
        let msg = error_string(code, ctx());
        assert!(!msg.is_empty(), "code {code} must have a non-empty message");
    }
}

#[test]
fn table_detail_codes_mention_cell_in_korean() {
    // Each cell-level detail code should begin with "셀" (cell) in Korean.
    let cell_codes: &[u32] = &[
        3037, 3038, 3039, 3040, 3041, 3042, 3043, 3044, 3045, 3046, 3047, 3048, 3049, 3050,
        3051, 3052, 3053, 3054, 3055,
    ];
    for &code in cell_codes {
        let msg = error_string(code, ctx());
        assert!(
            msg.contains("셀"),
            "table-detail code {code} must mention 셀 (cell): {msg}"
        );
    }
}
