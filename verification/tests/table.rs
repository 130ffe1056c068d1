use hwp_dvc_core::checker::table::{
    border_type_to_line_type, caption_pos_from_str, check_table, color_u32_to_hex,
    horz_align_from_str, horz_rel_to_from_str, num_type_from_str, pos_type_from_str,
    text_pos_from_str,
};
use hwp_dvc_core::checker::CheckLevel;
use hwp_dvc_core::document::header::types::LineType;
use hwp_dvc_core::document::section::Table;
use hwp_dvc_core::document::HeaderTables;
use hwp_dvc_core::error::{
    TABLE_BORDER_CELL_SPACING, TABLE_BORDER_COLOR, TABLE_BORDER_SIZE, TABLE_BORDER_TYPE, TABLE_CAPTION_LINE_WRAP, TABLE_CAPTION_POSITION, TABLE_CAPTION_SIZE, TABLE_CAPTION_SOCAP_FULL_SIZE, TABLE_CAPTION_SPACING, TABLE_GRADIENT_H, TABLE_GRADIENT_V, TABLE_HDIRECTION, TABLE_HTYPE, TABLE_HVALUE, TABLE_IN_TABLE, TABLE_MARGIN_BOTTOM, TABLE_MARGIN_LEFT, TABLE_MARGIN_RIGHT, TABLE_MARGIN_TOP, TABLE_NUM_VER_TYPE, TABLE_OBJ_PROTECT, TABLE_PARALLEL, TABLE_POS, TABLE_ROTATION, TABLE_SIZE_FIXED, TABLE_SIZE_HEIGHT, TABLE_SIZE_WIDTH, TABLE_SOALLOW_OVERLAP, TABLE_SOFLOW_WITH_TEXT, TABLE_SOHOLD_ANCHOR_OBJ, TABLE_TEXT_POS, TABLE_TREAT_AS_CHAR, TABLE_VDIRECTION, TABLE_VTYPE, TABLE_VVALUE,
};
use hwp_dvc_core::spec::{IntRange, TableSpec};

#[test]
fn border_type_solid_maps_correctly() {
    assert_eq!(border_type_to_line_type(1), LineType::Solid);
    assert_eq!(border_type_to_line_type(0), LineType::NoLine);
    assert_eq!(border_type_to_line_type(2), LineType::Dash);
}

#[test]
fn color_u32_to_hex_black() {
    assert_eq!(color_u32_to_hex(0), "#000000");
}

#[test]
fn color_u32_to_hex_red() {
    assert_eq!(color_u32_to_hex(0x00FF0000), "#FF0000");
}

#[test]
fn color_u32_to_hex_masks_high_byte() {
    // High byte should be ignored
    assert_eq!(color_u32_to_hex(0xFF000000), "#000000");
}

// ── Enum-string mappers ────────────────────────────────────────────

#[test]
fn pos_type_maps_known_literals() {
    assert_eq!(pos_type_from_str("TOP_AND_BOTTOM"), Some(0));
    assert_eq!(pos_type_from_str("SQUARE"), Some(3));
    assert_eq!(pos_type_from_str("BEHIND_TEXT"), Some(2));
    assert_eq!(pos_type_from_str(""), None);
    assert_eq!(pos_type_from_str("INVALID"), None);
}

#[test]
fn text_pos_maps_known_literals() {
    assert_eq!(text_pos_from_str("BOTH_SIDES"), Some(0));
    assert_eq!(text_pos_from_str("LEFT_ONLY"), Some(1));
    assert_eq!(text_pos_from_str("LARGEST_ONLY"), Some(3));
    assert_eq!(text_pos_from_str(""), None);
}

#[test]
fn horz_rel_to_maps_known_literals() {
    assert_eq!(horz_rel_to_from_str("PAPER"), Some(0));
    assert_eq!(horz_rel_to_from_str("COLUMN"), Some(2));
    assert_eq!(horz_rel_to_from_str("PARA"), Some(3));
}

#[test]
fn horz_align_maps_known_literals() {
    assert_eq!(horz_align_from_str("LEFT"), Some(0));
    assert_eq!(horz_align_from_str("CENTER"), Some(1));
    assert_eq!(horz_align_from_str("OUTSIDE"), Some(4));
}

#[test]
fn num_type_maps_known_literals() {
    assert_eq!(num_type_from_str("TABLE"), Some(2));
    assert_eq!(num_type_from_str("EQUATION"), Some(3));
    assert_eq!(num_type_from_str(""), None);
}

#[test]
fn caption_pos_maps_known_literals() {
    assert_eq!(caption_pos_from_str("TOP"), Some(1));
    assert_eq!(caption_pos_from_str("BOTTOM"), Some(7));
    assert_eq!(caption_pos_from_str(""), None);
}

// ── Error-code constant parity ─────────────────────────────────────

#[test]
fn standard_mode_error_codes_match_reference_jsonmodel() {
    // The table codes are the table category base plus fixed offsets.
    assert_eq!(TABLE_SIZE_WIDTH, 3001);
    assert_eq!(TABLE_SIZE_HEIGHT, 3002);
    assert_eq!(TABLE_SIZE_FIXED, 3003);
    assert_eq!(TABLE_TREAT_AS_CHAR, 3004);
    assert_eq!(TABLE_POS, 3005);
    assert_eq!(TABLE_TEXT_POS, 3006);
    assert_eq!(TABLE_HTYPE, 3007);
    assert_eq!(TABLE_HDIRECTION, 3008);
    assert_eq!(TABLE_HVALUE, 3009);
    assert_eq!(TABLE_VTYPE, 3010);
    assert_eq!(TABLE_VDIRECTION, 3011);
    assert_eq!(TABLE_VVALUE, 3012);
    assert_eq!(TABLE_SOFLOW_WITH_TEXT, 3013);
    assert_eq!(TABLE_SOALLOW_OVERLAP, 3014);
    assert_eq!(TABLE_SOHOLD_ANCHOR_OBJ, 3015);
    assert_eq!(TABLE_PARALLEL, 3016);
    assert_eq!(TABLE_ROTATION, 3017);
    assert_eq!(TABLE_GRADIENT_H, 3018);
    assert_eq!(TABLE_GRADIENT_V, 3019);
    assert_eq!(TABLE_NUM_VER_TYPE, 3020);
    assert_eq!(TABLE_OBJ_PROTECT, 3021);
    assert_eq!(TABLE_MARGIN_LEFT, 3022);
    assert_eq!(TABLE_MARGIN_RIGHT, 3023);
    assert_eq!(TABLE_MARGIN_TOP, 3024);
    assert_eq!(TABLE_MARGIN_BOTTOM, 3025);
    assert_eq!(TABLE_CAPTION_POSITION, 3026);
    assert_eq!(TABLE_CAPTION_SIZE, 3027);
    assert_eq!(TABLE_CAPTION_SPACING, 3028);
    assert_eq!(TABLE_CAPTION_SOCAP_FULL_SIZE, 3029);
    assert_eq!(TABLE_CAPTION_LINE_WRAP, 3030);
    assert_eq!(TABLE_BORDER_TYPE, 3033);
    assert_eq!(TABLE_BORDER_SIZE, 3034);
    assert_eq!(TABLE_BORDER_COLOR, 3035);
    assert_eq!(TABLE_BORDER_CELL_SPACING, 3036);
    assert_eq!(TABLE_IN_TABLE, 3056);
}

// ── Caption checks via synthetic Table AST ─────────────────────────
//
// No committed HWPX fixture carries an `<hp:caption>` element (the
// public sample documents ship without captions). We therefore
// exercise the caption path by assembling a `Table` AST directly —
// which also catches the "has_caption gate" logic in `check_table`.

fn caption_table(side: &str, size: u32, spacing: i32) -> Table {
    Table {
        id: 12345,
        has_caption: true,
        caption_side: side.to_string(),
        caption_size: size,
        caption_spacing: spacing,
        caption_full_size: false,
        caption_line_wrap: true,
        // The caption checker doesn't touch these, but they're
        // required to construct a valid Table.
        ..Table::default()
    }
}

fn empty_header() -> HeaderTables {
    HeaderTables::default()
}

#[test]
fn caption_position_mismatch_generates_caption_position_error() {
    let table = caption_table("TOP", 100, 50);
    // side=TOP maps to 1; demand BOTTOM (=7).
    let spec = TableSpec {
        caption_position: Some(7),
        ..TableSpec::default()
    };
    let mut errors = Vec::new();
    check_table(&table, &spec, &empty_header(), CheckLevel::All, &mut errors);
    assert!(errors
        .iter()
        .any(|e| e.error_code == TABLE_CAPTION_POSITION));
}

#[test]
fn caption_size_and_spacing_out_of_range_generate_errors() {
    let table = caption_table("TOP", 100, 50);
    let spec = TableSpec {
        caption_size: Some(IntRange {
            min: 500,
            max: 1000,
        }),
        caption_spacing: Some(IntRange { min: 0, max: 10 }),
        ..TableSpec::default()
    };
    let mut errors = Vec::new();
    check_table(&table, &spec, &empty_header(), CheckLevel::All, &mut errors);
    assert!(errors.iter().any(|e| e.error_code == TABLE_CAPTION_SIZE));
    assert!(errors.iter().any(|e| e.error_code == TABLE_CAPTION_SPACING));
}

#[test]
fn caption_full_size_and_linewrap_mismatch_generate_errors() {
    let table = caption_table("TOP", 100, 50);
    // table has full_size=false, line_wrap=true
    let spec = TableSpec {
        caption_socapfullsize: Some(true),
        caption_linewrap: Some(false),
        ..TableSpec::default()
    };
    let mut errors = Vec::new();
    check_table(&table, &spec, &empty_header(), CheckLevel::All, &mut errors);
    assert!(errors
        .iter()
        .any(|e| e.error_code == TABLE_CAPTION_SOCAP_FULL_SIZE));
    assert!(errors
        .iter()
        .any(|e| e.error_code == TABLE_CAPTION_LINE_WRAP));
}

#[test]
fn no_caption_document_skips_all_caption_checks() {
    // Construct a table with has_caption=false. All caption spec
    // fields must be ignored.
    let table = Table {
        id: 1,
        has_caption: false,
        ..Table::default()
    };
    let spec = TableSpec {
        caption_position: Some(99),
        caption_size: Some(IntRange { min: 0, max: 0 }),
        caption_spacing: Some(IntRange { min: 0, max: 0 }),
        caption_socapfullsize: Some(true),
        caption_linewrap: Some(true),
        ..TableSpec::default()
    };
    let mut errors = Vec::new();
    check_table(&table, &spec, &empty_header(), CheckLevel::All, &mut errors);
    assert!(
        errors.is_empty(),
        "caption checks must be a no-op without a caption; got {errors:?}"
    );
}

#[test]
fn simple_level_stops_at_first_error() {
    // A synthetic table that triggers three range failures, in the
    // order the checker evaluates them (size_width before
    // size_height before fixed). With CheckLevel::Simple, only the
    // first error should be recorded.
    let table = Table {
        id: 1,
        width: 99999,
        height: 99999,
        size_protect: false,
        ..Table::default()
    };
    let spec = TableSpec {
        size_width: Some(IntRange { min: 0, max: 100 }),
        size_height: Some(IntRange { min: 0, max: 100 }),
        fixed: Some(true),
        ..TableSpec::default()
    };
    let mut errors = Vec::new();
    check_table(
        &table,
        &spec,
        &empty_header(),
        CheckLevel::Simple,
        &mut errors,
    );
    assert_eq!(errors.len(), 1, "simple-level must bail after one error");
    assert_eq!(errors[0].error_code, TABLE_SIZE_WIDTH);
}

#[test]
fn all_level_collects_every_violation() {
    let table = Table {
        id: 1,
        width: 99999,
        height: 99999,
        size_protect: false,
        ..Table::default()
    };
    let spec = TableSpec {
        size_width: Some(IntRange { min: 0, max: 100 }),
        size_height: Some(IntRange { min: 0, max: 100 }),
        fixed: Some(true),
        ..TableSpec::default()
    };
    let mut errors = Vec::new();
    check_table(&table, &spec, &empty_header(), CheckLevel::All, &mut errors);
    let codes: Vec<u32> = errors.iter().map(|e| e.error_code).collect();
    assert!(codes.contains(&TABLE_SIZE_WIDTH));
    assert!(codes.contains(&TABLE_SIZE_HEIGHT));
    assert!(codes.contains(&TABLE_SIZE_FIXED));
}
