use std::collections::HashMap;

use hwp_dvc_core::checker::char_shape;
use hwp_dvc_core::checker::table;
use hwp_dvc_core::checker::{CheckLevel, OutputScope, ScopeCategory};
use hwp_dvc_core::document::header::types::{CharShape, FontFace, FontLang};
use hwp_dvc_core::document::section::{Paragraph, Section, Table};
use hwp_dvc_core::document::{Document, HeaderTables, RunTypeInfo};
use hwp_dvc_core::error::{CHARSHAPE_BOLD, CHARSHAPE_FONT, TABLE_IN_TABLE, TABLE_SIZE_WIDTH};
use hwp_dvc_core::spec::{CharShapeSpec, IntRange, TableSpec};

const CATEGORIES: [ScopeCategory; 5] = [
    ScopeCategory::Shape,
    ScopeCategory::Table,
    ScopeCategory::Style,
    ScopeCategory::Hyperlink,
    ScopeCategory::Ungated,
];

#[test]
fn default_and_all_scopes_report_every_category() {
    let default_scope = OutputScope::default();
    assert!(default_scope.is_default());
    let all = OutputScope { all: true, style: true, ..Default::default() };
    for c in CATEGORIES {
        assert!(default_scope.allows(c));
        assert!(all.allows(c));
    }
    let only_style = OutputScope { style: true, ..Default::default() };
    assert!(only_style.allows(ScopeCategory::Style));
    assert!(only_style.allows(ScopeCategory::Ungated));
    assert!(!only_style.allows(ScopeCategory::Shape));
    assert!(!only_style.allows(ScopeCategory::Table));
    assert!(!only_style.allows(ScopeCategory::Hyperlink));
    let detail = OutputScope { table_detail: true, ..Default::default() };
    assert!(detail.allows(ScopeCategory::Table));
}

fn shape_tables() -> HeaderTables {
    let mut face = FontFace { lang: FontLang::Hangul, fonts: HashMap::new() };
    face.fonts.insert(0, "나눔고딕".to_string());
    let mut h = HeaderTables::default();
    h.font_faces.push(face);
    h.char_shapes.insert(3, CharShape { id: 3, bold: true, ..Default::default() });
    h
}

#[test]
fn simple_level_keeps_the_first_finding_of_the_full_level() {
    let h = shape_tables();
    let runs = vec![
        RunTypeInfo { char_pr_id_ref: 3, text: "a".into(), ..Default::default() },
        RunTypeInfo { char_pr_id_ref: 3, text: "b".into(), ..Default::default() },
    ];
    let spec = CharShapeSpec { font: vec!["함초롬바탕".to_string()], bold: Some(false), ..Default::default() };
    let all = char_shape::check(&spec, &h, &runs, CheckLevel::All);
    let codes: Vec<u32> = all.iter().map(|e| e.error_code).collect();
    // Violation by violation, each reported on every run using the shape.
    assert_eq!(codes, vec![CHARSHAPE_FONT, CHARSHAPE_FONT, CHARSHAPE_BOLD, CHARSHAPE_BOLD]);
    assert_eq!(all[1].text, "b");
    let simple = char_shape::check(&spec, &h, &runs, CheckLevel::Simple);
    assert_eq!(simple.len(), 1);
    assert_eq!(simple[0].error_code, all[0].error_code);
    assert_eq!(simple[0].text, all[0].text);
    for e in &all {
        assert!((1000..2000).contains(&e.error_code));
    }
}

fn wide_table(id: u32, depth: u32) -> Table {
    Table { id, width: 99_999, nesting_depth: depth, ..Table::default() }
}

fn document_with_tables() -> Document {
    let mut s = Section::default();
    s.paragraphs.push(Paragraph { tables: vec![wide_table(1, 0), wide_table(2, 0)], ..Default::default() });
    Document { header: Some(HeaderTables::default()), sections: vec![s], ..Default::default() }
}

#[test]
fn table_check_reports_at_most_one_finding_at_simple_level() {
    let doc = document_with_tables();
    let spec = TableSpec {
        size_width: Some(IntRange { min: 0, max: 100 }),
        table_in_table: Some(false),
        ..TableSpec::default()
    };
    let all = table::check(&doc, &spec, CheckLevel::All, OutputScope::default()).unwrap();
    let ids: Vec<u32> = all.iter().map(|e| e.table_id).collect();
    assert_eq!(ids, vec![1, 2]);
    for e in &all {
        assert_eq!(e.error_code, TABLE_SIZE_WIDTH);
        assert!(e.error_code >= 3000 && e.error_code <= TABLE_IN_TABLE);
    }
    let simple = table::check(&doc, &spec, CheckLevel::Simple, OutputScope::default()).unwrap();
    assert_eq!(simple.len(), 1);
    assert_eq!(simple[0].table_id, 1);
}

#[test]
fn table_check_without_header_reports_nothing() {
    let mut doc = document_with_tables();
    doc.header = None;
    let spec = TableSpec { size_width: Some(IntRange { min: 0, max: 100 }), ..TableSpec::default() };
    assert!(table::check(&doc, &spec, CheckLevel::All, OutputScope::default()).unwrap().is_empty());
}
