use hwp_dvc_core::checker::table::check;
use hwp_dvc_core::checker::{CheckLevel, DvcErrorInfo, OutputScope};
use hwp_dvc_core::document::header::types::{BorderFill, CellFillBrush};
use hwp_dvc_core::document::section::{Cell, Paragraph, Row, Section, Table};
use hwp_dvc_core::document::{Document, HeaderTables, HwpxArchive};
use hwp_dvc_core::messages::{english_of, error_string_lang};
use hwp_dvc_core::output::to_xml;
use hwp_dvc_core::spec::TableSpec;
use hwp_dvc_core::{error_string, ErrorContext};

fn table_with(id: u32, inner: Option<Table>) -> Table {
    let paragraphs = match inner {
        Some(t) => vec![Paragraph { tables: vec![t], ..Default::default() }],
        None => vec![],
    };
    Table {
        id,
        rows: vec![Row { cells: vec![Cell { paragraphs, ..Default::default() }] }],
        ..Default::default()
    }
}

#[test]
fn all_tables_walks_nested_tables_in_document_order() {
    let s = Section {
        paragraphs: vec![Paragraph {
            tables: vec![table_with(1, Some(table_with(11, None))), table_with(2, Some(table_with(12, None)))],
            ..Default::default()
        }],
        ..Default::default()
    };
    let ids: Vec<u32> = s.all_tables().iter().map(|t| t.id).collect();
    assert_eq!(ids, vec![1, 11, 2, 12]);
}

fn detail_document(face: &str) -> Document {
    let mut h = HeaderTables::new();
    h.border_fills.insert(
        5,
        BorderFill {
            id: 5,
            has_fill_brush: true,
            fill_brush: Some(CellFillBrush::Solid { face: face.into(), hatch: "#000000".into(), alpha: 0 }),
            ..Default::default()
        },
    );
    let table = Table {
        id: 1,
        rows: vec![Row { cells: vec![Cell { border_fill_id_ref: 5, ..Default::default() }] }],
        ..Default::default()
    };
    let mut doc = Document::from_archive(HwpxArchive::default());
    doc.header = Some(h);
    doc.sections = vec![Section {
        paragraphs: vec![Paragraph { tables: vec![table], ..Default::default() }],
        ..Default::default()
    }];
    doc
}

fn detail_codes(face: &str) -> Vec<u32> {
    let doc = detail_document(face);
    let spec = TableSpec { bgfill_facecolor: Some(0), ..Default::default() };
    let scope = OutputScope { table_detail: true, ..Default::default() };
    check(&doc, &spec, CheckLevel::All, scope).unwrap().iter().map(|e| e.error_code).collect()
}

#[test]
fn face_colour_none_is_an_unfilled_cell() {
    assert!(!detail_codes("none").contains(&3038));
    assert!(!detail_codes("NONE").contains(&3038));
}

#[test]
fn concrete_face_colour_that_differs_is_reported() {
    assert!(detail_codes("#FF0000").contains(&3038));
    assert!(!detail_codes("#000000").contains(&3038));
}

#[test]
fn english_of_carries_the_quoted_font_and_bullet() {
    let ko = error_string(1004, ErrorContext::with_font("바탕"));
    assert_eq!(english_of(1004, &ko), "'바탕' is not an allowed font");
    let ko = error_string(1004, ErrorContext::default());
    assert_eq!(english_of(1004, &ko), "font is not in the allowed list");
    let ctx = ErrorContext { bullet_char: Some("●"), ..Default::default() };
    let ko = error_string(3304, ctx);
    assert_eq!(english_of(3304, &ko), error_string_lang(3304, ctx, true));
    let ko = error_string(3304, ErrorContext::default());
    assert_eq!(english_of(3304, &ko), "bullet character is not in the allowed list");
    let ko = error_string(6901, ErrorContext::default());
    assert_eq!(english_of(6901, &ko), "use of hyperlinks is not allowed");
}


fn finding() -> DvcErrorInfo {
    DvcErrorInfo {
        char_pr_id_ref: 3,
        para_pr_id_ref: 0,
        text: "a<b".into(),
        page_no: 1,
        line_no: 0,
        error_code: 1004,
        table_id: 0,
        is_in_table: false,
        is_in_table_in_table: false,
        table_row: 0,
        table_col: 12,
        is_in_shape: false,
        use_hyperlink: false,
        use_style: false,
        error_string: String::new(),
    }
}

#[test]
fn xml_output_of_no_findings() {
    assert_eq!(
        to_xml(&[], false).unwrap(),
        "<?xml version=\"1.0\" encoding=\"UTF-8\"?><dvcErrors></dvcErrors>"
    );
}

#[test]
fn xml_output_lists_fields_in_order() {
    let s = to_xml(&[finding()], false).unwrap();
    assert_eq!(
        s,
        "<?xml version=\"1.0\" encoding=\"UTF-8\"?><dvcErrors><error>\
         <charIDRef>3</charIDRef><paraPrIDRef>0</paraPrIDRef><text>a&lt;b</text>\
         <pageNo>1</pageNo><lineNo>0</lineNo><errorCode>1004</errorCode><tableID>0</tableID>\
         <isInTable>false</isInTable><isInTableInTable>false</isInTableInTable>\
         <tableRow>0</tableRow><tableCol>12</tableCol></error></dvcErrors>"
    );
}

#[test]
fn pretty_xml_output_is_indented() {
    let s = to_xml(&[finding()], true).unwrap();
    assert!(s.contains("\n  <error>\n    <charIDRef>3</charIDRef>\n"));
    assert!(s.ends_with("\n  </error>\n</dvcErrors>"));
}

use hwp_dvc_core::checker::char_shape::check_char_shape_to_check_list;
use hwp_dvc_core::checker::table::check_table;
use hwp_dvc_core::document::header::types::CharShape;
use hwp_dvc_core::spec::{CharShapeBorderSpec, CharShapeSpec};

#[test]
fn table_findings_carry_the_table_identity_and_keep_earlier_ones() {
    let table = Table { id: 9, nesting_depth: 1, ..Default::default() };
    let spec = TableSpec { table_in_table: Some(false), ..Default::default() };
    let mut errors = vec![finding()];
    check_table(&table, &spec, &HeaderTables::new(), CheckLevel::All, &mut errors);
    assert_eq!(errors[0].error_code, 1004);
    assert!(errors.len() > 1);
    for e in &errors[1..] {
        assert_eq!(e.table_id, 9);
        assert!(e.is_in_table);
        assert_eq!((e.table_row, e.table_col), (0, 0));
        assert!(e.text.is_empty());
    }
}

#[test]
fn shape_without_font_names_is_flagged_when_fonts_are_listed() {
    let cs = CharShape { id: 4, ..Default::default() };
    let spec = CharShapeSpec {
        font: vec!["바탕".into()],
        border: Some(CharShapeBorderSpec::default()),
        ..Default::default()
    };
    let mut v = Vec::new();
    check_char_shape_to_check_list(&cs, &spec, &[], &mut v);
    assert!(v.iter().all(|x| x.char_pr_id == 4));
    assert!(v.iter().any(|x| x.error_code == 1004 && x.font_name.is_none()));
    assert!(v.iter().any(|x| x.error_code == 1032));
    let spec = CharShapeSpec::default();
    let mut v = Vec::new();
    check_char_shape_to_check_list(&cs, &spec, &[], &mut v);
    assert!(v.is_empty());
}

use hwp_dvc_core::document::header::parser::parse_width_nm;
use hwp_dvc_core::document::header::types::{Border, LineType};
use hwp_dvc_core::spec::BorderSpec;

fn border_codes(width: &str) -> Vec<u32> {
    let mut h = HeaderTables::new();
    let edge = Border { line_type: LineType::Solid, width_nm: parse_width_nm(width), color: "#000000".into() };
    h.border_fills.insert(7, BorderFill { id: 7, left: edge, ..Default::default() });
    let table = Table { id: 2, border_fill_id_ref: 7, ..Default::default() };
    let spec = TableSpec {
        border: vec![BorderSpec { position: 1, bordertype: 1, size_nm: 120_000, color: 0 }],
        ..Default::default()
    };
    let mut errors = Vec::new();
    check_table(&table, &spec, &h, CheckLevel::All, &mut errors);
    errors.iter().map(|e| e.error_code).collect()
}

#[test]
fn border_width_keeps_digits_past_the_micrometre() {
    assert_eq!(parse_width_nm("0.1256 mm"), 125_600);
    assert_eq!(border_codes("0.1256 mm"), vec![3034]);
    assert_eq!(border_codes("0.125 mm"), Vec::<u32>::new());
    assert_eq!(border_codes("0.12 mm"), Vec::<u32>::new());
    assert_eq!(border_codes("0.114 mm"), vec![3034]);
}
