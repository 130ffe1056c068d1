use std::io::{Cursor, Write};

use hwp_dvc_core::checker::{CheckLevel, Checker, OutputScope};
use hwp_dvc_core::document::header::parser::parse_header;
use hwp_dvc_core::document::{Document, HwpxArchive};
use hwp_dvc_core::error::{HYPERLINK_PERMISSION, MACRO_PERMISSION, SPECIALCHAR_MIN, STYLE_PERMISSION};
use hwp_dvc_core::spec::{DvcSpec, HyperlinkSpec, MacroSpec, SpecialCharacterSpec, StyleSpec};
use hwp_dvc_core::DvcError;
use zip::write::SimpleFileOptions;
use zip::{CompressionMethod, ZipWriter};

const HEADER: &str = r##"<?xml version="1.0" encoding="UTF-8"?>
<hh:head xmlns:hh="http://www.hancom.co.kr/hwpml/2011/head">
<hh:refList>
<hh:styles itemCnt="2">
<hh:style id="0" type="PARA" name="바탕글" engName="Normal" paraPrIDRef="0" charPrIDRef="0" nextStyleIDRef="0" langID="1042" lockForm="0"/>
<hh:style id="1" type="PARA" name="본문" engName="Body" paraPrIDRef="0" charPrIDRef="0" nextStyleIDRef="1" langID="1042" lockForm="0"/>
</hh:styles>
</hh:refList>
</hh:head>"##;

const SECTION0: &str = r##"<?xml version="1.0" encoding="UTF-8"?>
<hs:sec xmlns:hs="http://www.hancom.co.kr/hwpml/2011/section" xmlns:hp="http://www.hancom.co.kr/hwpml/2011/paragraph">
<hp:p id="1" paraPrIDRef="0" styleIDRef="0">
<hp:run charPrIDRef="0"><hp:t>plain</hp:t></hp:run>
<hp:run charPrIDRef="0"><hp:fieldBegin type="HYPERLINK" name="h" fieldid="1"/><hp:t>link</hp:t></hp:run>
<hp:run charPrIDRef="0"><hp:fieldEnd type="HYPERLINK" fieldid="1"/><hp:t>after</hp:t></hp:run>
</hp:p>
</hs:sec>"##;

const SECTION1: &str = r##"<?xml version="1.0" encoding="UTF-8"?>
<hs:sec xmlns:hs="http://www.hancom.co.kr/hwpml/2011/section" xmlns:hp="http://www.hancom.co.kr/hwpml/2011/paragraph">
<hp:p id="2" paraPrIDRef="0" styleIDRef="1">
<hp:run charPrIDRef="0"><hp:t>styled&#x7;</hp:t></hp:run>
</hp:p>
</hs:sec>"##;

const CONTENT_HPF: &str = r#"<opf:package><opf:manifest><opf:item id="script" href="Scripts/JScript.js"/></opf:manifest></opf:package>"#;

fn zip_bytes(entries: &[(&str, &str)], with_dir: bool) -> Vec<u8> {
    let mut w = ZipWriter::new(Cursor::new(Vec::new()));
    let opts = SimpleFileOptions::default().compression_method(CompressionMethod::Stored);
    if with_dir {
        w.add_directory("Contents/", opts).unwrap();
    }
    for (name, text) in entries {
        w.start_file(*name, opts).unwrap();
        w.write_all(text.as_bytes()).unwrap();
    }
    w.finish().unwrap().into_inner()
}

fn full_archive() -> HwpxArchive {
    // Sections are stored out of order: reading them sorts by number.
    let bytes = zip_bytes(
        &[
            ("Contents/section1.xml", SECTION1),
            ("Contents/header.xml", HEADER),
            ("Contents/section0.xml", SECTION0),
            ("Contents/content.hpf", CONTENT_HPF),
        ],
        true,
    );
    HwpxArchive::from_zip_bytes(bytes).expect("archive opens")
}

#[test]
fn archive_lists_members_in_order_without_directories() {
    let a = full_archive();
    assert_eq!(
        a.part_names(),
        vec![
            "Contents/section1.xml",
            "Contents/header.xml",
            "Contents/section0.xml",
            "Contents/content.hpf"
        ]
    );
    let header = a.part("Contents/header.xml").expect("header part");
    assert_eq!(header.bytes, HEADER.as_bytes());
    assert!(a.part("Contents/").is_none());
    assert!(a.part("missing.xml").is_none());
}

#[test]
fn archive_detects_script_in_manifest() {
    let a = full_archive();
    assert!(a.has_macro());
    let plain = HwpxArchive::from_zip_bytes(zip_bytes(&[("Contents/header.xml", HEADER)], false)).unwrap();
    assert!(!plain.has_macro());
}

#[test]
fn not_a_zip_is_a_zip_error() {
    let r = HwpxArchive::from_zip_bytes(b"definitely not a zip archive".to_vec());
    assert!(matches!(r, Err(DvcError::Zip(_))), "got {r:?}");
}

#[test]
fn sections_are_read_in_numeric_order() {
    let a = full_archive();
    let secs = a.read_sections().expect("sections parse");
    assert_eq!(secs.len(), 2);
    assert_eq!(secs[0].paragraphs[0].runs[0].text, "plain");
    assert_eq!(secs[1].paragraphs[0].runs[0].text, "styled&#x7;");
}

#[test]
fn parse_builds_the_run_stream() {
    let mut doc = Document::from_archive(full_archive());
    doc.parse().expect("document parses");
    assert!(doc.header.is_some());
    assert_eq!(doc.sections.len(), 2);
    let texts: Vec<&str> = doc.run_type_infos.iter().map(|r| r.text.as_str()).collect();
    assert_eq!(texts, vec!["plain", "link", "after", "styled&#x7;"]);
    assert!(doc.run_type_infos[1].is_hyperlink);
    assert!(!doc.run_type_infos[0].is_style);
    assert!(doc.run_type_infos[3].is_style);
    assert_eq!(doc.run_type_infos[3].style_name, "본문");
}

#[test]
fn parse_without_header_fails_and_leaves_document_unchanged() {
    let bytes = zip_bytes(&[("Contents/section0.xml", SECTION0)], false);
    let mut doc = Document::from_archive(HwpxArchive::from_zip_bytes(bytes).unwrap());
    let r = doc.parse();
    match r {
        Err(DvcError::Document(m)) => assert_eq!(m, "missing Contents/header.xml"),
        other => panic!("expected a document error, got {other:?}"),
    }
    assert!(doc.header.is_none());
    assert!(doc.sections.is_empty());
    assert!(doc.run_type_infos.is_empty());
}

#[test]
fn parse_with_malformed_section_fails() {
    let bytes = zip_bytes(
        &[("Contents/header.xml", HEADER), ("Contents/section0.xml", "<hs:sec><hp:p></hs:sec>")],
        false,
    );
    let mut doc = Document::from_archive(HwpxArchive::from_zip_bytes(bytes).unwrap());
    assert!(doc.parse().is_err());
    assert!(doc.header.is_none());
}

fn spec_forbidding_everything() -> DvcSpec {
    DvcSpec {
        hyperlink: Some(HyperlinkSpec { permission: false }),
        style: Some(StyleSpec { permission: false, allowed_types: None }),
        macro_: Some(MacroSpec { permission: false }),
        specialcharacter: Some(SpecialCharacterSpec { minimum: 32, maximum: 1_048_575 }),
        ..Default::default()
    }
}

#[test]
fn checker_reports_validators_in_fixed_order() {
    let mut doc = Document::from_archive(full_archive());
    doc.parse().unwrap();
    let spec = spec_forbidding_everything();
    let errors = Checker::new(&spec, &doc).run().expect("run succeeds");
    let codes: Vec<u32> = errors.iter().map(|e| e.error_code).collect();
    assert_eq!(codes, vec![HYPERLINK_PERMISSION, STYLE_PERMISSION, MACRO_PERMISSION, SPECIALCHAR_MIN]);
    assert_eq!(errors[0].text, "link");
    assert_eq!(errors[3].text, "styled&#x7;");
}

#[test]
fn checker_scope_limits_categories() {
    let mut doc = Document::from_archive(full_archive());
    doc.parse().unwrap();
    let spec = spec_forbidding_everything();
    let checker = Checker {
        spec: &spec,
        document: &doc,
        level: CheckLevel::All,
        scope: OutputScope { hyperlink: true, ..Default::default() },
    };
    let codes: Vec<u32> = checker.run().unwrap().iter().map(|e| e.error_code).collect();
    // Style findings are out of scope; ungated validators still report.
    assert_eq!(codes, vec![HYPERLINK_PERMISSION, MACRO_PERMISSION, SPECIALCHAR_MIN]);
}

#[test]
fn checker_with_empty_spec_reports_nothing() {
    let mut doc = Document::from_archive(full_archive());
    doc.parse().unwrap();
    let spec = DvcSpec::default();
    assert!(Checker::new(&spec, &doc).run().unwrap().is_empty());
}

#[test]
fn bad_integer_attribute_is_a_document_error() {
    let xml = r#"<hh:head><hh:refList><hh:charProperties><hh:charPr id="x1" height="1000"></hh:charPr></hh:charProperties></hh:refList></hh:head>"#;
    match parse_header(xml.as_bytes()) {
        Err(DvcError::Document(m)) => {
            assert_eq!(m, "expected u32 for attribute 'id', got 'x1': invalid digit found in string")
        }
        other => panic!("expected a document error, got {other:?}"),
    }
    let empty = r#"<hh:head><hh:refList><hh:charProperties><hh:charPr id="" height="1000"></hh:charPr></hh:charProperties></hh:refList></hh:head>"#;
    match parse_header(empty.as_bytes()) {
        Err(DvcError::Document(m)) => {
            assert_eq!(m, "expected u32 for attribute 'id', got '': cannot parse integer from empty string")
        }
        other => panic!("expected a document error, got {other:?}"),
    }
}

#[test]
fn manifest_that_is_not_utf8_declares_no_script() {
    let mut w = ZipWriter::new(Cursor::new(Vec::new()));
    let opts = SimpleFileOptions::default().compression_method(CompressionMethod::Stored);
    w.start_file("Contents/content.hpf", opts).unwrap();
    w.write_all(b"<opf:item href=\"a.js\"/>\xff\xfe").unwrap();
    let bytes = w.finish().unwrap().into_inner();
    let a = HwpxArchive::from_zip_bytes(bytes).unwrap();
    assert!(!a.has_macro());
}

#[test]
fn json_is_the_default_output_format() {
    assert_eq!(hwp_dvc_core::output::Format::default(), hwp_dvc_core::output::Format::Json);
    assert_ne!(hwp_dvc_core::output::Format::Xml, hwp_dvc_core::output::Format::Json);
}

#[test]
fn checker_in_english_reports_english_messages() {
    let mut doc = Document::from_archive(full_archive());
    doc.parse().unwrap();
    let spec = spec_forbidding_everything();
    let checker = Checker::new(&spec, &doc);
    let ko = checker.run().unwrap();
    let en = checker.run_with_language(true).unwrap();
    let codes: Vec<u32> = en.iter().map(|e| e.error_code).collect();
    assert_eq!(codes, ko.iter().map(|e| e.error_code).collect::<Vec<u32>>());
    assert_eq!(en[0].error_string, "use of hyperlinks is not allowed");
    assert_eq!(en[1].error_string, "use of custom styles is not allowed");
    assert_ne!(ko[0].error_string, en[0].error_string);
    let same = checker.run_with_language(false).unwrap();
    assert_eq!(same[0].error_string, ko[0].error_string);
}
