use hwp_dvc_core::document::header::types::Style;
use hwp_dvc_core::document::run_type::{build_run_type_infos, default_style_id};
use hwp_dvc_core::document::section::{Cell, Paragraph, Row, Run, Section, Table};
use hwp_dvc_core::document::HeaderTables;

fn header_with_default_style(id: u32) -> HeaderTables {
    let mut h = HeaderTables::default();
    h.styles.insert(
        id,
        Style {
            id,
            style_type: "PARA".into(),
            name: "바탕글".into(),
            ..Default::default()
        },
    );
    h
}

fn plain_paragraph(style_id_ref: u32, para_pr_id_ref: u32, text: &str) -> Paragraph {
    Paragraph {
        para_pr_id_ref,
        style_id_ref,
        runs: vec![Run {
            char_pr_id_ref: 0,
            text: text.into(),
            is_hyperlink: false,
        }],
        tables: Vec::new(),
    }
}

#[test]
fn emits_one_info_per_run_top_level() {
    let h = header_with_default_style(0);
    let mut s = Section::default();
    s.paragraphs.push(Paragraph {
        para_pr_id_ref: 0,
        style_id_ref: 0,
        runs: vec![
            Run {
                char_pr_id_ref: 1,
                text: "hello".into(),
                is_hyperlink: false,
            },
            Run {
                char_pr_id_ref: 2,
                text: " world".into(),
                is_hyperlink: false,
            },
        ],
        tables: Vec::new(),
    });

    let infos = build_run_type_infos(&h, &[s]);
    assert_eq!(infos.len(), 2);
    assert_eq!(infos[0].text, "hello");
    assert_eq!(infos[0].char_pr_id_ref, 1);
    assert_eq!(infos[1].text, " world");
    assert_eq!(infos[1].char_pr_id_ref, 2);
    // Plain top-level runs: table flags off, page/line zero.
    for i in &infos {
        assert!(!i.is_in_table);
        assert!(!i.is_in_table_in_table);
        assert_eq!(i.page_no, 0);
        assert_eq!(i.line_no, 0);
    }
}

#[test]
fn flags_hyperlink_runs() {
    let h = header_with_default_style(0);
    let mut s = Section::default();
    s.paragraphs.push(Paragraph {
        para_pr_id_ref: 0,
        style_id_ref: 0,
        runs: vec![
            Run {
                char_pr_id_ref: 0,
                text: "plain".into(),
                is_hyperlink: false,
            },
            Run {
                char_pr_id_ref: 0,
                text: "linked".into(),
                is_hyperlink: true,
            },
        ],
        tables: Vec::new(),
    });
    let infos = build_run_type_infos(&h, &[s]);
    assert!(!infos[0].is_hyperlink);
    assert!(infos[1].is_hyperlink);
}

#[test]
fn flags_styled_paragraph_against_default_style() {
    // 바탕글 has id=7 in this synthetic header — a paragraph with
    // style_id_ref=0 is therefore *not* the default (is_style=true),
    // and style_id_ref=7 is the default (is_style=false).
    let h = header_with_default_style(7);
    let mut s = Section::default();
    s.paragraphs.push(plain_paragraph(0, 0, "not default"));
    s.paragraphs.push(plain_paragraph(7, 0, "default style"));

    let infos = build_run_type_infos(&h, &[s]);
    assert!(infos[0].is_style, "id=0 is not 바탕글(id=7) here");
    assert!(!infos[1].is_style, "id=7 is 바탕글 in this fixture");
}

#[test]
fn flags_table_and_table_in_table() {
    let h = header_with_default_style(0);
    let mut s = Section::default();

    // Build a 1x1 table whose cell contains a 1x1 nested table
    // whose cell contains a paragraph. The outermost paragraph
    // carries no text but owns the outer table.
    let inner_para = Paragraph {
        para_pr_id_ref: 0,
        style_id_ref: 0,
        runs: vec![Run {
            char_pr_id_ref: 0,
            text: "deep".into(),
            is_hyperlink: false,
        }],
        tables: Vec::new(),
    };
    let inner_table = Table {
        id: 222,
        border_fill_id_ref: 0,
        row_cnt: 1,
        col_cnt: 1,
        rows: vec![Row {
            cells: vec![Cell {
                row: 0,
                col: 0,
                border_fill_id_ref: 0,
                paragraphs: vec![inner_para],
            }],
        }],
        nesting_depth: 1,
        ..Table::default()
    };
    let middle_para = Paragraph {
        para_pr_id_ref: 0,
        style_id_ref: 0,
        runs: vec![Run {
            char_pr_id_ref: 0,
            text: "middle".into(),
            is_hyperlink: false,
        }],
        tables: vec![inner_table],
    };
    let outer_table = Table {
        id: 111,
        border_fill_id_ref: 0,
        row_cnt: 1,
        col_cnt: 1,
        rows: vec![Row {
            cells: vec![Cell {
                row: 0,
                col: 0,
                border_fill_id_ref: 0,
                paragraphs: vec![middle_para],
            }],
        }],
        nesting_depth: 0,
        ..Table::default()
    };
    s.paragraphs.push(Paragraph {
        para_pr_id_ref: 0,
        style_id_ref: 0,
        runs: Vec::new(),
        tables: vec![outer_table],
    });

    let infos = build_run_type_infos(&h, &[s]);
    // Two runs in total: one in the outer cell's paragraph
    // ("middle"), one in the inner cell's paragraph ("deep").
    assert_eq!(infos.len(), 2);

    let middle = infos.iter().find(|i| i.text == "middle").unwrap();
    assert!(middle.is_in_table);
    assert!(!middle.is_in_table_in_table);
    assert_eq!(middle.table_id, 111);

    let deep = infos.iter().find(|i| i.text == "deep").unwrap();
    assert!(deep.is_in_table);
    assert!(deep.is_in_table_in_table, "inner table has depth 1");
    assert_eq!(deep.table_id, 222, "innermost table id is stamped");
}

#[test]
fn copies_outline_shape_id_ref_from_section() {
    let h = header_with_default_style(0);
    let s = Section {
        outline_shape_id_ref: 42,
        paragraphs: vec![plain_paragraph(0, 0, "hi")],
        ..Default::default()
    };

    let infos = build_run_type_infos(&h, &[s]);
    assert_eq!(infos[0].outline_shape_id_ref, 42);
}

#[test]
fn default_style_id_falls_back_to_zero_when_style_missing() {
    // A header with no 바탕글 entry at all (a malformed document)
    // must still return a sensible u32 rather than panic.
    let h = HeaderTables::default();
    assert_eq!(default_style_id(&h), 0);
}
