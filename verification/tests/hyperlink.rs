use hwp_dvc_core::checker::hyperlink::check;
use hwp_dvc_core::document::RunTypeInfo;
use hwp_dvc_core::error::HYPERLINK_PERMISSION;
use hwp_dvc_core::spec::HyperlinkSpec;
use hwp_dvc_core::ErrorCode;

fn hyperlink_run() -> RunTypeInfo {
    RunTypeInfo {
        is_hyperlink: true,
        text: "click me".to_owned(),
        char_pr_id_ref: 1,
        ..Default::default()
    }
}

fn plain_run() -> RunTypeInfo {
    RunTypeInfo {
        is_hyperlink: false,
        text: "plain text".to_owned(),
        ..Default::default()
    }
}

#[test]
fn permission_true_emits_no_errors() {
    let spec = HyperlinkSpec { permission: true };
    let runs = vec![hyperlink_run(), plain_run()];
    let errors = check(&spec, &runs);
    assert!(errors.is_empty(), "permission=true must never produce errors; got {errors:?}");
}

#[test]
fn permission_false_emits_error_for_hyperlink_run() {
    let spec = HyperlinkSpec { permission: false };
    let runs = vec![hyperlink_run(), plain_run()];
    let errors = check(&spec, &runs);
    assert_eq!(errors.len(), 1, "expected exactly one error for one hyperlink run; got {errors:?}");
    assert_eq!(errors[0].error_code, HYPERLINK_PERMISSION);
    assert!(errors[0].use_hyperlink);
    assert_eq!(errors[0].text, "click me");
}

#[test]
fn permission_false_no_hyperlinks_emits_no_errors() {
    let spec = HyperlinkSpec { permission: false };
    let runs = vec![plain_run(), plain_run()];
    let errors = check(&spec, &runs);
    assert!(errors.is_empty(), "no hyperlink runs means no errors; got {errors:?}");
}

#[test]
fn permission_false_multiple_hyperlinks_emits_one_error_each() {
    let spec = HyperlinkSpec { permission: false };
    let runs = vec![hyperlink_run(), hyperlink_run(), plain_run()];
    let errors = check(&spec, &runs);
    assert_eq!(errors.len(), 2, "two hyperlink runs produce two errors; got {errors:?}");
    for e in &errors {
        assert_eq!(e.error_code, HYPERLINK_PERMISSION);
    }
}

#[test]
fn error_code_is_in_hyperlink_range() {
    assert!(HYPERLINK_PERMISSION >= ErrorCode::Hyperlink.code(), "HYPERLINK_PERMISSION must be >= 6900");
    assert!(HYPERLINK_PERMISSION < ErrorCode::Macro.code(), "HYPERLINK_PERMISSION must be < 7000 (next category)");
}
