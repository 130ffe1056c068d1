use hwp_dvc_core::checker::numbering::{check_level_sequence, num_shape_to_str};
use hwp_dvc_core::checker::DvcErrorInfo;
use hwp_dvc_core::document::header::types::{Numbering, ParaHead};
use hwp_dvc_core::document::RunTypeInfo;
use hwp_dvc_core::spec::LevelType;

// Sentinel error codes for tests — use values that don't collide with real codes.
const CODE_LT: u32 = 9901;
const CODE_LL: u32 = 9902;

fn run() -> RunTypeInfo {
    RunTypeInfo::default()
}

fn numbering_with_n_levels(n: usize) -> Numbering {
    Numbering {
        id: 1,
        start: 0,
        para_heads: (1..=(n as u32))
            .map(|lvl| ParaHead {
                level: lvl,
                ..Default::default()
            })
            .collect(),
    }
}

fn levels_sequential(n: u32) -> Vec<LevelType> {
    (1..=n)
        .map(|l| LevelType {
            level: l,
            numbertype: None,
            numbershape: 0,
        })
        .collect()
}

// -----------------------------------------------------------------------
// num_shape_to_str
// -----------------------------------------------------------------------

#[test]
fn num_shape_known_ordinals() {
    assert_eq!(num_shape_to_str(0), Some("DIGIT"));
    assert_eq!(num_shape_to_str(8), Some("HANGUL_SYLLABLE"));
    assert_eq!(num_shape_to_str(16), Some("DECAGON_CIRCLE_HANJA"));
}

#[test]
fn num_shape_unknown_ordinal_returns_none() {
    assert_eq!(num_shape_to_str(17), None);
    assert_eq!(num_shape_to_str(99), None);
}

// -----------------------------------------------------------------------
// check_level_sequence — no errors
// -----------------------------------------------------------------------

#[test]
fn empty_spec_levels_emits_no_errors() {
    let num = numbering_with_n_levels(3);
    let mut errors: Vec<DvcErrorInfo> = Vec::new();
    let pushed = check_level_sequence(&run(), &num, &[], CODE_LT, CODE_LL, &mut errors);
    assert_eq!(pushed, 0);
    assert!(errors.is_empty());
}

#[test]
fn matching_count_and_sequential_levels_emits_no_errors() {
    let num = numbering_with_n_levels(3);
    let levels = levels_sequential(3);
    let mut errors: Vec<DvcErrorInfo> = Vec::new();
    let pushed = check_level_sequence(&run(), &num, &levels, CODE_LT, CODE_LL, &mut errors);
    assert_eq!(pushed, 0);
    assert!(errors.is_empty());
}

// -----------------------------------------------------------------------
// check_level_sequence — level-count mismatch
// -----------------------------------------------------------------------

#[test]
fn count_mismatch_emits_leveltype_error() {
    let num = numbering_with_n_levels(1); // doc has 1 level
    let levels = levels_sequential(2); // spec has 2 levels
    let mut errors: Vec<DvcErrorInfo> = Vec::new();
    check_level_sequence(&run(), &num, &levels, CODE_LT, CODE_LL, &mut errors);
    assert!(
        errors.iter().any(|e| e.error_code == CODE_LT),
        "count mismatch must push CODE_LT"
    );
}

// -----------------------------------------------------------------------
// check_level_sequence — level-index mismatch
// -----------------------------------------------------------------------

#[test]
fn non_sequential_level_emits_leveltype_level_error() {
    let num = numbering_with_n_levels(2);
    // Spec entry at index 1 has level=3, expected level=2.
    let levels = vec![
        LevelType {
            level: 1,
            numbertype: None,
            numbershape: 0,
        },
        LevelType {
            level: 3,
            numbertype: None,
            numbershape: 0,
        },
    ];
    let mut errors: Vec<DvcErrorInfo> = Vec::new();
    check_level_sequence(&run(), &num, &levels, CODE_LT, CODE_LL, &mut errors);
    assert!(
        errors.iter().any(|e| e.error_code == CODE_LL),
        "non-sequential level must push CODE_LL"
    );
}

#[test]
fn only_one_level_level_error_per_numbering() {
    // Two out-of-sequence entries — but only one error should be emitted.
    let num = numbering_with_n_levels(3);
    let levels = vec![
        LevelType {
            level: 2,
            numbertype: None,
            numbershape: 0,
        }, // wrong (idx=0 → expected 1)
        LevelType {
            level: 3,
            numbertype: None,
            numbershape: 0,
        }, // also wrong
        LevelType {
            level: 4,
            numbertype: None,
            numbershape: 0,
        }, // also wrong
    ];
    let mut errors: Vec<DvcErrorInfo> = Vec::new();
    check_level_sequence(&run(), &num, &levels, CODE_LT, CODE_LL, &mut errors);
    let ll_errors: Vec<_> = errors.iter().filter(|e| e.error_code == CODE_LL).collect();
    assert_eq!(ll_errors.len(), 1, "at most one CODE_LL error per call");
}
