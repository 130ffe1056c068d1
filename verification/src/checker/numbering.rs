//! Shared pieces of the two numbering validators (outline and paragraph
//! numbering): the number-shape names, the level-sequence check and the
//! run-based finding.

use vstd::prelude::*;
use crate::checker::{error_from_run, error_views, lemma_error_views_push, run_error, DvcErrorInfo, ErrorView};
use crate::document::header::types::Numbering;
use crate::document::run_type::{RunTypeInfo, RunView};
use crate::messages::{error_string, plain_message, ErrorContext};
use crate::spec::LevelType;

verus! {

/// The `numFormat` name of a number-shape ordinal.
pub open spec fn num_shape_name(ordinal: u32) -> Option<Seq<char>> {
    match ordinal {
        0u32 => Some("DIGIT"@),
        1u32 => Some("CIRCLED_DIGIT"@),
        2u32 => Some("ROMAN_CAPITAL"@),
        3u32 => Some("ROMAN_SMALL"@),
        4u32 => Some("LATIN_CAPITAL"@),
        5u32 => Some("LATIN_SMALL"@),
        6u32 => Some("CIRCLED_LATIN_CAPITAL"@),
        7u32 => Some("CIRCLED_LATIN_SMALL"@),
        8u32 => Some("HANGUL_SYLLABLE"@),
        9u32 => Some("CIRCLED_HANGUL_SYLLABLE"@),
        10u32 => Some("HANGUL_JAMO"@),
        11u32 => Some("CIRCLED_HANGUL_JAMO"@),
        12u32 => Some("HANGUL_PHONETIC"@),
        13u32 => Some("IDEOGRAPH"@),
        14u32 => Some("CIRCLED_IDEOGRAPH"@),
        15u32 => Some("DECAGON_CIRCLE"@),
        16u32 => Some("DECAGON_CIRCLE_HANJA"@),
        _ => None,
    }
}

/// Map a number-shape ordinal to its `numFormat` name; `None` for an
/// unknown ordinal.
pub fn num_shape_to_str(ordinal: u32) -> (r: Option<&'static str>)
    ensures
        match r {
            Some(s) => num_shape_name(ordinal) == Some(s@),
            None => num_shape_name(ordinal) is None,
        },
{
    match ordinal {
        0 => Some("DIGIT"),
        1 => Some("CIRCLED_DIGIT"),
        2 => Some("ROMAN_CAPITAL"),
        3 => Some("ROMAN_SMALL"),
        4 => Some("LATIN_CAPITAL"),
        5 => Some("LATIN_SMALL"),
        6 => Some("CIRCLED_LATIN_CAPITAL"),
        7 => Some("CIRCLED_LATIN_SMALL"),
        8 => Some("HANGUL_SYLLABLE"),
        9 => Some("CIRCLED_HANGUL_SYLLABLE"),
        10 => Some("HANGUL_JAMO"),
        11 => Some("CIRCLED_HANGUL_JAMO"),
        12 => Some("HANGUL_PHONETIC"),
        13 => Some("IDEOGRAPH"),
        14 => Some("CIRCLED_IDEOGRAPH"),
        15 => Some("DECAGON_CIRCLE"),
        16 => Some("DECAGON_CIRCLE_HANJA"),
        _ => None,
    }
}

/// The finding a numbering validator reports for run `r`.
pub open spec fn numbering_error(r: RunView, code: u32) -> ErrorView {
    run_error(r, code, r.is_hyperlink, r.is_style, plain_message(code))
}

/// Build the finding for a run and code.
pub fn make_error(run: &RunTypeInfo, error_code: u32) -> (e: DvcErrorInfo)
    ensures
        e@ == numbering_error(run@, error_code),
{
    error_from_run(
        run,
        error_code,
        run.is_hyperlink,
        run.is_style,
        error_string(error_code, ErrorContext::none()),
    )
}

/// Whether the `i`-th entry of `levels` has level `i + 1` for every `i`.
pub open spec fn levels_sequential(levels: Seq<LevelType>) -> bool {
    forall|i: int| 0 <= i < levels.len() ==> (#[trigger] levels[i]).level == i + 1
}

/// The findings of the level-sequence check: a count finding when the
/// spec lists levels and their number differs from the document's, then
/// one level finding when some entry is out of sequence.
pub open spec fn level_sequence_errors(
    r: RunView,
    n: Numbering,
    levels: Seq<LevelType>,
    leveltype_code: u32,
    leveltype_level_code: u32,
) -> Seq<ErrorView> {
    (if levels.len() > 0 && levels.len() != n.para_heads@.len() {
        seq![numbering_error(r, leveltype_code)]
    } else {
        Seq::empty()
    }) + if !levels_sequential(levels) {
        seq![numbering_error(r, leveltype_level_code)]
    } else {
        Seq::empty()
    }
}

/// Check the spec's level list against a numbering: its length against
/// the document's level count, and that entry `i` has level `i + 1`.
/// Returns how many findings were pushed.
pub fn check_level_sequence(
    run: &RunTypeInfo,
    numbering: &Numbering,
    spec_levels: &[LevelType],
    leveltype_code: u32,
    leveltype_level_code: u32,
    errors: &mut Vec<DvcErrorInfo>,
) -> (pushed: usize)
    ensures
        error_views(final(errors)@) == error_views(old(errors)@) + level_sequence_errors(
            run@,
            *numbering,
            spec_levels@,
            leveltype_code,
            leveltype_level_code,
        ),
        pushed == level_sequence_errors(
            run@,
            *numbering,
            spec_levels@,
            leveltype_code,
            leveltype_level_code,
        ).len(),
{
    let ghost start = error_views(errors@);
    let mut pushed: usize = 0;
    if spec_levels.len() > 0 && spec_levels.len() != numbering.para_heads.len() {
        let e = make_error(run, leveltype_code);
        proof {
            lemma_error_views_push(errors@, e);
        }
        errors.push(e);
        pushed = 1;
    }
    let ghost mid = error_views(errors@);
    let mut idx: usize = 0;
    let mut sequential = true;
    while idx < spec_levels.len()
        invariant
            idx <= spec_levels@.len(),
            sequential <==> forall|i: int| 0 <= i < idx ==> (#[trigger] spec_levels@[i]).level == i + 1,
        decreases spec_levels.len() - idx,
    {
        if spec_levels[idx].level as u64 != idx as u64 + 1 {
            sequential = false;
        }
        idx = idx + 1;
    }
    if !sequential {
        let e = make_error(run, leveltype_level_code);
        proof {
            lemma_error_views_push(errors@, e);
        }
        errors.push(e);
        pushed = pushed + 1;
    }
    assert(error_views(errors@) =~= start + level_sequence_errors(
        run@,
        *numbering,
        spec_levels@,
        leveltype_code,
        leveltype_level_code,
    ));
    pushed
}

} // verus!
