//! Style rules: the allowed style kinds (3501) and whether styles other
//! than the default may be used at all (3502).

use vstd::prelude::*;
use crate::checker::{error_from_run, error_views, lemma_error_views_add, lemma_error_views_push, lemma_run_views_take, run_error, DvcErrorInfo, ErrorView};
use crate::document::run_type::{run_views, RunTypeInfo, RunView};
pub use crate::error::{STYLE_PERMISSION, STYLE_TYPE};
use crate::messages::{error_string, plain_message, ErrorContext};
use crate::spec::{style_korean_name, StyleSpec, StyleType};
use crate::text::str_eq;

verus! {

/// Whether `name` is the Korean name of one of the allowed kinds.
pub open spec fn name_allowed(allowed: Seq<StyleType>, name: Seq<char>) -> bool {
    exists|i: int| 0 <= i < allowed.len() && style_korean_name(#[trigger] allowed[i]) == name
}

/// One finding per run whose style name is not allowed.
pub open spec fn style_type_errors(allowed: Seq<StyleType>, rs: Seq<RunView>) -> Seq<ErrorView>
    decreases rs.len(),
{
    if rs.len() == 0 {
        Seq::empty()
    } else {
        style_type_errors(allowed, rs.drop_last()) + if !name_allowed(allowed, rs.last().style_name) {
            seq![run_error(rs.last(), STYLE_TYPE, rs.last().is_hyperlink, true, plain_message(STYLE_TYPE))]
        } else {
            Seq::empty()
        }
    }
}

/// One finding per run whose paragraph uses a non-default style.
pub open spec fn style_permission_errors(rs: Seq<RunView>) -> Seq<ErrorView>
    decreases rs.len(),
{
    if rs.len() == 0 {
        Seq::empty()
    } else {
        style_permission_errors(rs.drop_last()) + if rs.last().is_style {
            seq![run_error(rs.last(), STYLE_PERMISSION, rs.last().is_hyperlink, true, plain_message(STYLE_PERMISSION))]
        } else {
            Seq::empty()
        }
    }
}

/// The findings of the style check: the kind findings of every run,
/// then the permission findings of every run.
pub open spec fn style_errors(spec: StyleSpec, rs: Seq<RunView>) -> Seq<ErrorView> {
    (match spec.allowed_types {
        Some(a) => if a@.len() > 0 {
            style_type_errors(a@, rs)
        } else {
            Seq::empty()
        },
        None => Seq::empty(),
    }) + if !spec.permission {
        style_permission_errors(rs)
    } else {
        Seq::empty()
    }
}

fn is_name_allowed(allowed: &Vec<StyleType>, name: &str) -> (r: bool)
    ensures
        r == name_allowed(allowed@, name@),
{
    let mut i: usize = 0;
    while i < allowed.len()
        invariant
            i <= allowed@.len(),
            forall|j: int| 0 <= j < i ==> style_korean_name(#[trigger] allowed@[j]) != name@,
        decreases allowed.len() - i,
    {
        if str_eq(allowed[i].as_korean_name(), name) {
            return true;
        }
        i = i + 1;
    }
    false
}

fn type_errors(allowed: &Vec<StyleType>, runs: &[RunTypeInfo], errors: &mut Vec<DvcErrorInfo>)
    ensures
        error_views(final(errors)@) == error_views(old(errors)@) + style_type_errors(
            allowed@,
            run_views(runs@),
        ),
{
    let ghost start = error_views(errors@);
    let mut i: usize = 0;
    assert(start + style_type_errors(allowed@, run_views(runs@.take(0))) =~= start);
    while i < runs.len()
        invariant
            i <= runs@.len(),
            error_views(errors@) == start + style_type_errors(allowed@, run_views(runs@.take(i as int))),
        decreases runs.len() - i,
    {
        let run = &runs[i];
        proof {
            lemma_run_views_take(runs@, i as int);
        }
        let ghost before = error_views(errors@);
        if !is_name_allowed(allowed, run.style_name.as_str()) {
            let e = error_from_run(
                run,
                STYLE_TYPE,
                run.is_hyperlink,
                true,
                error_string(STYLE_TYPE, ErrorContext::none()),
            );
            proof {
                lemma_error_views_push(errors@, e);
            }
            errors.push(e);
        }
        proof {
            let rv = run_views(runs@.take(i + 1));
            assert(error_views(errors@) =~= start + style_type_errors(allowed@, rv));
        }
        i = i + 1;
    }
    assert(runs@.take(runs@.len() as int) =~= runs@);
}

fn permission_errors(runs: &[RunTypeInfo], errors: &mut Vec<DvcErrorInfo>)
    ensures
        error_views(final(errors)@) == error_views(old(errors)@) + style_permission_errors(
            run_views(runs@),
        ),
{
    let ghost start = error_views(errors@);
    let mut i: usize = 0;
    assert(start + style_permission_errors(run_views(runs@.take(0))) =~= start);
    while i < runs.len()
        invariant
            i <= runs@.len(),
            error_views(errors@) == start + style_permission_errors(run_views(runs@.take(i as int))),
        decreases runs.len() - i,
    {
        let run = &runs[i];
        proof {
            lemma_run_views_take(runs@, i as int);
        }
        if run.is_style {
            let e = error_from_run(
                run,
                STYLE_PERMISSION,
                run.is_hyperlink,
                true,
                error_string(STYLE_PERMISSION, ErrorContext::none()),
            );
            proof {
                lemma_error_views_push(errors@, e);
            }
            errors.push(e);
        }
        proof {
            let rv = run_views(runs@.take(i + 1));
            assert(error_views(errors@) =~= start + style_permission_errors(rv));
        }
        i = i + 1;
    }
    assert(runs@.take(runs@.len() as int) =~= runs@);
}

/// Check the runs' styles against the allowed kinds and the permission.
pub fn check(spec: &StyleSpec, runs: &[RunTypeInfo]) -> (r: Vec<DvcErrorInfo>)
    ensures
        error_views(r@) == style_errors(*spec, run_views(runs@)),
{
    let mut errors: Vec<DvcErrorInfo> = Vec::new();
    assert(error_views(errors@) =~= Seq::<ErrorView>::empty());
    match &spec.allowed_types {
        Some(allowed) => {
            if allowed.len() > 0 {
                type_errors(allowed, runs, &mut errors);
            }
        },
        None => {},
    }
    let ghost after_types = error_views(errors@);
    if !spec.permission {
        permission_errors(runs, &mut errors);
    }
    assert(error_views(errors@) =~= style_errors(*spec, run_views(runs@)));
    errors
}

} // verus!
