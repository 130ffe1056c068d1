//! Hyperlink permission: when hyperlinks are forbidden, every hyperlink
//! run is a finding.

use vstd::prelude::*;
use crate::checker::{error_from_run, error_views, lemma_error_views_push, lemma_run_views_take, run_error, DvcErrorInfo, ErrorView};
use crate::document::run_type::{run_views, RunTypeInfo, RunView};
use crate::error::HYPERLINK_PERMISSION;
use crate::messages::{error_string, plain_message, ErrorContext};
use crate::spec::HyperlinkSpec;

verus! {

/// One finding per hyperlink run of `rs`, in order.
pub open spec fn hyperlink_run_errors(rs: Seq<RunView>) -> Seq<ErrorView>
    decreases rs.len(),
{
    if rs.len() == 0 {
        Seq::empty()
    } else {
        hyperlink_run_errors(rs.drop_last()) + if rs.last().is_hyperlink {
            seq![run_error(rs.last(), HYPERLINK_PERMISSION, true, false, plain_message(HYPERLINK_PERMISSION))]
        } else {
            Seq::empty()
        }
    }
}

/// The findings of the hyperlink check.
pub open spec fn hyperlink_errors(spec: HyperlinkSpec, rs: Seq<RunView>) -> Seq<ErrorView> {
    if spec.permission {
        Seq::empty()
    } else {
        hyperlink_run_errors(rs)
    }
}

/// Report every hyperlink run when the spec forbids hyperlinks.
pub fn check(spec: &HyperlinkSpec, run_type_infos: &[RunTypeInfo]) -> (r: Vec<DvcErrorInfo>)
    ensures
        error_views(r@) == hyperlink_errors(*spec, run_views(run_type_infos@)),
{
    let mut errors: Vec<DvcErrorInfo> = Vec::new();
    if spec.permission {
        assert(error_views(errors@) =~= Seq::<ErrorView>::empty());
        return errors;
    }
    let mut i: usize = 0;
    assert(error_views(errors@) =~= hyperlink_run_errors(run_views(run_type_infos@.take(0))));
    while i < run_type_infos.len()
        invariant
            i <= run_type_infos@.len(),
            error_views(errors@) == hyperlink_run_errors(run_views(run_type_infos@.take(i as int))),
        decreases run_type_infos.len() - i,
    {
        let run = &run_type_infos[i];
        proof {
            lemma_run_views_take(run_type_infos@, i as int);
        }
        if run.is_hyperlink {
            let e = error_from_run(
                run,
                HYPERLINK_PERMISSION,
                true,
                false,
                error_string(HYPERLINK_PERMISSION, ErrorContext::none()),
            );
            proof {
                lemma_error_views_push(errors@, e);
            }
            errors.push(e);
        }
        proof {
            let rv = run_views(run_type_infos@.take(i + 1));
            assert(hyperlink_run_errors(rv) == hyperlink_run_errors(rv.drop_last()) + if rv.last().is_hyperlink {
                seq![run_error(rv.last(), HYPERLINK_PERMISSION, true, false, plain_message(HYPERLINK_PERMISSION))]
            } else {
                Seq::empty()
            });
            assert(error_views(errors@) =~= hyperlink_run_errors(rv));
        }
        i = i + 1;
    }
    assert(run_type_infos@.take(run_type_infos@.len() as int) =~= run_type_infos@);
    errors
}

} // verus!
