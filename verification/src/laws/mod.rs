//! Properties of the validators, the parsers and the run stream that
//! hold for every input, stated over the same spec functions that the
//! functions' own contracts use. This module holds the shared vocabulary
//! and helper lemmas; the laws stand in its submodules.

pub mod char_shape;
pub mod brush_fields;
pub mod bullet_rules;
pub mod char_pr_flags;
pub mod document;
pub mod section_fields;
pub mod header_fields;
pub mod numbering_rules;
pub mod outline_rules;
pub mod para_num_check;
pub mod para_shape_rules;
pub mod table_rules;
pub mod shapes;
pub mod run_rules;
pub mod table;
pub mod validators;

use vstd::prelude::*;
use crate::checker::{ErrorView, code_errors};
use crate::checker::para_shape::push_if;
use crate::document::run_type::RunView;

verus! {

/// Every finding of `errs` carries a code in `[lo, hi)`.
pub open spec fn codes_within(errs: Seq<ErrorView>, lo: u32, hi: u32) -> bool {
    forall|i: int| 0 <= i < errs.len() ==> lo <= (#[trigger] errs[i]).error_code < hi
}

/// No two findings of `errs` share both paragraph shape and code.
pub open spec fn one_per_shape_and_code(errs: Seq<ErrorView>) -> bool {
    forall|i: int, j: int|
        0 <= i < j < errs.len() && (#[trigger] errs[i]).para_pr_id_ref == (#[trigger] errs[j]).para_pr_id_ref
            ==> errs[i].error_code != errs[j].error_code
}

/// `s` is strictly increasing and lies in `[lo, hi)`.
#[verifier::opaque]
pub open spec fn inc_between(s: Seq<u32>, lo: int, hi: int) -> bool {
    &&& forall|i: int, j: int| 0 <= i < j < s.len() ==> (#[trigger] s[i]) < (#[trigger] s[j])
    &&& forall|i: int| 0 <= i < s.len() ==> lo <= #[trigger] s[i] < hi
}

/// Appending a code above every code of an increasing list keeps it
/// increasing.
pub proof fn lemma_push_if_inc(acc: Seq<u32>, b: bool, code: u32, lo: int)
    requires
        inc_between(acc, lo, code as int),
        lo <= code,
    ensures
        inc_between(push_if(acc, b, code), lo, code + 1),
{
    reveal(inc_between);
    let r = push_if(acc, b, code);
    if b {
        assert forall|i: int, j: int| 0 <= i < j < r.len() implies (#[trigger] r[i]) < (#[trigger] r[j]) by {
            assert(r[i] == acc[i]);
            if j < acc.len() {
                assert(r[j] == acc[j]);
            }
        }
        assert forall|i: int| 0 <= i < r.len() implies lo <= #[trigger] r[i] < code + 1 by {
            if i < acc.len() {
                assert(r[i] == acc[i]);
            }
        }
    }
}

/// The empty list is increasing.
pub proof fn lemma_inc_empty(lo: int, hi: int)
    ensures
        inc_between(Seq::empty(), lo, hi),
{
    reveal(inc_between);
}

/// An increasing list within a range is within any wider range.
pub proof fn lemma_inc_widen(s: Seq<u32>, lo: int, hi: int, lo2: int, hi2: int)
    requires
        inc_between(s, lo, hi),
        lo2 <= lo,
        hi <= hi2,
    ensures
        inc_between(s, lo2, hi2),
{
    reveal(inc_between);
}

/// Two increasing lists, the second above the first, join into one.
pub proof fn lemma_inc_concat(a: Seq<u32>, b: Seq<u32>, lo: int, mid: int, hi: int)
    requires
        inc_between(a, lo, mid),
        inc_between(b, mid, hi),
        lo <= mid <= hi,
    ensures
        inc_between(a + b, lo, hi),
{
    reveal(inc_between);
    let r = a + b;
    assert forall|i: int, j: int| 0 <= i < j < r.len() implies (#[trigger] r[i]) < (#[trigger] r[j]) by {
        if j < a.len() {
            assert(r[i] == a[i] && r[j] == a[j]);
        } else if i < a.len() {
            assert(r[i] == a[i] && r[j] == b[j - a.len()]);
        } else {
            assert(r[i] == b[i - a.len()] && r[j] == b[j - a.len()]);
        }
    }
    assert forall|i: int| 0 <= i < r.len() implies lo <= #[trigger] r[i] < hi by {
        if i < a.len() {
            assert(r[i] == a[i]);
        } else {
            assert(r[i] == b[i - a.len()]);
        }
    }
}

/// The findings of `f` over representative runs `reps`, in order.
pub open spec fn fold_errors(reps: Seq<RunView>, f: spec_fn(RunView) -> Seq<ErrorView>) -> Seq<ErrorView>
    decreases reps.len(),
{
    if reps.len() == 0 {
        Seq::empty()
    } else {
        fold_errors(reps.drop_last(), f) + f(reps.last())
    }
}

/// The findings `f` gives run `r` belong to `r`'s paragraph shape and
/// carry distinct codes.
pub open spec fn per_run_ok(f: spec_fn(RunView) -> Seq<ErrorView>, r: RunView) -> bool {
    &&& forall|i: int| 0 <= i < f(r).len() ==> (#[trigger] f(r)[i]).para_pr_id_ref == r.para_pr_id_ref
    &&& forall|i: int, j: int|
        0 <= i < j < f(r).len() ==> (#[trigger] f(r)[i]).error_code != (#[trigger] f(r)[j]).error_code
}

/// The findings of an increasing code list belong to their run and carry
/// distinct codes.
proof fn lemma_code_errors_ok(r: RunView, codes: Seq<u32>, lo: int, hi: int)
    requires
        inc_between(codes, lo, hi),
    ensures
        forall|i: int| 0 <= i < code_errors(r, codes).len() ==> (#[trigger] code_errors(r, codes)[i]).para_pr_id_ref
            == r.para_pr_id_ref && lo <= code_errors(r, codes)[i].error_code < hi,
        forall|i: int, j: int|
            0 <= i < j < code_errors(r, codes).len() ==> (#[trigger] code_errors(r, codes)[i]).error_code
                != (#[trigger] code_errors(r, codes)[j]).error_code,
{
    reveal(inc_between);
    let e = code_errors(r, codes);
    assert forall|i: int, j: int| 0 <= i < j < e.len() implies (#[trigger] e[i]).error_code != (#[trigger] e[j]).error_code by {
        assert(e[i].error_code == codes[i] && e[j].error_code == codes[j]);
    }
    assert forall|i: int| 0 <= i < e.len() implies (#[trigger] e[i]).para_pr_id_ref == r.para_pr_id_ref && lo
        <= e[i].error_code < hi by {
        assert(e[i].error_code == codes[i]);
    }
}

/// Over representatives of distinct paragraph shapes, per-run findings
/// with distinct codes give at most one finding per shape and code.
proof fn lemma_fold_unique(reps: Seq<RunView>, f: spec_fn(RunView) -> Seq<ErrorView>)
    requires
        forall|i: int, j: int|
            0 <= i < j < reps.len() ==> (#[trigger] reps[i]).para_pr_id_ref != (#[trigger] reps[j]).para_pr_id_ref,
        forall|k: int| 0 <= k < reps.len() ==> per_run_ok(f, #[trigger] reps[k]),
    ensures
        one_per_shape_and_code(fold_errors(reps, f)),
        forall|i: int|
            0 <= i < fold_errors(reps, f).len() ==> exists|k: int|
                0 <= k < reps.len() && (#[trigger] fold_errors(reps, f)[i]).para_pr_id_ref == (#[trigger] reps[k]).para_pr_id_ref,
    decreases reps.len(),
{
    if reps.len() > 0 {
        let pre = reps.drop_last();
        assert forall|i: int, j: int| 0 <= i < j < pre.len() implies (#[trigger] pre[i]).para_pr_id_ref
            != (#[trigger] pre[j]).para_pr_id_ref by {
            assert(pre[i] == reps[i] && pre[j] == reps[j]);
        }
        assert forall|k: int| 0 <= k < pre.len() implies per_run_ok(f, #[trigger] pre[k]) by {
            assert(pre[k] == reps[k]);
        }
        lemma_fold_unique(pre, f);
        let a = fold_errors(pre, f);
        let last = reps.last();
        assert(per_run_ok(f, reps[reps.len() - 1]));
        let b = f(last);
        let r = fold_errors(reps, f);
        assert(r == a + b);
        assert forall|i: int| 0 <= i < r.len() implies exists|k: int|
            0 <= k < reps.len() && (#[trigger] r[i]).para_pr_id_ref == (#[trigger] reps[k]).para_pr_id_ref by {
            if i < a.len() {
                assert(r[i] == a[i]);
                let k = choose|k: int| 0 <= k < pre.len() && a[i].para_pr_id_ref == (#[trigger] pre[k]).para_pr_id_ref;
                assert(reps[k] == pre[k]);
            } else {
                assert(r[i] == b[i - a.len()]);
                assert(reps[reps.len() - 1] == last);
            }
        }
        assert forall|i: int, j: int|
            0 <= i < j < r.len() && (#[trigger] r[i]).para_pr_id_ref == (#[trigger] r[j]).para_pr_id_ref implies r[i].error_code
            != r[j].error_code by {
            if j < a.len() {
                assert(r[i] == a[i] && r[j] == a[j]);
            } else if i < a.len() {
                assert(r[i] == a[i] && r[j] == b[j - a.len()]);
                let k = choose|k: int| 0 <= k < pre.len() && a[i].para_pr_id_ref == (#[trigger] pre[k]).para_pr_id_ref;
                assert(reps[k] == pre[k]);
                assert(reps[reps.len() - 1] == last);
            } else {
                assert(r[i] == b[i - a.len()] && r[j] == b[j - a.len()]);
            }
        }
    }
}

/// Per-run findings within a code range stay within it over the fold.
proof fn lemma_fold_codes(reps: Seq<RunView>, f: spec_fn(RunView) -> Seq<ErrorView>, lo: u32, hi: u32)
    requires
        forall|k: int| 0 <= k < reps.len() ==> codes_within(f(#[trigger] reps[k]), lo, hi),
    ensures
        codes_within(fold_errors(reps, f), lo, hi),
    decreases reps.len(),
{
    if reps.len() > 0 {
        let pre = reps.drop_last();
        assert forall|k: int| 0 <= k < pre.len() implies codes_within(f(#[trigger] pre[k]), lo, hi) by {
            assert(pre[k] == reps[k]);
        }
        lemma_fold_codes(pre, f, lo, hi);
        assert(codes_within(f(reps[reps.len() - 1]), lo, hi));
        let a = fold_errors(pre, f);
        let b = f(reps.last());
        let r = fold_errors(reps, f);
        assert forall|i: int| 0 <= i < r.len() implies lo <= (#[trigger] r[i]).error_code < hi by {
            if i < a.len() {
                assert(r[i] == a[i]);
            } else {
                assert(r[i] == b[i - a.len()]);
            }
        }
    }
}

} // verus!
