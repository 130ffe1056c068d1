//! The allowed code-point range of run text: a run holding a character
//! outside `[minimum, maximum]` is a finding (one per run).

use vstd::prelude::*;
use crate::checker::{error_from_run, error_views, lemma_error_views_push, lemma_run_views_take, run_error, DvcErrorInfo, ErrorView};
use crate::document::run_type::{run_views, RunTypeInfo, RunView};
use crate::error::{SPECIALCHAR_MAX, SPECIALCHAR_MIN};
use crate::spec::SpecialCharacterSpec;
use crate::text::{dec_digits, hex4, push_dec, push_hex, to_chars};
use crate::xml::{unescape_text, xml_unescape};

verus! {

/// The first character of `s` outside `[min, max]`.
pub open spec fn first_out_of_range(s: Seq<char>, min: u32, max: u32) -> Option<char>
    decreases s.len(),
{
    if s.len() == 0 {
        None
    } else if (s[0] as u32) < min || (s[0] as u32) > max {
        Some(s[0])
    } else {
        first_out_of_range(s.drop_first(), min, max)
    }
}

/// The message of a finding for code point `cp`.
pub open spec fn range_message(cp: u32, min: u32, max: u32) -> Seq<char> {
    "codepoint U+"@ + hex4(cp as nat) + " is out of allowed range ["@ + dec_digits(min as nat)
        + ", "@ + dec_digits(max as nat) + "]"@
}

/// The text the range check reads: the unescaped run text, or the raw
/// text when unescaping fails.
pub open spec fn logical_text(raw: Seq<char>) -> Seq<char> {
    match xml_unescape(raw) {
        Some(u) => u,
        None => raw,
    }
}

/// The finding (if any) for run `r` whose checked text is `t`.
pub open spec fn run_range_error(spec: SpecialCharacterSpec, r: RunView, t: Seq<char>) -> Seq<
    ErrorView,
> {
    match first_out_of_range(t, spec.minimum, spec.maximum) {
        Some(c) => seq![
            run_error(
                r,
                if (c as u32) < spec.minimum {
                    SPECIALCHAR_MIN
                } else {
                    SPECIALCHAR_MAX
                },
                r.is_hyperlink,
                r.is_style,
                range_message(c as u32, spec.minimum, spec.maximum),
            ),
        ],
        None => Seq::empty(),
    }
}

/// The findings of the range check over runs `rs`.
pub open spec fn special_errors(spec: SpecialCharacterSpec, rs: Seq<RunView>) -> Seq<ErrorView>
    decreases rs.len(),
{
    if rs.len() == 0 {
        Seq::empty()
    } else {
        special_errors(spec, rs.drop_last()) + run_range_error(
            spec,
            rs.last(),
            logical_text(rs.last().text),
        )
    }
}

fn find_out_of_range(s: &str, min: u32, max: u32) -> (r: Option<char>)
    ensures
        r == first_out_of_range(s@, min, max),
{
    let v = to_chars(s);
    let mut i: usize = 0;
    assert(v@.subrange(0, v@.len() as int) =~= v@);
    while i < v.len()
        invariant
            i <= v@.len(),
            v@ == s@,
            first_out_of_range(s@, min, max) == first_out_of_range(
                v@.subrange(i as int, v@.len() as int),
                min,
                max,
            ),
        decreases v.len() - i,
    {
        let c = v[i];
        assert(v@.subrange(i as int, v@.len() as int).drop_first() =~= v@.subrange(
            i + 1,
            v@.len() as int,
        ));
        assert(v@.subrange(i as int, v@.len() as int)[0] == c);
        if (c as u32) < min || (c as u32) > max {
            return Some(c);
        }
        i = i + 1;
    }
    None
}

fn range_message_exec(cp: u32, min: u32, max: u32) -> (r: String)
    ensures
        r@ == range_message(cp, min, max),
{
    let mut s = String::from_str("codepoint U+");
    if cp < 0x10 {
        s.append("000");
    } else if cp < 0x100 {
        s.append("00");
    } else if cp < 0x1000 {
        s.append("0");
    }
    proof {
        reveal_strlit("000");
        reveal_strlit("00");
        reveal_strlit("0");
    }
    push_hex(&mut s, cp);
    s.append(" is out of allowed range [");
    push_dec(&mut s, min);
    s.append(", ");
    push_dec(&mut s, max);
    s.append("]");
    assert(s@ =~= range_message(cp, min, max));
    s
}

/// The finding for one run, given the text to check (the run's
/// unescaped text).
pub fn check_run_text(spec: &SpecialCharacterSpec, run: &RunTypeInfo, logical: &str) -> (r:
    Option<DvcErrorInfo>)
    ensures
        match r {
            Some(e) => run_range_error(*spec, run@, logical@) == seq![e@],
            None => run_range_error(*spec, run@, logical@) == Seq::<ErrorView>::empty(),
        },
{
    match find_out_of_range(logical, spec.minimum, spec.maximum) {
        Some(c) => {
            let cp = c as u32;
            let code = if cp < spec.minimum {
                SPECIALCHAR_MIN
            } else {
                SPECIALCHAR_MAX
            };
            let msg = range_message_exec(cp, spec.minimum, spec.maximum);
            let e = error_from_run(run, code, run.is_hyperlink, run.is_style, msg);
            Some(e)
        },
        None => None,
    }
}

/// Check every run's text against the allowed code-point range.
pub fn check(spec: &SpecialCharacterSpec, run_type_infos: &[RunTypeInfo]) -> (r: Vec<DvcErrorInfo>)
    ensures
        error_views(r@) == special_errors(*spec, run_views(run_type_infos@)),
{
    let mut errors: Vec<DvcErrorInfo> = Vec::new();
    let mut i: usize = 0;
    assert(error_views(errors@) =~= special_errors(*spec, run_views(run_type_infos@.take(0))));
    while i < run_type_infos.len()
        invariant
            i <= run_type_infos@.len(),
            error_views(errors@) == special_errors(*spec, run_views(run_type_infos@.take(i as int))),
        decreases run_type_infos.len() - i,
    {
        let run = &run_type_infos[i];
        proof {
            lemma_run_views_take(run_type_infos@, i as int);
        }
        let unescaped = unescape_text(run.text.as_str());
        let found = match &unescaped {
            Some(u) => check_run_text(spec, run, u.as_str()),
            None => check_run_text(spec, run, run.text.as_str()),
        };
        proof {
            assert(logical_text(run.text@) == match unescaped {
                Some(u) => u@,
                None => run.text@,
            });
        }
        match found {
            Some(e) => {
                proof {
                    lemma_error_views_push(errors@, e);
                }
                errors.push(e);
            },
            None => {},
        }
        proof {
            let rv = run_views(run_type_infos@.take(i + 1));
            assert(error_views(errors@) =~= special_errors(*spec, rv));
        }
        i = i + 1;
    }
    assert(run_type_infos@.take(run_type_infos@.len() as int) =~= run_type_infos@);
    errors
}

} // verus!
