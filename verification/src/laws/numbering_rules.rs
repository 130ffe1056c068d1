//! Which codes the numbering-based checks give, and when the
//! special-character check fires.

use vstd::prelude::*;
use crate::checker::numbering::num_shape_name;
use crate::checker::outline_shape::{find_level, next_level, outline_level_codes};
use crate::checker::para_num_bullet::{para_head_codes, para_num_codes};
use crate::checker::para_shape::push_if;
use crate::checker::special_character::{first_out_of_range, run_range_error};
use crate::document::header::types::{find_head, Numbering, ParaHead};
use crate::document::run_type::RunView;
use crate::error::{
    OUTLINESHAPE_LEVEL_NUMBERSHAPE, OUTLINESHAPE_LEVEL_NUMBERTYPE, OUTLINESHAPE_VALUE, PARANUM_LEVELTYPE,
    PARANUM_LEVELTYPE_LEVEL, PARANUM_LEVEL_NUMBERSHAPE, PARANUM_LEVEL_NUMBERTYPE, PARANUM_STARTNUMBER, PARANUM_VALUE,
    SPECIALCHAR_MAX, SPECIALCHAR_MIN,
};
use crate::laws::para_shape_rules::{holds, lemma_holds_add, lemma_holds_empty, lemma_holds_push, lemma_push_if_holds};
use crate::spec::{LevelType, OutlineShapeSpec, ParaNumBulletSpec, SpecialCharacterSpec};

verus! {

/// Whether level template `head` breaks its spec entry `lt` for code
/// `code`: the entry's level, number type or number shape.
pub open spec fn head_breaks(head: ParaHead, lt: LevelType, code: u32) -> bool {
    ||| code == PARANUM_LEVELTYPE_LEVEL && lt.level != head.level
    ||| code == PARANUM_LEVEL_NUMBERTYPE && (lt.numbertype matches Some(t) && t@ != head.num_format@)
    ||| code == PARANUM_LEVEL_NUMBERSHAPE && (num_shape_name(lt.numbershape) matches Some(s) && s != head.num_format@)
}

/// Whether a numbered paragraph shape of level `heading_level` in
/// numbering `n` breaks the spec's rule for code `code`: whether the
/// numbering starts at 0, the first template's start, whether the
/// paragraph's level has a template, and that template against the
/// spec's entry for its level.
pub open spec fn para_num_breaks(spec: ParaNumBulletSpec, n: Numbering, heading_level: u32, code: u32) -> bool {
    ||| code == PARANUM_STARTNUMBER && (spec.start_number matches Some(b) && (n.start != 0) != b)
    ||| code == PARANUM_VALUE && (spec.value matches Some(v) && (if n.para_heads@.len() > 0 {
        n.para_heads@[0].start
    } else {
        0
    }) != v)
    ||| spec.leveltype@.len() > 0 && match find_head(n.para_heads@, next_level(heading_level)) {
        None => code == PARANUM_LEVELTYPE,
        Some(head) => match find_level(spec.leveltype@, head.level) {
            Some(lt) => head_breaks(head, lt, code),
            None => false,
        },
    }
}

/// The paragraph-numbering codes of a numbered paragraph shape hold
/// `code` exactly when the shape breaks the spec's rule for it.
pub proof fn law_para_num_codes(spec: ParaNumBulletSpec, n: Numbering, heading_level: u32, code: u32)
    ensures
        holds(para_num_codes(spec, n, heading_level), code) <==> para_num_breaks(spec, n, heading_level, code),
{
    lemma_holds_empty(code);
    let b1 = match spec.start_number {
        Some(b) => (n.start != 0) != b,
        None => false,
    };
    let c1 = push_if(Seq::empty(), b1, PARANUM_STARTNUMBER);
    lemma_push_if_holds(Seq::empty(), b1, PARANUM_STARTNUMBER, code);
    let b2 = match spec.value {
        Some(v) => crate::checker::para_num_bullet::first_head_start(n) != v,
        None => false,
    };
    let c2 = push_if(c1, b2, PARANUM_VALUE);
    lemma_push_if_holds(c1, b2, PARANUM_VALUE, code);
    if spec.leveltype@.len() > 0 {
        match find_head(n.para_heads@, next_level(heading_level)) {
            None => {
                lemma_holds_push(c2, PARANUM_LEVELTYPE, code);
            },
            Some(head) => {
                let hc = para_head_codes(spec, head);
                lemma_holds_add(c2, hc, code);
                match find_level(spec.leveltype@, head.level) {
                    None => {
                        lemma_holds_empty(code);
                    },
                    Some(lt) => {
                        let d0 = Seq::<u32>::empty();
                        let e1 = lt.level != head.level;
                        let d1 = push_if(d0, e1, PARANUM_LEVELTYPE_LEVEL);
                        lemma_push_if_holds(d0, e1, PARANUM_LEVELTYPE_LEVEL, code);
                        let e2 = match lt.numbertype {
                            Some(t) => t@ != head.num_format@,
                            None => false,
                        };
                        let d2 = push_if(d1, e2, PARANUM_LEVEL_NUMBERTYPE);
                        lemma_push_if_holds(d1, e2, PARANUM_LEVEL_NUMBERTYPE, code);
                        let e3 = match num_shape_name(lt.numbershape) {
                            Some(s) => s != head.num_format@,
                            None => false,
                        };
                        lemma_push_if_holds(d2, e3, PARANUM_LEVEL_NUMBERSHAPE, code);
                    },
                }
            },
        }
    }
}

/// The outline codes of level template `head` against spec entry `lt`
/// hold `code` exactly when the spec sets a value the template's start
/// is not, the entry sets a number format the template's format text is
/// not, or the entry's number shape is not the template's format.
pub proof fn law_outline_level_codes(spec: OutlineShapeSpec, head: ParaHead, lt: LevelType, code: u32)
    ensures
        holds(outline_level_codes(spec, head, lt), code) <==> (
        (code == OUTLINESHAPE_VALUE && (spec.value matches Some(v) && head.start != v))
        || (code == OUTLINESHAPE_LEVEL_NUMBERTYPE && (lt.numbertype matches Some(t) && head.num_format_text@ != t@))
        || (code == OUTLINESHAPE_LEVEL_NUMBERSHAPE && head.num_format@ != match num_shape_name(lt.numbershape) {
            Some(s) => s,
            None => Seq::empty(),
        })),
{
    lemma_holds_empty(code);
    let b1 = match spec.value {
        Some(v) => head.start != v,
        None => false,
    };
    let c1 = push_if(Seq::empty(), b1, OUTLINESHAPE_VALUE);
    lemma_push_if_holds(Seq::empty(), b1, OUTLINESHAPE_VALUE, code);
    let b2 = match lt.numbertype {
        Some(t) => head.num_format_text@ != t@,
        None => false,
    };
    let c2 = push_if(c1, b2, OUTLINESHAPE_LEVEL_NUMBERTYPE);
    lemma_push_if_holds(c1, b2, OUTLINESHAPE_LEVEL_NUMBERTYPE, code);
    let b3 = head.num_format@ != match num_shape_name(lt.numbershape) {
        Some(s) => s,
        None => Seq::empty(),
    };
    lemma_push_if_holds(c2, b3, OUTLINESHAPE_LEVEL_NUMBERSHAPE, code);
}

/// Whether character `c` lies outside `[min, max]`.
pub open spec fn out_of_range(c: char, min: u32, max: u32) -> bool {
    (c as u32) < min || (c as u32) > max
}

/// The first character outside `[min, max]` is the first one, in order,
/// that lies outside; there is none exactly when every character lies
/// inside.
pub proof fn law_first_out_of_range(s: Seq<char>, min: u32, max: u32)
    ensures
        match first_out_of_range(s, min, max) {
            None => forall|i: int| 0 <= i < s.len() ==> !out_of_range(#[trigger] s[i], min, max),
            Some(c) => exists|i: int|
                0 <= i < s.len() && s[i] == c && out_of_range(c, min, max) && forall|j: int|
                    0 <= j < i ==> !out_of_range(#[trigger] s[j], min, max),
        },
    decreases s.len(),
{
    if s.len() > 0 {
        let t = s.drop_first();
        law_first_out_of_range(t, min, max);
        assert forall|j: int| 0 <= j < t.len() implies #[trigger] t[j] == s[j + 1] by {}
        if !out_of_range(s[0], min, max) {
            match first_out_of_range(t, min, max) {
                None => {
                    assert forall|i: int| 0 <= i < s.len() implies !out_of_range(#[trigger] s[i], min, max) by {
                        if i > 0 {
                            assert(s[i] == t[i - 1]);
                        }
                    }
                },
                Some(c) => {
                    let i = choose|i: int|
                        0 <= i < t.len() && t[i] == c && out_of_range(c, min, max) && forall|j: int|
                            0 <= j < i ==> !out_of_range(#[trigger] t[j], min, max);
                    assert(s[i + 1] == c);
                    assert forall|j: int| 0 <= j < i + 1 implies !out_of_range(#[trigger] s[j], min, max) by {
                        if j > 0 {
                            assert(s[j] == t[j - 1]);
                        }
                    }
                },
            }
        } else {
            assert(s[0] == s[0]);
        }
    }
}

/// A run's range finding: there is one exactly when some character of
/// its checked text lies outside the spec's range, never more, and its
/// code is the below-minimum code when the first such character lies
/// below the minimum and the above-maximum code otherwise.
pub proof fn law_run_range_error(spec: SpecialCharacterSpec, r: RunView, t: Seq<char>)
    ensures
        run_range_error(spec, r, t).len() <= 1,
        run_range_error(spec, r, t).len() == 1 <==> exists|i: int| 0 <= i < t.len() && out_of_range(#[trigger] t[i], spec.minimum, spec.maximum),
        run_range_error(spec, r, t).len() == 1 ==> exists|i: int|
            0 <= i < t.len() && out_of_range(t[i], spec.minimum, spec.maximum) && (forall|j: int|
                0 <= j < i ==> !out_of_range(#[trigger] t[j], spec.minimum, spec.maximum)) && (run_range_error(spec, r, t)[0].error_code
                == if (t[i] as u32) < spec.minimum {
                SPECIALCHAR_MIN
            } else {
                SPECIALCHAR_MAX
            }),
{
    law_first_out_of_range(t, spec.minimum, spec.maximum);
    match first_out_of_range(t, spec.minimum, spec.maximum) {
        None => {},
        Some(c) => {
            let i = choose|i: int|
                0 <= i < t.len() && t[i] == c && out_of_range(c, spec.minimum, spec.maximum) && forall|j: int|
                    0 <= j < i ==> !out_of_range(#[trigger] t[j], spec.minimum, spec.maximum);
            assert(out_of_range(t[i], spec.minimum, spec.maximum));
        },
    }
}

} // verus!
