//! Bullet characters: every text bullet of the header must use only
//! characters of the spec's allow-list.

use std::collections::HashMap;
use vstd::prelude::*;
use crate::checker::{error_views, lemma_error_views_push, located, located_error, DvcErrorInfo, ErrorView};
use crate::document::header::HeaderTables;
use crate::document::header::types::Bullet;
use crate::error::{ErrorCode, BULLET_SHAPES};
use crate::spec::BulletSpec;
use crate::text::{str_contains_char, to_chars};

verus! {

broadcast use vstd::std_specs::hash::group_hash_axioms;

/// A private-use code point (`U+E000..=U+F8FF`).
pub open spec fn is_pua(c: char) -> bool {
    '\u{E000}' <= c && c <= '\u{F8FF}'
}

/// The finding for one bullet: none for image bullets, empty or
/// all-private-use characters, or characters all in the allow-list.
pub open spec fn bullet_error(b: Bullet, allowed: Seq<char>) -> Option<ErrorView> {
    if b.use_image {
        None
    } else if b.char@.len() == 0 {
        None
    } else if forall|i: int| 0 <= i < b.char@.len() ==> is_pua(#[trigger] b.char@[i]) {
        None
    } else if forall|i: int| 0 <= i < b.char@.len() ==> allowed.contains(#[trigger] b.char@[i]) {
        None
    } else {
        Some(located_error(BULLET_SHAPES, 3300, false, false, 0, 0, b.char@))
    }
}

/// `s` lists the entries of `m`, each once.
pub open spec fn enumerates<V>(s: Seq<(u32, V)>, m: Map<u32, V>) -> bool {
    &&& s.no_duplicates()
    &&& forall|i: int| 0 <= i < s.len() ==> m.contains_key((#[trigger] s[i]).0) && m[s[i].0] == s[i].1
    &&& forall|k: u32| #[trigger] m.contains_key(k) ==> s.contains((k, m[k]))
}

/// Every finite map has a listing of its entries.
pub proof fn lemma_enumeration_exists<V>(m: Map<u32, V>)
    requires
        m.dom().finite(),
    ensures
        exists|s: Seq<(u32, V)>| enumerates(s, m),
    decreases m.dom().len(),
{
    if m.dom().len() == 0 {
        let s = Seq::<(u32, V)>::empty();
        assert forall|k: u32| #[trigger] m.contains_key(k) implies s.contains((k, m[k])) by {
            assert(m.dom().contains(k));
        }
        assert(enumerates(s, m));
    } else {
        let k = m.dom().choose();
        let rest = m.remove(k);
        lemma_enumeration_exists(rest);
        let t = choose|t: Seq<(u32, V)>| enumerates(t, rest);
        let s = t.push((k, m[k]));
        assert forall|i: int| 0 <= i < s.len() implies m.contains_key((#[trigger] s[i]).0) && m[s[i].0]
            == s[i].1 by {
            if i < t.len() {
                assert(s[i] == t[i]);
            }
        }
        assert forall|k2: u32| #[trigger] m.contains_key(k2) implies s.contains((k2, m[k2])) by {
            if k2 == k {
                assert(s[t.len() as int] == (k2, m[k2]));
            } else {
                assert(rest.contains_key(k2));
                let j = choose|j: int| 0 <= j < t.len() && t[j] == (k2, rest[k2]);
                assert(s[j] == t[j]);
            }
        }
        assert forall|i: int, j: int| 0 <= i < s.len() && 0 <= j < s.len() && i != j implies s[i]
            != s[j] by {
            if i < t.len() && j < t.len() {
                assert(s[i] == t[i] && s[j] == t[j]);
            } else if i < t.len() {
                assert(rest.contains_key(t[i].0));
            } else if j < t.len() {
                assert(rest.contains_key(t[j].0));
            }
        }
        assert(enumerates(s, m));
    }
}

/// The entries of an iteration, by value.
pub open spec fn pair_values<V>(s: Seq<(&u32, &V)>) -> Seq<(u32, V)> {
    s.map_values(|p: (&u32, &V)| (*p.0, *p.1))
}

/// The findings for the bullets listed by `s`, in that order.
pub open spec fn bullet_seq_errors(s: Seq<(u32, Bullet)>, allowed: Seq<char>) -> Seq<ErrorView>
    decreases s.len(),
{
    if s.len() == 0 {
        Seq::empty()
    } else {
        bullet_seq_errors(s.drop_last(), allowed) + match bullet_error(s.last().1, allowed) {
            Some(e) => seq![e],
            None => Seq::empty(),
        }
    }
}

/// The allow-list the check uses, when the spec sets a non-empty one.
pub open spec fn bullet_allow_list(spec: BulletSpec) -> Option<Seq<char>> {
    match spec.bulletshapes {
        Some(s) => if s@.len() > 0 {
            Some(s@)
        } else {
            None
        },
        None => None,
    }
}

/// The finding for one bullet against the allow-list `allowed`.
pub fn check_bullet_to_check_list(bullet: &Bullet, allowed: &str) -> (r: Option<DvcErrorInfo>)
    ensures
        match r {
            Some(e) => bullet_error(*bullet, allowed@) == Some(e@),
            None => bullet_error(*bullet, allowed@) is None,
        },
{
    if bullet.use_image {
        return None;
    }
    let chars = to_chars(bullet.char.as_str());
    if chars.len() == 0 {
        return None;
    }
    let mut all_pua = true;
    let mut i: usize = 0;
    while i < chars.len()
        invariant
            i <= chars@.len(),
            chars@ == bullet.char@,
            all_pua <==> forall|j: int| 0 <= j < i ==> is_pua(#[trigger] chars@[j]),
        decreases chars.len() - i,
    {
        if !('\u{E000}' <= chars[i] && chars[i] <= '\u{F8FF}') {
            all_pua = false;
        }
        i = i + 1;
    }
    if all_pua {
        return None;
    }
    let mut shape_ok = true;
    let mut k: usize = 0;
    while k < chars.len()
        invariant
            k <= chars@.len(),
            chars@ == bullet.char@,
            shape_ok <==> forall|j: int| 0 <= j < k ==> allowed@.contains(#[trigger] chars@[j]),
        decreases chars.len() - k,
    {
        if !str_contains_char(allowed, chars[k]) {
            shape_ok = false;
        }
        k = k + 1;
    }
    if shape_ok {
        return None;
    }
    Some(located(BULLET_SHAPES, ErrorCode::Bullet.code(), false, false, 0, 0, bullet.char.clone()))
}

/// Check every bullet of the header against the spec's allow-list. The
/// findings follow the bullet table's iteration order.
pub fn check(spec: &BulletSpec, header: &HeaderTables) -> (r: Vec<DvcErrorInfo>)
    ensures
        bullet_allow_list(*spec) is None ==> r@.len() == 0,
        bullet_allow_list(*spec) is Some ==> exists|s: Seq<(u32, Bullet)>|
            enumerates(s, header.bullets@) && error_views(r@) == bullet_seq_errors(
                s,
                bullet_allow_list(*spec)->0,
            ),
{
    let mut errors: Vec<DvcErrorInfo> = Vec::new();
    let allowed = match &spec.bulletshapes {
        Some(s) => {
            if s.as_str().is_empty() {
                return errors;
            }
            s
        },
        None => {
            return errors;
        },
    };
    let ghost mut hist: Seq<(u32, Bullet)> = Seq::empty();
    for kv in it: header.bullets.iter()
        invariant
            hist == pair_values(it.history()),
            error_views(errors@) == bullet_seq_errors(hist, allowed@),
            it.seq().no_duplicates(),
            forall|j: int|
                0 <= j < it.seq().len() ==> header.bullets@.contains_key(*(#[trigger] it.seq()[j]).0)
                    && header.bullets@[*it.seq()[j].0] == *it.seq()[j].1,
            forall|k: u32|
                #[trigger] header.bullets@.contains_key(k) ==> it.seq().contains((&k, &header.bullets@[k])),
            it.index() == it.seq().len() ==> enumerates(hist, header.bullets@),
    {
        let (k, b) = kv;
        match check_bullet_to_check_list(b, allowed.as_str()) {
            Some(e) => {
                proof {
                    lemma_error_views_push(errors@, e);
                }
                errors.push(e);
            },
            None => {},
        }
        proof {
            let h2 = pair_values(it.history().push(kv));
            assert(h2.drop_last() =~= hist);
            hist = h2;
        }
        assert(it.index() + 1 == it.seq().len() ==> enumerates(hist, header.bullets@)) by {
            if it.index() + 1 == it.seq().len() {
                let sv = pair_values(it.seq());
                assert(it.history().push(kv) =~= it.seq());
                assert(hist =~= sv);
                assert forall|x: int, y: int| 0 <= x < y < sv.len() implies sv[x] != sv[y] by {
                    assert(it.seq()[x] != it.seq()[y]);
                }
                assert forall|kk: u32| #[trigger] header.bullets@.contains_key(kk) implies sv.contains((kk, header.bullets@[kk])) by {
                    let j = choose|j: int| 0 <= j < it.seq().len() && it.seq()[j] == (&kk, &header.bullets@[kk]);
                    assert(sv[j] == (kk, header.bullets@[kk]));
                }
            }
        }
    }
    assert(enumerates(hist, header.bullets@));
    assert(bullet_allow_list(*spec) == Some(allowed@));
    assert(error_views(errors@) == bullet_seq_errors(hist, allowed@));
    assert(exists|s: Seq<(u32, Bullet)>| enumerates(s, header.bullets@) && error_views(errors@) == bullet_seq_errors(s, allowed@));
    errors
}

} // verus!
