//! What the bullet check reports: one finding for each text bullet that
//! holds a character outside both the private-use area and the
//! allow-list, in the order the bullets are listed.

use vstd::prelude::*;
use crate::checker::ErrorView;
use crate::checker::bullet::{bullet_error, bullet_seq_errors, is_pua};
use crate::document::header::types::Bullet;
use crate::error::BULLET_SHAPES;

verus! {

/// Whether bullet `b` breaks the allow-list: it is a text bullet with a
/// character outside the private-use area and a character that the
/// allow-list lacks.
pub open spec fn bullet_offends(b: Bullet, allowed: Seq<char>) -> bool {
    &&& !b.use_image
    &&& exists|i: int| 0 <= i < b.char@.len() && !is_pua(#[trigger] b.char@[i])
    &&& exists|j: int| 0 <= j < b.char@.len() && !allowed.contains(#[trigger] b.char@[j])
}

/// One bullet gets a finding exactly when it breaks the allow-list; the
/// finding carries the bullet-shape code and the bullet's characters.
pub proof fn law_bullet_error_iff(b: Bullet, allowed: Seq<char>)
    ensures
        bullet_error(b, allowed) is Some <==> bullet_offends(b, allowed),
        bullet_error(b, allowed) matches Some(e) ==> e.error_code == BULLET_SHAPES && e.error_string == b.char@,
{
}

/// Over a listing of bullets, the findings are those of the offending
/// bullets, one each and in listing order: their messages are the
/// offending bullets' characters, and each carries the bullet-shape code.
pub proof fn law_bullet_findings_are_offenders(s: Seq<(u32, Bullet)>, allowed: Seq<char>)
    ensures
        bullet_seq_errors(s, allowed).map_values(|e: ErrorView| e.error_string) == s.filter(
            |p: (u32, Bullet)| bullet_offends(p.1, allowed),
        ).map_values(|p: (u32, Bullet)| p.1.char@),
        forall|i: int|
            0 <= i < bullet_seq_errors(s, allowed).len() ==> (#[trigger] bullet_seq_errors(s, allowed)[i]).error_code
                == BULLET_SHAPES,
    decreases s.len(),
{
    let pred = |p: (u32, Bullet)| bullet_offends(p.1, allowed);
    let msg = |e: ErrorView| e.error_string;
    let chr = |p: (u32, Bullet)| p.1.char@;
    reveal_with_fuel(Seq::filter, 1);
    if s.len() == 0 {
        assert(bullet_seq_errors(s, allowed).map_values(msg) =~= s.filter(pred).map_values(chr));
    } else {
        law_bullet_findings_are_offenders(s.drop_last(), allowed);
        law_bullet_error_iff(s.last().1, allowed);
        let pre = bullet_seq_errors(s.drop_last(), allowed);
        let all = bullet_seq_errors(s, allowed);
        let fpre = s.drop_last().filter(pred);
        assert(s.filter(pred) == if pred(s.last()) { fpre.push(s.last()) } else { fpre });
        assert(all.map_values(msg) =~= s.filter(pred).map_values(chr)) by {
            assert(pre.map_values(msg) == fpre.map_values(chr));
            assert(pre.map_values(msg).len() == fpre.map_values(chr).len());
            let f = s.filter(pred);
            if pred(s.last()) {
                assert(all == pre.push(bullet_error(s.last().1, allowed).unwrap()));
                assert forall|i: int| 0 <= i < all.len() implies #[trigger] all.map_values(msg)[i] == f.map_values(chr)[i] by {
                    if i < pre.len() {
                        assert(all[i] == pre[i]);
                        assert(f[i] == fpre[i]);
                        assert(pre.map_values(msg)[i] == fpre.map_values(chr)[i]);
                    }
                }
            } else {
                assert(all =~= pre);
            }
        }
        assert forall|i: int| 0 <= i < all.len() implies (#[trigger] all[i]).error_code == BULLET_SHAPES by {
            if i < pre.len() {
                assert(all[i] == pre[i]);
            }
        }
    }
}

} // verus!
