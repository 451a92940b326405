//! The exchange with an outside move provider: what it is told and how its reply is read.
use vstd::prelude::*;

use crate::board::{
    at, capture_move, normal_move, on_board, rights_after_capture, rights_after_capture_spec,
    GameData, Move, Piece, PiecePlacements,
};
use crate::movegen::insert_move;

verus! {

/// Triple `t` of a provider's reply is read: it and every triple before it fit in the
/// reply and start with a nonzero byte.
pub open spec fn plugin_live(reply: Seq<u8>, t: int) -> bool {
    &&& 0 <= t
    &&& 3 * t + 2 < reply.len()
    &&& forall|u: int| 0 <= u <= t ==> #[trigger] reply[3 * u] != 0
}

/// The move that triple `t` of the reply stands for, when its square is on the board: a
/// capture when the square is occupied, else a plain move.
pub open spec fn plugin_move(b: PiecePlacements, gd: GameData, reply: Seq<u8>, t: int) -> Option<
    Move,
> {
    let r = reply[3 * t] as int;
    let c = reply[3 * t + 1] as int;
    let n = reply[3 * t + 2];
    if on_board(r, c) {
        if at(b, r, c) != 0 {
            Some(capture_move(r, c, n, rights_after_capture_spec(gd, r, c, at(b, r, c))))
        } else {
            Some(normal_move(r, c, n, gd))
        }
    } else {
        None
    }
}

pub open spec fn plugin_moves(b: PiecePlacements, gd: GameData, reply: Seq<u8>) -> Set<Move> {
    Set::new(
        |m: Move|
            exists|t: int| plugin_live(reply, t) && #[trigger] plugin_move(b, gd, reply, t) == Some(m),
    )
}

/// Adds the moves named by the triples of an outside provider's reply: it lists
/// `(row, col, tag)` triples from its start, up to the first triple whose row byte is 0;
/// triples off the board are dropped.
pub fn add_plugin_moves(pp: &PiecePlacements, gd: GameData, reply: &[u8], acc: &mut Vec<Move>)
    requires
        old(acc)@.no_duplicates(),
    ensures
        final(acc)@.no_duplicates(),
        forall|m: Move|
            final(acc)@.contains(m) <==> (old(acc)@.contains(m) || plugin_moves(*pp, gd, reply@).contains(m)),
{
    let mut i: usize = 0;
    let ghost mut t: int = 0;
    while i < reply.len() && reply.len() - i > 2 && reply[i] != 0
        invariant
            i == 3 * t,
            0 <= t,
            i <= reply@.len(),
            forall|u: int| 0 <= u < t ==> #[trigger] reply@[3 * u] != 0,
            acc@.no_duplicates(),
            forall|m: Move|
                acc@.contains(m) <==> (old(acc)@.contains(m) || exists|u: int|
                    0 <= u < t && plugin_live(reply@, u) && #[trigger] plugin_move(*pp, gd, reply@, u)
                        == Some(m)),
        decreases reply@.len() - i,
    {
        let r = reply[i] as usize;
        let c = reply[i + 1] as usize;
        let n = reply[i + 2];
        let ghost before = acc@;
        assert(plugin_live(reply@, t));
        if 1 <= r && r <= 8 && 1 <= c && c <= 8 {
            let v = pp[r][c];
            let m = if v != 0 {
                Move::capture(r, c, n, rights_after_capture(gd, r, c, v))
            } else {
                Move::normal(r, c, n, gd)
            };
            assert(plugin_move(*pp, gd, reply@, t) == Some(m));
            insert_move(acc, m);
        } else {
            assert(plugin_move(*pp, gd, reply@, t) is None);
        }
        proof {
            assert forall|m: Move|
                acc@.contains(m) <==> (old(acc)@.contains(m) || exists|u: int|
                    0 <= u < t + 1 && plugin_live(reply@, u) && #[trigger] plugin_move(
                        *pp,
                        gd,
                        reply@,
                        u,
                    ) == Some(m)) by {
                if exists|u: int|
                    0 <= u < t + 1 && plugin_live(reply@, u) && #[trigger] plugin_move(
                        *pp,
                        gd,
                        reply@,
                        u,
                    ) == Some(m) {
                    let u = choose|u: int|
                        0 <= u < t + 1 && plugin_live(reply@, u) && #[trigger] plugin_move(
                            *pp,
                            gd,
                            reply@,
                            u,
                        ) == Some(m);
                    if u < t {
                        assert(before.contains(m) || old(acc)@.contains(m));
                    }
                }
            }
            t = t + 1;
        }
        i += 3;
    }
    proof {
        assert forall|m: Move|
            acc@.contains(m) <==> (old(acc)@.contains(m) || plugin_moves(*pp, gd, reply@).contains(m)) by {
            if plugin_moves(*pp, gd, reply@).contains(m) {
                let u = choose|u: int| plugin_live(reply@, u) && #[trigger] plugin_move(*pp, gd, reply@, u) == Some(m);
                if u >= t {
                    assert(reply@[3 * t] != 0);
                }
            }
        }
    }
}

/// What a move query hands the outside provider: the piece's row, column and tag, then the
/// 81 cells of the board, row by row from row 0.
pub open spec fn plugin_query(p: Piece, b: PiecePlacements) -> Seq<u8> {
    seq![p.row, p.col, p.name] + Seq::new(81, |i: int| at(b, i / 9, i % 9))
}

pub fn plugin_request(p: Piece, pp: &PiecePlacements) -> (r: Vec<u8>)
    ensures
        r@ == plugin_query(p, *pp),
{
    let mut v: Vec<u8> = Vec::new();
    v.push(p.row);
    v.push(p.col);
    v.push(p.name);
    let mut r: usize = 0;
    while r < 9
        invariant
            0 <= r <= 9,
            v@.len() == 3 + 9 * r,
            forall|i: int| 0 <= i < v@.len() ==> v@[i] == #[trigger] plugin_query(p, *pp)[i],
        decreases 9 - r,
    {
        let mut c: usize = 0;
        while c < 9
            invariant
                0 <= r < 9,
                0 <= c <= 9,
                v@.len() == 3 + 9 * r + c,
                forall|i: int| 0 <= i < v@.len() ==> v@[i] == #[trigger] plugin_query(p, *pp)[i],
            decreases 9 - c,
        {
            v.push(pp[r][c]);
            proof {
                let i = 3 + 9 * r + c;
                assert((i - 3) / 9 == r && (i - 3) % 9 == c) by (nonlinear_arith)
                    requires
                        i == 3 + 9 * r + c,
                        c < 9,
                ;
            }
            c += 1;
        }
        r += 1;
    }
    assert(v@ =~= plugin_query(p, *pp));
    v
}

} // verus!
