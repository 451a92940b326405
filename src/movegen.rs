//! Pseudo-legal move generation: sliding pieces, knight jumps, pawn advances and captures.
use vstd::prelude::*;

use crate::board::{
    at, capture_move, enemies, is_piece_white, is_white_tag, normal_move, on_board,
    piece_on_board, rights_after_capture, rights_after_capture_spec, Move, GameData, Piece,
    PiecePlacements,
};

verus! {

/// `x` moved `k` steps in the direction `d` (negative, zero or positive).
pub open spec fn along(x: int, d: int, k: int) -> int {
    if d > 0 {
        x + k
    } else if d < 0 {
        x - k
    } else {
        x
    }
}

/// The cell `j` steps from `p` in the direction `(dr, dc)`.
pub open spec fn ray_cell(b: PiecePlacements, p: Piece, dr: int, dc: int, j: int) -> u8 {
    at(b, along(p.row as int, dr, j), along(p.col as int, dc, j))
}

/// Every cell strictly between `p` and the `k`-th step along `(dr, dc)` is empty.
pub open spec fn path_clear(b: PiecePlacements, p: Piece, dr: int, dc: int, k: int) -> bool {
    forall|j: int| 1 <= j < k ==> #[trigger] ray_cell(b, p, dr, dc, j) == 0
}

/// What `p` may do on square `(r, c)`: step there when it is empty, take an enemy there
/// when `can_capture`, nothing otherwise.
pub open spec fn target_move(
    p: Piece,
    b: PiecePlacements,
    r: int,
    c: int,
    gd: GameData,
    can_capture: bool,
) -> Option<Move> {
    if at(b, r, c) == 0 {
        Some(normal_move(r, c, p.name, gd))
    } else if can_capture && enemies(at(b, r, c), p.name) {
        Some(capture_move(r, c, p.name, rights_after_capture_spec(gd, r, c, at(b, r, c))))
    } else {
        None
    }
}

/// The move `k` steps along `(dr, dc)`, if the square is on the board and nothing stands
/// before it.
pub open spec fn ray_move(
    p: Piece,
    b: PiecePlacements,
    dr: int,
    dc: int,
    k: int,
    gd: GameData,
    can_capture: bool,
) -> Option<Move> {
    let r = along(p.row as int, dr, k);
    let c = along(p.col as int, dc, k);
    if on_board(r, c) && path_clear(b, p, dr, dc, k) {
        target_move(p, b, r, c, gd, can_capture)
    } else {
        None
    }
}

/// The moves along one direction, up to `max` steps.
pub open spec fn ray_moves(
    p: Piece,
    b: PiecePlacements,
    dr: int,
    dc: int,
    max: int,
    gd: GameData,
    can_capture: bool,
) -> Set<Move> {
    Set::new(
        |m: Move|
            exists|k: int| 1 <= k <= max && #[trigger] ray_move(p, b, dr, dc, k, gd, can_capture) == Some(m),
    )
}

/// The four orthogonal directions, or the four diagonal ones, as `(row, col)` steps.
pub open spec fn dir(diagonal: bool, d: int) -> (int, int) {
    if diagonal {
        if d == 0 {
            (-1, -1)
        } else if d == 1 {
            (-1, 1)
        } else if d == 2 {
            (1, -1)
        } else {
            (1, 1)
        }
    } else {
        if d == 0 {
            (0, 1)
        } else if d == 1 {
            (1, 0)
        } else if d == 2 {
            (0, -1)
        } else {
            (-1, 0)
        }
    }
}

pub open spec fn dir_moves(
    p: Piece,
    b: PiecePlacements,
    diagonal: bool,
    d: int,
    max: int,
    gd: GameData,
) -> Set<Move> {
    ray_moves(p, b, dir(diagonal, d).0, dir(diagonal, d).1, max, gd, true)
}

/// Sliding moves: along each of the four directions, every empty square up to `max`
/// steps until the first occupied one, which is taken when it holds an enemy.
pub open spec fn linear_moves(
    p: Piece,
    b: PiecePlacements,
    diagonal: bool,
    max: int,
    gd: GameData,
) -> Set<Move> {
    Set::new(
        |m: Move| exists|d: int| 0 <= d < 4 && #[trigger] dir_moves(p, b, diagonal, d, max, gd).contains(m),
    )
}

/// The eight knight jumps, as `(row, col)` offsets.
pub open spec fn knight_offset(i: int) -> (int, int) {
    if i == 0 {
        (2, 1)
    } else if i == 1 {
        (1, 2)
    } else if i == 2 {
        (-1, 2)
    } else if i == 3 {
        (-2, 1)
    } else if i == 4 {
        (-2, -1)
    } else if i == 5 {
        (-1, -2)
    } else if i == 6 {
        (1, -2)
    } else {
        (2, -1)
    }
}

pub open spec fn knight_move(p: Piece, b: PiecePlacements, i: int, gd: GameData) -> Option<Move> {
    let r = p.row + knight_offset(i).0;
    let c = p.col + knight_offset(i).1;
    if on_board(r, c) {
        target_move(p, b, r, c, gd, true)
    } else {
        None
    }
}

/// The knight jumps that land on the board, onto an empty square or an enemy.
pub open spec fn knight_moves(p: Piece, b: PiecePlacements, gd: GameData) -> Set<Move> {
    Set::new(|m: Move| exists|i: int| 0 <= i < 8 && #[trigger] knight_move(p, b, i, gd) == Some(m))
}

/// The row direction in which a pawn of this colour advances.
pub open spec fn pawn_dir(p: Piece) -> int {
    if is_white_tag(p.name) {
        1
    } else {
        -1
    }
}

pub open spec fn pawn_on_home_rank(p: Piece) -> bool {
    if is_white_tag(p.name) {
        p.row == 2
    } else {
        p.row == 7
    }
}

pub open spec fn pawn_reach(p: Piece) -> int {
    if pawn_on_home_rank(p) {
        2
    } else {
        1
    }
}

/// A pawn's advances: one square, or two from its home rank, onto empty squares only.
pub open spec fn pawn_advances(p: Piece, b: PiecePlacements, gd: GameData) -> Set<Move> {
    ray_moves(p, b, pawn_dir(p), 0, pawn_reach(p), gd, false)
}

pub open spec fn pawn_capture_move(p: Piece, b: PiecePlacements, side: int, gd: GameData) -> Option<
    Move,
> {
    let r = p.row + pawn_dir(p);
    let c = p.col + side;
    if on_board(r, c) && at(b, r, c) != 0 && enemies(at(b, r, c), p.name) {
        Some(capture_move(r, c, p.name, rights_after_capture_spec(gd, r, c, at(b, r, c))))
    } else {
        None
    }
}

/// A pawn takes one square diagonally forward, and only an enemy.
pub open spec fn pawn_captures(p: Piece, b: PiecePlacements, gd: GameData) -> Set<Move> {
    Set::new(
        |m: Move|
            exists|side: int| (side == -1 || side == 1) && #[trigger] pawn_capture_move(p, b, side, gd) == Some(m),
    )
}

/// Adds `m` to a list of distinct moves, unless it is there already.
pub fn insert_move(acc: &mut Vec<Move>, m: Move)
    requires
        old(acc)@.no_duplicates(),
    ensures
        final(acc)@.no_duplicates(),
        forall|x: Move| final(acc)@.contains(x) <==> (old(acc)@.contains(x) || x == m),
{
    let mut i: usize = 0;
    while i < acc.len()
        invariant
            0 <= i <= acc@.len(),
            acc@ == old(acc)@,
            acc@.no_duplicates(),
            forall|j: int| 0 <= j < i ==> acc@[j] != m,
        decreases acc@.len() - i,
    {
        if acc[i] == m {
            return;
        }
        i += 1;
    }
    acc.push(m);
    proof {
        assert forall|x: Move| acc@.contains(x) <==> (old(acc)@.contains(x) || x == m) by {
            if x == m {
                assert(acc@[acc@.len() - 1] == m);
            }
            if old(acc)@.contains(x) {
                let j = choose|j: int| 0 <= j < old(acc)@.len() && old(acc)@[j] == x;
                assert(acc@[j] == x);
            }
        }
    }
}

/// What `p` may do on square `(r, c)` of the board: step there or take an enemy there.
fn target(p: Piece, pp: &PiecePlacements, r: usize, c: usize, gd: GameData, can_capture: bool) -> (res:
    Option<Move>)
    requires
        on_board(r as int, c as int),
    ensures
        res == target_move(p, *pp, r as int, c as int, gd, can_capture),
{
    let v = pp[r][c];
    if v == 0 {
        Some(Move::normal(r, c, p.name, gd))
    } else if can_capture && is_piece_white(v) != is_piece_white(p.name) {
        Some(Move::capture(r, c, p.name, rights_after_capture(gd, r, c, v)))
    } else {
        None
    }
}

/// Adds the moves along `(dr, dc)`, up to `max` steps.
pub fn add_ray(
    p: Piece,
    pp: &PiecePlacements,
    acc: &mut Vec<Move>,
    dr: i32,
    dc: i32,
    max: i32,
    gd: GameData,
    can_capture: bool,
)
    requires
        piece_on_board(p),
        -1 <= dr <= 1,
        -1 <= dc <= 1,
        dr != 0 || dc != 0,
        0 <= max <= 8,
        old(acc)@.no_duplicates(),
    ensures
        final(acc)@.no_duplicates(),
        forall|m: Move|
            final(acc)@.contains(m) <==> (old(acc)@.contains(m) || ray_moves(
                p,
                *pp,
                dr as int,
                dc as int,
                max as int,
                gd,
                can_capture,
            ).contains(m)),
{
    let ghost b = *pp;
    let mut k: i32 = 1;
    let mut r: i32 = p.row as i32 + dr;
    let mut c: i32 = p.col as i32 + dc;
    let mut stop = false;
    while !stop && k <= max
        invariant
            1 <= k <= max + 1,
            r == along(p.row as int, dr as int, k as int),
            c == along(p.col as int, dc as int, k as int),
            piece_on_board(p),
            -1 <= dr <= 1,
            -1 <= dc <= 1,
            dr != 0 || dc != 0,
            0 <= max <= 8,
            b == *pp,
            !stop ==> path_clear(b, p, dr as int, dc as int, k as int),
            stop ==> forall|j: int|
                k <= j <= max ==> #[trigger] ray_move(p, b, dr as int, dc as int, j, gd, can_capture)
                    is None,
            acc@.no_duplicates(),
            forall|m: Move|
                acc@.contains(m) <==> (old(acc)@.contains(m) || exists|j: int|
                    1 <= j < k && #[trigger] ray_move(p, b, dr as int, dc as int, j, gd, can_capture)
                        == Some(m)),
        decreases max + 1 - k + (if stop { 0int } else { 1int }),
    {
        if !(1 <= r && r <= 8 && 1 <= c && c <= 8) {
            stop = true;
            proof {
                assert forall|j: int| k <= j <= max implies #[trigger] ray_move(
                    p,
                    b,
                    dr as int,
                    dc as int,
                    j,
                    gd,
                    can_capture,
                ) is None by {}
            }
        } else {
            let ghost before = acc@;
            let t = target(p, pp, r as usize, c as usize, gd, can_capture);
            assert(ray_move(p, b, dr as int, dc as int, k as int, gd, can_capture) == t);
            match t {
                Some(m) => {
                    insert_move(acc, m);
                },
                None => {},
            }
            proof {
                assert forall|m: Move|
                    acc@.contains(m) <==> (old(acc)@.contains(m) || exists|j: int|
                        1 <= j < k + 1 && #[trigger] ray_move(
                            p,
                            b,
                            dr as int,
                            dc as int,
                            j,
                            gd,
                            can_capture,
                        ) == Some(m)) by {
                    if exists|j: int|
                        1 <= j < k + 1 && #[trigger] ray_move(
                            p,
                            b,
                            dr as int,
                            dc as int,
                            j,
                            gd,
                            can_capture,
                        ) == Some(m) {
                        let j = choose|j: int|
                            1 <= j < k + 1 && #[trigger] ray_move(
                                p,
                                b,
                                dr as int,
                                dc as int,
                                j,
                                gd,
                                can_capture,
                            ) == Some(m);
                        if j < k {
                            assert(before.contains(m) || old(acc)@.contains(m));
                        }
                    }
                }
            }
            if pp[r as usize][c as usize] != 0 {
                stop = true;
                proof {
                    assert(ray_cell(b, p, dr as int, dc as int, k as int) != 0);
                    assert forall|j: int| k + 1 <= j <= max implies #[trigger] ray_move(
                        p,
                        b,
                        dr as int,
                        dc as int,
                        j,
                        gd,
                        can_capture,
                    ) is None by {
                        assert(!path_clear(b, p, dr as int, dc as int, j));
                    }
                }
            } else {
                proof {
                    assert(ray_cell(b, p, dr as int, dc as int, k as int) == 0);
                    assert(path_clear(b, p, dr as int, dc as int, k + 1));
                }
            }
            k = k + 1;
            r = r + dr;
            c = c + dc;
        }
    }
    proof {
        assert forall|m: Move|
            acc@.contains(m) <==> (old(acc)@.contains(m) || ray_moves(
                p,
                b,
                dr as int,
                dc as int,
                max as int,
                gd,
                can_capture,
            ).contains(m)) by {
            if ray_moves(p, b, dr as int, dc as int, max as int, gd, can_capture).contains(m) {
                let j = choose|j: int|
                    1 <= j <= max && #[trigger] ray_move(
                        p,
                        b,
                        dr as int,
                        dc as int,
                        j,
                        gd,
                        can_capture,
                    ) == Some(m);
                if j >= k {
                    assert(stop);
                }
            }
        }
    }
}

fn direction(diagonal: bool, d: usize) -> (res: (i32, i32))
    requires
        d < 4,
    ensures
        res.0 as int == dir(diagonal, d as int).0,
        res.1 as int == dir(diagonal, d as int).1,
{
    if diagonal {
        if d == 0 {
            (-1, -1)
        } else if d == 1 {
            (-1, 1)
        } else if d == 2 {
            (1, -1)
        } else {
            (1, 1)
        }
    } else {
        if d == 0 {
            (0, 1)
        } else if d == 1 {
            (1, 0)
        } else if d == 2 {
            (0, -1)
        } else {
            (-1, 0)
        }
    }
}

/// Adds the sliding moves of `p` along the orthogonal or the diagonal directions.
pub fn add_linear_moves(
    p: Piece,
    pp: &PiecePlacements,
    acc: &mut Vec<Move>,
    diagonal: bool,
    max: i32,
    gd: GameData,
)
    requires
        piece_on_board(p),
        0 <= max <= 8,
        old(acc)@.no_duplicates(),
    ensures
        final(acc)@.no_duplicates(),
        forall|m: Move|
            final(acc)@.contains(m) <==> (old(acc)@.contains(m) || linear_moves(
                p,
                *pp,
                diagonal,
                max as int,
                gd,
            ).contains(m)),
{
    let mut d: usize = 0;
    while d < 4
        invariant
            0 <= d <= 4,
            piece_on_board(p),
            0 <= max <= 8,
            acc@.no_duplicates(),
            forall|m: Move|
                acc@.contains(m) <==> (old(acc)@.contains(m) || exists|e: int|
                    0 <= e < d && #[trigger] dir_moves(p, *pp, diagonal, e, max as int, gd).contains(
                        m,
                    )),
        decreases 4 - d,
    {
        let (dr, dc) = direction(diagonal, d);
        let ghost before = acc@;
        add_ray(p, pp, acc, dr, dc, max, gd, true);
        proof {
            assert forall|m: Move|
                acc@.contains(m) <==> (old(acc)@.contains(m) || exists|e: int|
                    0 <= e < d + 1 && #[trigger] dir_moves(p, *pp, diagonal, e, max as int, gd).contains(
                        m,
                    )) by {
                if dir_moves(p, *pp, diagonal, d as int, max as int, gd).contains(m) {
                    assert(acc@.contains(m));
                }
                if exists|e: int|
                    0 <= e < d + 1 && #[trigger] dir_moves(p, *pp, diagonal, e, max as int, gd).contains(
                        m,
                    ) {
                    let e = choose|e: int|
                        0 <= e < d + 1 && #[trigger] dir_moves(
                            p,
                            *pp,
                            diagonal,
                            e,
                            max as int,
                            gd,
                        ).contains(m);
                    if e < d {
                        assert(before.contains(m) || old(acc)@.contains(m));
                    }
                }
            }
        }
        d += 1;
    }
}

fn knight_jump(i: usize) -> (res: (i32, i32))
    requires
        i < 8,
    ensures
        res.0 as int == knight_offset(i as int).0,
        res.1 as int == knight_offset(i as int).1,
{
    if i == 0 {
        (2, 1)
    } else if i == 1 {
        (1, 2)
    } else if i == 2 {
        (-1, 2)
    } else if i == 3 {
        (-2, 1)
    } else if i == 4 {
        (-2, -1)
    } else if i == 5 {
        (-1, -2)
    } else if i == 6 {
        (1, -2)
    } else {
        (2, -1)
    }
}

/// Adds the knight jumps of `p`.
pub fn add_knight_moves(p: Piece, pp: &PiecePlacements, acc: &mut Vec<Move>, gd: GameData)
    requires
        piece_on_board(p),
        old(acc)@.no_duplicates(),
    ensures
        final(acc)@.no_duplicates(),
        forall|m: Move|
            final(acc)@.contains(m) <==> (old(acc)@.contains(m) || knight_moves(p, *pp, gd).contains(
                m,
            )),
{
    let mut i: usize = 0;
    while i < 8
        invariant
            0 <= i <= 8,
            piece_on_board(p),
            acc@.no_duplicates(),
            forall|m: Move|
                acc@.contains(m) <==> (old(acc)@.contains(m) || exists|j: int|
                    0 <= j < i && #[trigger] knight_move(p, *pp, j, gd) == Some(m)),
        decreases 8 - i,
    {
        let (dr, dc) = knight_jump(i);
        let r = p.row as i32 + dr;
        let c = p.col as i32 + dc;
        let ghost before = acc@;
        let t = if 1 <= r && r <= 8 && 1 <= c && c <= 8 {
            target(p, pp, r as usize, c as usize, gd, true)
        } else {
            None
        };
        assert(t == knight_move(p, *pp, i as int, gd));
        match t {
            Some(m) => insert_move(acc, m),
            None => {},
        }
        proof {
            assert forall|m: Move|
                acc@.contains(m) <==> (old(acc)@.contains(m) || exists|j: int|
                    0 <= j < i + 1 && #[trigger] knight_move(p, *pp, j, gd) == Some(m)) by {
                if exists|j: int| 0 <= j < i + 1 && #[trigger] knight_move(p, *pp, j, gd) == Some(m) {
                    let j = choose|j: int| 0 <= j < i + 1 && #[trigger] knight_move(p, *pp, j, gd) == Some(m);
                    if j < i {
                        assert(before.contains(m) || old(acc)@.contains(m));
                    }
                }
            }
        }
        i += 1;
    }
    assert forall|m: Move|
        acc@.contains(m) <==> (old(acc)@.contains(m) || knight_moves(p, *pp, gd).contains(m)) by {
        if knight_moves(p, *pp, gd).contains(m) {
            let j = choose|j: int| 0 <= j < 8 && #[trigger] knight_move(p, *pp, j, gd) == Some(m);
        }
    }
}

/// Adds the diagonal captures of the pawn `p`.
pub fn add_pawn_captures(p: Piece, pp: &PiecePlacements, acc: &mut Vec<Move>, gd: GameData)
    requires
        piece_on_board(p),
        old(acc)@.no_duplicates(),
    ensures
        final(acc)@.no_duplicates(),
        forall|m: Move|
            final(acc)@.contains(m) <==> (old(acc)@.contains(m) || pawn_captures(p, *pp, gd).contains(
                m,
            )),
{
    let white = p.is_white();
    let r: i32 = if white { p.row as i32 + 1 } else { p.row as i32 - 1 };
    let mut side: i32 = -1;
    while side <= 1
        invariant
            side == -1 || side == 1 || side == 3,
            white == is_white_tag(p.name),
            r == p.row + pawn_dir(p),
            piece_on_board(p),
            acc@.no_duplicates(),
            forall|m: Move|
                acc@.contains(m) <==> (old(acc)@.contains(m) || exists|s: int|
                    (s == -1 || s == 1) && s < side && #[trigger] pawn_capture_move(p, *pp, s, gd)
                        == Some(m)),
        decreases 3 - side,
    {
        let c = p.col as i32 + side;
        let ghost mid = acc@;
        let mut t: Option<Move> = None;
        if 1 <= r && r <= 8 && 1 <= c && c <= 8 {
            let v = pp[r as usize][c as usize];
            if v != 0 && is_piece_white(v) != white {
                t =
                Some(
                    Move::capture(
                        r as usize,
                        c as usize,
                        p.name,
                        rights_after_capture(gd, r as usize, c as usize, v),
                    ),
                );
            }
        }
        assert(t == pawn_capture_move(p, *pp, side as int, gd));
        match t {
            Some(m) => insert_move(acc, m),
            None => {},
        }
        proof {
            assert forall|m: Move|
                acc@.contains(m) <==> (old(acc)@.contains(m) || exists|s: int|
                    (s == -1 || s == 1) && s < side + 2 && #[trigger] pawn_capture_move(p, *pp, s, gd)
                        == Some(m)) by {
                if exists|s: int|
                    (s == -1 || s == 1) && s < side + 2 && #[trigger] pawn_capture_move(p, *pp, s, gd)
                        == Some(m) {
                    let s = choose|s: int|
                        (s == -1 || s == 1) && s < side + 2 && #[trigger] pawn_capture_move(
                            p,
                            *pp,
                            s,
                            gd,
                        ) == Some(m);
                    if s < side {
                        assert(mid.contains(m) || old(acc)@.contains(m));
                    }
                }
            }
        }
        side = side + 2;
    }
}

/// Adds the advances of the pawn `p`: one square forward, or two from its home rank, as
/// long as the squares are empty.
pub fn add_pawn_advances(p: Piece, pp: &PiecePlacements, acc: &mut Vec<Move>, gd: GameData)
    requires
        piece_on_board(p),
        old(acc)@.no_duplicates(),
    ensures
        final(acc)@.no_duplicates(),
        forall|m: Move|
            final(acc)@.contains(m) <==> (old(acc)@.contains(m) || pawn_advances(p, *pp, gd).contains(
                m,
            )),
{
    let white = p.is_white();
    let dr: i32 = if white { 1 } else { -1 };
    let max: i32 = if (white && p.row == 2) || (!white && p.row == 7) { 2 } else { 1 };
    add_ray(p, pp, acc, dr, 0, max, gd, false);
}

} // verus!
