//! Properties that hold of the rules as a whole, stated and proved over their specifications.
use vstd::prelude::*;

use crate::attack::{
    as_kind, attack_state, king_safe, own_king, square_attacked, takes_kind, threatens,
};
use crate::board::{
    at, board_after, enemies, is_white_tag, lemma_put, move_in_range, normal_move, on_board,
    piece_on_board, put, upper, with_mask, GameData, Move, MoveType, Piece, PiecePlacements,
    WHITE_BISHOP, WHITE_KING, WHITE_KNIGHT, WHITE_PAWN, WHITE_QUEEN, WHITE_ROOK,
};
use crate::castle::{castle_flag, castle_move, castle_moves};
use crate::movegen::{
    along, dir, dir_moves, knight_move, knight_moves, knight_offset, linear_moves,
    pawn_advances, pawn_capture_move, pawn_captures, pawn_dir, pawn_on_home_rank, pawn_reach,
    path_clear, ray_cell, ray_move,
};
use crate::rules::{
    all_constraints_hold, constraint_holds, king_rights, legal_moves, next_state, pseudo_moves,
    rook_rights, rule_applies, rule_moves, ConstraintRule, MovementKind, MovementRule,
};

verus! {

/// On a board where only `p` stands, the sliding moves of `p` reach exactly the squares of
/// the board along each of the four directions, all as plain moves.
pub proof fn lemma_slide_on_empty_board(p: Piece, b: PiecePlacements, diagonal: bool, gd: GameData)
    requires
        piece_on_board(p),
        forall|r: int, c: int|
            on_board(r, c) && (r != p.row || c != p.col) ==> #[trigger] at(b, r, c) == 0,
    ensures
        forall|m: Move|
            linear_moves(p, b, diagonal, 8, gd).contains(m) <==> exists|d: int, k: int|
                0 <= d < 4 && 1 <= k <= 8 && on_board(
                    along(p.row as int, dir(diagonal, d).0, k),
                    along(p.col as int, dir(diagonal, d).1, k),
                ) && m == #[trigger] normal_move(
                    along(p.row as int, dir(diagonal, d).0, k),
                    along(p.col as int, dir(diagonal, d).1, k),
                    p.name,
                    gd,
                ),
{
    assert forall|m: Move|
        linear_moves(p, b, diagonal, 8, gd).contains(m) <==> exists|d: int, k: int|
            0 <= d < 4 && 1 <= k <= 8 && on_board(
                along(p.row as int, dir(diagonal, d).0, k),
                along(p.col as int, dir(diagonal, d).1, k),
            ) && m == #[trigger] normal_move(
                along(p.row as int, dir(diagonal, d).0, k),
                along(p.col as int, dir(diagonal, d).1, k),
                p.name,
                gd,
            ) by {
        if linear_moves(p, b, diagonal, 8, gd).contains(m) {
            let d = choose|d: int| 0 <= d < 4 && #[trigger] dir_moves(p, b, diagonal, d, 8, gd).contains(m);
            let (dr, dc) = dir(diagonal, d);
            let k = choose|k: int| 1 <= k <= 8 && #[trigger] ray_move(p, b, dr, dc, k, gd, true) == Some(m);
            assert(at(b, along(p.row as int, dr, k), along(p.col as int, dc, k)) == 0);
        }
        if exists|d: int, k: int|
            0 <= d < 4 && 1 <= k <= 8 && on_board(
                along(p.row as int, dir(diagonal, d).0, k),
                along(p.col as int, dir(diagonal, d).1, k),
            ) && m == #[trigger] normal_move(
                along(p.row as int, dir(diagonal, d).0, k),
                along(p.col as int, dir(diagonal, d).1, k),
                p.name,
                gd,
            ) {
            let (d, k) = choose|d: int, k: int|
                0 <= d < 4 && 1 <= k <= 8 && on_board(
                    along(p.row as int, dir(diagonal, d).0, k),
                    along(p.col as int, dir(diagonal, d).1, k),
                ) && m == #[trigger] normal_move(
                    along(p.row as int, dir(diagonal, d).0, k),
                    along(p.col as int, dir(diagonal, d).1, k),
                    p.name,
                    gd,
                );
            let (dr, dc) = dir(diagonal, d);
            assert forall|j: int| 1 <= j < k implies #[trigger] ray_cell(b, p, dr, dc, j) == 0 by {
                assert(on_board(along(p.row as int, dr, j), along(p.col as int, dc, j)));
            }
            assert(path_clear(b, p, dr, dc, k));
            assert(ray_move(p, b, dr, dc, k, gd, true) == Some(m));
            assert(dir_moves(p, b, diagonal, d, 8, gd).contains(m));
        }
    }
}

/// A pawn on its home rank with both squares ahead empty has exactly two advances: one
/// and two squares forward.
pub proof fn lemma_pawn_home_two_advances(p: Piece, b: PiecePlacements, gd: GameData)
    requires
        piece_on_board(p),
        pawn_on_home_rank(p),
        at(b, p.row + pawn_dir(p), p.col as int) == 0,
        at(b, p.row + 2 * pawn_dir(p), p.col as int) == 0,
    ensures
        pawn_advances(p, b, gd) == set![
            normal_move(p.row + pawn_dir(p), p.col as int, p.name, gd),
            normal_move(p.row + 2 * pawn_dir(p), p.col as int, p.name, gd),
        ],
        normal_move(p.row + pawn_dir(p), p.col as int, p.name, gd) != normal_move(
            p.row + 2 * pawn_dir(p),
            p.col as int,
            p.name,
            gd,
        ),
{
    let one = normal_move(p.row + pawn_dir(p), p.col as int, p.name, gd);
    let two = normal_move(p.row + 2 * pawn_dir(p), p.col as int, p.name, gd);
    let dr = pawn_dir(p);
    assert(ray_cell(b, p, dr, 0, 1) == 0);
    assert(ray_move(p, b, dr, 0, 1, gd, false) == Some(one));
    assert(ray_move(p, b, dr, 0, 2, gd, false) == Some(two));
    assert(pawn_advances(p, b, gd) =~= set![one, two]);
}

/// A pawn off its home rank has at most one advance: one square forward.
pub proof fn lemma_pawn_single_advance(p: Piece, b: PiecePlacements, gd: GameData)
    requires
        piece_on_board(p),
        !pawn_on_home_rank(p),
    ensures
        forall|m: Move|
            pawn_advances(p, b, gd).contains(m) ==> m == normal_move(
                p.row + pawn_dir(p),
                p.col as int,
                p.name,
                gd,
            ),
{
    assert forall|m: Move| pawn_advances(p, b, gd).contains(m) implies m == normal_move(
        p.row + pawn_dir(p),
        p.col as int,
        p.name,
        gd,
    ) by {
        let k = choose|k: int|
            1 <= k <= pawn_reach(p) && #[trigger] ray_move(p, b, pawn_dir(p), 0, k, gd, false) == Some(m);
    }
}

/// A pawn with the square ahead occupied has no advance, whatever its rank.
pub proof fn lemma_pawn_blocked(p: Piece, b: PiecePlacements, gd: GameData)
    requires
        piece_on_board(p),
        at(b, p.row + pawn_dir(p), p.col as int) != 0,
    ensures
        pawn_advances(p, b, gd) == Set::<Move>::empty(),
{
    let dr = pawn_dir(p);
    assert forall|m: Move| !pawn_advances(p, b, gd).contains(m) by {
        if pawn_advances(p, b, gd).contains(m) {
            let k = choose|k: int|
                1 <= k <= pawn_reach(p) && #[trigger] ray_move(p, b, dr, 0, k, gd, false) == Some(m);
            assert(ray_cell(b, p, dr, 0, 1) != 0);
            if k == 2 {
                assert(!path_clear(b, p, dr, 0, k));
            }
        }
    }
    assert(pawn_advances(p, b, gd) =~= Set::<Move>::empty());
}

/// A pawn takes on a forward diagonal exactly when an enemy stands there; its captures are
/// never plain moves.
pub proof fn lemma_pawn_capture_iff(p: Piece, b: PiecePlacements, gd: GameData, side: int)
    requires
        piece_on_board(p),
        side == -1 || side == 1,
    ensures
        (exists|m: Move|
            #[trigger] pawn_captures(p, b, gd).contains(m) && m.dst.row == p.row + pawn_dir(p) && m.dst.col
                == p.col + side) <==> (on_board(p.row + pawn_dir(p), p.col + side) && at(
            b,
            p.row + pawn_dir(p),
            p.col + side,
        ) != 0 && enemies(at(b, p.row + pawn_dir(p), p.col + side), p.name)),
        forall|m: Move| #[trigger] pawn_captures(p, b, gd).contains(m) ==> m.typ is Capture,
{
    let r = p.row + pawn_dir(p);
    let c = p.col + side;
    if exists|m: Move|
        #[trigger] pawn_captures(p, b, gd).contains(m) && m.dst.row == r && m.dst.col == c {
        let m = choose|m: Move|
            #[trigger] pawn_captures(p, b, gd).contains(m) && m.dst.row == r && m.dst.col == c;
        let s = choose|s: int| (s == -1 || s == 1) && #[trigger] pawn_capture_move(p, b, s, gd) == Some(m);
        assert(s == side);
    }
    if on_board(r, c) && at(b, r, c) != 0 && enemies(at(b, r, c), p.name) {
        let m = pawn_capture_move(p, b, side, gd)->Some_0;
        assert(pawn_captures(p, b, gd).contains(m));
    }
    assert forall|m: Move| #[trigger] pawn_captures(p, b, gd).contains(m) implies m.typ is Capture by {
        let s = choose|s: int| (s == -1 || s == 1) && #[trigger] pawn_capture_move(p, b, s, gd) == Some(m);
    }
}

/// A move after which a king of the mover's colour, wherever it stands, would be attacked
/// is never legal while the self-check rule is registered.
pub proof fn lemma_no_self_check(
    rules: Seq<MovementRule>,
    constraints: Seq<ConstraintRule>,
    p: Piece,
    b: PiecePlacements,
    gd: GameData,
    reply: Seq<u8>,
    m: Move,
    r: int,
    c: int,
)
    requires
        constraints.contains(ConstraintRule::ResolveCheck),
        on_board(r, c),
        at(board_after(p, m, b), r, c) == own_king(p),
        square_attacked(Piece { row: r as u8, col: c as u8, name: own_king(p) }, board_after(p, m, b)),
    ensures
        !legal_moves(rules, constraints, p, b, gd, reply).contains(m),
{
    if legal_moves(rules, constraints, p, b, gd, reply).contains(m) {
        let i = choose|i: int| 0 <= i < constraints.len() && constraints[i] == ConstraintRule::ResolveCheck;
        assert(constraint_holds(constraints[i], p, board_after(p, m, b)));
        assert(king_safe(p, board_after(p, m, b)));
    }
}

/// The order in which rules are registered does not matter: registries holding the same
/// movement rules and the same constraint rules give the same legal moves.
pub proof fn lemma_rule_order_irrelevant(
    rules1: Seq<MovementRule>,
    rules2: Seq<MovementRule>,
    constraints1: Seq<ConstraintRule>,
    constraints2: Seq<ConstraintRule>,
    p: Piece,
    b: PiecePlacements,
    gd: GameData,
    reply: Seq<u8>,
)
    requires
        rules1.to_set() == rules2.to_set(),
        constraints1.to_set() == constraints2.to_set(),
    ensures
        legal_moves(rules1, constraints1, p, b, gd, reply) == legal_moves(
            rules2,
            constraints2,
            p,
            b,
            gd,
            reply,
        ),
{
    assert forall|rs1: Seq<MovementRule>, rs2: Seq<MovementRule>, m: Move|
        rs1.to_set() == rs2.to_set() && #[trigger] pseudo_moves(rs1, p, b, gd, reply).contains(m) implies #[trigger] pseudo_moves(
        rs2,
        p,
        b,
        gd,
        reply,
    ).contains(m) by {
        let i = choose|i: int|
            0 <= i < rs1.len() && rule_applies(rs1[i], p) && #[trigger] rule_moves(
                rs1[i].kind,
                p,
                b,
                next_state(gd),
                reply,
            ).contains(m);
        assert(rs1.to_set().contains(rs1[i]));
        assert(rs2.to_set().contains(rs1[i]));
        let j = choose|j: int| 0 <= j < rs2.len() && rs2[j] == rs1[i];
    }
    assert forall|cs1: Seq<ConstraintRule>, cs2: Seq<ConstraintRule>, a: PiecePlacements|
        cs1.to_set() == cs2.to_set() && #[trigger] all_constraints_hold(cs1, p, a) implies #[trigger] all_constraints_hold(
        cs2,
        p,
        a,
    ) by {
        assert forall|j: int| 0 <= j < cs2.len() implies #[trigger] constraint_holds(cs2[j], p, a) by {
            assert(cs2.to_set().contains(cs2[j]));
            assert(cs1.to_set().contains(cs2[j]));
            let i = choose|i: int| 0 <= i < cs1.len() && cs1[i] == cs2[j];
            assert(constraint_holds(cs1[i], p, a));
        }
    }
    assert(legal_moves(rules1, constraints1, p, b, gd, reply) =~= legal_moves(
        rules2,
        constraints2,
        p,
        b,
        gd,
        reply,
    ));
}

/// The value of cell `(r, c)` once `p` has made move `m` on `b`: the last write to it wins.
pub open spec fn cell_after(p: Piece, m: Move, b: PiecePlacements, r: int, c: int) -> u8 {
    let at_dst = r == m.dst.row && c == m.dst.col;
    match m.typ {
        MoveType::Secondary { src, dst } => {
            if r == dst.row && c == dst.col {
                dst.name
            } else if r == src.row && c == src.col && !(src.row == m.dst.row && src.col == m.dst.col) {
                0
            } else if at_dst {
                p.name
            } else if r == p.row && c == p.col {
                0
            } else {
                at(b, r, c)
            }
        },
        MoveType::Capture { row, col } => {
            if r == row && c == col && !(row == m.dst.row && col == m.dst.col) {
                0
            } else if at_dst {
                p.name
            } else if r == p.row && c == p.col {
                0
            } else {
                at(b, r, c)
            }
        },
        MoveType::Normal => {
            if at_dst {
                p.name
            } else if r == p.row && c == p.col {
                0
            } else {
                at(b, r, c)
            }
        },
    }
}

proof fn lemma_board_after_cell(p: Piece, m: Move, b: PiecePlacements, r: int, c: int)
    requires
        move_in_range(p, m),
        0 <= r < 9,
        0 <= c < 9,
    ensures
        at(board_after(p, m, b), r, c) == cell_after(p, m, b, r, c),
{
    let b1 = put(b, p.row as int, p.col as int, 0);
    let moved = put(b1, m.dst.row as int, m.dst.col as int, p.name);
    lemma_put(b, p.row as int, p.col as int, 0, r, c);
    lemma_put(b1, m.dst.row as int, m.dst.col as int, p.name, r, c);
    match m.typ {
        MoveType::Normal => {},
        MoveType::Capture { row, col } => {
            lemma_put(moved, row as int, col as int, 0, r, c);
        },
        MoveType::Secondary { src, dst } => {
            let lifted = if src.row == m.dst.row && src.col == m.dst.col {
                moved
            } else {
                put(moved, src.row as int, src.col as int, 0)
            };
            lemma_put(moved, src.row as int, src.col as int, 0, r, c);
            lemma_put(lifted, dst.row as int, dst.col as int, dst.name, r, c);
        },
    }
}

proof fn lemma_boards_equal(x: PiecePlacements, y: PiecePlacements)
    requires
        forall|r: int, c: int| 0 <= r < 9 && 0 <= c < 9 ==> #[trigger] at(x, r, c) == at(y, r, c),
    ensures
        x == y,
{
    assert forall|r: int| 0 <= r < 9 implies x[r] == y[r] by {
        assert forall|c: int| 0 <= c < 9 implies x[r][c] == y[r][c] by {
            assert(at(x, r, c) == at(y, r, c));
        }
        assert(x[r] =~= y[r]);
    }
    assert(x =~= y);
}

/// The move that takes `m` back: the piece returns from the destination to `p`'s square,
/// and a captured piece, or the secondary piece, is put back where it stood.
pub open spec fn undo_of(p: Piece, m: Move, b: PiecePlacements) -> Move {
    Move {
        dst: p,
        typ: match m.typ {
            MoveType::Normal => MoveType::Normal,
            MoveType::Capture { row, col } => {
                let victim = Piece { row, col, name: at(b, row as int, col as int) };
                MoveType::Secondary { src: victim, dst: victim }
            },
            MoveType::Secondary { src, dst } => MoveType::Secondary { src: dst, dst: src },
        },
        game_data: m.game_data,
    }
}

/// What the built-in rules guarantee of each move they propose, which is what undoing it
/// needs.
pub open spec fn reversible(p: Piece, m: Move, b: PiecePlacements) -> bool {
    &&& on_board(m.dst.row as int, m.dst.col as int)
    &&& !(m.dst.row == p.row && m.dst.col == p.col)
    &&& m.dst.name == p.name
    &&& match m.typ {
        MoveType::Normal => at(b, m.dst.row as int, m.dst.col as int) == 0,
        MoveType::Capture { row, col } => row == m.dst.row && col == m.dst.col,
        MoveType::Secondary { src, dst } => {
            &&& on_board(src.row as int, src.col as int)
            &&& on_board(dst.row as int, dst.col as int)
            &&& src.row == p.row && dst.row == p.row && m.dst.row == p.row
            &&& p.col != src.col && p.col != dst.col && m.dst.col != src.col && m.dst.col != dst.col
                && src.col != dst.col
            &&& at(b, m.dst.row as int, m.dst.col as int) == 0
            &&& at(b, dst.row as int, dst.col as int) == 0
            &&& at(b, src.row as int, src.col as int) == src.name
            &&& src.name == dst.name
        },
    }
}

proof fn lemma_ray_reversible(p: Piece, b: PiecePlacements, dr: int, dc: int, k: int, gd: GameData, can_capture: bool)
    requires
        piece_on_board(p),
        -1 <= dr <= 1,
        -1 <= dc <= 1,
        dr != 0 || dc != 0,
        1 <= k,
        ray_move(p, b, dr, dc, k, gd, can_capture) is Some,
    ensures
        reversible(p, ray_move(p, b, dr, dc, k, gd, can_capture)->Some_0, b),
{
}

proof fn lemma_linear_reversible(p: Piece, b: PiecePlacements, diagonal: bool, max: int, gd: GameData, m: Move)
    requires
        piece_on_board(p),
        linear_moves(p, b, diagonal, max, gd).contains(m),
    ensures
        reversible(p, m, b),
{
    let d = choose|d: int| 0 <= d < 4 && #[trigger] dir_moves(p, b, diagonal, d, max, gd).contains(m);
    let (dr, dc) = dir(diagonal, d);
    let k = choose|k: int| 1 <= k <= max && #[trigger] ray_move(p, b, dr, dc, k, gd, true) == Some(m);
    lemma_ray_reversible(p, b, dr, dc, k, gd, true);
}

/// Every move that a built-in rule (any but the outside provider's) proposes can be undone.
pub proof fn lemma_builtin_moves_reversible(kind: MovementKind, p: Piece, b: PiecePlacements, gd: GameData, m: Move)
    requires
        piece_on_board(p),
        kind != MovementKind::Plugin,
        rule_moves(kind, p, b, gd, Seq::empty()).contains(m),
    ensures
        reversible(p, m, b),
{
    match kind {
        MovementKind::PawnMovement => {
            let k = choose|k: int|
                1 <= k <= pawn_reach(p) && #[trigger] ray_move(p, b, pawn_dir(p), 0, k, gd, false) == Some(m);
            lemma_ray_reversible(p, b, pawn_dir(p), 0, k, gd, false);
        },
        MovementKind::PawnCapture => {
            let s = choose|s: int| (s == -1 || s == 1) && #[trigger] pawn_capture_move(p, b, s, gd) == Some(m);
        },
        MovementKind::Knight => {
            let i = choose|i: int| 0 <= i < 8 && #[trigger] knight_move(p, b, i, gd) == Some(m);
        },
        MovementKind::Bishop => lemma_linear_reversible(p, b, true, 8, gd, m),
        MovementKind::Rook => lemma_linear_reversible(p, b, false, 8, rook_rights(p, gd), m),
        MovementKind::Queen => {
            if linear_moves(p, b, false, 8, gd).contains(m) {
                lemma_linear_reversible(p, b, false, 8, gd, m);
            } else {
                lemma_linear_reversible(p, b, true, 8, gd, m);
            }
        },
        MovementKind::King => {
            if linear_moves(p, b, false, 1, king_rights(p, gd)).contains(m) {
                lemma_linear_reversible(p, b, false, 1, king_rights(p, gd), m);
            } else {
                lemma_linear_reversible(p, b, true, 1, king_rights(p, gd), m);
            }
        },
        MovementKind::KingsideCastle => {
            assert(castle_move(p, b, gd, 8) == Some(m));
            assert(at(b, p.row as int, 6) == 0);
            assert(at(b, p.row as int, 7) == 0);
        },
        MovementKind::QueensideCastle => {
            assert(castle_move(p, b, gd, 1) == Some(m));
            assert(at(b, p.row as int, 3) == 0);
            assert(at(b, p.row as int, 4) == 0);
        },
        MovementKind::Plugin => {},
    }
}

/// Making a move that a built-in rule proposes, then its undo move, gives back the board
/// exactly as it was, for plain moves, captures and castling alike.
pub proof fn lemma_undo_restores(kind: MovementKind, p: Piece, b: PiecePlacements, gd: GameData, m: Move)
    requires
        piece_on_board(p),
        at(b, p.row as int, p.col as int) == p.name,
        kind != MovementKind::Plugin,
        rule_moves(kind, p, b, gd, Seq::empty()).contains(m),
    ensures
        board_after(m.dst, undo_of(p, m, b), board_after(p, m, b)) == b,
{
    lemma_builtin_moves_reversible(kind, p, b, gd, m);
    let after = board_after(p, m, b);
    let u = undo_of(p, m, b);
    assert(move_in_range(p, m));
    assert(move_in_range(m.dst, u));
    assert forall|r: int, c: int| 0 <= r < 9 && 0 <= c < 9 implies #[trigger] at(board_after(m.dst, u, after), r, c)
        == at(b, r, c) by {
        lemma_board_after_cell(m.dst, u, after, r, c);
        lemma_board_after_cell(p, m, b, r, c);
        match m.typ {
            MoveType::Capture { row, col } => {
                lemma_board_after_cell(p, m, b, row as int, col as int);
            },
            _ => {},
        }
    }
    lemma_boards_equal(board_after(m.dst, u, after), b);
}

/// Everything the king's rules propose: its steps and both castling moves.
pub open spec fn king_rule_moves(p: Piece, b: PiecePlacements, gd: GameData) -> Set<Move> {
    rule_moves(MovementKind::King, p, b, gd, Seq::empty()).union(
        rule_moves(MovementKind::KingsideCastle, p, b, gd, Seq::empty()),
    ).union(rule_moves(MovementKind::QueensideCastle, p, b, gd, Seq::empty()))
}

proof fn lemma_flag_bits(a: u16)
    ensures
        (a | 1u16) | 5u16 == a | 5u16,
        (a | 4u16) | 5u16 == a | 5u16,
        (a | 2u16) | 10u16 == a | 10u16,
        (a | 8u16) | 10u16 == a | 10u16,
        (a | 1u16) & 4u16 == a & 4u16,
        (a | 4u16) & 1u16 == a & 1u16,
        (a | 2u16) & 8u16 == a & 8u16,
        (a | 8u16) & 2u16 == a & 2u16,
        (a | 1u16) & 1u16 != 0,
        (a | 4u16) & 4u16 != 0,
        (a | 2u16) & 2u16 != 0,
        (a | 8u16) & 8u16 != 0,
{
    assert((a | 1u16) | 5u16 == a | 5u16) by (bit_vector);
    assert((a | 4u16) | 5u16 == a | 5u16) by (bit_vector);
    assert((a | 2u16) | 10u16 == a | 10u16) by (bit_vector);
    assert((a | 8u16) | 10u16 == a | 10u16) by (bit_vector);
    assert((a | 1u16) & 4u16 == a & 4u16) by (bit_vector);
    assert((a | 4u16) & 1u16 == a & 1u16) by (bit_vector);
    assert((a | 2u16) & 8u16 == a & 8u16) by (bit_vector);
    assert((a | 8u16) & 2u16 == a & 2u16) by (bit_vector);
    assert((a | 1u16) & 1u16 != 0) by (bit_vector);
    assert((a | 4u16) & 4u16 != 0) by (bit_vector);
    assert((a | 2u16) & 2u16 != 0) by (bit_vector);
    assert((a | 8u16) & 8u16 != 0) by (bit_vector);
}

/// Withdrawing the right to castle with one rook, where that castle was offered, takes
/// exactly that castling move away from the king's moves and leaves every other one.
pub proof fn lemma_castle_right_only(p: Piece, b: PiecePlacements, gd: GameData, rook_col: int)
    requires
        piece_on_board(p),
        rook_col == 1 || rook_col == 8,
        castle_move(p, b, gd, rook_col) is Some,
    ensures
        king_rule_moves(p, b, with_mask(gd, castle_flag(is_white_tag(p.name), rook_col)))
            == king_rule_moves(p, b, gd).remove(castle_move(p, b, gd, rook_col)->Some_0),
{
    let white = is_white_tag(p.name);
    let f = castle_flag(white, rook_col);
    let gd2 = with_mask(gd, f);
    let other = if rook_col == 1 {
        8int
    } else {
        1int
    };
    let cm = castle_move(p, b, gd, rook_col)->Some_0;
    lemma_flag_bits(gd.mask);
    assert(king_rights(p, gd2) == king_rights(p, gd));
    assert(castle_move(p, b, gd2, rook_col) is None);
    assert(castle_move(p, b, gd2, other) == castle_move(p, b, gd, other));
    let steps = rule_moves(MovementKind::King, p, b, gd, Seq::empty());
    assert(!steps.contains(cm)) by {
        if steps.contains(cm) {
            if linear_moves(p, b, false, 1, king_rights(p, gd)).contains(cm) {
                lemma_linear_capture_or_plain(p, b, false, 1, king_rights(p, gd), cm);
            } else {
                lemma_linear_capture_or_plain(p, b, true, 1, king_rights(p, gd), cm);
            }
        }
    }
    assert(!castle_moves(p, b, gd, other).contains(cm));
    let lhs = king_rule_moves(p, b, gd2);
    let rhs = king_rule_moves(p, b, gd).remove(cm);
    assert(rule_moves(MovementKind::King, p, b, gd2, Seq::empty()) == steps);
    assert(lhs =~= rhs);
}

proof fn lemma_linear_capture_or_plain(p: Piece, b: PiecePlacements, diagonal: bool, max: int, gd: GameData, m: Move)
    requires
        linear_moves(p, b, diagonal, max, gd).contains(m),
    ensures
        !(m.typ is Secondary),
{
    let d = choose|d: int| 0 <= d < 4 && #[trigger] dir_moves(p, b, diagonal, d, max, gd).contains(m);
    let (dr, dc) = dir(diagonal, d);
    let k = choose|k: int| 1 <= k <= max && #[trigger] ray_move(p, b, dr, dc, k, gd, true) == Some(m);
}

/// An enemy of `p` stands on `(r, c)` and is, in upper case, `k1` or `k2`.
pub open spec fn enemy_of_kind(p: Piece, b: PiecePlacements, r: int, c: int, k1: u8, k2: u8) -> bool {
    &&& on_board(r, c)
    &&& at(b, r, c) != 0
    &&& enemies(at(b, r, c), p.name)
    &&& (upper(at(b, r, c)) == k1 || upper(at(b, r, c)) == k2)
}

/// Such an enemy stands `k` steps from `p` along direction `d`, with nothing in between.
pub open spec fn enemy_along(p: Piece, b: PiecePlacements, diagonal: bool, d: int, k: int, k1: u8, k2: u8) -> bool {
    &&& path_clear(b, p, dir(diagonal, d).0, dir(diagonal, d).1, k)
    &&& enemy_of_kind(
        p,
        b,
        along(p.row as int, dir(diagonal, d).0, k),
        along(p.col as int, dir(diagonal, d).1, k),
        k1,
        k2,
    )
}

pub open spec fn line_attack(p: Piece, b: PiecePlacements, diagonal: bool, max: int, k1: u8, k2: u8) -> bool {
    exists|d: int, k: int| 0 <= d < 4 && 1 <= k <= max && #[trigger] enemy_along(p, b, diagonal, d, k, k1, k2)
}

pub open spec fn knight_attacker(p: Piece, b: PiecePlacements, i: int) -> bool {
    enemy_of_kind(p, b, p.row + knight_offset(i).0, p.col + knight_offset(i).1, WHITE_KNIGHT, WHITE_KNIGHT)
}

pub open spec fn pawn_attacker(p: Piece, b: PiecePlacements, side: int) -> bool {
    enemy_of_kind(p, b, p.row + pawn_dir(p), p.col + side, WHITE_PAWN, WHITE_PAWN)
}

/// The square of `p` is attacked, said directly: an enemy rook or queen on a clear line,
/// an enemy bishop or queen on a clear diagonal, an enemy knight a jump away, an enemy pawn
/// diagonally forward (as `p` would move as a pawn), or an enemy king next to it.
pub open spec fn attacked_directly(p: Piece, b: PiecePlacements) -> bool {
    ||| line_attack(p, b, false, 8, WHITE_ROOK, WHITE_QUEEN)
    ||| line_attack(p, b, true, 8, WHITE_BISHOP, WHITE_QUEEN)
    ||| exists|i: int| 0 <= i < 8 && #[trigger] knight_attacker(p, b, i)
    ||| exists|side: int| (side == -1 || side == 1) && #[trigger] pawn_attacker(p, b, side)
    ||| line_attack(p, b, false, 1, WHITE_KING, WHITE_KING)
    ||| line_attack(p, b, true, 1, WHITE_KING, WHITE_KING)
}

proof fn lemma_same_path(p: Piece, q: Piece, b: PiecePlacements, dr: int, dc: int, k: int)
    requires
        p.row == q.row && p.col == q.col,
    ensures
        path_clear(b, p, dr, dc, k) == path_clear(b, q, dr, dc, k),
{
    assert forall|j: int| #![trigger ray_cell(b, p, dr, dc, j)] #![trigger ray_cell(b, q, dr, dc, j)]
        ray_cell(b, p, dr, dc, j) == ray_cell(b, q, dr, dc, j) by {}
}

proof fn lemma_line_threat(p: Piece, tag: u8, b: PiecePlacements, diagonal: bool, max: int, gd: GameData, k1: u8, k2: u8)
    requires
        65 <= tag <= 90,
    ensures
        threatens(linear_moves(as_kind(p, tag), b, diagonal, max, gd), b, k1, k2) == line_attack(
            p,
            b,
            diagonal,
            max,
            k1,
            k2,
        ),
{
    let q = as_kind(p, tag);
    let moves = linear_moves(q, b, diagonal, max, gd);
    if threatens(moves, b, k1, k2) {
        let m = choose|m: Move| #[trigger] moves.contains(m) && takes_kind(m, b, k1, k2);
        let d = choose|d: int| 0 <= d < 4 && #[trigger] dir_moves(q, b, diagonal, d, max, gd).contains(m);
        let (dr, dc) = dir(diagonal, d);
        let k = choose|k: int| 1 <= k <= max && #[trigger] ray_move(q, b, dr, dc, k, gd, true) == Some(m);
        lemma_same_path(p, q, b, dr, dc, k);
        assert(enemy_along(p, b, diagonal, d, k, k1, k2));
    }
    if line_attack(p, b, diagonal, max, k1, k2) {
        let (d, k) = choose|d: int, k: int| 0 <= d < 4 && 1 <= k <= max && #[trigger] enemy_along(p, b, diagonal, d, k, k1, k2);
        let (dr, dc) = dir(diagonal, d);
        lemma_same_path(p, q, b, dr, dc, k);
        let m = ray_move(q, b, dr, dc, k, gd, true)->Some_0;
        assert(dir_moves(q, b, diagonal, d, max, gd).contains(m));
        assert(moves.contains(m) && takes_kind(m, b, k1, k2));
    }
}

/// The attack detector, which looks for attacks by generating moves from the square,
/// finds exactly the attackers that the direct description names.
pub proof fn lemma_attack_direct(p: Piece, b: PiecePlacements)
    ensures
        square_attacked(p, b) == attacked_directly(p, b),
{
    let gd = attack_state();
    lemma_line_threat(p, WHITE_ROOK, b, false, 8, gd, WHITE_ROOK, WHITE_QUEEN);
    lemma_line_threat(p, WHITE_BISHOP, b, true, 8, gd, WHITE_BISHOP, WHITE_QUEEN);
    lemma_line_threat(p, WHITE_KING, b, false, 1, gd, WHITE_KING, WHITE_KING);
    lemma_line_threat(p, WHITE_KING, b, true, 1, gd, WHITE_KING, WHITE_KING);
    let kings = linear_moves(as_kind(p, WHITE_KING), b, false, 1, gd).union(
        linear_moves(as_kind(p, WHITE_KING), b, true, 1, gd),
    );
    if threatens(kings, b, WHITE_KING, WHITE_KING) {
        let m = choose|m: Move| #[trigger] kings.contains(m) && takes_kind(m, b, WHITE_KING, WHITE_KING);
        if linear_moves(as_kind(p, WHITE_KING), b, false, 1, gd).contains(m) {
            assert(threatens(linear_moves(as_kind(p, WHITE_KING), b, false, 1, gd), b, WHITE_KING, WHITE_KING));
        } else {
            assert(threatens(linear_moves(as_kind(p, WHITE_KING), b, true, 1, gd), b, WHITE_KING, WHITE_KING));
        }
    }
    if threatens(linear_moves(as_kind(p, WHITE_KING), b, false, 1, gd), b, WHITE_KING, WHITE_KING) {
        let m = choose|m: Move| #[trigger] linear_moves(as_kind(p, WHITE_KING), b, false, 1, gd).contains(m)
            && takes_kind(m, b, WHITE_KING, WHITE_KING);
        assert(kings.contains(m));
    }
    if threatens(linear_moves(as_kind(p, WHITE_KING), b, true, 1, gd), b, WHITE_KING, WHITE_KING) {
        let m = choose|m: Move| #[trigger] linear_moves(as_kind(p, WHITE_KING), b, true, 1, gd).contains(m)
            && takes_kind(m, b, WHITE_KING, WHITE_KING);
        assert(kings.contains(m));
    }
    let kn = as_kind(p, WHITE_KNIGHT);
    let knights = knight_moves(kn, b, gd);
    if threatens(knights, b, WHITE_KNIGHT, WHITE_KNIGHT) {
        let m = choose|m: Move| #[trigger] knights.contains(m) && takes_kind(m, b, WHITE_KNIGHT, WHITE_KNIGHT);
        let i = choose|i: int| 0 <= i < 8 && #[trigger] knight_move(kn, b, i, gd) == Some(m);
        assert(knight_attacker(p, b, i));
    }
    if exists|i: int| 0 <= i < 8 && #[trigger] knight_attacker(p, b, i) {
        let i = choose|i: int| 0 <= i < 8 && #[trigger] knight_attacker(p, b, i);
        let m = knight_move(kn, b, i, gd)->Some_0;
        assert(knights.contains(m) && takes_kind(m, b, WHITE_KNIGHT, WHITE_KNIGHT));
    }
    let pw = as_kind(p, WHITE_PAWN);
    let pawns = pawn_captures(pw, b, gd);
    if threatens(pawns, b, WHITE_PAWN, WHITE_PAWN) {
        let m = choose|m: Move| #[trigger] pawns.contains(m) && takes_kind(m, b, WHITE_PAWN, WHITE_PAWN);
        let s = choose|s: int| (s == -1 || s == 1) && #[trigger] pawn_capture_move(pw, b, s, gd) == Some(m);
        assert(pawn_attacker(p, b, s));
    }
    if exists|s: int| (s == -1 || s == 1) && #[trigger] pawn_attacker(p, b, s) {
        let s = choose|s: int| (s == -1 || s == 1) && #[trigger] pawn_attacker(p, b, s);
        let m = pawn_capture_move(pw, b, s, gd)->Some_0;
        assert(pawns.contains(m) && takes_kind(m, b, WHITE_PAWN, WHITE_PAWN));
    }
}

} // verus!
