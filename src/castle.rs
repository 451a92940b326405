//! Castling, with its rights, its empty path, and the squares that must not be attacked.
use vstd::prelude::*;

use crate::attack::{piece_attacked, square_attacked};
use crate::board::{
    at, is_white_tag, piece_on_board, with_mask, GameData, Move, MoveType, Piece,
    PiecePlacements, BLACK_ROOK, GD_NO_BLACK_KS_CASTLE, GD_NO_BLACK_QS_CASTLE,
    GD_NO_WHITE_KS_CASTLE, GD_NO_WHITE_QS_CASTLE, WHITE_ROOK,
};
use crate::movegen::insert_move;

verus! {

/// Both castling rights of white, or of black.
pub const GD_NO_WHITE_CASTLE: u16 = 0x05;
pub const GD_NO_BLACK_CASTLE: u16 = 0x0a;

/// The bit that withdraws the right to castle with the rook of column `rook_col`.
pub open spec fn castle_flag(white: bool, rook_col: int) -> u16 {
    if white {
        if rook_col == 1 {
            GD_NO_WHITE_QS_CASTLE
        } else {
            GD_NO_WHITE_KS_CASTLE
        }
    } else {
        if rook_col == 1 {
            GD_NO_BLACK_QS_CASTLE
        } else {
            GD_NO_BLACK_KS_CASTLE
        }
    }
}

pub open spec fn side_flags(white: bool) -> u16 {
    if white {
        GD_NO_WHITE_CASTLE
    } else {
        GD_NO_BLACK_CASTLE
    }
}

/// The back rank of a colour.
pub open spec fn home_row(white: bool) -> int {
    if white {
        1
    } else {
        8
    }
}

pub open spec fn own_rook(white: bool) -> u8 {
    if white {
        WHITE_ROOK
    } else {
        BLACK_ROOK
    }
}

/// Where the king lands when castling with the rook of column `rook_col`.
pub open spec fn king_landing(rook_col: int) -> int {
    if rook_col == 1 {
        3
    } else {
        7
    }
}

/// Where the rook lands: next to the king, on the side the king came from.
pub open spec fn rook_landing(rook_col: int) -> int {
    if rook_col == 1 {
        4
    } else {
        6
    }
}

/// Column `c` lies strictly between the king's column and `rook_col`.
pub open spec fn between_king_and_rook(c: int, rook_col: int) -> bool {
    if rook_col == 1 {
        1 < c < 5
    } else {
        5 < c < 8
    }
}

/// Column `c` is one the king crosses or lands on.
pub open spec fn on_king_path(c: int, rook_col: int) -> bool {
    if rook_col == 1 {
        3 <= c <= 4
    } else {
        6 <= c <= 7
    }
}

/// The castling move of king `p` with the rook of column `rook_col`, if it is allowed: the
/// right is kept, king and rook stand on their home squares, nothing stands between them,
/// and neither the king's square nor any square it crosses or lands on is attacked.
pub open spec fn castle_move(p: Piece, b: PiecePlacements, gd: GameData, rook_col: int) -> Option<
    Move,
> {
    let white = is_white_tag(p.name);
    let row = home_row(white);
    let rook = own_rook(white);
    if gd.mask & castle_flag(white, rook_col) == 0 && p.row == row && p.col == 5 && at(b, row, 5)
        == p.name && at(b, row, rook_col) == rook && (forall|c: int|
        between_king_and_rook(c, rook_col) ==> #[trigger] at(b, row, c) == 0) && !square_attacked(
        Piece { row: row as u8, col: 5, name: p.name },
        b,
    ) && (forall|c: int|
        on_king_path(c, rook_col) ==> !#[trigger] square_attacked(
            Piece { row: row as u8, col: c as u8, name: p.name },
            b,
        )) {
        Some(
            Move {
                dst: Piece { row: row as u8, col: king_landing(rook_col) as u8, name: p.name },
                typ: MoveType::Secondary {
                    src: Piece { row: row as u8, col: rook_col as u8, name: rook },
                    dst: Piece { row: row as u8, col: rook_landing(rook_col) as u8, name: rook },
                },
                game_data: with_mask(gd, side_flags(white)),
            },
        )
    } else {
        None
    }
}

pub open spec fn castle_moves(p: Piece, b: PiecePlacements, gd: GameData, rook_col: int) -> Set<
    Move,
> {
    match castle_move(p, b, gd, rook_col) {
        Some(m) => set![m],
        None => Set::empty(),
    }
}

/// Adds the castling move of king `p` with the rook of column `rook_col` (1 or 8), when
/// it is allowed.
pub fn add_castle(p: Piece, pp: &PiecePlacements, gd: GameData, acc: &mut Vec<Move>, rook_col: usize)
    requires
        piece_on_board(p),
        rook_col == 1 || rook_col == 8,
        old(acc)@.no_duplicates(),
    ensures
        final(acc)@.no_duplicates(),
        forall|m: Move|
            final(acc)@.contains(m) <==> (old(acc)@.contains(m) || castle_moves(
                p,
                *pp,
                gd,
                rook_col as int,
            ).contains(m)),
{
    let ghost b = *pp;
    let white = p.is_white();
    let flag = if white {
        if rook_col == 1 {
            GD_NO_WHITE_QS_CASTLE
        } else {
            GD_NO_WHITE_KS_CASTLE
        }
    } else {
        if rook_col == 1 {
            GD_NO_BLACK_QS_CASTLE
        } else {
            GD_NO_BLACK_KS_CASTLE
        }
    };
    if gd.mask & flag != 0 {
        return;
    }
    let row: usize = if white {
        1
    } else {
        8
    };
    let rn = if white {
        WHITE_ROOK
    } else {
        BLACK_ROOK
    };
    let new_mask = if white {
        GD_NO_WHITE_CASTLE
    } else {
        GD_NO_BLACK_CASTLE
    };
    let kd: u8 = if rook_col == 1 {
        3
    } else {
        7
    };
    let rd: u8 = if rook_col == 1 {
        4
    } else {
        6
    };
    if p.row as usize != row || p.col != 5 || pp[row][5] != p.name || pp[row][rook_col] != rn {
        return;
    }
    let lo: usize = if rook_col == 1 {
        2
    } else {
        6
    };
    let hi: usize = if rook_col == 1 {
        4
    } else {
        7
    };
    let mut c: usize = lo;
    while c <= hi
        invariant
            lo <= c <= hi + 1,
            hi <= 7,
            rook_col == 1 || rook_col == 8,
            b == *pp,
            acc@ == old(acc)@,
            old(acc)@.no_duplicates(),
            white == is_white_tag(p.name),
            gd.mask & castle_flag(white, rook_col as int) == 0,
            p.row == row && p.col == 5,
            at(b, row as int, 5) == p.name,
            at(b, row as int, rook_col as int) == rn,
            rn == own_rook(white),
            new_mask == side_flags(white),
            kd == king_landing(rook_col as int),
            rd == rook_landing(rook_col as int),
            row == home_row(white),
            rook_col == 1 ==> lo == 2 && hi == 4,
            rook_col == 8 ==> lo == 6 && hi == 7,
            forall|c2: int| lo <= c2 < c ==> #[trigger] at(b, row as int, c2) == 0,
        decreases hi + 1 - c,
    {
        if pp[row][c] != 0 {
            assert(between_king_and_rook(c as int, rook_col as int));
            assert(at(b, row as int, c as int) != 0);
            assert(castle_move(p, b, gd, rook_col as int) is None);
            return;
        }
        c += 1;
    }
    if piece_attacked(Piece { row: row as u8, col: 5, name: p.name }, pp) {
        return;
    }
    let mut c: usize = if rook_col == 1 {
        3
    } else {
        6
    };
    let end: usize = if rook_col == 1 {
        4
    } else {
        7
    };
    let ghost first = c;
    while c <= end
        invariant
            first <= c <= end + 1,
            3 <= first,
            end <= 7,
            rook_col == 1 || rook_col == 8,
            b == *pp,
            acc@ == old(acc)@,
            old(acc)@.no_duplicates(),
            white == is_white_tag(p.name),
            gd.mask & castle_flag(white, rook_col as int) == 0,
            p.row == row && p.col == 5,
            at(b, row as int, 5) == p.name,
            at(b, row as int, rook_col as int) == rn,
            rn == own_rook(white),
            new_mask == side_flags(white),
            kd == king_landing(rook_col as int),
            rd == rook_landing(rook_col as int),
            row == home_row(white),
            rook_col == 1 ==> first == 3 && end == 4,
            rook_col == 8 ==> first == 6 && end == 7,
            piece_on_board(p),
            forall|c2: int|
                first <= c2 < c ==> !#[trigger] square_attacked(
                    Piece { row: row as u8, col: c2 as u8, name: p.name },
                    b,
                ),
        decreases end + 1 - c,
    {
        if piece_attacked(Piece { row: row as u8, col: c as u8, name: p.name }, pp) {
            assert(on_king_path(c as int, rook_col as int));
            assert(square_attacked(Piece { row: row as u8, col: c as u8, name: p.name }, b));
            assert(castle_move(p, b, gd, rook_col as int) is None);
            return;
        }
        c += 1;
    }
    let m = Move {
        dst: Piece { row: row as u8, col: kd, name: p.name },
        typ: MoveType::Secondary {
            src: Piece { row: row as u8, col: rook_col as u8, name: rn },
            dst: Piece { row: row as u8, col: rd, name: rn },
        },
        game_data: GameData { ply: gd.ply, mask: gd.mask | new_mask },
    };
    assert(castle_move(p, b, gd, rook_col as int) == Some(m));
    insert_move(acc, m);
}

} // verus!
