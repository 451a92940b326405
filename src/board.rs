//! The board, pieces, moves and game state, and what making a move does to the board.
use vstd::prelude::*;

verus! {

/// Occupancy of the board, indexed `[row][col]`, both counted from 1; index 0 of each
/// dimension is unused. A cell holds 0 when the square is empty, else the ASCII tag of
/// the piece standing there: upper case for white, lower case for black.
pub type PiecePlacements = [[u8; 9]; 9];

/// Bits of `GameData::mask`: each one, once set, withdraws one castling right.
pub const GD_NO_WHITE_KS_CASTLE: u16 = 0x01;
pub const GD_NO_BLACK_KS_CASTLE: u16 = 0x02;
pub const GD_NO_WHITE_QS_CASTLE: u16 = 0x04;
pub const GD_NO_BLACK_QS_CASTLE: u16 = 0x08;
/// Every castling right withdrawn.
pub const GD_NO_CASTLE: u16 = 0x0f;

/// Tags of the white pieces; a black piece's tag is the lower-case letter, 32 above.
pub const WHITE_KING: u8 = 75;
pub const WHITE_QUEEN: u8 = 81;
pub const WHITE_ROOK: u8 = 82;
pub const WHITE_BISHOP: u8 = 66;
pub const WHITE_KNIGHT: u8 = 78;
pub const WHITE_PAWN: u8 = 80;
pub const BLACK_KING: u8 = 107;
pub const BLACK_QUEEN: u8 = 113;
pub const BLACK_ROOK: u8 = 114;
pub const BLACK_BISHOP: u8 = 98;
pub const BLACK_KNIGHT: u8 = 110;
pub const BLACK_PAWN: u8 = 112;

/// What occupies a square: its coordinates and its tag.
#[derive(Copy, Clone, Debug, PartialEq, Eq, Hash, Structural)]
pub struct Piece {
    pub row: u8,
    pub col: u8,
    pub name: u8,
}

/// The state of a game besides the board: the ply (1 for the first move) and the
/// withdrawn castling rights.
#[derive(Copy, Clone, Debug, PartialEq, Eq, Hash, Structural)]
pub struct GameData {
    pub ply: u16,
    pub mask: u16,
}

#[derive(Copy, Clone, Debug, PartialEq, Eq, Hash, Structural)]
pub enum MoveType {
    Normal,
    /// The square whose occupant is taken.
    Capture { row: u8, col: u8 },
    /// A second piece that moves along, as the rook does when castling.
    Secondary { src: Piece, dst: Piece },
}

/// A possible move of a piece whose source square the caller knows: where it lands,
/// what else happens, and the game state that results.
#[derive(Copy, Clone, Debug, PartialEq, Eq, Hash, Structural)]
pub struct Move {
    pub dst: Piece,
    pub typ: MoveType,
    pub game_data: GameData,
}

pub open spec fn on_board(r: int, c: int) -> bool {
    1 <= r <= 8 && 1 <= c <= 8
}

pub open spec fn piece_on_board(p: Piece) -> bool {
    on_board(p.row as int, p.col as int)
}

/// The tag of a white piece is an upper-case ASCII letter.
pub open spec fn is_white_tag(n: u8) -> bool {
    65 <= n <= 90
}

pub open spec fn upper(n: u8) -> u8 {
    if 97 <= n <= 122 {
        (n - 32) as u8
    } else {
        n
    }
}

pub open spec fn lower(n: u8) -> u8 {
    if 65 <= n <= 90 {
        (n + 32) as u8
    } else {
        n
    }
}

pub open spec fn at(b: PiecePlacements, r: int, c: int) -> u8 {
    b[r][c]
}

/// Two occupied cells hold pieces of opposite colours.
pub open spec fn enemies(a: u8, b: u8) -> bool {
    is_white_tag(a) != is_white_tag(b)
}

pub open spec fn normal_move(r: int, c: int, name: u8, gd: GameData) -> Move {
    Move { dst: Piece { row: r as u8, col: c as u8, name }, typ: MoveType::Normal, game_data: gd }
}

pub open spec fn capture_move(r: int, c: int, name: u8, gd: GameData) -> Move {
    Move {
        dst: Piece { row: r as u8, col: c as u8, name },
        typ: MoveType::Capture { row: r as u8, col: c as u8 },
        game_data: gd,
    }
}

pub open spec fn with_mask(gd: GameData, bits: u16) -> GameData {
    GameData { ply: gd.ply, mask: gd.mask | bits }
}

/// The state after a capture on `(r, c)` of `victim`: taking a rook on its home corner
/// withdraws the castling right tied to that corner.
pub open spec fn rights_after_capture_spec(gd: GameData, r: int, c: int, victim: u8) -> GameData {
    if r == 1 && c == 1 && victim == WHITE_ROOK {
        with_mask(gd, GD_NO_WHITE_QS_CASTLE)
    } else if r == 1 && c == 8 && victim == WHITE_ROOK {
        with_mask(gd, GD_NO_WHITE_KS_CASTLE)
    } else if r == 8 && c == 1 && victim == BLACK_ROOK {
        with_mask(gd, GD_NO_BLACK_QS_CASTLE)
    } else if r == 8 && c == 8 && victim == BLACK_ROOK {
        with_mask(gd, GD_NO_BLACK_KS_CASTLE)
    } else {
        gd
    }
}

/// The board with one cell replaced.
pub open spec fn put(b: PiecePlacements, r: int, c: int, v: u8) -> PiecePlacements {
    vstd::array::spec_array_update(b, r, vstd::array::spec_array_update(b[r], c, v))
}

/// The board after `p` makes move `m`: its source square is emptied, its tag written at
/// the destination, then a captured square other than the destination is emptied, or
/// the secondary piece is lifted from its source (unless that is the destination) and
/// written at its own destination.
pub open spec fn board_after(p: Piece, m: Move, b: PiecePlacements) -> PiecePlacements {
    let moved = put(put(b, p.row as int, p.col as int, 0), m.dst.row as int, m.dst.col as int, p.name);
    match m.typ {
        MoveType::Normal => moved,
        MoveType::Capture { row, col } => {
            if row == m.dst.row && col == m.dst.col {
                moved
            } else {
                put(moved, row as int, col as int, 0)
            }
        },
        MoveType::Secondary { src, dst } => {
            let lifted = if src.row == m.dst.row && src.col == m.dst.col {
                moved
            } else {
                put(moved, src.row as int, src.col as int, 0)
            };
            put(lifted, dst.row as int, dst.col as int, dst.name)
        },
    }
}

/// Every square that applying `m` for `p` touches lies in the board's array.
pub open spec fn move_in_range(p: Piece, m: Move) -> bool {
    &&& p.row < 9 && p.col < 9
    &&& m.dst.row < 9 && m.dst.col < 9
    &&& match m.typ {
        MoveType::Normal => true,
        MoveType::Capture { row, col } => row < 9 && col < 9,
        MoveType::Secondary { src, dst } => src.row < 9 && src.col < 9 && dst.row < 9 && dst.col
            < 9,
    }
}

impl Piece {
    pub fn is_white(&self) -> (r: bool)
        ensures
            r == is_white_tag(self.name),
    {
        is_piece_white(self.name)
    }
}

pub fn is_piece_white(n: u8) -> (r: bool)
    ensures
        r == is_white_tag(n),
{
    65 <= n && n <= 90
}

pub fn to_lower(n: u8) -> (r: u8)
    ensures
        r == lower(n),
{
    if 65 <= n && n <= 90 {
        n + 32
    } else {
        n
    }
}

pub fn to_upper(n: u8) -> (r: u8)
    ensures
        r == upper(n),
{
    if 97 <= n && n <= 122 {
        n - 32
    } else {
        n
    }
}

impl Move {
    pub fn normal(r: usize, c: usize, name: u8, game_data: GameData) -> (m: Move)
        ensures
            m == normal_move(r as int, c as int, name, game_data),
    {
        Move {
            dst: Piece { row: r as u8, col: c as u8, name: name },
            typ: MoveType::Normal,
            game_data,
        }
    }

    pub fn capture(r: usize, c: usize, name: u8, game_data: GameData) -> (m: Move)
        ensures
            m == capture_move(r as int, c as int, name, game_data),
    {
        Move {
            dst: Piece { row: r as u8, col: c as u8, name: name },
            typ: MoveType::Capture { row: r as u8, col: c as u8 },
            game_data,
        }
    }
}

pub fn rights_after_capture(gd: GameData, r: usize, c: usize, victim: u8) -> (res: GameData)
    ensures
        res == rights_after_capture_spec(gd, r as int, c as int, victim),
{
    if r == 1 && c == 1 && victim == WHITE_ROOK {
        GameData { ply: gd.ply, mask: gd.mask | GD_NO_WHITE_QS_CASTLE }
    } else if r == 1 && c == 8 && victim == WHITE_ROOK {
        GameData { ply: gd.ply, mask: gd.mask | GD_NO_WHITE_KS_CASTLE }
    } else if r == 8 && c == 1 && victim == BLACK_ROOK {
        GameData { ply: gd.ply, mask: gd.mask | GD_NO_BLACK_QS_CASTLE }
    } else if r == 8 && c == 8 && victim == BLACK_ROOK {
        GameData { ply: gd.ply, mask: gd.mask | GD_NO_BLACK_KS_CASTLE }
    } else {
        gd
    }
}

/// A cell of the board after `put`.
pub proof fn lemma_put(b: PiecePlacements, r0: int, c0: int, v: u8, r: int, c: int)
    requires
        0 <= r0 < 9,
        0 <= c0 < 9,
        0 <= r < 9,
        0 <= c < 9,
    ensures
        at(put(b, r0, c0, v), r, c) == if r == r0 && c == c0 {
            v
        } else {
            at(b, r, c)
        },
{
    let row = vstd::array::spec_array_update(b[r0], c0, v);
    assert(row@ == b[r0]@.update(c0, v));
    assert(put(b, r0, c0, v)@ == b@.update(r0, row));
}

/// Writes `v` into one cell.
pub fn set_square(pp: &mut PiecePlacements, r: usize, c: usize, v: u8)
    requires
        r < 9,
        c < 9,
    ensures
        *final(pp) == put(*old(pp), r as int, c as int, v),
{
    pp[r][c] = v;
    assert(*pp =~= put(*old(pp), r as int, c as int, v)) by {
        assert forall|i: int| 0 <= i < 9 implies pp[i] == put(*old(pp), r as int, c as int, v)[i] by {
            if i == r {
                assert(pp[i] =~= put(*old(pp), r as int, c as int, v)[i]);
            }
        }
    }
}

} // verus!
