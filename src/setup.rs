//! The setup rules and the opening position they produce.
use vstd::prelude::*;

use crate::board::{
    at, lemma_put, on_board, set_square, Piece, PiecePlacements, BLACK_BISHOP, BLACK_KING,
    BLACK_KNIGHT, BLACK_PAWN, BLACK_QUEEN, BLACK_ROOK, WHITE_BISHOP, WHITE_KING, WHITE_KNIGHT,
    WHITE_PAWN, WHITE_QUEEN, WHITE_ROOK,
};
use crate::rules::Rules;

verus! {

/// The rules that place the pieces at the start of a game, one per family of pieces.
#[derive(Copy, Clone, Debug, PartialEq, Eq, Hash, Structural)]
pub enum SetupRule {
    Pawns,
    Rooks,
    Knights,
    Bishops,
    Queens,
    Kings,
}

/// The white piece that starts on column `c` of the back rank.
pub open spec fn back_rank_tag(c: int) -> u8 {
    if c == 1 || c == 8 {
        WHITE_ROOK
    } else if c == 2 || c == 7 {
        WHITE_KNIGHT
    } else if c == 3 || c == 6 {
        WHITE_BISHOP
    } else if c == 4 {
        WHITE_QUEEN
    } else {
        WHITE_KING
    }
}

/// The family of pieces that starts on `(r, c)`, if any.
pub open spec fn start_family(r: int, c: int) -> Option<SetupRule> {
    if !on_board(r, c) {
        None
    } else if r == 2 || r == 7 {
        Some(SetupRule::Pawns)
    } else if r == 1 || r == 8 {
        if c == 1 || c == 8 {
            Some(SetupRule::Rooks)
        } else if c == 2 || c == 7 {
            Some(SetupRule::Knights)
        } else if c == 3 || c == 6 {
            Some(SetupRule::Bishops)
        } else if c == 4 {
            Some(SetupRule::Queens)
        } else {
            Some(SetupRule::Kings)
        }
    } else {
        None
    }
}

/// The tag that starts on `(r, c)` in the usual opening position, 0 for none.
pub open spec fn start_tag(r: int, c: int) -> u8 {
    if !on_board(r, c) {
        0
    } else if r == 1 {
        back_rank_tag(c)
    } else if r == 2 {
        WHITE_PAWN
    } else if r == 7 {
        BLACK_PAWN
    } else if r == 8 {
        (back_rank_tag(c) + 32) as u8
    } else {
        0
    }
}

/// `p` is one of the pieces that the setup rule places.
pub open spec fn places(rule: SetupRule, p: Piece) -> bool {
    &&& start_family(p.row as int, p.col as int) == Some(rule)
    &&& p.name == start_tag(p.row as int, p.col as int)
}

/// The cell `(r, c)` once the setup rules `rules` have run on an empty board.
pub open spec fn set_up_cell(rules: Seq<SetupRule>, r: int, c: int) -> u8 {
    match start_family(r, c) {
        Some(f) => if rules.contains(f) {
            start_tag(r, c)
        } else {
            0
        },
        None => 0,
    }
}

fn piece(row: u8, col: u8, name: u8) -> (p: Piece)
    ensures
        p == (Piece { row, col, name }),
{
    Piece { row, col, name }
}

impl SetupRule {
    /// The pieces that this rule places.
    pub fn pieces(&self) -> (r: Vec<Piece>)
        ensures
            r@.no_duplicates(),
            forall|p: Piece| r@.contains(p) <==> places(*self, p),
    {
        match self {
            SetupRule::Pawns => {
                let mut v: Vec<Piece> = Vec::new();
                let mut c: u8 = 1;
                while c <= 8
                    invariant
                        1 <= c <= 9,
                        v@.no_duplicates(),
                        forall|p: Piece|
                            #[trigger] v@.contains(p) <==> (places(SetupRule::Pawns, p) && p.col < c),
                    decreases 9 - c,
                {
                    let ghost before = v@;
                    v.push(piece(2, c, WHITE_PAWN));
                    v.push(piece(7, c, BLACK_PAWN));
                    proof {
                        assert forall|j: int| 0 <= j < before.len() implies #[trigger] before[j].col < c by {
                            let q = before[j];
                            assert(0 <= j < before.len() && before[j] == q);
                            assert(before.contains(q));
                        }
                        assert forall|i: int, j: int|
                            0 <= i < v@.len() && 0 <= j < v@.len() && i != j implies v@[i] != v@[j] by {
                            if i < before.len() && j < before.len() {
                                assert(before[i] != before[j]);
                            } else if i < before.len() {
                                assert(before[i].col < c);
                            } else if j < before.len() {
                                assert(before[j].col < c);
                            }
                        }
                        assert forall|p: Piece|
                            v@.contains(p) <==> (places(SetupRule::Pawns, p) && p.col < c + 1) by {
                            if places(SetupRule::Pawns, p) && p.col == c {
                                if p.row == 2 {
                                    assert(v@[v@.len() - 2] == p);
                                } else {
                                    assert(v@[v@.len() - 1] == p);
                                }
                            }
                            if places(SetupRule::Pawns, p) && p.col < c {
                                assert(before.contains(p));
                                let j = choose|j: int| 0 <= j < before.len() && before[j] == p;
                                assert(v@[j] == p);
                            }
                            if v@.contains(p) {
                                let j = choose|j: int| 0 <= j < v@.len() && v@[j] == p;
                                if j < before.len() {
                                    assert(before.contains(p));
                                }
                            }
                        }
                    }
                    c += 1;
                }
                v
            },
            SetupRule::Rooks => {
                let v = vec![
                    piece(1, 1, WHITE_ROOK),
                    piece(1, 8, WHITE_ROOK),
                    piece(8, 1, BLACK_ROOK),
                    piece(8, 8, BLACK_ROOK),
                ];
                assert forall|p: Piece| v@.contains(p) <==> places(*self, p) by {
                    if places(*self, p) {
                        if p.row == 1 && p.col == 1 {
                            assert(v@[0] == p);
                        } else if p.row == 1 {
                            assert(v@[1] == p);
                        } else if p.col == 1 {
                            assert(v@[2] == p);
                        } else {
                            assert(v@[3] == p);
                        }
                    }
                }
                v
            },
            SetupRule::Knights => {
                let v = vec![
                    piece(1, 2, WHITE_KNIGHT),
                    piece(1, 7, WHITE_KNIGHT),
                    piece(8, 2, BLACK_KNIGHT),
                    piece(8, 7, BLACK_KNIGHT),
                ];
                assert forall|p: Piece| v@.contains(p) <==> places(*self, p) by {
                    if places(*self, p) {
                        if p.row == 1 && p.col == 2 {
                            assert(v@[0] == p);
                        } else if p.row == 1 {
                            assert(v@[1] == p);
                        } else if p.col == 2 {
                            assert(v@[2] == p);
                        } else {
                            assert(v@[3] == p);
                        }
                    }
                }
                v
            },
            SetupRule::Bishops => {
                let v = vec![
                    piece(1, 3, WHITE_BISHOP),
                    piece(1, 6, WHITE_BISHOP),
                    piece(8, 3, BLACK_BISHOP),
                    piece(8, 6, BLACK_BISHOP),
                ];
                assert forall|p: Piece| v@.contains(p) <==> places(*self, p) by {
                    if places(*self, p) {
                        if p.row == 1 && p.col == 3 {
                            assert(v@[0] == p);
                        } else if p.row == 1 {
                            assert(v@[1] == p);
                        } else if p.col == 3 {
                            assert(v@[2] == p);
                        } else {
                            assert(v@[3] == p);
                        }
                    }
                }
                v
            },
            SetupRule::Queens => {
                let v = vec![piece(1, 4, WHITE_QUEEN), piece(8, 4, BLACK_QUEEN)];
                assert forall|p: Piece| v@.contains(p) <==> places(*self, p) by {
                    if places(*self, p) {
                        if p.row == 1 {
                            assert(v@[0] == p);
                        } else {
                            assert(v@[1] == p);
                        }
                    }
                }
                v
            },
            SetupRule::Kings => {
                let v = vec![piece(1, 5, WHITE_KING), piece(8, 5, BLACK_KING)];
                assert forall|p: Piece| v@.contains(p) <==> places(*self, p) by {
                    if places(*self, p) {
                        if p.row == 1 {
                            assert(v@[0] == p);
                        } else {
                            assert(v@[1] == p);
                        }
                    }
                }
                v
            },
        }
    }
}

impl Rules {
    /// The board once every setup rule has placed its pieces on an empty board.
    pub fn setup_board(&self) -> (b: PiecePlacements)
        ensures
            forall|r: int, c: int|
                0 <= r < 9 && 0 <= c < 9 ==> #[trigger] at(b, r, c) == set_up_cell(self.setup_rules@, r, c),
    {
        let mut b: PiecePlacements = [[0u8; 9]; 9];
        let mut i: usize = 0;
        while i < self.setup_rules.len()
            invariant
                0 <= i <= self.setup_rules@.len(),
                forall|r: int, c: int|
                    0 <= r < 9 && 0 <= c < 9 ==> #[trigger] at(b, r, c) == set_up_cell(
                        self.setup_rules@.subrange(0, i as int),
                        r,
                        c,
                    ),
            decreases self.setup_rules@.len() - i,
        {
            let rule = self.setup_rules[i];
            let pieces = rule.pieces();
            let ghost done = self.setup_rules@.subrange(0, i as int);
            let ghost next = self.setup_rules@.subrange(0, i + 1);
            assert(next =~= done.push(rule));
            let mut j: usize = 0;
            while j < pieces.len()
                invariant
                    0 <= j <= pieces@.len(),
                    forall|p: Piece| pieces@.contains(p) <==> places(rule, p),
                    next == done.push(rule),
                    forall|r: int, c: int|
                        0 <= r < 9 && 0 <= c < 9 ==> #[trigger] at(b, r, c) == if (exists|k: int|
                            0 <= k < j && pieces@[k].row == r && pieces@[k].col == c) {
                            start_tag(r, c)
                        } else {
                            set_up_cell(done, r, c)
                        },
                decreases pieces@.len() - j,
            {
                let p = pieces[j];
                assert(pieces@.contains(p));
                assert(places(rule, p));
                let ghost old_b = b;
                set_square(&mut b, p.row as usize, p.col as usize, p.name);
                proof {
                    assert forall|r: int, c: int|
                        0 <= r < 9 && 0 <= c < 9 implies #[trigger] at(b, r, c) == if (exists|k: int|
                            0 <= k < j + 1 && pieces@[k].row == r && pieces@[k].col == c) {
                            start_tag(r, c)
                        } else {
                            set_up_cell(done, r, c)
                        } by {
                        if r == p.row && c == p.col {
                            lemma_put(old_b, p.row as int, p.col as int, p.name, r, c);
                            assert(0 <= j < j + 1 && pieces@[j as int].row == r && pieces@[j as int].col == c);
                        } else {
                            lemma_put(old_b, p.row as int, p.col as int, p.name, r, c);
                            if exists|k: int| 0 <= k < j + 1 && pieces@[k].row == r && pieces@[k].col == c {
                                let k = choose|k: int| 0 <= k < j + 1 && pieces@[k].row == r && pieces@[k].col == c;
                                assert(k < j);
                            }
                        }
                    }
                }
                j += 1;
            }
            proof {
                assert forall|r: int, c: int|
                    0 <= r < 9 && 0 <= c < 9 implies #[trigger] at(b, r, c) == set_up_cell(next, r, c) by {
                    if start_family(r, c) == Some(rule) {
                        let p = Piece { row: r as u8, col: c as u8, name: start_tag(r, c) };
                        assert(places(rule, p));
                        assert(pieces@.contains(p));
                        let k = choose|k: int| 0 <= k < pieces@.len() && pieces@[k] == p;
                        assert(pieces@[k].row == r && pieces@[k].col == c);
                        assert(at(b, r, c) == start_tag(r, c));
                        assert(next[i as int] == rule);
                        assert(next.contains(rule));
                    } else {
                        if exists|k: int| 0 <= k < pieces@.len() && pieces@[k].row == r && pieces@[k].col == c {
                            let k = choose|k: int| 0 <= k < pieces@.len() && pieces@[k].row == r && pieces@[k].col == c;
                            assert(pieces@.contains(pieces@[k]));
                            assert(places(rule, pieces@[k]));
                        }
                        assert(at(b, r, c) == set_up_cell(done, r, c));
                        match start_family(r, c) {
                            Some(f) => {
                                if next.contains(f) {
                                    let k = choose|k: int| 0 <= k < next.len() && next[k] == f;
                                    assert(done[k] == f);
                                }
                                if done.contains(f) {
                                    let k = choose|k: int| 0 <= k < done.len() && done[k] == f;
                                    assert(next[k] == f);
                                }
                            },
                            None => {},
                        }
                    }
                }
            }
            i += 1;
        }
        assert(self.setup_rules@.subrange(0, i as int) =~= self.setup_rules@);
        b
    }

}

} // verus!
