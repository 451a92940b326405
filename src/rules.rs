//! The rule registry: movement, turn and constraint rules, and the legal moves of a piece.
use std::collections::HashMap;
use vstd::prelude::*;

use crate::attack::{king_not_attacked, king_safe};
use crate::board::{
    at, board_after, is_white_tag, lower, move_in_range, on_board, piece_on_board, set_square,
    to_lower,
    with_mask, GameData, Move, MoveType, Piece, PiecePlacements, BLACK_BISHOP, BLACK_KING,
    BLACK_KNIGHT, BLACK_PAWN, BLACK_QUEEN, BLACK_ROOK, GD_NO_BLACK_KS_CASTLE,
    GD_NO_BLACK_QS_CASTLE, GD_NO_WHITE_KS_CASTLE, GD_NO_WHITE_QS_CASTLE, WHITE_BISHOP,
    WHITE_KING, WHITE_KNIGHT, WHITE_PAWN, WHITE_QUEEN, WHITE_ROOK,
};
use crate::castle::{add_castle, castle_moves, side_flags, GD_NO_BLACK_CASTLE, GD_NO_WHITE_CASTLE};
use crate::movegen::{
    add_knight_moves, add_linear_moves, add_pawn_advances, add_pawn_captures, dir, dir_moves,
    insert_move, knight_move, knight_moves, linear_moves, pawn_advances, pawn_capture_move,
    pawn_captures, pawn_dir, pawn_reach, ray_move,
};
use crate::plugin::{add_plugin_moves, plugin_live, plugin_move, plugin_moves};
use crate::setup::SetupRule;

verus! {

/// The movement rules that the engine knows.
#[derive(Copy, Clone, Debug, PartialEq, Eq, Hash, Structural)]
pub enum MovementKind {
    PawnMovement,
    PawnCapture,
    Knight,
    Bishop,
    Rook,
    Queen,
    King,
    KingsideCastle,
    QueensideCastle,
    /// Moves proposed by an outside provider, decoded from its reply.
    Plugin,
}

/// A named movement rule, optionally limited to one kind of piece (matched without regard
/// to case), which can be switched off without leaving the registry.
#[derive(Debug)]
pub struct MovementRule {
    pub name: String,
    pub kind: MovementKind,
    pub piece_constraint: Option<u8>,
    pub active: bool,
}

/// A rule that decides whether a piece may move now.
#[derive(Copy, Clone, Debug, PartialEq, Eq, Hash, Structural)]
pub enum TurnRule {
    /// A player moves pieces of their own colour, white on odd plies, black on even ones.
    PlayerOrder,
}

/// A rule that a move must pass once it is made.
#[derive(Copy, Clone, Debug, PartialEq, Eq, Hash, Structural)]
pub enum ConstraintRule {
    /// The mover's own king is not left attacked.
    ResolveCheck,
}

/// The state after a rook leaves `p`'s square: leaving a home corner withdraws the
/// castling right tied to it.
pub open spec fn rook_rights(p: Piece, gd: GameData) -> GameData {
    if p.row == 1 && p.col == 1 {
        with_mask(gd, GD_NO_WHITE_QS_CASTLE)
    } else if p.row == 1 && p.col == 8 {
        with_mask(gd, GD_NO_WHITE_KS_CASTLE)
    } else if p.row == 8 && p.col == 1 {
        with_mask(gd, GD_NO_BLACK_QS_CASTLE)
    } else if p.row == 8 && p.col == 8 {
        with_mask(gd, GD_NO_BLACK_KS_CASTLE)
    } else {
        gd
    }
}

/// The state after a king moves: both castling rights of its colour are withdrawn.
pub open spec fn king_rights(p: Piece, gd: GameData) -> GameData {
    with_mask(gd, side_flags(is_white_tag(p.name)))
}

/// The moves that one rule proposes for `p`; `reply` is what the outside provider
/// answered for this query.
pub open spec fn rule_moves(
    kind: MovementKind,
    p: Piece,
    b: PiecePlacements,
    gd: GameData,
    reply: Seq<u8>,
) -> Set<Move> {
    match kind {
        MovementKind::PawnMovement => pawn_advances(p, b, gd),
        MovementKind::PawnCapture => pawn_captures(p, b, gd),
        MovementKind::Knight => knight_moves(p, b, gd),
        MovementKind::Bishop => linear_moves(p, b, true, 8, gd),
        MovementKind::Rook => linear_moves(p, b, false, 8, rook_rights(p, gd)),
        MovementKind::Queen => linear_moves(p, b, false, 8, gd).union(linear_moves(p, b, true, 8, gd)),
        MovementKind::King => linear_moves(p, b, false, 1, king_rights(p, gd)).union(
            linear_moves(p, b, true, 1, king_rights(p, gd)),
        ),
        MovementKind::KingsideCastle => castle_moves(p, b, gd, 8),
        MovementKind::QueensideCastle => castle_moves(p, b, gd, 1),
        MovementKind::Plugin => plugin_moves(b, gd, reply),
    }
}

/// The rule is switched on and, if limited to a kind of piece, `p` is of that kind.
pub open spec fn rule_applies(rule: MovementRule, p: Piece) -> bool {
    rule.active && match rule.piece_constraint {
        Some(k) => lower(k) == lower(p.name),
        None => true,
    }
}

/// The state a move starts from: one ply further on, with the same castling rights (a
/// rule may withdraw more).
pub open spec fn next_state(gd: GameData) -> GameData {
    GameData { ply: (gd.ply + 1) as u16, mask: gd.mask }
}

/// Some player may move `p` now, by some turn rule.
pub open spec fn someone_may_move(rules: Seq<TurnRule>, p: Piece, gd: GameData) -> bool {
    exists|player: usize| #[trigger] may_move(rules, player, p, gd)
}

/// Pseudo-legal moves: the union of what every applicable rule proposes, each carrying
/// the state one ply further on.
pub open spec fn pseudo_moves(
    rules: Seq<MovementRule>,
    p: Piece,
    b: PiecePlacements,
    gd: GameData,
    reply: Seq<u8>,
) -> Set<Move> {
    Set::new(
        |m: Move|
            exists|i: int|
                0 <= i < rules.len() && rule_applies(rules[i], p) && #[trigger] rule_moves(
                    rules[i].kind,
                    p,
                    b,
                    next_state(gd),
                    reply,
                ).contains(m),
    )
}

pub open spec fn constraint_holds(rule: ConstraintRule, p: Piece, b: PiecePlacements) -> bool {
    match rule {
        ConstraintRule::ResolveCheck => king_safe(p, b),
    }
}

/// Every constraint rule accepts the board `b` reached by a move of `p`.
pub open spec fn all_constraints_hold(rules: Seq<ConstraintRule>, p: Piece, b: PiecePlacements) -> bool {
    forall|i: int| 0 <= i < rules.len() ==> #[trigger] constraint_holds(rules[i], p, b)
}

/// The legal moves of `p`: none when `p` does not stand on its square, else the
/// pseudo-legal moves after which every constraint rule holds.
pub open spec fn legal_moves(
    rules: Seq<MovementRule>,
    constraints: Seq<ConstraintRule>,
    p: Piece,
    b: PiecePlacements,
    gd: GameData,
    reply: Seq<u8>,
) -> Set<Move> {
    if at(b, p.row as int, p.col as int) != p.name {
        Set::empty()
    } else {
        pseudo_moves(rules, p, b, gd, reply).filter(
            |m: Move| all_constraints_hold(constraints, p, board_after(p, m, b)),
        )
    }
}

impl ConstraintRule {
    /// Whether this rule accepts the board `pp` reached by a move of `p`.
    pub fn holds(&self, p: Piece, pp: &PiecePlacements) -> (r: bool)
        ensures
            r == constraint_holds(*self, p, *pp),
    {
        match self {
            ConstraintRule::ResolveCheck => king_not_attacked(p, pp),
        }
    }
}

fn rook_state(p: Piece, gd: GameData) -> (r: GameData)
    ensures
        r == rook_rights(p, gd),
{
    if p.row == 1 && p.col == 1 {
        GameData { ply: gd.ply, mask: gd.mask | GD_NO_WHITE_QS_CASTLE }
    } else if p.row == 1 && p.col == 8 {
        GameData { ply: gd.ply, mask: gd.mask | GD_NO_WHITE_KS_CASTLE }
    } else if p.row == 8 && p.col == 1 {
        GameData { ply: gd.ply, mask: gd.mask | GD_NO_BLACK_QS_CASTLE }
    } else if p.row == 8 && p.col == 8 {
        GameData { ply: gd.ply, mask: gd.mask | GD_NO_BLACK_KS_CASTLE }
    } else {
        gd
    }
}

/// Adds the moves that the rule `kind` proposes for `p`.
pub fn add_rule_moves(
    kind: MovementKind,
    p: Piece,
    pp: &PiecePlacements,
    gd: GameData,
    reply: &[u8],
    acc: &mut Vec<Move>,
)
    requires
        piece_on_board(p),
        old(acc)@.no_duplicates(),
    ensures
        final(acc)@.no_duplicates(),
        forall|m: Move|
            final(acc)@.contains(m) <==> (old(acc)@.contains(m) || rule_moves(kind, p, *pp, gd, reply@).contains(m)),
{
    match kind {
        MovementKind::PawnMovement => add_pawn_advances(p, pp, acc, gd),
        MovementKind::PawnCapture => add_pawn_captures(p, pp, acc, gd),
        MovementKind::Knight => add_knight_moves(p, pp, acc, gd),
        MovementKind::Bishop => add_linear_moves(p, pp, acc, true, 8, gd),
        MovementKind::Rook => {
            let gd = rook_state(p, gd);
            add_linear_moves(p, pp, acc, false, 8, gd);
        },
        MovementKind::Queen => {
            add_linear_moves(p, pp, acc, false, 8, gd);
            add_linear_moves(p, pp, acc, true, 8, gd);
        },
        MovementKind::King => {
            let gd = if p.is_white() {
                GameData { ply: gd.ply, mask: gd.mask | GD_NO_WHITE_CASTLE }
            } else {
                GameData { ply: gd.ply, mask: gd.mask | GD_NO_BLACK_CASTLE }
            };
            add_linear_moves(p, pp, acc, false, 1, gd);
            add_linear_moves(p, pp, acc, true, 1, gd);
        },
        MovementKind::KingsideCastle => add_castle(p, pp, gd, acc, 8),
        MovementKind::QueensideCastle => add_castle(p, pp, gd, acc, 1),
        MovementKind::Plugin => add_plugin_moves(pp, gd, reply, acc),
    }
}

/// The registry of rules: how pieces are drawn (the offsets of each tag in the sprite
/// sheet), how a game starts, who may move, how pieces move, and what a move must not do.
pub struct Rules {
    pub piece_name_to_offsets: HashMap<u8, (usize, usize)>,
    pub setup_rules: Vec<SetupRule>,
    pub turn_rules: Vec<TurnRule>,
    pub movement_rules: Vec<MovementRule>,
    pub move_constraint_rules: Vec<ConstraintRule>,
}

/// A move carries the ply of the state `gd` it was generated from and keeps every castling
/// right already withdrawn there.
pub open spec fn keeps_history(m: Move, gd: GameData) -> bool {
    m.game_data.ply == gd.ply && m.game_data.mask & gd.mask == gd.mask
}

proof fn lemma_mask_bits(a: u16, x: u16, y: u16)
    ensures
        a & a == a,
        (a | x) & a == a,
        ((a | x) | y) & a == a,
{
    assert(a & a == a) by (bit_vector);
    assert((a | x) & a == a) by (bit_vector);
    assert(((a | x) | y) & a == a) by (bit_vector);
}

/// Every move that a rule proposes for a piece on the board stays on the board, carries
/// the ply of the state the rule is given, and keeps the castling rights withdrawn there.
pub proof fn lemma_rule_move_facts(
    kind: MovementKind,
    p: Piece,
    b: PiecePlacements,
    gd: GameData,
    reply: Seq<u8>,
)
    requires
        piece_on_board(p),
    ensures
        forall|m: Move| #[trigger] rule_moves(kind, p, b, gd, reply).contains(m) ==> move_in_range(p, m)
            && keeps_history(m, gd),
{
    assert forall|x: u16, y: u16| #[trigger] ((gd.mask | x) | y) & gd.mask == gd.mask by {
        lemma_mask_bits(gd.mask, x, y);
    }
    assert forall|x: u16| #[trigger] (gd.mask | x) & gd.mask == gd.mask by {
        lemma_mask_bits(gd.mask, x, 0);
    }
    lemma_mask_bits(gd.mask, 0, 0);
    assert forall|m: Move| #[trigger] rule_moves(kind, p, b, gd, reply).contains(m) implies move_in_range(
        p,
        m,
    ) && keeps_history(m, gd) by {
        match kind {
            MovementKind::PawnMovement => {
                let k = choose|k: int|
                    1 <= k <= pawn_reach(p) && #[trigger] ray_move(p, b, pawn_dir(p), 0, k, gd, false)
                        == Some(m);
            },
            MovementKind::PawnCapture => {
                let s = choose|s: int|
                    (s == -1 || s == 1) && #[trigger] pawn_capture_move(p, b, s, gd) == Some(m);
            },
            MovementKind::Knight => {
                let i = choose|i: int| 0 <= i < 8 && #[trigger] knight_move(p, b, i, gd) == Some(m);
            },
            MovementKind::Bishop => {
                lemma_linear_in_range(p, b, true, 8, gd, m);
            },
            MovementKind::Rook => {
                lemma_linear_in_range(p, b, false, 8, rook_rights(p, gd), m);
            },
            MovementKind::Queen => {
                if linear_moves(p, b, false, 8, gd).contains(m) {
                    lemma_linear_in_range(p, b, false, 8, gd, m);
                } else {
                    lemma_linear_in_range(p, b, true, 8, gd, m);
                }
            },
            MovementKind::King => {
                if linear_moves(p, b, false, 1, king_rights(p, gd)).contains(m) {
                    lemma_linear_in_range(p, b, false, 1, king_rights(p, gd), m);
                } else {
                    lemma_linear_in_range(p, b, true, 1, king_rights(p, gd), m);
                }
            },
            MovementKind::KingsideCastle => {},
            MovementKind::QueensideCastle => {},
            MovementKind::Plugin => {
                let t = choose|t: int| plugin_live(reply, t) && #[trigger] plugin_move(b, gd, reply, t) == Some(m);
            },
        }
    }
}

proof fn lemma_linear_in_range(p: Piece, b: PiecePlacements, diagonal: bool, max: int, gd: GameData, m: Move)
    requires
        piece_on_board(p),
        linear_moves(p, b, diagonal, max, gd).contains(m),
    ensures
        move_in_range(p, m),
{
    let d = choose|d: int| 0 <= d < 4 && #[trigger] dir_moves(p, b, diagonal, d, max, gd).contains(m);
    let k = choose|k: int|
        1 <= k <= max && #[trigger] ray_move(p, b, dir(diagonal, d).0, dir(diagonal, d).1, k, gd, true)
            == Some(m);
}

impl MovementRule {
    /// Whether this rule runs for `p`.
    pub fn applies_to(&self, p: Piece) -> (r: bool)
        ensures
            r == rule_applies(*self, p),
    {
        self.active && match self.piece_constraint {
            Some(k) => to_lower(k) == to_lower(p.name),
            None => true,
        }
    }
}

impl Rules {
    /// Applies move `m` of `piece` to the board, without checking that it is legal.
    pub fn make_move(piece: Piece, m: Move, piece_placements: &mut PiecePlacements)
        requires
            move_in_range(piece, m),
        ensures
            *final(piece_placements) == board_after(piece, m, *old(piece_placements)),
    {
        set_square(piece_placements, piece.row as usize, piece.col as usize, 0);
        set_square(piece_placements, m.dst.row as usize, m.dst.col as usize, piece.name);
        match m.typ {
            MoveType::Capture { row, col } => {
                if row != m.dst.row || col != m.dst.col {
                    set_square(piece_placements, row as usize, col as usize, 0);
                }
            },
            MoveType::Secondary { src, dst } => {
                if src.row != m.dst.row || src.col != m.dst.col {
                    set_square(piece_placements, src.row as usize, src.col as usize, 0);
                }
                set_square(piece_placements, dst.row as usize, dst.col as usize, dst.name);
            },
            MoveType::Normal => {},
        }
    }

    /// Whether every constraint rule accepts the board `pp` reached by a move of `p`.
    fn accepts(&self, p: Piece, pp: &PiecePlacements) -> (r: bool)
        ensures
            r == all_constraints_hold(self.move_constraint_rules@, p, *pp),
    {
        let mut i: usize = 0;
        while i < self.move_constraint_rules.len()
            invariant
                0 <= i <= self.move_constraint_rules@.len(),
                forall|j: int| 0 <= j < i ==> #[trigger] constraint_holds(self.move_constraint_rules@[j], p, *pp),
            decreases self.move_constraint_rules@.len() - i,
        {
            if !self.move_constraint_rules[i].holds(p, pp) {
                return false;
            }
            i += 1;
        }
        true
    }

    /// The moves of `hs` that every constraint rule accepts once made.
    fn constrain_moves(&self, hs: &Vec<Move>, p: Piece, pp: &PiecePlacements) -> (r: Vec<Move>)
        requires
            forall|m: Move| #[trigger] hs@.contains(m) ==> move_in_range(p, m),
        ensures
            r@.no_duplicates(),
            forall|m: Move|
                r@.contains(m) <==> (hs@.contains(m) && all_constraints_hold(
                    self.move_constraint_rules@,
                    p,
                    board_after(p, m, *pp),
                )),
    {
        let mut out: Vec<Move> = Vec::new();
        let mut i: usize = 0;
        while i < hs.len()
            invariant
                0 <= i <= hs@.len(),
                forall|m: Move| #[trigger] hs@.contains(m) ==> move_in_range(p, m),
                out@.no_duplicates(),
                forall|m: Move|
                    out@.contains(m) <==> (exists|j: int| 0 <= j < i && #[trigger] hs@[j] == m)
                        && all_constraints_hold(self.move_constraint_rules@, p, board_after(p, m, *pp)),
            decreases hs@.len() - i,
        {
            let m = hs[i];
            assert(hs@.contains(m));
            let mut post = *pp;
            Rules::make_move(p, m, &mut post);
            let ghost before = out@;
            if self.accepts(p, &post) {
                insert_move(&mut out, m);
            }
            proof {
                assert forall|x: Move|
                    out@.contains(x) <==> (exists|j: int| 0 <= j < i + 1 && #[trigger] hs@[j] == x)
                        && all_constraints_hold(self.move_constraint_rules@, p, board_after(p, x, *pp)) by {
                    if exists|j: int| 0 <= j < i + 1 && #[trigger] hs@[j] == x {
                        let j = choose|j: int| 0 <= j < i + 1 && #[trigger] hs@[j] == x;
                        if j < i {
                            assert(exists|j2: int| 0 <= j2 < i && #[trigger] hs@[j2] == x);
                        }
                    }
                    if before.contains(x) {
                        let j = choose|j: int| 0 <= j < i && #[trigger] hs@[j] == x;
                        assert(0 <= j < i + 1 && hs@[j] == x);
                    }
                }
            }
            i += 1;
        }
        out
    }

    /// The legal moves of `piece`, where `reply` is what the outside move provider
    /// answered for this query: none unless some turn rule lets some player move it now.
    pub fn allowed_moves_with_plugin(
        &self,
        piece: Piece,
        piece_placements: &PiecePlacements,
        gd: GameData,
        reply: &[u8],
    ) -> (r: Vec<Move>)
        requires
            piece_on_board(piece),
            gd.ply < 65535,
        ensures
            r@.no_duplicates(),
            !someone_may_move(self.turn_rules@, piece, gd) ==> r@.len() == 0,
            forall|m: Move|
                r@.contains(m) <==> someone_may_move(self.turn_rules@, piece, gd) && legal_moves(
                    self.movement_rules@,
                    self.move_constraint_rules@,
                    piece,
                    *piece_placements,
                    gd,
                    reply@,
                ).contains(m),
    {
        let white_may = self.is_turn(0, piece, gd);
        let black_may = self.is_turn(1, piece, gd);
        proof {
            if someone_may_move(self.turn_rules@, piece, gd) {
                let pl = choose|pl: usize| #[trigger] may_move(self.turn_rules@, pl, piece, gd);
                let i = choose|i: int|
                    0 <= i < self.turn_rules@.len() && #[trigger] turn_allows(self.turn_rules@[i], pl, piece, gd);
                if pl == 0 {
                    assert(white_may);
                } else {
                    assert(turn_allows(self.turn_rules@[i], 1, piece, gd));
                    assert(black_may);
                }
            }
        }
        if !(white_may || black_may) {
            return Vec::new();
        }
        if piece_placements[piece.row as usize][piece.col as usize] != piece.name {
            return Vec::new();
        }
        let ghost b = *piece_placements;
        let next = GameData { ply: gd.ply + 1, mask: gd.mask };
        let mut allowed: Vec<Move> = Vec::new();
        let mut i: usize = 0;
        while i < self.movement_rules.len()
            invariant
                0 <= i <= self.movement_rules@.len(),
                piece_on_board(piece),
                b == *piece_placements,
                next == next_state(gd),
                allowed@.no_duplicates(),
                forall|m: Move| #[trigger] allowed@.contains(m) ==> move_in_range(piece, m),
                forall|m: Move|
                    allowed@.contains(m) <==> exists|j: int|
                        0 <= j < i && rule_applies(self.movement_rules@[j], piece) && #[trigger] rule_moves(
                            self.movement_rules@[j].kind,
                            piece,
                            b,
                            next,
                            reply@,
                        ).contains(m),
            decreases self.movement_rules@.len() - i,
        {
            let ghost before = allowed@;
            let rule = &self.movement_rules[i];
            if rule.applies_to(piece) {
                add_rule_moves(rule.kind, piece, piece_placements, next, reply, &mut allowed);
            }
            proof {
                lemma_rule_move_facts(rule.kind, piece, b, next, reply@);
                assert forall|m: Move|
                    allowed@.contains(m) <==> exists|j: int|
                        0 <= j < i + 1 && rule_applies(self.movement_rules@[j], piece) && #[trigger] rule_moves(
                            self.movement_rules@[j].kind,
                            piece,
                            b,
                            next,
                            reply@,
                        ).contains(m) by {
                    if exists|j: int|
                        0 <= j < i + 1 && rule_applies(self.movement_rules@[j], piece) && #[trigger] rule_moves(
                            self.movement_rules@[j].kind,
                            piece,
                            b,
                            next,
                            reply@,
                        ).contains(m) {
                        let j = choose|j: int|
                            0 <= j < i + 1 && rule_applies(self.movement_rules@[j], piece) && #[trigger] rule_moves(
                                self.movement_rules@[j].kind,
                                piece,
                                b,
                                next,
                                reply@,
                            ).contains(m);
                        if j < i {
                            assert(before.contains(m));
                        }
                    }
                }
            }
            i += 1;
        }
        let r = self.constrain_moves(&allowed, piece, piece_placements);
        proof {
            let legal = legal_moves(
                self.movement_rules@,
                self.move_constraint_rules@,
                piece,
                b,
                gd,
                reply@,
            );
            assert forall|m: Move| r@.contains(m) <==> legal.contains(m) by {
                if pseudo_moves(self.movement_rules@, piece, b, gd, reply@).contains(m) {
                    assert(allowed@.contains(m));
                }
            }
        }
        r
    }

    /// The legal moves of `piece`, with no outside move provider to ask: none unless some
    /// turn rule lets some player move it now.
    pub fn allowed_moves(&self, piece: Piece, piece_placements: &PiecePlacements, gd: GameData) -> (r:
        Vec<Move>)
        requires
            piece_on_board(piece),
            gd.ply < 65535,
        ensures
            r@.no_duplicates(),
            !someone_may_move(self.turn_rules@, piece, gd) ==> r@.len() == 0,
            forall|m: Move|
                r@.contains(m) <==> someone_may_move(self.turn_rules@, piece, gd) && legal_moves(
                    self.movement_rules@,
                    self.move_constraint_rules@,
                    piece,
                    *piece_placements,
                    gd,
                    Seq::empty(),
                ).contains(m),
    {
        let none: Vec<u8> = Vec::new();
        let r = self.allowed_moves_with_plugin(piece, piece_placements, gd, none.as_slice());
        assert(none@ =~= Seq::<u8>::empty());
        r
    }
}

/// The side to move: white on odd plies, black on even ones.
pub open spec fn white_to_move(gd: GameData) -> bool {
    gd.ply % 2 == 1
}

pub open spec fn turn_allows(rule: TurnRule, player: usize, p: Piece, gd: GameData) -> bool {
    match rule {
        TurnRule::PlayerOrder => is_white_tag(p.name) == (player == 0) && is_white_tag(p.name)
            == white_to_move(gd),
    }
}

/// Some turn rule lets `player` (0 for white, 1 for black) move `p` now.
pub open spec fn may_move(rules: Seq<TurnRule>, player: usize, p: Piece, gd: GameData) -> bool {
    exists|i: int| 0 <= i < rules.len() && #[trigger] turn_allows(rules[i], player, p, gd)
}

impl TurnRule {
    pub fn allows(&self, player: usize, p: Piece, gd: GameData) -> (r: bool)
        ensures
            r == turn_allows(*self, player, p, gd),
    {
        match self {
            TurnRule::PlayerOrder => p.is_white() == (player == 0) && p.is_white() == (gd.ply % 2
                == 1),
        }
    }
}

/// The name under which a movement rule of this kind is registered.
pub open spec fn kind_name(kind: MovementKind) -> Seq<char> {
    match kind {
        MovementKind::PawnMovement => "pawn-movement"@,
        MovementKind::PawnCapture => "pawn-capture"@,
        MovementKind::Knight => "knight"@,
        MovementKind::Bishop => "bishop"@,
        MovementKind::Rook => "rook"@,
        MovementKind::Queen => "queen"@,
        MovementKind::King => "king"@,
        MovementKind::KingsideCastle => "kingside-castle"@,
        MovementKind::QueensideCastle => "queenside-castle"@,
        MovementKind::Plugin => "js-plugin"@,
    }
}

/// The kind of piece a rule of this kind is limited to, as a lower-case tag.
pub open spec fn kind_constraint(kind: MovementKind) -> Option<u8> {
    match kind {
        MovementKind::PawnMovement => Some(BLACK_PAWN),
        MovementKind::PawnCapture => Some(BLACK_PAWN),
        MovementKind::Knight => Some(BLACK_KNIGHT),
        MovementKind::Bishop => Some(BLACK_BISHOP),
        MovementKind::Rook => Some(BLACK_ROOK),
        MovementKind::Queen => Some(BLACK_QUEEN),
        MovementKind::King => Some(BLACK_KING),
        MovementKind::KingsideCastle => Some(BLACK_KING),
        MovementKind::QueensideCastle => Some(BLACK_KING),
        MovementKind::Plugin => None,
    }
}

/// The kinds of the default movement rules, in registration order.
pub open spec fn default_kind(i: int) -> MovementKind {
    if i == 0 {
        MovementKind::PawnMovement
    } else if i == 1 {
        MovementKind::PawnCapture
    } else if i == 2 {
        MovementKind::Knight
    } else if i == 3 {
        MovementKind::Bishop
    } else if i == 4 {
        MovementKind::Rook
    } else if i == 5 {
        MovementKind::Queen
    } else if i == 6 {
        MovementKind::King
    } else if i == 7 {
        MovementKind::KingsideCastle
    } else if i == 8 {
        MovementKind::QueensideCastle
    } else {
        MovementKind::Plugin
    }
}

/// A rule of kind `kind` as registered by default: under its name, limited to its kind
/// of piece, and switched on.
pub open spec fn is_default_rule(rule: MovementRule, kind: MovementKind) -> bool {
    &&& rule.kind == kind
    &&& rule.name@ == kind_name(kind)
    &&& rule.piece_constraint == kind_constraint(kind)
    &&& rule.active
}

/// The sprite-sheet offsets: each white tag on the first strip, each black tag on the
/// second, in the order king, queen, bishop, knight, rook, pawn.
pub open spec fn default_offsets() -> Map<u8, (usize, usize)> {
    map![
        WHITE_KING => (0usize, 0usize), BLACK_KING => (0usize, 90usize),
        WHITE_QUEEN => (90usize, 0usize), BLACK_QUEEN => (90usize, 90usize),
        WHITE_BISHOP => (180usize, 0usize), BLACK_BISHOP => (180usize, 90usize),
        WHITE_KNIGHT => (270usize, 0usize), BLACK_KNIGHT => (270usize, 90usize),
        WHITE_ROOK => (360usize, 0usize), BLACK_ROOK => (360usize, 90usize),
        WHITE_PAWN => (450usize, 0usize), BLACK_PAWN => (450usize, 90usize)
    ]
}

/// Side of a square of the sprite sheet, in pixels.
pub const SQUARE_SIZE: usize = 90;

impl MovementKind {
    pub fn name(&self) -> (r: &'static str)
        ensures
            r@ == kind_name(*self),
    {
        match self {
            MovementKind::PawnMovement => "pawn-movement",
            MovementKind::PawnCapture => "pawn-capture",
            MovementKind::Knight => "knight",
            MovementKind::Bishop => "bishop",
            MovementKind::Rook => "rook",
            MovementKind::Queen => "queen",
            MovementKind::King => "king",
            MovementKind::KingsideCastle => "kingside-castle",
            MovementKind::QueensideCastle => "queenside-castle",
            MovementKind::Plugin => "js-plugin",
        }
    }

    pub fn piece_constraint(&self) -> (r: Option<u8>)
        ensures
            r == kind_constraint(*self),
    {
        match self {
            MovementKind::PawnMovement => Some(BLACK_PAWN),
            MovementKind::PawnCapture => Some(BLACK_PAWN),
            MovementKind::Knight => Some(BLACK_KNIGHT),
            MovementKind::Bishop => Some(BLACK_BISHOP),
            MovementKind::Rook => Some(BLACK_ROOK),
            MovementKind::Queen => Some(BLACK_QUEEN),
            MovementKind::King => Some(BLACK_KING),
            MovementKind::KingsideCastle => Some(BLACK_KING),
            MovementKind::QueensideCastle => Some(BLACK_KING),
            MovementKind::Plugin => None,
        }
    }
}

impl MovementRule {
    /// The rule of kind `kind` as registered by default.
    pub fn new(kind: MovementKind) -> (r: MovementRule)
        ensures
            is_default_rule(r, kind),
    {
        MovementRule {
            name: kind.name().to_owned(),
            kind,
            piece_constraint: kind.piece_constraint(),
            active: true,
        }
    }
}

impl Rules {
    /// The registry with every default rule.
    pub fn defaults() -> (r: Rules)
        ensures
            r.piece_name_to_offsets@ == default_offsets(),
            r.setup_rules@ == seq![
                SetupRule::Pawns,
                SetupRule::Rooks,
                SetupRule::Knights,
                SetupRule::Bishops,
                SetupRule::Queens,
                SetupRule::Kings,
            ],
            r.turn_rules@ == seq![TurnRule::PlayerOrder],
            r.movement_rules@.len() == 10,
            forall|i: int| 0 <= i < 10 ==> is_default_rule(#[trigger] r.movement_rules@[i], default_kind(i)),
            r.move_constraint_rules@ == seq![ConstraintRule::ResolveCheck],
    {
        Rules {
            piece_name_to_offsets: Rules::default_piece_name_to_offsets(),
            setup_rules: Rules::default_setup_rules(),
            turn_rules: Rules::default_turn_rules(),
            movement_rules: Rules::default_movement_rules(),
            move_constraint_rules: Rules::default_move_constraint_rules(),
        }
    }

    pub fn default_piece_name_to_offsets() -> (r: HashMap<u8, (usize, usize)>)
        ensures
            r@ == default_offsets(),
    {
        broadcast use vstd::std_specs::hash::group_hash_axioms;

        let mut hm: HashMap<u8, (usize, usize)> = HashMap::new();
        hm.insert(WHITE_KING, (0, 0));
        hm.insert(BLACK_KING, (0, SQUARE_SIZE));
        hm.insert(WHITE_QUEEN, (SQUARE_SIZE, 0));
        hm.insert(BLACK_QUEEN, (SQUARE_SIZE, SQUARE_SIZE));
        hm.insert(WHITE_BISHOP, (2 * SQUARE_SIZE, 0));
        hm.insert(BLACK_BISHOP, (2 * SQUARE_SIZE, SQUARE_SIZE));
        hm.insert(WHITE_KNIGHT, (3 * SQUARE_SIZE, 0));
        hm.insert(BLACK_KNIGHT, (3 * SQUARE_SIZE, SQUARE_SIZE));
        hm.insert(WHITE_ROOK, (4 * SQUARE_SIZE, 0));
        hm.insert(BLACK_ROOK, (4 * SQUARE_SIZE, SQUARE_SIZE));
        hm.insert(WHITE_PAWN, (5 * SQUARE_SIZE, 0));
        hm.insert(BLACK_PAWN, (5 * SQUARE_SIZE, SQUARE_SIZE));
        assert(hm@ =~= default_offsets());
        hm
    }

    pub fn default_setup_rules() -> (r: Vec<SetupRule>)
        ensures
            r@ == seq![
                SetupRule::Pawns,
                SetupRule::Rooks,
                SetupRule::Knights,
                SetupRule::Bishops,
                SetupRule::Queens,
                SetupRule::Kings,
            ],
    {
        let r = vec![
            SetupRule::Pawns,
            SetupRule::Rooks,
            SetupRule::Knights,
            SetupRule::Bishops,
            SetupRule::Queens,
            SetupRule::Kings,
        ];
        assert(r@ =~= seq![
            SetupRule::Pawns,
            SetupRule::Rooks,
            SetupRule::Knights,
            SetupRule::Bishops,
            SetupRule::Queens,
            SetupRule::Kings,
        ]);
        r
    }

    pub fn default_turn_rules() -> (r: Vec<TurnRule>)
        ensures
            r@ == seq![TurnRule::PlayerOrder],
    {
        let r = vec![TurnRule::PlayerOrder];
        assert(r@ =~= seq![TurnRule::PlayerOrder]);
        r
    }

    pub fn default_movement_rules() -> (r: Vec<MovementRule>)
        ensures
            r@.len() == 10,
            forall|i: int| 0 <= i < 10 ==> is_default_rule(#[trigger] r@[i], default_kind(i)),
    {
        let mut r: Vec<MovementRule> = Vec::new();
        r.push(MovementRule::new(MovementKind::PawnMovement));
        r.push(MovementRule::new(MovementKind::PawnCapture));
        r.push(MovementRule::new(MovementKind::Knight));
        r.push(MovementRule::new(MovementKind::Bishop));
        r.push(MovementRule::new(MovementKind::Rook));
        r.push(MovementRule::new(MovementKind::Queen));
        r.push(MovementRule::new(MovementKind::King));
        r.push(MovementRule::new(MovementKind::KingsideCastle));
        r.push(MovementRule::new(MovementKind::QueensideCastle));
        r.push(MovementRule::new(MovementKind::Plugin));
        r
    }

    pub fn default_move_constraint_rules() -> (r: Vec<ConstraintRule>)
        ensures
            r@ == seq![ConstraintRule::ResolveCheck],
    {
        let r = vec![ConstraintRule::ResolveCheck];
        assert(r@ =~= seq![ConstraintRule::ResolveCheck]);
        r
    }
}

impl Rules {
    /// Whether some turn rule lets `player` (0 for white, 1 for black) move `piece` now.
    pub fn is_turn(&self, player: usize, piece: Piece, gd: GameData) -> (r: bool)
        ensures
            r == may_move(self.turn_rules@, player, piece, gd),
    {
        let mut i: usize = 0;
        while i < self.turn_rules.len()
            invariant
                0 <= i <= self.turn_rules@.len(),
                forall|j: int| 0 <= j < i ==> !#[trigger] turn_allows(self.turn_rules@[j], player, piece, gd),
            decreases self.turn_rules@.len() - i,
        {
            if self.turn_rules[i].allows(player, piece, gd) {
                return true;
            }
            i += 1;
        }
        false
    }
}

/// Every legal move starts the next ply and keeps every castling right already withdrawn:
/// a right, once gone, never comes back.
pub proof fn lemma_legal_moves_keep_history(
    rules: Seq<MovementRule>,
    constraints: Seq<ConstraintRule>,
    p: Piece,
    b: PiecePlacements,
    gd: GameData,
    reply: Seq<u8>,
)
    requires
        piece_on_board(p),
        gd.ply < 65535,
    ensures
        forall|m: Move| #[trigger] legal_moves(rules, constraints, p, b, gd, reply).contains(m) ==> {
            &&& m.game_data.ply == gd.ply + 1
            &&& m.game_data.mask & gd.mask == gd.mask
        },
{
    assert forall|m: Move| #[trigger] legal_moves(rules, constraints, p, b, gd, reply).contains(m) implies {
        &&& m.game_data.ply == gd.ply + 1
        &&& m.game_data.mask & gd.mask == gd.mask
    } by {
        let i = choose|i: int|
            0 <= i < rules.len() && rule_applies(rules[i], p) && #[trigger] rule_moves(
                rules[i].kind,
                p,
                b,
                next_state(gd),
                reply,
            ).contains(m);
        lemma_rule_move_facts(rules[i].kind, p, b, next_state(gd), reply);
    }
}

/// `player` may move `p` now, and one of its legal moves lands on `(to_row, to_col)`;
/// `reply` is what the outside move provider answered.
pub open spec fn can_reach(
    rules: &Rules,
    player: usize,
    p: Piece,
    b: PiecePlacements,
    gd: GameData,
    to_row: int,
    to_col: int,
    reply: Seq<u8>,
) -> bool {
    &&& may_move(rules.turn_rules@, player, p, gd)
    &&& exists|m: Move| #[trigger]
        legal_moves(rules.movement_rules@, rules.move_constraint_rules@, p, b, gd, reply).contains(m)
            && m.dst.row == to_row && m.dst.col == to_col
}

impl Rules {
    /// A legal move of `piece` onto `(to_row, to_col)`, if `player` may move it now;
    /// `reply` is what the outside move provider answered for this piece.
    pub fn legal_move(
        &self,
        player: usize,
        piece: Piece,
        to_row: usize,
        to_col: usize,
        piece_placements: &PiecePlacements,
        gd: GameData,
        reply: &[u8],
    ) -> (r: Option<Move>)
        requires
            piece_on_board(piece),
            gd.ply < 65535,
        ensures
            r is None <==> !can_reach(
                self,
                player,
                piece,
                *piece_placements,
                gd,
                to_row as int,
                to_col as int,
                reply@,
            ),
            match r {
                Some(m) => legal_moves(
                    self.movement_rules@,
                    self.move_constraint_rules@,
                    piece,
                    *piece_placements,
                    gd,
                    reply@,
                ).contains(m) && m.dst.row == to_row && m.dst.col == to_col,
                None => true,
            },
    {
        if !self.is_turn(player, piece, gd) {
            return None;
        }
        let moves = self.allowed_moves_with_plugin(piece, piece_placements, gd, reply);
        let mut i: usize = 0;
        while i < moves.len()
            invariant
                0 <= i <= moves@.len(),
                may_move(self.turn_rules@, player, piece, gd),
                forall|m: Move|
                    moves@.contains(m) <==> legal_moves(
                        self.movement_rules@,
                        self.move_constraint_rules@,
                        piece,
                        *piece_placements,
                        gd,
                        reply@,
                    ).contains(m),
                forall|j: int|
                    0 <= j < i ==> !(#[trigger] moves@[j].dst.row == to_row && moves@[j].dst.col == to_col),
            decreases moves@.len() - i,
        {
            let m = moves[i];
            if m.dst.row as usize == to_row && m.dst.col as usize == to_col {
                assert(moves@.contains(m));
                return Some(m);
            }
            i += 1;
        }
        proof {
            let legal = legal_moves(
                self.movement_rules@,
                self.move_constraint_rules@,
                piece,
                *piece_placements,
                gd,
                reply@,
            );
            assert forall|m: Move| #[trigger] legal.contains(m) implies !(m.dst.row == to_row && m.dst.col
                == to_col) by {
                assert(moves@.contains(m));
                let j = choose|j: int| 0 <= j < moves@.len() && moves@[j] == m;
                assert(!(moves@[j].dst.row == to_row && moves@[j].dst.col == to_col));
            }
        }
        None
    }

    /// Makes the move of the piece on `(src_row, src_col)` onto `(dst_row, dst_col)` when
    /// `player` may move that piece now and the move is legal: the board changes and the
    /// game adopts the state the move carries, which is one ply further on. Returns the
    /// move made. `reply` is what the outside move provider answered for that piece.
    pub fn try_move(
        &self,
        player: usize,
        src_row: usize,
        src_col: usize,
        dst_row: usize,
        dst_col: usize,
        piece_placements: &mut PiecePlacements,
        gd: &mut GameData,
        reply: &[u8],
    ) -> (r: Option<Move>)
        requires
            old(gd).ply < 65535,
        ensures
            ({
                let b = *old(piece_placements);
                let p = Piece { row: src_row as u8, col: src_col as u8, name: at(b, src_row as int, src_col as int) };
                let possible = on_board(src_row as int, src_col as int) && on_board(dst_row as int, dst_col as int)
                    && at(b, src_row as int, src_col as int) != 0 && can_reach(
                    self,
                    player,
                    p,
                    b,
                    *old(gd),
                    dst_row as int,
                    dst_col as int,
                    reply@,
                );
                match r {
                    Some(m) => {
                        &&& possible
                        &&& legal_moves(self.movement_rules@, self.move_constraint_rules@, p, b, *old(gd), reply@).contains(m)
                        &&& m.dst.row == dst_row && m.dst.col == dst_col
                        &&& *final(piece_placements) == board_after(p, m, b)
                        &&& *final(gd) == m.game_data
                        &&& m.game_data.ply == old(gd).ply + 1
                        &&& m.game_data.mask & old(gd).mask == old(gd).mask
                    },
                    None => {
                        &&& !possible
                        &&& *final(piece_placements) == b
                        &&& *final(gd) == *old(gd)
                    },
                }
            }),
    {
        if !(1 <= src_row && src_row <= 8 && 1 <= src_col && src_col <= 8 && 1 <= dst_row && dst_row <= 8
            && 1 <= dst_col && dst_col <= 8) {
            return None;
        }
        let name = piece_placements[src_row][src_col];
        if name == 0 {
            return None;
        }
        let piece = Piece { row: src_row as u8, col: src_col as u8, name };
        match self.legal_move(player, piece, dst_row, dst_col, piece_placements, *gd, reply) {
            Some(m) => {
                proof {
                    lemma_legal_moves_keep_history(
                        self.movement_rules@,
                        self.move_constraint_rules@,
                        piece,
                        *old(piece_placements),
                        *old(gd),
                        reply@,
                    );
                    lemma_legal_moves_in_range(
                        self.movement_rules@,
                        self.move_constraint_rules@,
                        piece,
                        *old(piece_placements),
                        *old(gd),
                        reply@,
                    );
                }
                Rules::make_move(piece, m, piece_placements);
                *gd = m.game_data;
                Some(m)
            },
            None => None,
        }
    }

    /// Switches every movement rule registered under `name` on or off; the registry keeps
    /// its rules.
    pub fn set_rule_active(&mut self, name: &String, active: bool)
        ensures
            final(self).movement_rules@.len() == old(self).movement_rules@.len(),
            forall|i: int|
                0 <= i < old(self).movement_rules@.len() ==> {
                    let before = #[trigger] old(self).movement_rules@[i];
                    let after = final(self).movement_rules@[i];
                    &&& after.name == before.name
                    &&& after.kind == before.kind
                    &&& after.piece_constraint == before.piece_constraint
                    &&& after.active == if before.name@ == name@ {
                        active
                    } else {
                        before.active
                    }
                },
            final(self).piece_name_to_offsets@ == old(self).piece_name_to_offsets@,
            final(self).setup_rules@ == old(self).setup_rules@,
            final(self).turn_rules@ == old(self).turn_rules@,
            final(self).move_constraint_rules@ == old(self).move_constraint_rules@,
    {
        let mut i: usize = 0;
        while i < self.movement_rules.len()
            invariant
                0 <= i <= self.movement_rules@.len(),
                self.movement_rules@.len() == old(self).movement_rules@.len(),
                forall|j: int|
                    0 <= j < self.movement_rules@.len() ==> {
                        let before = #[trigger] old(self).movement_rules@[j];
                        let after = self.movement_rules@[j];
                        &&& after.name == before.name
                        &&& after.kind == before.kind
                        &&& after.piece_constraint == before.piece_constraint
                        &&& after.active == if j < i && before.name@ == name@ {
                            active
                        } else {
                            before.active
                        }
                    },
                self.piece_name_to_offsets@ == old(self).piece_name_to_offsets@,
                self.setup_rules@ == old(self).setup_rules@,
                self.turn_rules@ == old(self).turn_rules@,
                self.move_constraint_rules@ == old(self).move_constraint_rules@,
            decreases self.movement_rules@.len() - i,
        {
            if self.movement_rules[i].name == *name {
                self.movement_rules[i].active = active;
            }
            i += 1;
        }
    }
}

/// Every legal move stays on the board.
pub proof fn lemma_legal_moves_in_range(
    rules: Seq<MovementRule>,
    constraints: Seq<ConstraintRule>,
    p: Piece,
    b: PiecePlacements,
    gd: GameData,
    reply: Seq<u8>,
)
    requires
        piece_on_board(p),
    ensures
        forall|m: Move| #[trigger] legal_moves(rules, constraints, p, b, gd, reply).contains(m) ==> move_in_range(p, m),
{
    assert forall|m: Move| #[trigger] legal_moves(rules, constraints, p, b, gd, reply).contains(m) implies move_in_range(p, m) by {
        let i = choose|i: int|
            0 <= i < rules.len() && rule_applies(rules[i], p) && #[trigger] rule_moves(
                rules[i].kind,
                p,
                b,
                next_state(gd),
                reply,
            ).contains(m);
        lemma_rule_move_facts(rules[i].kind, p, b, next_state(gd), reply);
    }
}

} // verus!
