use std::collections::HashSet;

use chess_rules::{
    plugin_request, GameData, Move, MoveType, MovementKind, Piece, PiecePlacements, Rules,
    GD_NO_BLACK_KS_CASTLE, GD_NO_BLACK_QS_CASTLE, GD_NO_WHITE_KS_CASTLE, GD_NO_WHITE_QS_CASTLE,
};

fn board(rows: &str) -> PiecePlacements {
    let mut placements = [[0u8; 9]; 9];
    for (i, line) in rows.trim().split('\n').enumerate() {
        let r = 8 - i;
        for (j, p) in line.trim().chars().enumerate() {
            if p != '.' {
                placements[r][j + 1] = p as u8;
            }
        }
    }
    placements
}

fn pc(row: u8, col: u8, name: char) -> Piece {
    Piece { row, col, name: name as u8 }
}

fn start() -> GameData {
    GameData { ply: 1, mask: 0 }
}

fn destinations(moves: &[Move]) -> HashSet<(u8, u8)> {
    moves.iter().map(|m| (m.dst.row, m.dst.col)).collect()
}

#[test]
fn kingside_castle_moves_king_and_rook() {
    let pp = board(
        "
        ........
        ........
        ........
        ........
        ........
        ........
        ........
        ....K..R
        ",
    );
    let rules = Rules::defaults();
    let king = pc(1, 5, 'K');
    let moves = rules.allowed_moves(king, &pp, start());
    let castle = moves
        .iter()
        .find(|m| m.dst.row == 1 && m.dst.col == 7)
        .copied()
        .expect("castling is offered");
    assert_eq!(
        castle.typ,
        MoveType::Secondary { src: pc(1, 8, 'R'), dst: pc(1, 6, 'R') }
    );
    assert_eq!(castle.game_data.mask, GD_NO_WHITE_KS_CASTLE | GD_NO_WHITE_QS_CASTLE);
    assert_eq!(castle.game_data.ply, 2);
    let mut after = pp;
    Rules::make_move(king, castle, &mut after);
    assert_eq!(after[1][7], b'K');
    assert_eq!(after[1][6], b'R');
    assert_eq!(after[1][5], 0);
    assert_eq!(after[1][8], 0);
}

#[test]
fn black_kingside_castle_suppressed_when_checked_along_rank() {
    let pp = board(
        "
        R...k..r
        ........
        ........
        ........
        ........
        ........
        ........
        ........
        ",
    );
    let rules = Rules::defaults();
    let moves = rules.allowed_moves(pc(8, 5, 'k'), &pp, GameData { ply: 2, mask: 0 });
    assert!(moves.iter().all(|m| !matches!(m.typ, MoveType::Secondary { .. })));
    assert!(!destinations(&moves).contains(&(8, 7)));
}

#[test]
fn black_kingside_castle_suppressed_when_transit_attacked() {
    let pp = board(
        "
        ....k..r
        ........
        ........
        .....R..
        ........
        ........
        ........
        ........
        ",
    );
    let rules = Rules::defaults();
    let moves = rules.allowed_moves(pc(8, 5, 'k'), &pp, GameData { ply: 2, mask: 0 });
    assert!(!destinations(&moves).contains(&(8, 7)));
    // Without the attacker the castle is offered.
    let mut free = pp;
    free[5][6] = 0;
    let moves = rules.allowed_moves(pc(8, 5, 'k'), &free, GameData { ply: 2, mask: 0 });
    assert!(destinations(&moves).contains(&(8, 7)));
}

#[test]
fn castle_right_withdrawn_removes_only_the_castle() {
    let pp = board(
        "
        ........
        ........
        ........
        ........
        ........
        ........
        ........
        R...K..R
        ",
    );
    let rules = Rules::defaults();
    let king = pc(1, 5, 'K');
    let open: HashSet<Move> = rules.allowed_moves(king, &pp, start()).into_iter().collect();
    let closed: HashSet<Move> = rules
        .allowed_moves(king, &pp, GameData { ply: 1, mask: GD_NO_WHITE_KS_CASTLE })
        .into_iter()
        .collect();
    let gone: Vec<&Move> = open.difference(&closed).collect();
    assert_eq!(gone.len(), 1);
    assert_eq!((gone[0].dst.row, gone[0].dst.col), (1, 7));
    assert!(closed.difference(&open).next().is_none());
}

#[test]
fn queenside_castle_blocked_by_knight_square() {
    let pp = board(
        "
        ........
        ........
        ........
        ........
        ........
        ........
        ........
        RN..K...
        ",
    );
    let rules = Rules::defaults();
    let moves = rules.allowed_moves(pc(1, 5, 'K'), &pp, start());
    assert!(!destinations(&moves).contains(&(1, 3)));
}

#[test]
fn pinned_rook_stays_on_its_file() {
    let pp = board(
        "
        ....r...
        ........
        ........
        ........
        ........
        ........
        ....R...
        ....K...
        ",
    );
    let rules = Rules::defaults();
    let moves = rules.allowed_moves(pc(2, 5, 'R'), &pp, start());
    let dsts = destinations(&moves);
    let expect: HashSet<(u8, u8)> = (3..=8).map(|r| (r, 5)).collect();
    assert_eq!(dsts, expect);
}

#[test]
fn king_may_not_step_into_check() {
    let pp = board(
        "
        ........
        ........
        ........
        ........
        ........
        ........
        ...r....
        .....K..
        ",
    );
    let rules = Rules::defaults();
    let dsts = destinations(&rules.allowed_moves(pc(1, 6, 'K'), &pp, start()));
    // The rook on d2 holds the whole second rank.
    let expect: HashSet<(u8, u8)> = [(1, 5), (1, 7)].into_iter().collect();
    assert_eq!(dsts, expect);
}

#[test]
fn rook_on_empty_board_covers_its_lines() {
    let mut pp = [[0u8; 9]; 9];
    pp[4][4] = b'r';
    let rules = Rules::defaults();
    let dsts = destinations(&rules.allowed_moves(pc(4, 4, 'r'), &pp, GameData { ply: 2, mask: 0 }));
    assert_eq!(dsts.len(), 14);
    assert!(dsts.iter().all(|&(r, c)| (r == 4) != (c == 4)));
}

#[test]
fn bishop_on_empty_board_covers_its_diagonals() {
    let mut pp = [[0u8; 9]; 9];
    pp[4][5] = b'B';
    let rules = Rules::defaults();
    let dsts = destinations(&rules.allowed_moves(pc(4, 5, 'B'), &pp, start()));
    assert_eq!(dsts.len(), 13);
    assert!(dsts
        .iter()
        .all(|&(r, c)| (r as i32 - 4).abs() == (c as i32 - 5).abs()));
}

#[test]
fn pawn_blocked_ahead_on_home_rank_has_no_advance() {
    let pp = board(
        "
        ........
        ........
        ........
        ........
        ........
        n.......
        P.......
        ........
        ",
    );
    let rules = Rules::defaults();
    assert!(rules.allowed_moves(pc(2, 1, 'P'), &pp, start()).is_empty());
}

#[test]
fn pawn_on_home_rank_second_square_blocked_has_one_advance() {
    let pp = board(
        "
        ........
        ........
        ........
        ........
        N.......
        ........
        P.......
        ........
        ",
    );
    let rules = Rules::defaults();
    let dsts = destinations(&rules.allowed_moves(pc(2, 1, 'P'), &pp, start()));
    assert_eq!(dsts, [(3, 1)].into_iter().collect());
}

#[test]
fn black_pawn_on_first_rank_has_no_move() {
    let mut pp = [[0u8; 9]; 9];
    pp[1][4] = b'p';
    let rules = Rules::defaults();
    assert!(rules.allowed_moves(pc(1, 4, 'p'), &pp, GameData { ply: 2, mask: 0 }).is_empty());
}

#[test]
fn pawn_does_not_take_own_piece_or_empty_diagonal() {
    let pp = board(
        "
        ........
        ........
        ........
        ........
        ........
        .p.N....
        ..P.....
        ........
        ",
    );
    let rules = Rules::defaults();
    let moves = rules.allowed_moves(pc(2, 3, 'P'), &pp, start());
    let caps: Vec<&Move> = moves
        .iter()
        .filter(|m| matches!(m.typ, MoveType::Capture { .. }))
        .collect();
    assert_eq!(caps.len(), 1);
    assert_eq!(caps[0].typ, MoveType::Capture { row: 3, col: 2 });
}

#[test]
fn knight_in_corner_jumps_and_takes() {
    let pp = board(
        "
        ........
        ........
        ........
        ........
        ........
        .p......
        ..P.....
        N.......
        ",
    );
    let rules = Rules::defaults();
    let moves = rules.allowed_moves(pc(1, 1, 'N'), &pp, start());
    assert_eq!(moves.len(), 1);
    assert_eq!(moves[0].dst, pc(3, 2, 'N'));
    assert_eq!(moves[0].typ, MoveType::Capture { row: 3, col: 2 });
}

#[test]
fn rook_leaving_home_withdraws_its_right() {
    let pp = board(
        "
        ........
        ........
        ........
        ........
        ........
        ........
        ........
        R...K...
        ",
    );
    let rules = Rules::defaults();
    let moves = rules.allowed_moves(pc(1, 1, 'R'), &pp, start());
    assert!(!moves.is_empty());
    assert!(moves.iter().all(|m| m.game_data.mask == GD_NO_WHITE_QS_CASTLE));
}

#[test]
fn king_step_withdraws_both_rights() {
    let mut pp = [[0u8; 9]; 9];
    pp[8][5] = b'k';
    let rules = Rules::defaults();
    let moves = rules.allowed_moves(pc(8, 5, 'k'), &pp, GameData { ply: 2, mask: 0 });
    assert_eq!(moves.len(), 5);
    assert!(moves
        .iter()
        .all(|m| m.game_data.mask == GD_NO_BLACK_KS_CASTLE | GD_NO_BLACK_QS_CASTLE));
}

#[test]
fn taking_a_rook_on_its_corner_withdraws_its_right() {
    let pp = board(
        "
        .......r
        ......B.
        ........
        ........
        ........
        ........
        ........
        ........
        ",
    );
    let rules = Rules::defaults();
    let moves = rules.allowed_moves(pc(7, 7, 'B'), &pp, start());
    let take = moves
        .iter()
        .find(|m| m.dst.row == 8 && m.dst.col == 8)
        .expect("the rook can be taken");
    assert_eq!(take.typ, MoveType::Capture { row: 8, col: 8 });
    assert_eq!(take.game_data.mask, GD_NO_BLACK_KS_CASTLE);
    let plain = moves.iter().find(|m| m.dst.row == 6).expect("a plain move");
    assert_eq!(plain.game_data.mask, 0);
}

#[test]
fn piece_not_on_its_square_has_no_move() {
    let pp = [[0u8; 9]; 9];
    let rules = Rules::defaults();
    assert!(rules.allowed_moves(pc(4, 4, 'Q'), &pp, start()).is_empty());
}

#[test]
fn rule_order_does_not_change_moves() {
    let pp = board(
        "
        r...k..r
        pppp.ppp
        ........
        ....p...
        ....P...
        ........
        PPPP.PPP
        R...K..R
        ",
    );
    let rules = Rules::defaults();
    let mut reversed = Rules::defaults();
    reversed.movement_rules.reverse();
    for piece in [pc(1, 5, 'K'), pc(2, 1, 'P'), pc(1, 8, 'R'), pc(8, 5, 'k')] {
        let gd = GameData { ply: if piece.is_white() { 1 } else { 2 }, mask: 0 };
        let a: HashSet<Move> = rules.allowed_moves(piece, &pp, gd).into_iter().collect();
        let b: HashSet<Move> = reversed.allowed_moves(piece, &pp, gd).into_iter().collect();
        assert!(!a.is_empty());
        assert_eq!(a, b);
    }
}

#[test]
fn switched_off_rule_proposes_nothing() {
    let pp = board(
        "
        ........
        ........
        ........
        ........
        ........
        ..N.....
        ........
        ........
        ",
    );
    let mut rules = Rules::defaults();
    let knight = pc(3, 3, 'N');
    assert_eq!(rules.allowed_moves(knight, &pp, start()).len(), 8);
    rules.set_rule_active(&"knight".to_string(), false);
    assert!(rules.allowed_moves(knight, &pp, start()).is_empty());
    assert_eq!(rules.movement_rules.len(), 10);
    rules.set_rule_active(&"knight".to_string(), true);
    assert_eq!(rules.allowed_moves(knight, &pp, start()).len(), 8);
}

#[test]
fn provider_reply_is_decoded() {
    let pp = board(
        "
        ........
        ........
        ........
        ........
        ........
        ........
        .p......
        P.......
        ",
    );
    let rules = Rules::defaults();
    let piece = pc(1, 1, 'P');
    let reply = [2u8, 2, b'P', 9, 1, b'P', 3, 3, b'P', 0, 0, 0, 5, 5, b'P'];
    let moves = rules.allowed_moves_with_plugin(piece, &pp, start(), &reply);
    let take = moves.iter().find(|m| m.dst.row == 2 && m.dst.col == 2).expect("decoded");
    assert_eq!(take.typ, MoveType::Capture { row: 2, col: 2 });
    let step = moves.iter().find(|m| m.dst.row == 3 && m.dst.col == 3).expect("decoded");
    assert_eq!(step.typ, MoveType::Normal);
    assert!(!destinations(&moves).contains(&(5, 5)));
    assert!(!destinations(&moves).contains(&(9, 1)));
}

#[test]
fn provider_query_holds_piece_and_board() {
    let mut pp = [[0u8; 9]; 9];
    pp[1][5] = b'K';
    pp[8][8] = b'r';
    let q = plugin_request(pc(1, 5, 'K'), &pp);
    assert_eq!(q.len(), 84);
    assert_eq!(&q[0..3], &[1, 5, b'K']);
    assert_eq!(q[3 + 9 + 5], b'K');
    assert_eq!(q[3 + 72 + 8], b'r');
    assert_eq!(q.iter().filter(|&&v| v != 0).count(), 5);
}

#[test]
fn setup_gives_the_opening_position() {
    let rules = Rules::defaults();
    let pp = rules.setup_board();
    let expect = board(
        "
        rnbqkbnr
        pppppppp
        ........
        ........
        ........
        ........
        PPPPPPPP
        RNBQKBNR
        ",
    );
    assert_eq!(pp, expect);
}

#[test]
fn turn_follows_ply_parity_and_player() {
    let rules = Rules::defaults();
    let white = pc(2, 1, 'P');
    let black = pc(7, 1, 'p');
    assert!(rules.is_turn(0, white, GameData { ply: 1, mask: 0 }));
    assert!(!rules.is_turn(0, white, GameData { ply: 2, mask: 0 }));
    assert!(rules.is_turn(1, black, GameData { ply: 2, mask: 0 }));
    assert!(!rules.is_turn(0, black, GameData { ply: 2, mask: 0 }));
    assert!(!rules.is_turn(1, white, GameData { ply: 1, mask: 0 }));
}

#[test]
fn try_move_plays_and_advances_the_ply() {
    let rules = Rules::defaults();
    let mut pp = rules.setup_board();
    let mut gd = start();
    let m = rules.try_move(0, 2, 5, 4, 5, &mut pp, &mut gd, &[]).expect("e2-e4 is legal");
    assert_eq!(m.dst, pc(4, 5, 'P'));
    assert_eq!(pp[2][5], 0);
    assert_eq!(pp[4][5], b'P');
    assert_eq!(gd, GameData { ply: 2, mask: 0 });
    // White may not move twice in a row.
    let before = pp;
    assert!(rules.try_move(0, 2, 4, 4, 4, &mut pp, &mut gd, &[]).is_none());
    assert_eq!(pp, before);
    assert_eq!(gd.ply, 2);
    // An illegal destination changes nothing.
    assert!(rules.try_move(1, 7, 5, 4, 5, &mut pp, &mut gd, &[]).is_none());
    // Black replies.
    assert!(rules.try_move(1, 7, 5, 5, 5, &mut pp, &mut gd, &[]).is_some());
    assert_eq!(gd.ply, 3);
}

#[test]
fn legal_move_finds_the_destination() {
    let rules = Rules::defaults();
    let pp = rules.setup_board();
    let knight = pc(1, 7, 'N');
    let m = rules.legal_move(0, knight, 3, 6, &pp, start(), &[]).expect("Ng1-f3");
    assert_eq!(m.typ, MoveType::Normal);
    assert!(rules.legal_move(0, knight, 2, 5, &pp, start(), &[]).is_none());
    assert!(rules.legal_move(1, knight, 3, 6, &pp, start(), &[]).is_none());
}

#[test]
fn undo_restores_board_after_capture_and_castle() {
    let pp = board(
        "
        ........
        ........
        ........
        ...p....
        ..B.....
        ........
        ........
        ....K..R
        ",
    );
    let rules = Rules::defaults();
    let bishop = pc(4, 3, 'B');
    let take = rules
        .allowed_moves(bishop, &pp, start())
        .into_iter()
        .find(|m| matches!(m.typ, MoveType::Capture { .. }))
        .expect("a capture");
    let mut after = pp;
    Rules::make_move(bishop, take, &mut after);
    assert_ne!(after, pp);
    let victim = pc(5, 4, 'p');
    let undo = Move {
        dst: bishop,
        typ: MoveType::Secondary { src: victim, dst: victim },
        game_data: take.game_data,
    };
    Rules::make_move(take.dst, undo, &mut after);
    assert_eq!(after, pp);

    let king = pc(1, 5, 'K');
    let castle = rules
        .allowed_moves(king, &pp, start())
        .into_iter()
        .find(|m| matches!(m.typ, MoveType::Secondary { .. }))
        .expect("castling");
    let mut after = pp;
    Rules::make_move(king, castle, &mut after);
    let undo = match castle.typ {
        MoveType::Secondary { src, dst } => Move {
            dst: king,
            typ: MoveType::Secondary { src: dst, dst: src },
            game_data: castle.game_data,
        },
        _ => unreachable!(),
    };
    Rules::make_move(castle.dst, undo, &mut after);
    assert_eq!(after, pp);
}

#[test]
fn sprite_offsets_cover_every_tag() {
    let offsets = Rules::default_piece_name_to_offsets();
    assert_eq!(offsets.len(), 12);
    assert_eq!(offsets[&b'K'], (0, 0));
    assert_eq!(offsets[&b'k'], (0, 90));
    assert_eq!(offsets[&b'p'], (450, 90));
    assert_eq!(offsets[&b'N'], (270, 0));
}

#[test]
fn rule_names_and_constraints() {
    let rules = Rules::defaults();
    let names: Vec<&str> = rules.movement_rules.iter().map(|r| r.name.as_str()).collect();
    assert_eq!(
        names,
        vec![
            "pawn-movement",
            "pawn-capture",
            "knight",
            "bishop",
            "rook",
            "queen",
            "king",
            "kingside-castle",
            "queenside-castle",
            "js-plugin"
        ]
    );
    assert_eq!(MovementKind::Plugin.piece_constraint(), None);
    assert_eq!(MovementKind::Bishop.piece_constraint(), Some(b'b'));
    assert!(rules.movement_rules.iter().all(|r| r.active));
}

#[test]
fn white_and_black_tags() {
    assert!(pc(1, 1, 'Q').is_white());
    assert!(!pc(1, 1, 'q').is_white());
    assert_eq!(GD_NO_BLACK_QS_CASTLE, 0x08);
}

#[test]
fn no_moves_when_not_that_sides_turn() {
    let rules = Rules::defaults();
    let pp = rules.setup_board();
    let black_pawn = pc(7, 5, 'p');
    assert!(rules.allowed_moves(black_pawn, &pp, GameData { ply: 1, mask: 0 }).is_empty());
    assert_eq!(rules.allowed_moves(black_pawn, &pp, GameData { ply: 2, mask: 0 }).len(), 2);
    let white_pawn = pc(2, 5, 'P');
    assert!(rules.allowed_moves(white_pawn, &pp, GameData { ply: 4, mask: 0 }).is_empty());
    assert_eq!(rules.allowed_moves(white_pawn, &pp, GameData { ply: 5, mask: 0 }).len(), 2);
}

#[test]
fn every_move_carries_the_next_ply() {
    let rules = Rules::defaults();
    let pp = rules.setup_board();
    let gd = GameData { ply: 7, mask: GD_NO_WHITE_QS_CASTLE };
    let mut seen = 0;
    for c in 1..=8u8 {
        for piece in [pc(2, c, 'P'), pc(1, c, pp[1][c as usize] as char)] {
            for m in rules.allowed_moves(piece, &pp, gd) {
                assert_eq!(m.game_data.ply, 8);
                assert_eq!(m.game_data.mask & gd.mask, gd.mask);
                seen += 1;
            }
        }
    }
    assert_eq!(seen, 20);
    let mut board = pp;
    let mut state = gd;
    let m = rules.try_move(0, 1, 7, 3, 6, &mut board, &mut state, &[]).expect("Ng1-f3");
    assert_eq!(state, m.game_data);
    assert_eq!(state.ply, 8);
}

#[test]
fn second_king_on_last_rank_is_also_guarded() {
    // Two white kings; the one on h8 stands behind a bishop that shields it from the
    // rook on the eighth rank.
    let pp = board(
        "
        r.....BK
        ........
        ........
        ........
        ........
        ........
        ........
        K.......
        ",
    );
    let rules = Rules::defaults();
    let dsts = destinations(&rules.allowed_moves(pc(8, 7, 'B'), &pp, start()));
    assert!(dsts.is_empty());
}
