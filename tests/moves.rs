use std::collections::HashSet;

use chess_rules::{
    GameData, Piece, PiecePlacements, Rules, GD_NO_BLACK_QS_CASTLE, GD_NO_WHITE_KS_CASTLE,
};

fn assert_moves_allowed_eq_with_gd(
    board: &str,
    piece: Piece,
    expect_allowed: &Vec<Piece>,
    gd: GameData,
) {
    let expect_allowed: HashSet<Piece> = expect_allowed.iter().map(|&p| p).collect();
    let rules = Rules::defaults();
    let placements = string_board_to_placements(board);
    let allowed: HashSet<Piece> = rules
        .allowed_moves(piece, &placements, gd)
        .iter()
        .map(|m| m.dst)
        .collect();
    assert_eq!(allowed, expect_allowed);
}

fn assert_moves_allowed_eq(board: &str, piece: Piece, expect_allowed: &Vec<Piece>) {
    // White moves on odd plies, black on even ones.
    let ply = if piece.is_white() { 1 } else { 2 };
    assert_moves_allowed_eq_with_gd(board, piece, expect_allowed, GameData { ply, mask: 0 });
}

fn string_board_to_placements(board: &str) -> PiecePlacements {
    let board = board.trim();
    let mut placements = [[0; 8 + 1]; 8 + 1];
    for (i, line) in board.split('\n').enumerate() {
        let r = 8 - i;
        for (j, p) in line.trim().chars().enumerate() {
            let c = j + 1;
            if p != '.' {
                placements[r][c] = p as u8;
            }
        }
    }
    placements
}

#[test]
fn test_initial_pawn_moves() {
    let board = "
        rnbqkbnr
        pppppppp
        ........
        ........
        ........
        ........
        PPPPPPPP
        RNBQKBNR
    ";
    // Test white pieces, each column
    for col in 1..=8 {
        let piece = Piece {
            row: 2,
            col,
            name: 'P' as u8,
        };
        let allowed = vec![
            Piece {
                row: 3,
                col,
                name: 'P' as u8,
            },
            Piece {
                row: 4,
                col,
                name: 'P' as u8,
            },
        ];
        assert_moves_allowed_eq(board, piece, &allowed);
    }
    // Test black pieces, each column
    for col in 1..=8 {
        let piece = Piece {
            row: 7,
            col,
            name: 'p' as u8,
        };
        let allowed = vec![
            Piece {
                row: 6,
                col,
                name: 'p' as u8,
            },
            Piece {
                row: 5,
                col,
                name: 'p' as u8,
            },
        ];
        assert_moves_allowed_eq(board, piece, &allowed);
    }
}

#[test]
fn test_2nd_pawn_moves() {
    let board = "
        rnbqkbnr
        ppppppp.
        .......p
        ........
        ........
        P.......
        .PPPPPPP
        RNBQKBNR
    ";
    // White
    let piece = Piece {
        row: 3,
        col: 1,
        name: 'P' as u8,
    };
    let allowed = vec![Piece {
        row: 4,
        col: 1,
        name: 'P' as u8,
    }];
    assert_moves_allowed_eq(board, piece, &allowed);
    // Black
    let piece = Piece {
        row: 6,
        col: 8,
        name: 'p' as u8,
    };
    let allowed = vec![Piece {
        row: 5,
        col: 8,
        name: 'p' as u8,
    }];
    assert_moves_allowed_eq(board, piece, &allowed);
}

#[test]
fn test_blocked_pawn_moves() {
    let board = "
        rnbqkbnr
        .ppppppp
        ........
        p.......
        P.......
        ........
        .PPPPPPP
        RNBQKBNR
    ";
    // White
    let piece = Piece {
        row: 4,
        col: 1,
        name: 'P' as u8,
    };
    assert_moves_allowed_eq(board, piece, &Vec::new());
    // Black
    let piece = Piece {
        row: 5,
        col: 1,
        name: 'p' as u8,
    };
    assert_moves_allowed_eq(board, piece, &Vec::new());
}

#[test]
fn test_pawn_captures() {
    let board = "
        rnbqkbnr
        ppp..ppp
        ........
        ...pp...
        ....P...
        ........
        PPPP.PPP
        RNBQKBNR
    ";
    // White
    let piece = Piece {
        row: 4,
        col: 5,
        name: 'P' as u8,
    };
    let allowed = vec![Piece {
        row: 5,
        col: 4,
        name: 'P' as u8,
    }];
    assert_moves_allowed_eq(board, piece, &allowed);
    // Black
    let piece = Piece {
        row: 5,
        col: 4,
        name: 'p' as u8,
    };
    let allowed = vec![
        Piece {
            row: 4,
            col: 5,
            name: 'p' as u8,
        },
        Piece {
            row: 4,
            col: 4,
            name: 'p' as u8,
        },
    ];
    assert_moves_allowed_eq(board, piece, &allowed);
}

#[test]
fn test_bishop_moves() {
    let board = "
        ........
        ........
        ........
        ........
        ........
        ........
        ........
        B.....b.
    ";
    // White
    let piece = Piece {
        row: 1,
        col: 1,
        name: 'B' as u8,
    };
    let mut allowed = Vec::new();
    for i in 2..=8 {
        allowed.push(Piece {
            row: i,
            col: i,
            name: 'B' as u8,
        })
    }
    assert_moves_allowed_eq(board, piece, &allowed);
    // Black
    let piece = Piece {
        row: 1,
        col: 7,
        name: 'b' as u8,
    };
    let allowed = vec![
        Piece {
            row: 2,
            col: 6,
            name: 'b' as u8,
        },
        Piece {
            row: 3,
            col: 5,
            name: 'b' as u8,
        },
        Piece {
            row: 4,
            col: 4,
            name: 'b' as u8,
        },
        Piece {
            row: 5,
            col: 3,
            name: 'b' as u8,
        },
        Piece {
            row: 6,
            col: 2,
            name: 'b' as u8,
        },
        Piece {
            row: 7,
            col: 1,
            name: 'b' as u8,
        },
        Piece {
            row: 2,
            col: 8,
            name: 'b' as u8,
        },
    ];
    assert_moves_allowed_eq(board, piece, &allowed);
}

#[test]
fn test_bishop_blocked_and_capture() {
    let board = "
        ........
        ........
        ........
        ........
        ........
        ........
        P.b.....
        .B......
    ";
    // White
    let piece = Piece {
        row: 1,
        col: 2,
        name: 'B' as u8,
    };
    let allowed = vec![Piece {
        row: 2,
        col: 3,
        name: 'B' as u8,
    }];
    assert_moves_allowed_eq(board, piece, &allowed);
}

#[test]
fn test_knight_moves() {
    let board = "
        ........
        ........
        ........
        ........
        ........
        ..N.....
        ........
        .......n
    ";
    // White
    let piece = Piece {
        row: 3,
        col: 3,
        name: 'N' as u8,
    };
    let allowed = vec![
        Piece {
            row: 5,
            col: 2,
            name: 'N' as u8,
        },
        Piece {
            row: 5,
            col: 4,
            name: 'N' as u8,
        },
        Piece {
            row: 2,
            col: 5,
            name: 'N' as u8,
        },
        Piece {
            row: 4,
            col: 5,
            name: 'N' as u8,
        },
        Piece {
            row: 1,
            col: 2,
            name: 'N' as u8,
        },
        Piece {
            row: 1,
            col: 4,
            name: 'N' as u8,
        },
        Piece {
            row: 2,
            col: 1,
            name: 'N' as u8,
        },
        Piece {
            row: 4,
            col: 1,
            name: 'N' as u8,
        },
    ];
    assert_moves_allowed_eq(board, piece, &allowed);
    // Black
    let piece = Piece {
        row: 1,
        col: 8,
        name: 'n' as u8,
    };
    let allowed = vec![
        Piece {
            row: 3,
            col: 7,
            name: 'n' as u8,
        },
        Piece {
            row: 2,
            col: 6,
            name: 'n' as u8,
        },
    ];
    assert_moves_allowed_eq(board, piece, &allowed);
}

#[test]
fn test_knight_blocked_and_capture() {
    let board = "
        ........
        ........
        ........
        ........
        ........
        .N......
        ..n.....
        N.......
    ";
    // White
    let piece = Piece {
        row: 1,
        col: 1,
        name: 'N' as u8,
    };
    let allowed = vec![Piece {
        row: 2,
        col: 3,
        name: 'N' as u8,
    }];
    assert_moves_allowed_eq(board, piece, &allowed);
}

#[test]
fn test_rook() {
    let board = "
        ........
        ........
        ........
        ........
        .P......
        ........
        .R..p...
        ........
    ";
    // White
    let piece = Piece {
        row: 2,
        col: 2,
        name: 'R' as u8,
    };
    let allowed = vec![
        Piece {
            row: 3,
            col: 2,
            name: 'R' as u8,
        },
        Piece {
            row: 1,
            col: 2,
            name: 'R' as u8,
        },
        Piece {
            row: 2,
            col: 1,
            name: 'R' as u8,
        },
        Piece {
            row: 2,
            col: 3,
            name: 'R' as u8,
        },
        Piece {
            row: 2,
            col: 4,
            name: 'R' as u8,
        },
        Piece {
            row: 2,
            col: 5,
            name: 'R' as u8,
        },
    ];
    assert_moves_allowed_eq(board, piece, &allowed);
}

#[test]
fn test_queen() {
    let board = "
        ........
        ........
        ........
        ........
        .P......
        ........
        .Q..p...
        ........
    ";
    // White
    let piece = Piece {
        row: 2,
        col: 2,
        name: 'Q' as u8,
    };
    let allowed = vec![
        Piece {
            row: 3,
            col: 2,
            name: 'Q' as u8,
        },
        Piece {
            row: 3,
            col: 3,
            name: 'Q' as u8,
        },
        Piece {
            row: 4,
            col: 4,
            name: 'Q' as u8,
        },
        Piece {
            row: 5,
            col: 5,
            name: 'Q' as u8,
        },
        Piece {
            row: 6,
            col: 6,
            name: 'Q' as u8,
        },
        Piece {
            row: 7,
            col: 7,
            name: 'Q' as u8,
        },
        Piece {
            row: 8,
            col: 8,
            name: 'Q' as u8,
        },
        Piece {
            row: 1,
            col: 3,
            name: 'Q' as u8,
        },
        Piece {
            row: 1,
            col: 2,
            name: 'Q' as u8,
        },
        Piece {
            row: 1,
            col: 1,
            name: 'Q' as u8,
        },
        Piece {
            row: 2,
            col: 1,
            name: 'Q' as u8,
        },
        Piece {
            row: 3,
            col: 1,
            name: 'Q' as u8,
        },
        Piece {
            row: 2,
            col: 3,
            name: 'Q' as u8,
        },
        Piece {
            row: 2,
            col: 4,
            name: 'Q' as u8,
        },
        Piece {
            row: 2,
            col: 5,
            name: 'Q' as u8,
        },
    ];
    assert_moves_allowed_eq(board, piece, &allowed);
}

#[test]
fn test_king() {
    let board = "
        ........
        ........
        ........
        ........
        ........
        .P......
        .Kp.....
        ........
    ";
    // White
    let piece = Piece {
        row: 2,
        col: 2,
        name: 'K' as u8,
    };
    let allowed = vec![
        Piece {
            row: 3,
            col: 3,
            name: 'K' as u8,
        },
        Piece {
            row: 2,
            col: 3,
            name: 'K' as u8,
        },
        Piece {
            row: 1,
            col: 3,
            name: 'K' as u8,
        },
        Piece {
            row: 1,
            col: 1,
            name: 'K' as u8,
        },
        Piece {
            row: 2,
            col: 1,
            name: 'K' as u8,
        },
        Piece {
            row: 3,
            col: 1,
            name: 'K' as u8,
        },
    ];
    assert_moves_allowed_eq(board, piece, &allowed);
}

#[test]
fn test_castles_kingside() {
    let board = "
        ........
        ........
        ........
        ........
        ........
        ........
        ........
        ....K..R
    ";
    // White
    let piece = Piece {
        row: 1,
        col: 5,
        name: 'K' as u8,
    };
    let mut allowed = vec![
        Piece {
            row: 1,
            col: 4,
            name: 'K' as u8,
        },
        Piece {
            row: 2,
            col: 4,
            name: 'K' as u8,
        },
        Piece {
            row: 2,
            col: 5,
            name: 'K' as u8,
        },
        Piece {
            row: 2,
            col: 6,
            name: 'K' as u8,
        },
        Piece {
            row: 1,
            col: 6,
            name: 'K' as u8,
        },
    ];
    let gd = GameData {
        ply: 1,
        mask: GD_NO_WHITE_KS_CASTLE,
    };
    assert_moves_allowed_eq_with_gd(board, piece, &allowed, gd);

    allowed.push(Piece {
        row: 1,
        col: 7,
        name: 'K' as u8,
    });
    assert_moves_allowed_eq(board, piece, &allowed);
}

#[test]
fn test_castles_queenside() {
    let board = "
        r...kq..
        ...ppp..
        ........
        ........
        ........
        ........
        ........
        ........
    ";
    let piece = Piece {
        row: 8,
        col: 5,
        name: 'k' as u8,
    };
    let mut allowed = vec![Piece {
        row: 8,
        col: 4,
        name: 'k' as u8,
    }];
    let gd = GameData {
        ply: 2,
        mask: GD_NO_BLACK_QS_CASTLE,
    };
    assert_moves_allowed_eq_with_gd(board, piece, &allowed, gd);

    allowed.push(Piece {
        row: 8,
        col: 3,
        name: 'k' as u8,
    });
    assert_moves_allowed_eq(board, piece, &allowed);
}

#[test]
fn test_castles_through_piece() {
    let board = "
        r..qkb..
        ...ppp..
        ........
        ........
        ........
        ........
        ........
        ........
    ";
    let piece = Piece {
        row: 8,
        col: 5,
        name: 'k' as u8,
    };
    assert_moves_allowed_eq(board, piece, &Vec::new());
}

#[test]
fn test_castles_through_check() {
    let piece = Piece {
        row: 1,
        col: 5,
        name: 'K' as u8,
    };
    let allowed = vec![
        // Castles not allowed.
        Piece {
            row: 1,
            col: 4,
            name: 'K' as u8,
        },
        Piece {
            row: 2,
            col: 4,
            name: 'K' as u8,
        },
        Piece {
            row: 2,
            col: 5,
            name: 'K' as u8,
        },
        Piece {
            row: 2,
            col: 6,
            name: 'K' as u8,
        },
        Piece {
            row: 1,
            col: 6,
            name: 'K' as u8,
        },
    ];
    let board = "
        ......q.
        ........
        ........
        ........
        ........
        ........
        ........
        ....K..R
    ";
    assert_moves_allowed_eq(board, piece, &allowed);

    let board = "
        ......r.
        ........
        ........
        ........
        ........
        ........
        ........
        ....K..R
    ";
    assert_moves_allowed_eq(board, piece, &allowed);

    let board = "
        ........
        ........
        ........
        ........
        ........
        q.......
        ........
        R...K...
    ";
    assert_moves_allowed_eq(board, piece, &allowed);

    let board = "
        ........
        ........
        ........
        ........
        ........
        ........
        .......b
        ....K..R
    ";
    assert_moves_allowed_eq(board, piece, &allowed);

    let board = "
        ........
        ........
        ........
        ........
        ........
        ........
        n.......
        R...K...
    ";
    assert_moves_allowed_eq(board, piece, &allowed);

    let board = "
        ........
        ........
        ........
        ........
        ........
        ........
        .......p
        ....K..R
    ";
    assert_moves_allowed_eq(board, piece, &allowed);

    let board = "
        ........
        ........
        ........
        ........
        ........
        ........
        .......k
        ....K..R
    ";
    assert_moves_allowed_eq(board, piece, &allowed);
}
