//! Positions, moves, pseudo-legal move shapes, move application and legality.
use vstd::prelude::*;
use crate::board::{
    attacked, cell, cell_at, forward, in_check, is_attacked, is_in_check, opponent, other,
    reaches, reaches_exec, abs, on_board, Cells, Colour, Coord, Piece, PieceKind,
};

verus! {

/// Which castlings each side may still make.
#[derive(Clone, Copy, PartialEq, Eq, Structural, Debug)]
pub struct CastlingRights {
    pub white_king_side: bool,
    pub white_queen_side: bool,
    pub black_king_side: bool,
    pub black_queen_side: bool,
}

/// What decides the legal moves: the board, the side to move, the castling
/// rights and the en-passant target.
#[derive(Clone, Copy, Debug)]
pub struct Position {
    pub board: Cells,
    pub turn: Colour,
    pub rights: CastlingRights,
    pub en_passant: Option<Coord>,
}

/// A move with the flags that describe its kind.
#[derive(Clone, Copy, PartialEq, Eq, Structural, Debug)]
pub struct Move {
    pub from: Coord,
    pub to: Coord,
    pub promotion: Option<PieceKind>,
    pub capture: bool,
    pub en_passant: bool,
    pub castle_king_side: bool,
    pub castle_queen_side: bool,
    pub double_push: bool,
}

pub open spec fn at(b: Seq<Option<Piece>>, c: Coord) -> Option<Piece> {
    cell(b, c.rank as int, c.file as int)
}

pub open spec fn sq(r: int, f: int) -> int {
    r * 8 + f
}

pub open spec fn home_rank(c: Colour) -> int {
    match c {
        Colour::White => 0,
        Colour::Black => 7,
    }
}

pub open spec fn pawn_start_rank(c: Colour) -> int {
    match c {
        Colour::White => 1,
        Colour::Black => 6,
    }
}

pub open spec fn last_rank(c: Colour) -> int {
    match c {
        Colour::White => 7,
        Colour::Black => 0,
    }
}

pub open spec fn king_side_right(r: CastlingRights, c: Colour) -> bool {
    match c {
        Colour::White => r.white_king_side,
        Colour::Black => r.black_king_side,
    }
}

pub open spec fn queen_side_right(r: CastlingRights, c: Colour) -> bool {
    match c {
        Colour::White => r.white_queen_side,
        Colour::Black => r.black_queen_side,
    }
}

pub open spec fn promotable(k: PieceKind) -> bool {
    k == PieceKind::Knight || k == PieceKind::Bishop || k == PieceKind::Rook || k == PieceKind::Queen
}

/// A move with all flags clear but `capture`.
pub open spec fn plain(from: Coord, to: Coord, promotion: Option<PieceKind>, capture: bool) -> Move {
    Move {
        from,
        to,
        promotion,
        capture,
        en_passant: false,
        castle_king_side: false,
        castle_queen_side: false,
        double_push: false,
    }
}

/// The pawn move from `from` to `to` with `promotion`, if a pawn of the side to
/// move may make it.
pub open spec fn pawn_shape(p: Position, from: Coord, to: Coord, promotion: Option<PieceKind>) -> Option<Move> {
    let c = p.turn;
    let b = p.board@;
    let dir = forward(c);
    let dr = to.rank - from.rank;
    let df = to.file - from.file;
    let promo_ok = if to.rank == last_rank(c) {
        promotion is Some && promotable(promotion->0)
    } else {
        promotion is None
    };
    if !promo_ok {
        None
    } else if df == 0 && dr == dir && at(b, to) is None {
        Some(plain(from, to, promotion, false))
    } else if df == 0 && dr == 2 * dir && from.rank == pawn_start_rank(c) && cell(
        b,
        from.rank + dir,
        from.file as int,
    ) is None && at(b, to) is None {
        Some(Move { double_push: true, ..plain(from, to, promotion, false) })
    } else if abs(df) == 1 && dr == dir && at(b, to) is Some {
        Some(plain(from, to, promotion, true))
    } else if abs(df) == 1 && dr == dir && at(b, to) is None && p.en_passant == Some(to) && cell(
        b,
        from.rank as int,
        to.file as int,
    ) == Some(Piece { kind: PieceKind::Pawn, colour: opponent(c) }) {
        Some(Move { en_passant: true, ..plain(from, to, promotion, true) })
    } else {
        None
    }
}

/// The castling of the side to move that takes its king from `from` to `to`,
/// if it is allowed.
pub open spec fn castle_shape(p: Position, from: Coord, to: Coord, promotion: Option<PieceKind>) -> Option<Move> {
    let c = p.turn;
    let b = p.board@;
    let r0 = home_rank(c);
    let opp = opponent(c);
    let rook = Some(Piece { kind: PieceKind::Rook, colour: c });
    if promotion is Some || from.rank != r0 || from.file != 4 || to.rank != r0 {
        None
    } else if to.file == 6 && king_side_right(p.rights, c) && cell(b, r0, 5) is None && cell(b, r0, 6)
        is None && cell(b, r0, 7) == rook && !attacked(b, r0, 4, opp) && !attacked(b, r0, 5, opp)
        && !attacked(b, r0, 6, opp) {
        Some(Move { castle_king_side: true, ..plain(from, to, None, false) })
    } else if to.file == 2 && queen_side_right(p.rights, c) && cell(b, r0, 1) is None && cell(b, r0, 2)
        is None && cell(b, r0, 3) is None && cell(b, r0, 0) == rook && !attacked(b, r0, 4, opp)
        && !attacked(b, r0, 3, opp) && !attacked(b, r0, 2, opp) {
        Some(Move { castle_queen_side: true, ..plain(from, to, None, false) })
    } else {
        None
    }
}

/// The pseudo-legal move from `from` to `to` with `promotion` for the side to
/// move, with its flags, if there is one.
pub open spec fn shape(p: Position, from: Coord, to: Coord, promotion: Option<PieceKind>) -> Option<Move> {
    let b = p.board@;
    if !from.valid() || !to.valid() {
        None
    } else {
        match at(b, from) {
            None => None,
            Some(pc) => {
                if pc.colour != p.turn || (at(b, to) is Some && at(b, to)->0.colour == p.turn) {
                    None
                } else if pc.kind == PieceKind::Pawn {
                    pawn_shape(p, from, to, promotion)
                } else if promotion is None && reaches(
                    b,
                    pc.kind,
                    pc.colour,
                    from.rank as int,
                    from.file as int,
                    to.rank as int,
                    to.file as int,
                ) {
                    Some(plain(from, to, None, at(b, to) is Some))
                } else if pc.kind == PieceKind::King {
                    castle_shape(p, from, to, promotion)
                } else {
                    None
                }
            },
        }
    }
}

/// Geometrically valid for the side to move, ignoring its own king's safety.
pub open spec fn pseudo_legal(p: Position, m: Move) -> bool {
    shape(p, m.from, m.to, m.promotion) == Some(m)
}

/// The board after a pseudo-legal move.
pub open spec fn next_board(p: Position, m: Move) -> Seq<Option<Piece>> {
    let b = p.board@;
    let pc = at(b, m.from)->0;
    let placed = match m.promotion {
        Some(k) => Piece { kind: k, colour: pc.colour },
        None => pc,
    };
    let b1 = b.update(sq(m.from.rank as int, m.from.file as int), None).update(
        sq(m.to.rank as int, m.to.file as int),
        Some(placed),
    );
    let b2 = if m.en_passant {
        b1.update(sq(m.from.rank as int, m.to.file as int), None)
    } else {
        b1
    };
    let r0 = m.from.rank as int;
    let rook = Some(Piece { kind: PieceKind::Rook, colour: pc.colour });
    if m.castle_king_side {
        b2.update(sq(r0, 7), None).update(sq(r0, 5), rook)
    } else if m.castle_queen_side {
        b2.update(sq(r0, 0), None).update(sq(r0, 3), rook)
    } else {
        b2
    }
}

/// The move starts or ends on square (r, f).
pub open spec fn touches(m: Move, r: int, f: int) -> bool {
    (m.from.rank == r && m.from.file == f) || (m.to.rank == r && m.to.file == f)
}

/// Castling rights after a move: a right is lost once its king's or rook's
/// home square is left or captured on.
pub open spec fn next_rights(r: CastlingRights, m: Move) -> CastlingRights {
    CastlingRights {
        white_king_side: r.white_king_side && !touches(m, 0, 4) && !touches(m, 0, 7),
        white_queen_side: r.white_queen_side && !touches(m, 0, 4) && !touches(m, 0, 0),
        black_king_side: r.black_king_side && !touches(m, 7, 4) && !touches(m, 7, 7),
        black_queen_side: r.black_queen_side && !touches(m, 7, 4) && !touches(m, 7, 0),
    }
}

/// The en-passant target after a move: the skipped square of a double push,
/// else none.
pub open spec fn next_en_passant(p: Position, m: Move) -> Option<Coord> {
    if m.double_push {
        Some(Coord { rank: ((m.from.rank + m.to.rank) / 2) as i64, file: m.from.file })
    } else {
        None
    }
}

/// Pseudo-legal, and the mover's king is not attacked afterwards.
pub open spec fn legal(p: Position, m: Move) -> bool {
    pseudo_legal(p, m) && !in_check(next_board(p, m), p.turn)
}

/// The pawn move from `from` to `to` with `promotion`, if there is one.
fn pawn_shape_exec(p: &Position, from: Coord, to: Coord, promotion: Option<PieceKind>) -> (r: Option<Move>)
    requires
        from.valid(),
        to.valid(),
    ensures
        r == pawn_shape(*p, from, to, promotion),
{
    let c = p.turn;
    let b = &p.board;
    let (dir, last, start): (i64, i64, i64) = match c {
        Colour::White => (1, 7, 1),
        Colour::Black => (-1, 0, 6),
    };
    let dr = to.rank - from.rank;
    let df = to.file - from.file;
    let promo_ok = if to.rank == last {
        match promotion {
            Some(k) => k == PieceKind::Knight || k == PieceKind::Bishop || k == PieceKind::Rook || k
                == PieceKind::Queen,
            None => false,
        }
    } else {
        promotion.is_none()
    };
    let target = cell_at(b, to.rank, to.file);
    let side = df == 1 || df == -1;
    let base = Move {
        from,
        to,
        promotion,
        capture: false,
        en_passant: false,
        castle_king_side: false,
        castle_queen_side: false,
        double_push: false,
    };
    if !promo_ok {
        None
    } else if df == 0 && dr == dir && target.is_none() {
        Some(base)
    } else if df == 0 && dr == 2 * dir && from.rank == start && cell_at(b, from.rank + dir, from.file).is_none()
        && target.is_none() {
        Some(Move { double_push: true, ..base })
    } else if side && dr == dir && target.is_some() {
        Some(Move { capture: true, ..base })
    } else if side && dr == dir && target.is_none() && p.en_passant == Some(to) && cell_at(
        b,
        from.rank,
        to.file,
    ) == Some(Piece { kind: PieceKind::Pawn, colour: other(c) }) {
        Some(Move { capture: true, en_passant: true, ..base })
    } else {
        None
    }
}

/// The castling from `from` to `to` for the side to move, if it is allowed.
fn castle_shape_exec(p: &Position, from: Coord, to: Coord, promotion: Option<PieceKind>) -> (r: Option<Move>)
    requires
        from.valid(),
        to.valid(),
    ensures
        r == castle_shape(*p, from, to, promotion),
{
    let c = p.turn;
    let b = &p.board;
    let opp = other(c);
    let (r0, ks, qs): (i64, bool, bool) = match c {
        Colour::White => (0, p.rights.white_king_side, p.rights.white_queen_side),
        Colour::Black => (7, p.rights.black_king_side, p.rights.black_queen_side),
    };
    let rook = Some(Piece { kind: PieceKind::Rook, colour: c });
    let base = Move {
        from,
        to,
        promotion: None,
        capture: false,
        en_passant: false,
        castle_king_side: false,
        castle_queen_side: false,
        double_push: false,
    };
    if promotion.is_some() || from.rank != r0 || from.file != 4 || to.rank != r0 {
        None
    } else if to.file == 6 && ks && cell_at(b, r0, 5).is_none() && cell_at(b, r0, 6).is_none()
        && cell_at(b, r0, 7) == rook && !is_attacked(b, r0, 4, opp) && !is_attacked(b, r0, 5, opp)
        && !is_attacked(b, r0, 6, opp) {
        Some(Move { castle_king_side: true, ..base })
    } else if to.file == 2 && qs && cell_at(b, r0, 1).is_none() && cell_at(b, r0, 2).is_none()
        && cell_at(b, r0, 3).is_none() && cell_at(b, r0, 0) == rook && !is_attacked(b, r0, 4, opp)
        && !is_attacked(b, r0, 3, opp) && !is_attacked(b, r0, 2, opp) {
        Some(Move { castle_queen_side: true, ..base })
    } else {
        None
    }
}

/// The pseudo-legal move from `from` to `to` with `promotion`, with its flags,
/// if there is one.
pub fn shape_exec(p: &Position, from: Coord, to: Coord, promotion: Option<PieceKind>) -> (r: Option<Move>)
    ensures
        r == shape(*p, from, to, promotion),
{
    if !(0 <= from.rank && from.rank < 8 && 0 <= from.file && from.file < 8 && 0 <= to.rank
        && to.rank < 8 && 0 <= to.file && to.file < 8) {
        return None;
    }
    let b = &p.board;
    match cell_at(b, from.rank, from.file) {
        None => None,
        Some(pc) => {
            let target = cell_at(b, to.rank, to.file);
            let own_target = match target {
                Some(t) => t.colour == p.turn,
                None => false,
            };
            if pc.colour != p.turn || own_target {
                None
            } else if pc.kind == PieceKind::Pawn {
                pawn_shape_exec(p, from, to, promotion)
            } else if promotion.is_none() && reaches_exec(
                b,
                pc.kind,
                pc.colour,
                from.rank,
                from.file,
                to.rank,
                to.file,
            ) {
                Some(
                    Move {
                        from,
                        to,
                        promotion: None,
                        capture: target.is_some(),
                        en_passant: false,
                        castle_king_side: false,
                        castle_queen_side: false,
                        double_push: false,
                    },
                )
            } else if pc.kind == PieceKind::King {
                castle_shape_exec(p, from, to, promotion)
            } else {
                None
            }
        },
    }
}

/// The board after the pseudo-legal move `m`.
pub fn apply_board(p: &Position, m: &Move) -> (r: Cells)
    requires
        pseudo_legal(*p, *m),
    ensures
        r@ == next_board(*p, *m),
{
    let mut b = p.board;
    let pc = cell_at(&b, m.from.rank, m.from.file).unwrap();
    let placed = match m.promotion {
        Some(k) => Piece { kind: k, colour: pc.colour },
        None => pc,
    };
    b[(m.from.rank * 8 + m.from.file) as usize] = None;
    b[(m.to.rank * 8 + m.to.file) as usize] = Some(placed);
    if m.en_passant {
        b[(m.from.rank * 8 + m.to.file) as usize] = None;
    }
    let r0 = m.from.rank;
    let rook = Some(Piece { kind: PieceKind::Rook, colour: pc.colour });
    if m.castle_king_side {
        b[(r0 * 8 + 7) as usize] = None;
        b[(r0 * 8 + 5) as usize] = rook;
    } else if m.castle_queen_side {
        b[(r0 * 8 + 0) as usize] = None;
        b[(r0 * 8 + 3) as usize] = rook;
    }
    b
}

/// Whether `m` is legal in `p`.
pub fn is_legal(p: &Position, m: &Move) -> (r: bool)
    ensures
        r == legal(*p, *m),
{
    match shape_exec(p, m.from, m.to, m.promotion) {
        Some(s) => {
            if s != *m {
                return false;
            }
            let after = apply_board(p, m);
            !is_in_check(&after, p.turn)
        },
        None => false,
    }
}

pub open spec fn promotion_code(k: Option<PieceKind>) -> int {
    match k {
        None => 0,
        Some(PieceKind::Knight) => 1,
        Some(PieceKind::Bishop) => 2,
        Some(PieceKind::Rook) => 3,
        Some(PieceKind::Queen) => 4,
        Some(_) => 5,
    }
}

/// Orders moves by source square, then target square, then promotion.
pub open spec fn move_key(m: Move) -> int {
    sq(m.from.rank as int, m.from.file as int) * 320 + sq(m.to.rank as int, m.to.file as int) * 5
        + promotion_code(m.promotion)
}

fn promotion_of(k: i64) -> (r: Option<PieceKind>)
    requires
        0 <= k < 5,
    ensures
        promotion_code(r) == k,
{
    if k == 0 {
        None
    } else if k == 1 {
        Some(PieceKind::Knight)
    } else if k == 2 {
        Some(PieceKind::Bishop)
    } else if k == 3 {
        Some(PieceKind::Rook)
    } else {
        Some(PieceKind::Queen)
    }
}

fn coord_of(i: i64) -> (c: Coord)
    requires
        0 <= i < 64,
    ensures
        c.valid(),
        sq(c.rank as int, c.file as int) == i,
{
    Coord { rank: i / 8, file: i % 8 }
}

proof fn lemma_same_key_same_move(p: Position, m: Move, from: Coord, to: Coord, k: Option<PieceKind>)
    requires
        pseudo_legal(p, m),
        from.valid(),
        to.valid(),
        sq(from.rank as int, from.file as int) == sq(m.from.rank as int, m.from.file as int),
        sq(to.rank as int, to.file as int) == sq(m.to.rank as int, m.to.file as int),
        promotion_code(k) == promotion_code(m.promotion),
    ensures
        shape(p, from, to, k) == Some(m),
        0 <= promotion_code(m.promotion) < 5,
{
    assert(from == m.from);
    assert(to == m.to);
    assert(k == m.promotion);
}

proof fn lemma_legal_in_range(p: Position, m: Move)
    requires
        pseudo_legal(p, m),
    ensures
        m.from.valid(),
        m.to.valid(),
        0 <= promotion_code(m.promotion) < 5,
        0 <= sq(m.from.rank as int, m.from.file as int) < 64,
        0 <= sq(m.to.rank as int, m.to.file as int) < 64,
{
}

/// Every legal move of the side to move, each once.
pub fn legal_moves_of(p: &Position) -> (r: Vec<Move>)
    ensures
        forall|i: int| 0 <= i < r.len() ==> legal(*p, #[trigger] r[i]),
        forall|m: Move| legal(*p, m) ==> r@.contains(m),
        r@.no_duplicates(),
{
    let mut r: Vec<Move> = Vec::new();
    let mut i: i64 = 0;
    while i < 64
        invariant
            0 <= i <= 64,
            forall|a: int| 0 <= a < r.len() ==> legal(*p, #[trigger] r[a]),
            forall|a: int| 0 <= a < r.len() ==> move_key(#[trigger] r[a]) < i * 320,
            forall|a: int, c: int| 0 <= a < c < r.len() ==> move_key(#[trigger] r[a]) < move_key(#[trigger] r[c]),
            forall|m: Move| legal(*p, m) && move_key(m) < i * 320 ==> r@.contains(m),
        decreases 64 - i,
    {
        let own = match p.board[i as usize] {
            Some(pc) => pc.colour == p.turn,
            None => false,
        };
        if own {
            let from = coord_of(i);
            let mut j: i64 = 0;
            while j < 64
                invariant
                    0 <= i < 64,
                    0 <= j <= 64,
                    from.valid(),
                    sq(from.rank as int, from.file as int) == i,
                    forall|a: int| 0 <= a < r.len() ==> legal(*p, #[trigger] r[a]),
                    forall|a: int| 0 <= a < r.len() ==> move_key(#[trigger] r[a]) < i * 320 + j * 5,
                    forall|a: int, c: int|
                        0 <= a < c < r.len() ==> move_key(#[trigger] r[a]) < move_key(#[trigger] r[c]),
                    forall|m: Move| legal(*p, m) && move_key(m) < i * 320 + j * 5 ==> r@.contains(m),
                decreases 64 - j,
            {
                let to = coord_of(j);
                let mut k: i64 = 0;
                while k < 5
                    invariant
                        0 <= i < 64,
                        0 <= j < 64,
                        0 <= k <= 5,
                        from.valid(),
                        to.valid(),
                        sq(from.rank as int, from.file as int) == i,
                        sq(to.rank as int, to.file as int) == j,
                        forall|a: int| 0 <= a < r.len() ==> legal(*p, #[trigger] r[a]),
                        forall|a: int| 0 <= a < r.len() ==> move_key(#[trigger] r[a]) < i * 320 + j * 5 + k,
                        forall|a: int, c: int|
                            0 <= a < c < r.len() ==> move_key(#[trigger] r[a]) < move_key(#[trigger] r[c]),
                        forall|m: Move| legal(*p, m) && move_key(m) < i * 320 + j * 5 + k ==> r@.contains(m),
                    decreases 5 - k,
                {
                    let promo = promotion_of(k);
                    let ghost before = r@;
                    if let Some(m) = shape_exec(p, from, to, promo) {
                        if is_legal(p, &m) {
                            r.push(m);
                        }
                    }
                    assert forall|m: Move| legal(*p, m) && move_key(m) < i * 320 + j * 5 + k + 1 implies r@.contains(m) by {
                        lemma_legal_in_range(*p, m);
                        if move_key(m) == i * 320 + j * 5 + k {
                            lemma_same_key_same_move(*p, m, from, to, promo);
                            assert(r@[r.len() - 1] == m);
                        } else {
                            assert(before.contains(m));
                            let a = choose|a: int| 0 <= a < before.len() && before[a] == m;
                            assert(r@[a] == m);
                        }
                    }
                    k = k + 1;
                }
                j = j + 1;
            }
        } else {
            assert forall|m: Move| legal(*p, m) && move_key(m) < (i + 1) * 320 implies r@.contains(m) by {
                lemma_legal_in_range(*p, m);
                if move_key(m) >= i * 320 {
                    assert(sq(m.from.rank as int, m.from.file as int) == i);
                }
            }
        }
        i = i + 1;
    }
    r
}

/// The piece that stands on the target square after `m`.
pub open spec fn placed_piece(p: Position, m: Move) -> Piece {
    let pc = at(p.board@, m.from)->0;
    match m.promotion {
        Some(k) => Piece { kind: k, colour: pc.colour },
        None => pc,
    }
}

/// The board after `m`, square by square.
pub open spec fn next_cell(p: Position, m: Move, r: int, f: int) -> Option<Piece> {
    let r0 = m.from.rank as int;
    let rook = Some(Piece { kind: PieceKind::Rook, colour: p.turn });
    if m.castle_king_side && r == r0 && f == 5 {
        rook
    } else if m.castle_king_side && r == r0 && f == 7 {
        None
    } else if m.castle_queen_side && r == r0 && f == 3 {
        rook
    } else if m.castle_queen_side && r == r0 && f == 0 {
        None
    } else if m.en_passant && r == r0 && f == m.to.file {
        None
    } else if r == m.to.rank && f == m.to.file {
        Some(placed_piece(p, m))
    } else if r == r0 && f == m.from.file {
        None
    } else {
        cell(p.board@, r, f)
    }
}

pub proof fn lemma_next_board_cell(p: Position, m: Move, r: int, f: int)
    requires
        pseudo_legal(p, m),
        on_board(r, f),
    ensures
        cell(next_board(p, m), r, f) == next_cell(p, m, r, f),
{
}

} // verus!
