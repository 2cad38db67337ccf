//! Game state: applying and undoing moves, move history, and the game status.
use vstd::prelude::*;
use crate::board::{attacked, attacker, cell, cell_at, forward, in_check, is_in_check, on_board, opponent, other, Cells, Colour, Coord, Piece, PieceKind};
use crate::moves::{
    apply_board, at, touches, lemma_next_board_cell, is_legal, legal, legal_moves_of, next_board, next_en_passant, next_rights,
    shape, shape_exec, CastlingRights, Move, Position,
};
use crate::square::Square;

verus! {

/// The classification of a position.
#[derive(Clone, Copy, PartialEq, Eq, Structural, Debug)]
pub enum GameStatus {
    Ongoing,
    Check,
    Checkmate,
    Stalemate,
    DrawFiftyMove,
    DrawRepetition,
    DrawInsufficientMaterial,
}

/// Why a move was refused.
#[derive(Clone, Copy, PartialEq, Eq, Structural, Debug)]
pub enum MoveError {
    NoPieceAtSource,
    WrongTurn,
    NotInLegalSet,
    GameAlreadyOver,
}

/// Why an undo was refused.
#[derive(Clone, Copy, PartialEq, Eq, Structural, Debug)]
pub enum UndoError {
    NoHistory,
}

/// A played move and what stood before it.
#[derive(Clone, Copy, Debug)]
pub struct Record {
    pub mv: Move,
    pub prior: Position,
    pub halfmove: u64,
    pub fullmove: u64,
}

/// A game: the current position, the move counters and the history of moves.
#[derive(Debug)]
pub struct GameState {
    pub position: Position,
    pub halfmove: u64,
    pub fullmove: u64,
    pub history: Vec<Record>,
}

pub open spec fn same_position(a: Position, b: Position) -> bool {
    a.board@ == b.board@ && a.turn == b.turn && a.rights == b.rights && a.en_passant == b.en_passant
}

/// How many records of `h` hold a position equal to `p`.
pub open spec fn count_same(h: Seq<Record>, p: Position) -> nat
    decreases h.len(),
{
    if h.len() == 0 {
        0
    } else {
        count_same(h.drop_last(), p) + if same_position(h.last().prior, p) {
            1nat
        } else {
            0nat
        }
    }
}

pub open spec fn minor(pc: Piece) -> bool {
    pc.kind == PieceKind::Knight || pc.kind == PieceKind::Bishop
}

/// Only kings and minor pieces remain, at most one minor piece per side.
pub open spec fn insufficient_material(b: Seq<Option<Piece>>) -> bool {
    (forall|i: int|
        0 <= i < 64 && #[trigger] b[i] is Some ==> (b[i]->0.kind == PieceKind::King || minor(b[i]->0)))
        && (forall|i: int, j: int|
        0 <= i < j < 64 && #[trigger] b[i] is Some && #[trigger] b[j] is Some && minor(b[i]->0)
            && minor(b[j]->0) ==> b[i]->0.colour != b[j]->0.colour)
}

pub open spec fn has_legal_move(p: Position) -> bool {
    exists|m: Move| legal(p, m)
}

/// The status of a position with the given halfmove clock and history.
pub open spec fn status_of(p: Position, halfmove: int, history: Seq<Record>) -> GameStatus {
    if !has_legal_move(p) {
        if in_check(p.board@, p.turn) {
            GameStatus::Checkmate
        } else {
            GameStatus::Stalemate
        }
    } else if halfmove >= 100 {
        GameStatus::DrawFiftyMove
    } else if count_same(history, p) + 1 >= 3 {
        GameStatus::DrawRepetition
    } else if insufficient_material(p.board@) {
        GameStatus::DrawInsufficientMaterial
    } else if in_check(p.board@, p.turn) {
        GameStatus::Check
    } else {
        GameStatus::Ongoing
    }
}

pub open spec fn terminal(s: GameStatus) -> bool {
    s != GameStatus::Ongoing && s != GameStatus::Check
}

/// The standard starting arrangement.
pub open spec fn initial_cell(r: int, f: int) -> Option<Piece> {
    let back = if f == 0 || f == 7 {
        PieceKind::Rook
    } else if f == 1 || f == 6 {
        PieceKind::Knight
    } else if f == 2 || f == 5 {
        PieceKind::Bishop
    } else if f == 3 {
        PieceKind::Queen
    } else {
        PieceKind::King
    };
    if r == 0 {
        Some(Piece { kind: back, colour: Colour::White })
    } else if r == 1 {
        Some(Piece { kind: PieceKind::Pawn, colour: Colour::White })
    } else if r == 6 {
        Some(Piece { kind: PieceKind::Pawn, colour: Colour::Black })
    } else if r == 7 {
        Some(Piece { kind: back, colour: Colour::Black })
    } else {
        None
    }
}

pub open spec fn all_rights() -> CastlingRights {
    CastlingRights {
        white_king_side: true,
        white_queen_side: true,
        black_king_side: true,
        black_queen_side: true,
    }
}

/// The halfmove clock after `m`: reset by a pawn move or a capture.
pub open spec fn next_halfmove(p: Position, halfmove: int, m: Move) -> int {
    if m.capture || at(p.board@, m.from)->0.kind == PieceKind::Pawn {
        0
    } else {
        halfmove + 1
    }
}

/// `t` is `s` after the move `m`.
pub open spec fn applied(s: GameState, m: Move, t: GameState) -> bool {
    &&& t.position.board@ == next_board(s.position, m)
    &&& t.position.turn == opponent(s.position.turn)
    &&& t.position.rights == next_rights(s.position.rights, m)
    &&& t.position.en_passant == next_en_passant(s.position, m)
    &&& t.halfmove == next_halfmove(s.position, s.halfmove as int, m)
    &&& t.fullmove == if s.position.turn == Colour::Black {
        s.fullmove + 1
    } else {
        s.fullmove as int
    }
    &&& t.history@ == s.history@.push(
        Record { mv: m, prior: s.position, halfmove: s.halfmove, fullmove: s.fullmove },
    )
}

/// `t` is `s` with its last move taken back.
pub open spec fn undone(s: GameState, t: GameState) -> bool {
    &&& s.history.len() > 0
    &&& t.position == s.history@.last().prior
    &&& t.halfmove == s.history@.last().halfmove
    &&& t.fullmove == s.history@.last().fullmove
    &&& t.history@ == s.history@.drop_last()
}

/// The error a move meets in `s`, or none when it is applied.
pub open spec fn move_error(s: GameState, m: Move) -> Option<MoveError> {
    let p = s.position;
    if terminal(status_of(p, s.halfmove as int, s.history@)) {
        Some(MoveError::GameAlreadyOver)
    } else if !m.from.valid() || at(p.board@, m.from) is None {
        Some(MoveError::NoPieceAtSource)
    } else if at(p.board@, m.from)->0.colour != p.turn {
        Some(MoveError::WrongTurn)
    } else if !legal(p, m) {
        Some(MoveError::NotInLegalSet)
    } else {
        None
    }
}

/// What applying `m` to `s` gives: `t` and the result `r`.
pub open spec fn move_outcome(s: GameState, m: Move, t: GameState, r: Result<GameStatus, MoveError>) -> bool {
    match move_error(s, m) {
        Some(e) => r == Err::<GameStatus, MoveError>(e) && t == s,
        None => applied(s, m, t) && r == Ok::<GameStatus, MoveError>(
            status_of(t.position, t.halfmove as int, t.history@),
        ),
    }
}

/// The move a pair of squares and a promotion choice denote in `p`: the
/// pseudo-legal move with those, or else the bare move.
pub open spec fn requested_move(p: Position, from: Coord, to: Coord, promotion: Option<PieceKind>) -> Move {
    match shape(p, from, to, promotion) {
        Some(m) => m,
        None => Move {
            from,
            to,
            promotion,
            capture: false,
            en_passant: false,
            castle_king_side: false,
            castle_queen_side: false,
            double_push: false,
        },
    }
}

fn back_rank_kind(f: i64) -> (k: PieceKind)
    ensures
        initial_cell(0, f as int) == Some(Piece { kind: k, colour: Colour::White }),
        initial_cell(7, f as int) == Some(Piece { kind: k, colour: Colour::Black }),
{
    if f == 0 || f == 7 {
        PieceKind::Rook
    } else if f == 1 || f == 6 {
        PieceKind::Knight
    } else if f == 2 || f == 5 {
        PieceKind::Bishop
    } else if f == 3 {
        PieceKind::Queen
    } else {
        PieceKind::King
    }
}

fn initial_board() -> (b: Cells)
    ensures
        forall|r: int, f: int| on_board(r, f) ==> #[trigger] cell(b@, r, f) == initial_cell(r, f),
{
    let mut b: Cells = [None; 64];
    let mut r: i64 = 0;
    while r < 8
        invariant
            0 <= r <= 8,
            forall|r2: int, f2: int| 0 <= r2 < r && 0 <= f2 < 8 ==> #[trigger] cell(b@, r2, f2) == initial_cell(r2, f2),
        decreases 8 - r,
    {
        let mut f: i64 = 0;
        while f < 8
            invariant
                0 <= r < 8,
                0 <= f <= 8,
                forall|r2: int, f2: int|
                    ((0 <= r2 < r && 0 <= f2 < 8) || (r2 == r && 0 <= f2 < f)) ==> #[trigger] cell(b@, r2, f2)
                        == initial_cell(r2, f2),
            decreases 8 - f,
        {
            let v = if r == 0 {
                Some(Piece { kind: back_rank_kind(f), colour: Colour::White })
            } else if r == 1 {
                Some(Piece { kind: PieceKind::Pawn, colour: Colour::White })
            } else if r == 6 {
                Some(Piece { kind: PieceKind::Pawn, colour: Colour::Black })
            } else if r == 7 {
                Some(Piece { kind: back_rank_kind(f), colour: Colour::Black })
            } else {
                None
            };
            assert(v == initial_cell(r as int, f as int));
            let ghost prev = b@;
            b[(r * 8 + f) as usize] = v;
            assert forall|r2: int, f2: int|
                ((0 <= r2 < r && 0 <= f2 < 8) || (r2 == r && 0 <= f2 <= f)) implies #[trigger] cell(b@, r2, f2)
                    == initial_cell(r2, f2) by {
                if r2 != r || f2 != f {
                    assert(r2 * 8 + f2 != r * 8 + f);
                    assert(cell(b@, r2, f2) == cell(prev, r2, f2));
                }
            }
            f = f + 1;
        }
        r = r + 1;
    }
    b
}

/// Whether two positions agree in board, side to move, rights and en-passant target.
pub fn same_position_exec(a: &Position, b: &Position) -> (r: bool)
    ensures
        r == same_position(*a, *b),
{
    if a.turn != b.turn || a.rights != b.rights || a.en_passant != b.en_passant {
        return false;
    }
    let mut i: usize = 0;
    while i < 64
        invariant
            0 <= i <= 64,
            forall|k: int| 0 <= k < i ==> a.board@[k] == b.board@[k],
        decreases 64 - i,
    {
        if a.board[i] != b.board[i] {
            return false;
        }
        i = i + 1;
    }
    assert(a.board@ =~= b.board@);
    true
}

/// Whether only kings and at most one minor piece per side remain.
pub fn is_insufficient_material(b: &Cells) -> (r: bool)
    ensures
        r == insufficient_material(b@),
{
    let mut white_minor: usize = 64;
    let mut black_minor: usize = 64;
    let mut i: usize = 0;
    while i < 64
        invariant
            0 <= i <= 64,
            forall|k: int| 0 <= k < i && #[trigger] b@[k] is Some ==> (b@[k]->0.kind == PieceKind::King || minor(b@[k]->0)),
            forall|k: int, j: int|
                0 <= k < j < i && #[trigger] b@[k] is Some && #[trigger] b@[j] is Some && minor(b@[k]->0)
                    && minor(b@[j]->0) ==> b@[k]->0.colour != b@[j]->0.colour,
            white_minor == 64 || (white_minor < i && b@[white_minor as int] is Some && minor(b@[white_minor as int]->0) && b@[white_minor as int]->0.colour == Colour::White),
            black_minor == 64 || (black_minor < i && b@[black_minor as int] is Some && minor(b@[black_minor as int]->0) && b@[black_minor as int]->0.colour == Colour::Black),
            white_minor == 64 ==> forall|k: int| 0 <= k < i && #[trigger] b@[k] is Some && minor(b@[k]->0) ==> b@[k]->0.colour != Colour::White,
            black_minor == 64 ==> forall|k: int| 0 <= k < i && #[trigger] b@[k] is Some && minor(b@[k]->0) ==> b@[k]->0.colour != Colour::Black,
        decreases 64 - i,
    {
        if let Some(pc) = b[i] {
            match pc.kind {
                PieceKind::King => {},
                PieceKind::Knight | PieceKind::Bishop => {
                    match pc.colour {
                        Colour::White => {
                            if white_minor < 64 {
                                assert(b@[white_minor as int] is Some && b@[i as int] is Some);
                                return false;
                            }
                            white_minor = i;
                        },
                        Colour::Black => {
                            if black_minor < 64 {
                                assert(b@[black_minor as int] is Some && b@[i as int] is Some);
                                return false;
                            }
                            black_minor = i;
                        },
                    }
                },
                _ => {
                    assert(b@[i as int] is Some);
                    return false;
                },
            }
        }
        i = i + 1;
    }
    true
}

impl GameState {
    /// The position is fit for play.
    pub open spec fn wf(&self) -> bool {
        well_formed(self.position)
    }

    /// The standard starting position, White to move.
    pub fn new() -> (s: GameState)
        ensures
            forall|r: int, f: int| on_board(r, f) ==> #[trigger] cell(s.position.board@, r, f) == initial_cell(r, f),
            s.position.turn == Colour::White,
            s.position.rights == all_rights(),
            s.position.en_passant is None,
            s.halfmove == 0,
            s.fullmove == 1,
            s.history@.len() == 0,
            s.wf(),
    {
        let board = initial_board();
        proof {
            lemma_initial_well_formed(board@);
        }
        GameState {
            position: Position {
                board,
                turn: Colour::White,
                rights: CastlingRights {
                    white_king_side: true,
                    white_queen_side: true,
                    black_king_side: true,
                    black_queen_side: true,
                },
                en_passant: None,
            },
            halfmove: 0,
            fullmove: 1,
            history: Vec::new(),
        }
    }

    /// A game that starts from the given position.
    pub fn from_position(position: Position) -> (s: GameState)
        requires
            well_formed(position),
        ensures
            s.wf(),
            s.position == position,
            s.halfmove == 0,
            s.fullmove == 1,
            s.history@.len() == 0,
    {
        GameState { position, halfmove: 0, fullmove: 1, history: Vec::new() }
    }

    /// The piece on a square, if any.
    pub fn piece_at(&self, square: Square) -> (r: Option<Piece>)
        ensures
            r == cell(self.position.board@, square.spec_index() % 8, square.spec_index() / 8),
    {
        let c = square.coord();
        cell_at(&self.position.board, c.rank, c.file)
    }

    /// The side to move.
    pub fn current_player(&self) -> (r: Colour)
        ensures
            r == self.position.turn,
    {
        self.position.turn
    }

    /// Every legal move of the side to move, each once.
    pub fn legal_moves(&self) -> (r: Vec<Move>)
        ensures
            forall|i: int| 0 <= i < r.len() ==> legal(self.position, #[trigger] r[i]),
            forall|m: Move| legal(self.position, m) ==> r@.contains(m),
            r@.no_duplicates(),
    {
        legal_moves_of(&self.position)
    }

    /// Whether the side to move is in check.
    pub fn in_check(&self) -> (r: bool)
        ensures
            r == in_check(self.position.board@, self.position.turn),
    {
        is_in_check(&self.position.board, self.position.turn)
    }

    /// How often the current position stood before, in the history.
    pub fn earlier_occurrences(&self) -> (n: usize)
        ensures
            n == count_same(self.history@, self.position),
    {
        let mut n: usize = 0;
        let mut i: usize = 0;
        while i < self.history.len()
            invariant
                0 <= i <= self.history.len(),
                n == count_same(self.history@.take(i as int), self.position),
                n <= i,
            decreases self.history.len() - i,
        {
            assert(self.history@.take(i as int + 1).drop_last() =~= self.history@.take(i as int));
            if same_position_exec(&self.history[i].prior, &self.position) {
                n = n + 1;
            }
            i = i + 1;
        }
        assert(self.history@.take(i as int) =~= self.history@);
        n
    }

    /// The status of the current position.
    pub fn status(&self) -> (r: GameStatus)
        ensures
            r == status_of(self.position, self.halfmove as int, self.history@),
    {
        let moves = self.legal_moves();
        let check = self.in_check();
        if moves.len() == 0 {
            assert(!has_legal_move(self.position)) by {
                if has_legal_move(self.position) {
                    let m = choose|m: Move| legal(self.position, m);
                    assert(moves@.contains(m));
                }
            }
            if check {
                GameStatus::Checkmate
            } else {
                GameStatus::Stalemate
            }
        } else {
            assert(legal(self.position, moves[0]));
            if self.halfmove >= 100 {
                GameStatus::DrawFiftyMove
            } else if self.earlier_occurrences() >= 2 {
                GameStatus::DrawRepetition
            } else if is_insufficient_material(&self.position.board) {
                GameStatus::DrawInsufficientMaterial
            } else if check {
                GameStatus::Check
            } else {
                GameStatus::Ongoing
            }
        }
    }
    /// Applies `m` if it is legal and the game is not over, and reports the
    /// status that results; otherwise leaves the game as it was.
    pub fn apply_move(&mut self, m: Move) -> (r: Result<GameStatus, MoveError>)
        requires
            old(self).fullmove < u64::MAX,
        ensures
            move_outcome(*old(self), m, *final(self), r),
            old(self).wf() ==> final(self).wf(),
    {
        let st = self.status();
        if st != GameStatus::Ongoing && st != GameStatus::Check {
            return Err(MoveError::GameAlreadyOver);
        }
        let p = self.position;
        if !(0 <= m.from.rank && m.from.rank < 8 && 0 <= m.from.file && m.from.file < 8) {
            return Err(MoveError::NoPieceAtSource);
        }
        let pc = match cell_at(&p.board, m.from.rank, m.from.file) {
            None => {
                return Err(MoveError::NoPieceAtSource);
            },
            Some(pc) => pc,
        };
        if pc.colour != p.turn {
            return Err(MoveError::WrongTurn);
        }
        if !is_legal(&p, &m) {
            return Err(MoveError::NotInLegalSet);
        }
        let board = apply_board(&p, &m);
        proof {
            if well_formed(p) {
                lemma_legal_move_keeps_well_formed(p, m);
            }
        }
        let rights = next_rights_exec(p.rights, &m);
        let en_passant = if m.double_push {
            Some(Coord { rank: (m.from.rank + m.to.rank) / 2, file: m.from.file })
        } else {
            None
        };
        let halfmove = if m.capture || pc.kind == PieceKind::Pawn {
            0
        } else {
            self.halfmove + 1
        };
        let fullmove = match p.turn {
            Colour::Black => self.fullmove + 1,
            Colour::White => self.fullmove,
        };
        self.history.push(Record { mv: m, prior: p, halfmove: self.halfmove, fullmove: self.fullmove });
        self.position = Position { board, turn: other(p.turn), rights, en_passant };
        self.halfmove = halfmove;
        self.fullmove = fullmove;
        Ok(self.status())
    }

    /// Plays the move from `from` to `to`, promoting to `promotion` where a
    /// pawn reaches its last rank.
    pub fn make_move(&mut self, from: Square, to: Square, promotion: Option<PieceKind>) -> (r: Result<GameStatus, MoveError>)
        requires
            old(self).fullmove < u64::MAX,
        ensures
            move_outcome(
                *old(self),
                requested_move(old(self).position, from.spec_coord(), to.spec_coord(), promotion),
                *final(self),
                r,
            ),
            old(self).wf() ==> final(self).wf(),
    {
        let f = from.coord();
        let t = to.coord();
        let m = match shape_exec(&self.position, f, t, promotion) {
            Some(m) => m,
            None => Move {
                from: f,
                to: t,
                promotion,
                capture: false,
                en_passant: false,
                castle_king_side: false,
                castle_queen_side: false,
                double_push: false,
            },
        };
        self.apply_move(m)
    }

    /// Takes back the last move.
    pub fn undo(&mut self) -> (r: Result<(), UndoError>)
        ensures
            old(self).history.len() == 0 ==> r == Err::<(), UndoError>(UndoError::NoHistory) && *final(self)
                == *old(self),
            old(self).history.len() > 0 ==> r == Ok::<(), UndoError>(()) && undone(*old(self), *final(self)),
    {
        if self.history.len() == 0 {
            return Err(UndoError::NoHistory);
        }
        match self.history.pop() {
            None => Err(UndoError::NoHistory),
            Some(rec) => {
                self.position = rec.prior;
                self.halfmove = rec.halfmove;
                self.fullmove = rec.fullmove;
                Ok(())
            },
        }
    }
}

fn touches_exec(m: &Move, r: i64, f: i64) -> (b: bool)
    ensures
        b == touches(*m, r as int, f as int),
{
    (m.from.rank == r && m.from.file == f) || (m.to.rank == r && m.to.file == f)
}

fn next_rights_exec(r: CastlingRights, m: &Move) -> (n: CastlingRights)
    ensures
        n == next_rights(r, *m),
{
    CastlingRights {
        white_king_side: r.white_king_side && !touches_exec(m, 0, 4) && !touches_exec(m, 0, 7),
        white_queen_side: r.white_queen_side && !touches_exec(m, 0, 4) && !touches_exec(m, 0, 0),
        black_king_side: r.black_king_side && !touches_exec(m, 7, 4) && !touches_exec(m, 7, 7),
        black_queen_side: r.black_queen_side && !touches_exec(m, 7, 4) && !touches_exec(m, 7, 0),
    }
}

/// Applying a legal move never leaves the mover's own king attacked.
pub proof fn lemma_legal_move_keeps_king_safe(s: GameState, m: Move, t: GameState)
    requires
        legal(s.position, m),
        applied(s, m, t),
    ensures
        !in_check(t.position.board@, s.position.turn),
{
}

/// Undoing a move restores the position (board, side to move, castling rights,
/// en-passant target), both move counters and the history exactly.
pub proof fn lemma_undo_restores(s: GameState, m: Move, t: GameState, u: GameState)
    requires
        applied(s, m, t),
        undone(t, u),
    ensures
        u.position.board@ == s.position.board@,
        u.position.turn == s.position.turn,
        u.position.rights == s.position.rights,
        u.position.en_passant == s.position.en_passant,
        u.halfmove == s.halfmove,
        u.fullmove == s.fullmove,
        u.history@ == s.history@,
{
    assert(t.history@.drop_last() =~= s.history@);
}

/// An en-passant capture needs the target left by the move just before; the
/// capturing pawn lands on that empty target, and the pawn removed is the one
/// beside its source, on the square passed over by the double push.
pub proof fn lemma_en_passant_capture(p: Position, m: Move)
    requires
        legal(p, m),
        m.en_passant,
    ensures
        p.en_passant == Some(m.to),
        at(p.board@, m.from) == Some(Piece { kind: PieceKind::Pawn, colour: p.turn }),
        at(p.board@, m.to) is None,
        m.to.rank == m.from.rank + forward(p.turn),
        m.to.file != m.from.file,
        cell(p.board@, m.from.rank as int, m.to.file as int) == Some(
            Piece { kind: PieceKind::Pawn, colour: opponent(p.turn) },
        ),
        cell(next_board(p, m), m.from.rank as int, m.to.file as int) is None,
        at(next_board(p, m), m.to) is Some,
        at(next_board(p, m), m.to)->0.colour == p.turn,
{
}

/// The en-passant target lasts exactly one move: it is set by a double pawn
/// push, to the square skipped, and cleared by every other move.
pub proof fn lemma_en_passant_target_lasts_one_move(s: GameState, m: Move, t: GameState)
    requires
        legal(s.position, m),
        applied(s, m, t),
    ensures
        t.position.en_passant is Some <==> m.double_push,
        m.double_push ==> t.position.en_passant == Some(
            Coord { rank: (m.from.rank + forward(s.position.turn)) as i64, file: m.from.file },
        ),
{
}

/// A legal move never captures a king, provided the side that just moved did
/// not leave its own king attacked (which every legal move guarantees).
pub proof fn lemma_legal_move_never_captures_king(p: Position, m: Move)
    requires
        legal(p, m),
        !in_check(p.board@, opponent(p.turn)),
    ensures
        at(p.board@, m.to) != Some(Piece { kind: PieceKind::King, colour: opponent(p.turn) }),
{
    let b = p.board@;
    let king = Some(Piece { kind: PieceKind::King, colour: opponent(p.turn) });
    if at(b, m.to) == king {
        let (fr, ff, tr, tf) = (m.from.rank as int, m.from.file as int, m.to.rank as int, m.to.file as int);
        assert(attacker(b, fr, ff, tr, tf, p.turn));
        assert(attacked(b, tr, tf, opponent(opponent(p.turn))));
        assert(cell(b, tr, tf) == king);
    }
}

/// The draw counters move consistently: the halfmove clock is reset by a pawn
/// move or a capture and otherwise grows by one, and the number of earlier
/// occurrences of any position never falls as moves are played.
pub proof fn lemma_draw_counters_monotonic(s: GameState, m: Move, t: GameState, q: Position)
    requires
        applied(s, m, t),
    ensures
        t.halfmove == 0 || t.halfmove == s.halfmove + 1,
        (m.capture || at(s.position.board@, m.from)->0.kind == PieceKind::Pawn) ==> t.halfmove == 0,
        count_same(t.history@, q) >= count_same(s.history@, q),
        same_position(s.position, q) ==> count_same(t.history@, q) == count_same(s.history@, q) + 1,
{
    assert(t.history@.drop_last() =~= s.history@);
}

pub open spec fn king_on(b: Seq<Option<Piece>>, r: int, f: int, c: Colour) -> bool {
    on_board(r, f) && cell(b, r, f) == Some(Piece { kind: PieceKind::King, colour: c })
}

/// Side `c` has exactly one king on the board.
pub open spec fn one_king(b: Seq<Option<Piece>>, c: Colour) -> bool {
    &&& exists|r: int, f: int| #[trigger] king_on(b, r, f, c)
    &&& forall|r1: int, f1: int, r2: int, f2: int|
        #[trigger] king_on(b, r1, f1, c) && #[trigger] king_on(b, r2, f2, c) ==> r1 == r2 && f1 == f2
}

/// A board fit for play with `to_move` to move: one king per side, and the
/// side that just moved is not in check.
pub open spec fn well_formed_board(b: Seq<Option<Piece>>, to_move: Colour) -> bool {
    one_king(b, Colour::White) && one_king(b, Colour::Black) && !in_check(b, opponent(to_move))
}

pub open spec fn well_formed(p: Position) -> bool {
    well_formed_board(p.board@, p.turn)
}

proof fn lemma_king_stays(p: Position, m: Move, c: Colour, kr: int, kf: int)
    requires
        legal(p, m),
        well_formed(p),
        king_on(p.board@, kr, kf, c),
        !(at(p.board@, m.from)->0.kind == PieceKind::King && c == p.turn),
    ensures
        king_on(next_board(p, m), kr, kf, c),
{
    lemma_legal_move_never_captures_king(p, m);
    lemma_next_board_cell(p, m, kr, kf);
}

proof fn lemma_one_king_after(p: Position, m: Move, c: Colour)
    requires
        legal(p, m),
        well_formed(p),
    ensures
        one_king(next_board(p, m), c),
{
    let b = p.board@;
    let nb = next_board(p, m);
    let king_moves = at(b, m.from)->0.kind == PieceKind::King && c == p.turn;
    lemma_legal_move_never_captures_king(p, m);
    if king_moves {
        lemma_next_board_cell(p, m, m.to.rank as int, m.to.file as int);
        assert(king_on(nb, m.to.rank as int, m.to.file as int, c));
    } else {
        let (kr, kf) = choose|r: int, f: int| king_on(b, r, f, c);
        lemma_king_stays(p, m, c, kr, kf);
    }
    assert forall|r1: int, f1: int, r2: int, f2: int|
        #[trigger] king_on(nb, r1, f1, c) && #[trigger] king_on(nb, r2, f2, c) implies r1 == r2 && f1 == f2 by {
        lemma_next_board_cell(p, m, r1, f1);
        lemma_next_board_cell(p, m, r2, f2);
        if king_moves {
            assert(king_on(b, m.from.rank as int, m.from.file as int, c));
        }
        if !(r1 == m.to.rank && f1 == m.to.file) {
            assert(king_on(b, r1, f1, c));
        }
        if !(r2 == m.to.rank && f2 == m.to.file) {
            assert(king_on(b, r2, f2, c));
        }
    }
}

/// A legal move keeps the board fit for play: each side keeps exactly one
/// king, and the side that moved is not in check.
pub proof fn lemma_legal_move_keeps_well_formed(p: Position, m: Move)
    requires
        legal(p, m),
        well_formed(p),
    ensures
        well_formed_board(next_board(p, m), opponent(p.turn)),
{
    lemma_one_king_after(p, m, Colour::White);
    lemma_one_king_after(p, m, Colour::Black);
    assert(opponent(opponent(p.turn)) == p.turn);
}

proof fn lemma_initial_well_formed(b: Seq<Option<Piece>>)
    requires
        forall|r: int, f: int| on_board(r, f) ==> #[trigger] cell(b, r, f) == initial_cell(r, f),
    ensures
        well_formed_board(b, Colour::White),
{
    assert(king_on(b, 0, 4, Colour::White));
    assert(king_on(b, 7, 4, Colour::Black));
    assert forall|sr: int, sf: int| !#[trigger] attacker(b, sr, sf, 7, 4, Colour::White) by {
        if on_board(sr, sf) {
            assert(cell(b, sr, sf) == initial_cell(sr, sf));
        }
    }
    assert forall|r: int, f: int| on_board(r, f) && #[trigger] cell(b, r, f) == Some(
        Piece { kind: PieceKind::King, colour: Colour::Black },
    ) implies !attacked(b, r, f, Colour::White) by {
        assert(cell(b, r, f) == initial_cell(r, f));
        assert(r == 7 && f == 4);
    }
}

/// Kings and a single bishop cannot force mate: such a position that has a
/// legal move, a halfmove clock under 100 and fewer than three occurrences is
/// a draw by insufficient material.
pub proof fn lemma_king_and_bishop_against_king(
    p: Position,
    halfmove: int,
    history: Seq<Record>,
    bishop: int,
)
    requires
        0 <= bishop < 64,
        p.board@[bishop] is Some,
        p.board@[bishop]->0.kind == PieceKind::Bishop,
        forall|i: int|
            0 <= i < 64 && i != bishop && #[trigger] p.board@[i] is Some ==> p.board@[i]->0.kind
                == PieceKind::King,
        has_legal_move(p),
        halfmove < 100,
        count_same(history, p) + 1 < 3,
    ensures
        status_of(p, halfmove, history) == GameStatus::DrawInsufficientMaterial,
{
    assert(insufficient_material(p.board@));
}

} // verus!
