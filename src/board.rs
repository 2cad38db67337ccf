//! Pieces, coordinates, board geometry and attack detection.
use vstd::prelude::*;

verus! {

/// The two sides.
#[derive(Clone, Copy, PartialEq, Eq, Structural, Debug)]
pub enum Colour {
    White,
    Black,
}

/// The six kinds of chess piece.
#[derive(Clone, Copy, PartialEq, Eq, Structural, Debug)]
pub enum PieceKind {
    Pawn,
    Knight,
    Bishop,
    Rook,
    Queen,
    King,
}

/// A piece: its kind and the side that owns it.
#[derive(Clone, Copy, PartialEq, Eq, Structural, Debug)]
pub struct Piece {
    pub kind: PieceKind,
    pub colour: Colour,
}

/// A square as rank (0 for White's back rank) and file (0 for the a-file).
#[derive(Clone, Copy, PartialEq, Eq, Structural, Debug)]
pub struct Coord {
    pub rank: i64,
    pub file: i64,
}

/// The board: 64 cells, the cell of rank `r` and file `f` at index `r * 8 + f`.
pub type Cells = [Option<Piece>; 64];

impl Coord {
    pub open spec fn valid(self) -> bool {
        on_board(self.rank as int, self.file as int)
    }
}

pub open spec fn on_board(r: int, f: int) -> bool {
    0 <= r < 8 && 0 <= f < 8
}

pub open spec fn cell(b: Seq<Option<Piece>>, r: int, f: int) -> Option<Piece> {
    b[r * 8 + f]
}

pub open spec fn opponent(c: Colour) -> Colour {
    match c {
        Colour::White => Colour::Black,
        Colour::Black => Colour::White,
    }
}

/// The rank direction in which pawns of `c` advance.
pub open spec fn forward(c: Colour) -> int {
    match c {
        Colour::White => 1,
        Colour::Black => -1,
    }
}

pub open spec fn abs(x: int) -> int {
    if x < 0 { -x } else { x }
}

pub open spec fn sign(x: int) -> int {
    if x > 0 { 1 } else if x < 0 { -1 } else { 0 }
}

pub open spec fn max(x: int, y: int) -> int {
    if x < y { y } else { x }
}

/// `k` steps of length one in direction `d` (one of -1, 0, 1).
pub open spec fn scaled(k: int, d: int) -> int {
    if d > 0 { k } else if d < 0 { -k } else { 0 }
}

/// Moves along a rank or a file.
pub open spec fn straight(dr: int, df: int) -> bool {
    (dr == 0) != (df == 0)
}

/// Moves along a diagonal.
pub open spec fn diagonal(dr: int, df: int) -> bool {
    dr != 0 && abs(dr) == abs(df)
}

/// Every square strictly between the two squares of a line is empty.
pub open spec fn path_clear(b: Seq<Option<Piece>>, sr: int, sf: int, tr: int, tf: int) -> bool {
    let n = max(abs(tr - sr), abs(tf - sf));
    forall|k: int|
        1 <= k < n ==> #[trigger] cell(b, sr + scaled(k, sign(tr - sr)), sf + scaled(k, sign(tf - sf)))
            is None
}

/// A piece of `kind` and `colour` on (sr, sf) attacks (tr, tf) under the occupancy `b`.
pub open spec fn reaches(
    b: Seq<Option<Piece>>,
    kind: PieceKind,
    colour: Colour,
    sr: int,
    sf: int,
    tr: int,
    tf: int,
) -> bool {
    let dr = tr - sr;
    let df = tf - sf;
    match kind {
        PieceKind::Pawn => dr == forward(colour) && abs(df) == 1,
        PieceKind::Knight => (abs(dr) == 1 && abs(df) == 2) || (abs(dr) == 2 && abs(df) == 1),
        PieceKind::King => (dr != 0 || df != 0) && abs(dr) <= 1 && abs(df) <= 1,
        PieceKind::Bishop => diagonal(dr, df) && path_clear(b, sr, sf, tr, tf),
        PieceKind::Rook => straight(dr, df) && path_clear(b, sr, sf, tr, tf),
        PieceKind::Queen => (diagonal(dr, df) || straight(dr, df)) && path_clear(
            b,
            sr,
            sf,
            tr,
            tf,
        ),
    }
}

/// A piece of `by` stands on (sr, sf) and attacks (tr, tf).
pub open spec fn attacker(
    b: Seq<Option<Piece>>,
    sr: int,
    sf: int,
    tr: int,
    tf: int,
    by: Colour,
) -> bool {
    on_board(sr, sf) && match cell(b, sr, sf) {
        Some(p) => p.colour == by && reaches(b, p.kind, by, sr, sf, tr, tf),
        None => false,
    }
}

/// Some piece of `by` attacks (tr, tf).
pub open spec fn attacked(b: Seq<Option<Piece>>, tr: int, tf: int, by: Colour) -> bool {
    exists|sr: int, sf: int| #[trigger] attacker(b, sr, sf, tr, tf, by)
}

/// A king of `c` stands on an attacked square.
pub open spec fn in_check(b: Seq<Option<Piece>>, c: Colour) -> bool {
    exists|r: int, f: int|
        on_board(r, f) && #[trigger] cell(b, r, f) == Some(Piece { kind: PieceKind::King, colour: c })
            && attacked(b, r, f, opponent(c))
}

pub fn other(c: Colour) -> (r: Colour)
    ensures
        r == opponent(c),
{
    match c {
        Colour::White => Colour::Black,
        Colour::Black => Colour::White,
    }
}

pub fn cell_at(b: &Cells, r: i64, f: i64) -> (c: Option<Piece>)
    requires
        on_board(r as int, f as int),
    ensures
        c == cell(b@, r as int, f as int),
{
    b[(r * 8 + f) as usize]
}

fn abs_i(x: i64) -> (r: i64)
    requires
        -100 < x < 100,
    ensures
        r == abs(x as int),
{
    if x < 0 { -x } else { x }
}

fn sign_i(x: i64) -> (r: i64)
    ensures
        r == sign(x as int),
{
    if x > 0 { 1 } else if x < 0 { -1 } else { 0 }
}

fn scaled_i(k: i64, d: i64) -> (r: i64)
    requires
        -100 < k < 100,
    ensures
        r == scaled(k as int, d as int),
{
    if d > 0 { k } else if d < 0 { -k } else { 0 }
}

/// Whether the squares strictly between two squares of one line are empty.
fn path_clear_exec(b: &Cells, sr: i64, sf: i64, tr: i64, tf: i64) -> (ok: bool)
    requires
        on_board(sr as int, sf as int),
        on_board(tr as int, tf as int),
        straight(tr - sr, tf - sf) || diagonal(tr - sr, tf - sf),
    ensures
        ok == path_clear(b@, sr as int, sf as int, tr as int, tf as int),
{
    let dr = sign_i(tr - sr);
    let df = sign_i(tf - sf);
    let ar = abs_i(tr - sr);
    let af = abs_i(tf - sf);
    let n = if ar < af { af } else { ar };
    let mut k: i64 = 1;
    while k < n
        invariant
            1 <= k <= 8,
            n <= 7,
            n == max(abs(tr - sr), abs(tf - sf)),
            dr == sign(tr - sr),
            df == sign(tf - sf),
            on_board(sr as int, sf as int),
            on_board(tr as int, tf as int),
            straight(tr - sr, tf - sf) || diagonal(tr - sr, tf - sf),
            forall|j: int|
                1 <= j < k ==> #[trigger] cell(b@, sr + scaled(j, dr as int), sf + scaled(j, df as int))
                    is None,
        decreases n - k,
    {
        let r = sr + scaled_i(k, dr);
        let f = sf + scaled_i(k, df);
        if cell_at(b, r, f).is_some() {
            return false;
        }
        k = k + 1;
    }
    true
}

/// Whether a piece of `kind` and `colour` on (sr, sf) attacks (tr, tf).
pub fn reaches_exec(
    b: &Cells,
    kind: PieceKind,
    colour: Colour,
    sr: i64,
    sf: i64,
    tr: i64,
    tf: i64,
) -> (ok: bool)
    requires
        on_board(sr as int, sf as int),
        on_board(tr as int, tf as int),
    ensures
        ok == reaches(b@, kind, colour, sr as int, sf as int, tr as int, tf as int),
{
    let dr = tr - sr;
    let df = tf - sf;
    let ar = abs_i(dr);
    let af = abs_i(df);
    let diag = dr != 0 && ar == af;
    let line = (dr == 0) != (df == 0);
    match kind {
        PieceKind::Pawn => {
            let fwd: i64 = match colour {
                Colour::White => 1,
                Colour::Black => -1,
            };
            dr == fwd && af == 1
        },
        PieceKind::Knight => (ar == 1 && af == 2) || (ar == 2 && af == 1),
        PieceKind::King => (dr != 0 || df != 0) && ar <= 1 && af <= 1,
        PieceKind::Bishop => diag && path_clear_exec(b, sr, sf, tr, tf),
        PieceKind::Rook => line && path_clear_exec(b, sr, sf, tr, tf),
        PieceKind::Queen => (diag || line) && path_clear_exec(b, sr, sf, tr, tf),
    }
}

/// Whether any piece of `by` attacks (tr, tf).
pub fn is_attacked(b: &Cells, tr: i64, tf: i64, by: Colour) -> (r: bool)
    requires
        on_board(tr as int, tf as int),
    ensures
        r == attacked(b@, tr as int, tf as int, by),
{
    let mut r: i64 = 0;
    while r < 8
        invariant
            0 <= r <= 8,
            on_board(tr as int, tf as int),
            forall|sr: int, sf: int| sr < r ==> !#[trigger] attacker(b@, sr, sf, tr as int, tf as int, by),
        decreases 8 - r,
    {
        let mut f: i64 = 0;
        while f < 8
            invariant
                0 <= r < 8,
                0 <= f <= 8,
                on_board(tr as int, tf as int),
                forall|sr: int, sf: int|
                    (sr < r || (sr == r && sf < f)) ==> !#[trigger] attacker(
                        b@,
                        sr,
                        sf,
                        tr as int,
                        tf as int,
                        by,
                    ),
            decreases 8 - f,
        {
            if let Some(p) = cell_at(b, r, f) {
                if p.colour == by && reaches_exec(b, p.kind, by, r, f, tr, tf) {
                    assert(attacker(b@, r as int, f as int, tr as int, tf as int, by));
                    return true;
                }
            }
            f = f + 1;
        }
        r = r + 1;
    }
    false
}

/// Whether a king of `c` stands on an attacked square.
pub fn is_in_check(b: &Cells, c: Colour) -> (r: bool)
    ensures
        r == in_check(b@, c),
{
    let king = Piece { kind: PieceKind::King, colour: c };
    let opp = other(c);
    let mut r: i64 = 0;
    while r < 8
        invariant
            0 <= r <= 8,
            king == (Piece { kind: PieceKind::King, colour: c }),
            opp == opponent(c),
            forall|kr: int, kf: int|
                kr < r && on_board(kr, kf) && #[trigger] cell(b@, kr, kf) == Some(king) ==> !attacked(
                    b@,
                    kr,
                    kf,
                    opp,
                ),
        decreases 8 - r,
    {
        let mut f: i64 = 0;
        while f < 8
            invariant
                0 <= r < 8,
                0 <= f <= 8,
                king == (Piece { kind: PieceKind::King, colour: c }),
                opp == opponent(c),
                forall|kr: int, kf: int|
                    (kr < r || (kr == r && kf < f)) && on_board(kr, kf) && #[trigger] cell(b@, kr, kf)
                        == Some(king) ==> !attacked(b@, kr, kf, opp),
            decreases 8 - f,
        {
            if let Some(p) = cell_at(b, r, f) {
                if p == king && is_attacked(b, r, f, opp) {
                    return true;
                }
            }
            f = f + 1;
        }
        r = r + 1;
    }
    false
}

} // verus!
