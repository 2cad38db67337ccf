//! The 64 named squares, as met at the input boundary.
use vstd::prelude::*;
use vstd::string::*;
use crate::board::Coord;

verus! {

/// A square by name; `A1` is White's queen-side corner, `H8` Black's
/// king-side corner. Variants are ordered file by file.
#[derive(Clone, Copy, PartialEq, Eq, Structural, Hash, Debug)]
pub enum Square {
    A1,
    A2,
    A3,
    A4,
    A5,
    A6,
    A7,
    A8,
    B1,
    B2,
    B3,
    B4,
    B5,
    B6,
    B7,
    B8,
    C1,
    C2,
    C3,
    C4,
    C5,
    C6,
    C7,
    C8,
    D1,
    D2,
    D3,
    D4,
    D5,
    D6,
    D7,
    D8,
    E1,
    E2,
    E3,
    E4,
    E5,
    E6,
    E7,
    E8,
    F1,
    F2,
    F3,
    F4,
    F5,
    F6,
    F7,
    F8,
    G1,
    G2,
    G3,
    G4,
    G5,
    G6,
    G7,
    G8,
    H1,
    H2,
    H3,
    H4,
    H5,
    H6,
    H7,
    H8,
}

/// A name that is no square.
#[derive(Clone, Copy, PartialEq, Eq, Structural, Debug)]
pub struct ParseSquareError;

/// The file a letter names (either case), or -1.
pub open spec fn file_of_char(c: char) -> int {
    match c {
        'a' | 'A' => 0,
        'b' | 'B' => 1,
        'c' | 'C' => 2,
        'd' | 'D' => 3,
        'e' | 'E' => 4,
        'f' | 'F' => 5,
        'g' | 'G' => 6,
        'h' | 'H' => 7,
        _ => -1,
    }
}

/// The rank a digit names, or -1.
pub open spec fn rank_of_char(c: char) -> int {
    match c {
        '1' => 0,
        '2' => 1,
        '3' => 2,
        '4' => 3,
        '5' => 4,
        '6' => 5,
        '7' => 6,
        '8' => 7,
        _ => -1,
    }
}

/// The index (file * 8 + rank) of the square a name denotes, if any.
pub open spec fn parse_name(s: Seq<char>) -> Option<int> {
    if s.len() == 2 && file_of_char(s[0]) >= 0 && rank_of_char(s[1]) >= 0 {
        Some(file_of_char(s[0]) * 8 + rank_of_char(s[1]))
    } else {
        None
    }
}

fn file_of_char_exec(c: char) -> (r: i64)
    ensures
        r == file_of_char(c),
{
    match c {
        'a' | 'A' => 0,
        'b' | 'B' => 1,
        'c' | 'C' => 2,
        'd' | 'D' => 3,
        'e' | 'E' => 4,
        'f' | 'F' => 5,
        'g' | 'G' => 6,
        'h' | 'H' => 7,
        _ => -1,
    }
}

fn rank_of_char_exec(c: char) -> (r: i64)
    ensures
        r == rank_of_char(c),
{
    match c {
        '1' => 0,
        '2' => 1,
        '3' => 2,
        '4' => 3,
        '5' => 4,
        '6' => 5,
        '7' => 6,
        '8' => 7,
        _ => -1,
    }
}

impl Square {
    /// Position in declaration order: file * 8 + rank.
    pub open spec fn spec_index(self) -> int {
        match self {
            Square::A1 => 0,
            Square::A2 => 1,
            Square::A3 => 2,
            Square::A4 => 3,
            Square::A5 => 4,
            Square::A6 => 5,
            Square::A7 => 6,
            Square::A8 => 7,
            Square::B1 => 8,
            Square::B2 => 9,
            Square::B3 => 10,
            Square::B4 => 11,
            Square::B5 => 12,
            Square::B6 => 13,
            Square::B7 => 14,
            Square::B8 => 15,
            Square::C1 => 16,
            Square::C2 => 17,
            Square::C3 => 18,
            Square::C4 => 19,
            Square::C5 => 20,
            Square::C6 => 21,
            Square::C7 => 22,
            Square::C8 => 23,
            Square::D1 => 24,
            Square::D2 => 25,
            Square::D3 => 26,
            Square::D4 => 27,
            Square::D5 => 28,
            Square::D6 => 29,
            Square::D7 => 30,
            Square::D8 => 31,
            Square::E1 => 32,
            Square::E2 => 33,
            Square::E3 => 34,
            Square::E4 => 35,
            Square::E5 => 36,
            Square::E6 => 37,
            Square::E7 => 38,
            Square::E8 => 39,
            Square::F1 => 40,
            Square::F2 => 41,
            Square::F3 => 42,
            Square::F4 => 43,
            Square::F5 => 44,
            Square::F6 => 45,
            Square::F7 => 46,
            Square::F8 => 47,
            Square::G1 => 48,
            Square::G2 => 49,
            Square::G3 => 50,
            Square::G4 => 51,
            Square::G5 => 52,
            Square::G6 => 53,
            Square::G7 => 54,
            Square::G8 => 55,
            Square::H1 => 56,
            Square::H2 => 57,
            Square::H3 => 58,
            Square::H4 => 59,
            Square::H5 => 60,
            Square::H6 => 61,
            Square::H7 => 62,
            Square::H8 => 63,
        }
    }

    /// The board coordinate of the square.
    pub open spec fn spec_coord(self) -> Coord {
        Coord { rank: (self.spec_index() % 8) as i64, file: (self.spec_index() / 8) as i64 }
    }

    pub fn index(self) -> (r: usize)
        ensures
            r == self.spec_index(),
            r < 64,
    {
        match self {
            Square::A1 => 0,
            Square::A2 => 1,
            Square::A3 => 2,
            Square::A4 => 3,
            Square::A5 => 4,
            Square::A6 => 5,
            Square::A7 => 6,
            Square::A8 => 7,
            Square::B1 => 8,
            Square::B2 => 9,
            Square::B3 => 10,
            Square::B4 => 11,
            Square::B5 => 12,
            Square::B6 => 13,
            Square::B7 => 14,
            Square::B8 => 15,
            Square::C1 => 16,
            Square::C2 => 17,
            Square::C3 => 18,
            Square::C4 => 19,
            Square::C5 => 20,
            Square::C6 => 21,
            Square::C7 => 22,
            Square::C8 => 23,
            Square::D1 => 24,
            Square::D2 => 25,
            Square::D3 => 26,
            Square::D4 => 27,
            Square::D5 => 28,
            Square::D6 => 29,
            Square::D7 => 30,
            Square::D8 => 31,
            Square::E1 => 32,
            Square::E2 => 33,
            Square::E3 => 34,
            Square::E4 => 35,
            Square::E5 => 36,
            Square::E6 => 37,
            Square::E7 => 38,
            Square::E8 => 39,
            Square::F1 => 40,
            Square::F2 => 41,
            Square::F3 => 42,
            Square::F4 => 43,
            Square::F5 => 44,
            Square::F6 => 45,
            Square::F7 => 46,
            Square::F8 => 47,
            Square::G1 => 48,
            Square::G2 => 49,
            Square::G3 => 50,
            Square::G4 => 51,
            Square::G5 => 52,
            Square::G6 => 53,
            Square::G7 => 54,
            Square::G8 => 55,
            Square::H1 => 56,
            Square::H2 => 57,
            Square::H3 => 58,
            Square::H4 => 59,
            Square::H5 => 60,
            Square::H6 => 61,
            Square::H7 => 62,
            Square::H8 => 63,
        }
    }

    pub fn from_index(i: usize) -> (r: Square)
        requires
            i < 64,
        ensures
            r.spec_index() == i,
    {
        match i {
            0 => Square::A1,
            1 => Square::A2,
            2 => Square::A3,
            3 => Square::A4,
            4 => Square::A5,
            5 => Square::A6,
            6 => Square::A7,
            7 => Square::A8,
            8 => Square::B1,
            9 => Square::B2,
            10 => Square::B3,
            11 => Square::B4,
            12 => Square::B5,
            13 => Square::B6,
            14 => Square::B7,
            15 => Square::B8,
            16 => Square::C1,
            17 => Square::C2,
            18 => Square::C3,
            19 => Square::C4,
            20 => Square::C5,
            21 => Square::C6,
            22 => Square::C7,
            23 => Square::C8,
            24 => Square::D1,
            25 => Square::D2,
            26 => Square::D3,
            27 => Square::D4,
            28 => Square::D5,
            29 => Square::D6,
            30 => Square::D7,
            31 => Square::D8,
            32 => Square::E1,
            33 => Square::E2,
            34 => Square::E3,
            35 => Square::E4,
            36 => Square::E5,
            37 => Square::E6,
            38 => Square::E7,
            39 => Square::E8,
            40 => Square::F1,
            41 => Square::F2,
            42 => Square::F3,
            43 => Square::F4,
            44 => Square::F5,
            45 => Square::F6,
            46 => Square::F7,
            47 => Square::F8,
            48 => Square::G1,
            49 => Square::G2,
            50 => Square::G3,
            51 => Square::G4,
            52 => Square::G5,
            53 => Square::G6,
            54 => Square::G7,
            55 => Square::G8,
            56 => Square::H1,
            57 => Square::H2,
            58 => Square::H3,
            59 => Square::H4,
            60 => Square::H5,
            61 => Square::H6,
            62 => Square::H7,
            _ => Square::H8,
        }
    }

    /// The (rank, file) pair of the square, each from 0 to 7.
    pub fn to_row_col(self) -> (r: (usize, usize))
        ensures
            r.0 == self.spec_index() % 8,
            r.1 == self.spec_index() / 8,
            r.0 < 8,
            r.1 < 8,
    {
        let index = self.index();
        let row = index % 8;
        let col = index / 8;
        (row, col)
    }

    /// The board coordinate of the square.
    pub fn coord(self) -> (c: Coord)
        ensures
            c.valid(),
            c == self.spec_coord(),
    {
        let (row, col) = self.to_row_col();
        Coord { rank: row as i64, file: col as i64 }
    }

    /// The square a two-character name such as `e4` or `E4` denotes.
    pub fn from_name(s: &str) -> (r: Option<Square>)
        ensures
            match r {
                Some(q) => parse_name(s@) == Some(q.spec_index()),
                None => parse_name(s@) is None,
            },
    {
        if s.unicode_len() != 2 {
            return None;
        }
        let f = file_of_char_exec(s.get_char(0));
        let r = rank_of_char_exec(s.get_char(1));
        if f < 0 || r < 0 {
            return None;
        }
        Some(Square::from_index((f * 8 + r) as usize))
    }
}

impl std::str::FromStr for Square {
    type Err = ParseSquareError;

    fn from_str(s: &str) -> (r: Result<Square, ParseSquareError>)
        ensures
            match r {
                Ok(q) => parse_name(s@) == Some(q.spec_index()),
                Err(_) => parse_name(s@) is None,
            },
    {
        match Square::from_name(s) {
            Some(q) => Ok(q),
            None => Err(ParseSquareError),
        }
    }
}

} // verus!
