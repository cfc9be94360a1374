use vstd::prelude::*;

verus! {

/// The content of one square of the board.
#[derive(PartialEq, Eq, Structural, Clone, Copy, Debug)]
pub enum Cell {
    Black,
    White,
    Free,
}

/// One of the two sides of the game; also the colour of its discs.
#[derive(PartialEq, Eq, Structural, Clone, Copy, Debug)]
pub enum PlayerTurn {
    Black,
    White,
}

impl Cell {
    /// The cell with its disc turned over: black becomes white and white
    /// becomes black; a free cell stays free.
    pub open spec fn flipped(self) -> Cell {
        match self {
            Cell::Black => Cell::White,
            Cell::White => Cell::Black,
            Cell::Free => Cell::Free,
        }
    }

    /// Turns the disc on this cell over.
    pub fn inverse(&mut self)
        ensures
            *final(self) == old(self).flipped(),
    {
        *self = match *self {
            Cell::Black => Cell::White,
            Cell::White => Cell::Black,
            Cell::Free => Cell::Free,
        };
    }
}

impl PlayerTurn {
    /// The disc this side places.
    pub open spec fn disc(self) -> Cell {
        match self {
            PlayerTurn::Black => Cell::Black,
            PlayerTurn::White => Cell::White,
        }
    }

    /// The other side.
    pub open spec fn other(self) -> PlayerTurn {
        match self {
            PlayerTurn::Black => PlayerTurn::White,
            PlayerTurn::White => PlayerTurn::Black,
        }
    }

    pub open spec fn spec_name(self) -> Seq<char> {
        match self {
            PlayerTurn::Black => "Black"@,
            PlayerTurn::White => "White"@,
        }
    }

    /// The side's name, as shown to players.
    pub fn name(&self) -> (r: &'static str)
        ensures
            r@ == self.spec_name(),
    {
        match self {
            PlayerTurn::Black => "Black",
            PlayerTurn::White => "White",
        }
    }

    /// The disc this side places.
    pub fn produce(&self) -> (r: Cell)
        ensures
            r == self.disc(),
    {
        match self {
            PlayerTurn::Black => Cell::Black,
            PlayerTurn::White => Cell::White,
        }
    }

    /// The side that moves after this one.
    pub fn opponent(&self) -> (r: PlayerTurn)
        ensures
            r == self.other(),
    {
        match self {
            PlayerTurn::Black => PlayerTurn::White,
            PlayerTurn::White => PlayerTurn::Black,
        }
    }

    /// Whether `cell` holds a disc of the other side.
    pub fn is_reverse_of(&self, cell: &Cell) -> (r: bool)
        ensures
            r == (*cell == self.other().disc()),
    {
        match self {
            PlayerTurn::Black => *cell == Cell::White,
            PlayerTurn::White => *cell == Cell::Black,
        }
    }
}

} // verus!
