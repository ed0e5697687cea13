//! The building: its rooms, the fixed table of which room leads where, and the
//! floor grid used for distance queries.

use vstd::prelude::*;

verus! {

/// A room of the building.
#[derive(PartialEq, Eq, Structural, Clone, Copy, Debug, Hash)]
pub enum Locations {
    ShowStage,
    DiningAreaL,
    DiningAreaR,
    DiningAreaC,
    Restrooms,
    Kitchen,
    Arcade,
    SecurityOfficeStaticR,
    SecurityOfficeStaticL,
    SecurityOfficeAttack,
    HallwayL,
    HallwayR,
}

/// Number of rows of the floor grid.
pub const GRID_ROWS: u8 = 5;

/// Number of columns of the floor grid.
pub const GRID_COLS: u8 = 9;

impl Locations {
    /// The rooms that can be entered from `self`, in table order. The table is
    /// directional: a room listed here need not list `self` in return.
    pub open spec fn neighbors(self) -> Seq<Locations> {
        match self {
            Locations::HallwayL => seq![Locations::Restrooms, Locations::SecurityOfficeStaticL],
            Locations::HallwayR => seq![Locations::Kitchen, Locations::SecurityOfficeStaticR],
            Locations::ShowStage => seq![Locations::DiningAreaC],
            Locations::DiningAreaL => seq![Locations::Arcade, Locations::DiningAreaC],
            Locations::DiningAreaC => seq![
                Locations::DiningAreaL,
                Locations::DiningAreaR,
                Locations::ShowStage,
                Locations::Restrooms,
            ],
            Locations::DiningAreaR => seq![Locations::DiningAreaC, Locations::Kitchen],
            Locations::Restrooms => seq![
                Locations::DiningAreaC,
                Locations::HallwayL,
                Locations::Arcade,
            ],
            Locations::Kitchen => seq![Locations::DiningAreaR, Locations::HallwayR],
            Locations::Arcade => seq![
                Locations::Restrooms,
                Locations::DiningAreaL,
                Locations::HallwayL,
            ],
            Locations::SecurityOfficeStaticR => seq![Locations::SecurityOfficeAttack],
            Locations::SecurityOfficeStaticL => seq![Locations::SecurityOfficeAttack],
            Locations::SecurityOfficeAttack => seq![Locations::SecurityOfficeAttack],
        }
    }

    /// Whether `self` is one of the two office positions that sit behind a door.
    pub open spec fn is_static_office(self) -> bool {
        self == Locations::SecurityOfficeStaticL || self == Locations::SecurityOfficeStaticR
    }

    /// The rooms reachable from `self` in one step, in table order.
    pub fn adjacent(self) -> (ret: Vec<Locations>)
        ensures
            ret@ == self.neighbors(),
    {
        let mut ret: Vec<Locations> = Vec::new();
        match self {
            Locations::HallwayL => {
                ret.push(Locations::Restrooms);
                ret.push(Locations::SecurityOfficeStaticL);
            },
            Locations::HallwayR => {
                ret.push(Locations::Kitchen);
                ret.push(Locations::SecurityOfficeStaticR);
            },
            Locations::ShowStage => {
                ret.push(Locations::DiningAreaC);
            },
            Locations::DiningAreaL => {
                ret.push(Locations::Arcade);
                ret.push(Locations::DiningAreaC);
            },
            Locations::DiningAreaC => {
                ret.push(Locations::DiningAreaL);
                ret.push(Locations::DiningAreaR);
                ret.push(Locations::ShowStage);
                ret.push(Locations::Restrooms);
            },
            Locations::DiningAreaR => {
                ret.push(Locations::DiningAreaC);
                ret.push(Locations::Kitchen);
            },
            Locations::Restrooms => {
                ret.push(Locations::DiningAreaC);
                ret.push(Locations::HallwayL);
                ret.push(Locations::Arcade);
            },
            Locations::Kitchen => {
                ret.push(Locations::DiningAreaR);
                ret.push(Locations::HallwayR);
            },
            Locations::Arcade => {
                ret.push(Locations::Restrooms);
                ret.push(Locations::DiningAreaL);
                ret.push(Locations::HallwayL);
            },
            Locations::SecurityOfficeStaticR => {
                ret.push(Locations::SecurityOfficeAttack);
            },
            Locations::SecurityOfficeStaticL => {
                ret.push(Locations::SecurityOfficeAttack);
            },
            Locations::SecurityOfficeAttack => {
                ret.push(self);
            },
        }
        assert(ret@ =~= self.neighbors());
        ret
    }
}

/// The room drawn at a cell of the floor grid, if any. Rows run from the show
/// stage (row 0) down to the office (row 4); cells outside the grid are empty.
pub open spec fn grid_room(row: int, col: int) -> Option<Locations> {
    if row == 0 {
        if 3 <= col <= 5 {
            Some(Locations::ShowStage)
        } else {
            None
        }
    } else if row == 1 {
        if col == 2 {
            Some(Locations::Arcade)
        } else if col == 3 {
            Some(Locations::DiningAreaL)
        } else if col == 4 {
            Some(Locations::DiningAreaC)
        } else if col == 5 {
            Some(Locations::DiningAreaR)
        } else if col == 6 {
            Some(Locations::Kitchen)
        } else {
            None
        }
    } else if row == 2 {
        if 2 <= col <= 5 {
            Some(Locations::Restrooms)
        } else if col == 6 {
            Some(Locations::HallwayR)
        } else {
            None
        }
    } else if row == 3 {
        if col == 2 {
            Some(Locations::HallwayL)
        } else if col == 6 {
            Some(Locations::HallwayR)
        } else {
            None
        }
    } else if row == 4 {
        if col == 2 {
            Some(Locations::HallwayL)
        } else if col == 3 {
            Some(Locations::SecurityOfficeStaticR)
        } else if col == 4 {
            Some(Locations::SecurityOfficeAttack)
        } else if col == 5 {
            Some(Locations::SecurityOfficeStaticR)
        } else if col == 6 {
            Some(Locations::HallwayR)
        } else {
            None
        }
    } else {
        None
    }
}

/// Whether `(row, col)` comes strictly before `(row0, col0)` when the grid is
/// read row by row, left to right.
pub open spec fn cell_before(row: int, col: int, row0: int, col0: int) -> bool {
    row < row0 || (row == row0 && col < col0)
}

/// Whether `room` is drawn anywhere on the floor grid.
pub open spec fn on_grid(room: Locations) -> bool {
    exists|row: int, col: int|
        0 <= row < GRID_ROWS && 0 <= col < GRID_COLS && #[trigger] grid_room(row, col) == Some(
            room,
        )
}

/// The room drawn at a cell of the floor grid, if any.
pub fn grid_cell(row: u8, col: u8) -> (cell: Option<Locations>)
    ensures
        cell == grid_room(row as int, col as int),
{
    if row == 0 {
        if 3 <= col && col <= 5 {
            Some(Locations::ShowStage)
        } else {
            None
        }
    } else if row == 1 {
        if col == 2 {
            Some(Locations::Arcade)
        } else if col == 3 {
            Some(Locations::DiningAreaL)
        } else if col == 4 {
            Some(Locations::DiningAreaC)
        } else if col == 5 {
            Some(Locations::DiningAreaR)
        } else if col == 6 {
            Some(Locations::Kitchen)
        } else {
            None
        }
    } else if row == 2 {
        if 2 <= col && col <= 5 {
            Some(Locations::Restrooms)
        } else if col == 6 {
            Some(Locations::HallwayR)
        } else {
            None
        }
    } else if row == 3 {
        if col == 2 {
            Some(Locations::HallwayL)
        } else if col == 6 {
            Some(Locations::HallwayR)
        } else {
            None
        }
    } else if row == 4 {
        if col == 2 {
            Some(Locations::HallwayL)
        } else if col == 3 {
            Some(Locations::SecurityOfficeStaticR)
        } else if col == 4 {
            Some(Locations::SecurityOfficeAttack)
        } else if col == 5 {
            Some(Locations::SecurityOfficeStaticR)
        } else if col == 6 {
            Some(Locations::HallwayR)
        } else {
            None
        }
    } else {
        None
    }
}

impl Locations {
    /// The grid cell `(row, col)` that stands for `self` in distance queries:
    /// the first cell, reading row by row, in which the room is drawn, and the
    /// top-left corner for a room that the grid does not draw.
    pub open spec fn coordinates(self) -> (int, int) {
        match self {
            Locations::ShowStage => (0, 3),
            Locations::Arcade => (1, 2),
            Locations::DiningAreaL => (1, 3),
            Locations::DiningAreaC => (1, 4),
            Locations::DiningAreaR => (1, 5),
            Locations::Kitchen => (1, 6),
            Locations::Restrooms => (2, 2),
            Locations::HallwayR => (2, 6),
            Locations::HallwayL => (3, 2),
            Locations::SecurityOfficeStaticR => (4, 3),
            Locations::SecurityOfficeAttack => (4, 4),
            Locations::SecurityOfficeStaticL => (0, 0),
        }
    }
}

/// `room.coordinates()` is the first cell of the grid, read row by row, that
/// draws `room`; for a room that no cell draws it is `(0, 0)`.
pub proof fn lemma_coordinates_first_cell(room: Locations)
    ensures
        0 <= room.coordinates().0 < GRID_ROWS,
        0 <= room.coordinates().1 < GRID_COLS,
        on_grid(room) ==> grid_room(room.coordinates().0, room.coordinates().1) == Some(room),
        !on_grid(room) ==> room.coordinates() == (0int, 0int),
        forall|row: int, col: int|
            0 <= row < GRID_ROWS && 0 <= col < GRID_COLS && cell_before(
                row,
                col,
                room.coordinates().0,
                room.coordinates().1,
            ) ==> #[trigger] grid_room(row, col) != Some(room),
{
    let c = room.coordinates();
    if room != Locations::SecurityOfficeStaticL {
        assert(grid_room(c.0, c.1) == Some(room));
    }
}

/// Every room leads somewhere: its neighbor list is never empty.
pub proof fn lemma_neighbors_nonempty(room: Locations)
    ensures
        room.neighbors().len() > 0,
{
}

/// The attack position is a dead end: its only neighbor is itself.
pub proof fn lemma_attack_is_self_loop()
    ensures
        Locations::SecurityOfficeAttack.neighbors() == seq![Locations::SecurityOfficeAttack],
{
}

/// The attack position can be entered only from the two door-side office
/// positions, or from itself.
pub proof fn lemma_attack_entered_from_office(room: Locations)
    ensures
        room.neighbors().contains(Locations::SecurityOfficeAttack) <==> (room.is_static_office()
            || room == Locations::SecurityOfficeAttack),
{
    let n = room.neighbors();
    if room.is_static_office() || room == Locations::SecurityOfficeAttack {
        assert(n[0] == Locations::SecurityOfficeAttack);
    }
}

} // verus!
