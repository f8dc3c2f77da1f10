//! Travel directions of an instruction pointer, and the instructions that
//! change them.

use crate::coords::PointAxial;
use vstd::prelude::*;

verus! {

/// Subset of instructions that change the direction of the current IP.
#[derive(Clone, Copy, PartialEq, Eq, Debug, Structural)]
pub enum Redirect {
    MirrorHori,
    MirrorVert,
    MirrorForw,
    MirrorBack,
    BranchLeft,
    BranchRight,
}

/// Possible directions of travel for each IP.
#[derive(Clone, Copy, PartialEq, Eq, Debug, Structural)]
pub enum Direction {
    NorthEast,
    NorthWest,
    West,
    SouthWest,
    SouthEast,
    East,
}

/// The axial unit vector of one step in direction `dir`.
pub open spec fn unit_vector(dir: Direction) -> (int, int) {
    match dir {
        Direction::NorthEast => (1, -1),
        Direction::NorthWest => (0, -1),
        Direction::West => (-1, 0),
        Direction::SouthWest => (-1, 1),
        Direction::SouthEast => (0, 1),
        Direction::East => (1, 0),
    }
}

/// The direction an IP travelling in `dir` takes after hitting `redir`, where
/// `positive` says whether the current memory edge is greater than zero.
///
/// One arm per row of the redirection table; the two branch instructions
/// depend on `positive` only when met head-on.
pub open spec fn redirected(dir: Direction, redir: Redirect, positive: bool) -> Direction {
    match dir {
        Direction::NorthEast => match redir {
            Redirect::MirrorHori => Direction::SouthEast,
            Redirect::MirrorVert => Direction::NorthWest,
            Redirect::MirrorForw => Direction::NorthEast,
            Redirect::MirrorBack => Direction::West,
            Redirect::BranchLeft => Direction::SouthWest,
            Redirect::BranchRight => Direction::East,
        },
        Direction::NorthWest => match redir {
            Redirect::MirrorHori => Direction::SouthWest,
            Redirect::MirrorVert => Direction::NorthEast,
            Redirect::MirrorForw => Direction::East,
            Redirect::MirrorBack => Direction::NorthWest,
            Redirect::BranchLeft => Direction::West,
            Redirect::BranchRight => Direction::SouthEast,
        },
        Direction::West => match redir {
            Redirect::MirrorHori => Direction::West,
            Redirect::MirrorVert => Direction::East,
            Redirect::MirrorForw => Direction::SouthEast,
            Redirect::MirrorBack => Direction::NorthEast,
            Redirect::BranchLeft => Direction::East,
            Redirect::BranchRight => if positive {
                Direction::NorthWest
            } else {
                Direction::SouthWest
            },
        },
        Direction::SouthWest => match redir {
            Redirect::MirrorHori => Direction::NorthWest,
            Redirect::MirrorVert => Direction::SouthEast,
            Redirect::MirrorForw => Direction::SouthWest,
            Redirect::MirrorBack => Direction::East,
            Redirect::BranchLeft => Direction::West,
            Redirect::BranchRight => Direction::NorthEast,
        },
        Direction::SouthEast => match redir {
            Redirect::MirrorHori => Direction::NorthEast,
            Redirect::MirrorVert => Direction::SouthWest,
            Redirect::MirrorForw => Direction::West,
            Redirect::MirrorBack => Direction::SouthEast,
            Redirect::BranchLeft => Direction::NorthWest,
            Redirect::BranchRight => Direction::East,
        },
        Direction::East => match redir {
            Redirect::MirrorHori => Direction::East,
            Redirect::MirrorVert => Direction::West,
            Redirect::MirrorForw => Direction::NorthWest,
            Redirect::MirrorBack => Direction::SouthWest,
            Redirect::BranchLeft => if positive {
                Direction::SouthEast
            } else {
                Direction::NorthEast
            },
            Redirect::BranchRight => Direction::West,
        },
    }
}

/// Position of a direction on the compass, counted in sixths of a turn
/// counter-clockwise from East.
pub open spec fn bearing(dir: Direction) -> int {
    match dir {
        Direction::East => 0,
        Direction::NorthEast => 1,
        Direction::NorthWest => 2,
        Direction::West => 3,
        Direction::SouthWest => 4,
        Direction::SouthEast => 5,
    }
}

/// Twice the bearing of the line a mirror lies on.
pub open spec fn mirror_axis(redir: Redirect) -> int
    recommends
        is_mirror(redir),
{
    match redir {
        Redirect::MirrorHori => 0,
        Redirect::MirrorForw => 2,
        Redirect::MirrorVert => 3,
        _ => 4,
    }
}

/// Whether `redir` is one of the four plain mirrors.
pub open spec fn is_mirror(redir: Redirect) -> bool {
    redir != Redirect::BranchLeft && redir != Redirect::BranchRight
}

/// Short compass name of a direction.
pub open spec fn direction_name(dir: Direction) -> Seq<char> {
    match dir {
        Direction::NorthEast => "NE"@,
        Direction::NorthWest => "NW"@,
        Direction::West => "W"@,
        Direction::SouthWest => "SW"@,
        Direction::SouthEast => "SE"@,
        Direction::East => "E"@,
    }
}

impl Direction {
    /// Returns a `PointAxial` representing one grid space of movement
    /// in a given direction.
    pub fn to_vector(&self) -> (v: PointAxial)
        ensures
            v@ == unit_vector(*self),
    {
        match self {
            Direction::NorthEast => PointAxial(1, -1),
            Direction::NorthWest => PointAxial(0, -1),
            Direction::West => PointAxial(-1, 0),
            Direction::SouthWest => PointAxial(-1, 1),
            Direction::SouthEast => PointAxial(0, 1),
            Direction::East => PointAxial(1, 0),
        }
    }

    /// The compass name used in diagnostics: `NE`, `NW`, `W`, `SW`, `SE` or `E`.
    pub fn name(&self) -> (s: &'static str)
        ensures
            s@ == direction_name(*self),
    {
        match self {
            Direction::NorthEast => "NE",
            Direction::NorthWest => "NW",
            Direction::West => "W",
            Direction::SouthWest => "SW",
            Direction::SouthEast => "SE",
            Direction::East => "E",
        }
    }
}

/// Returns a reflected `Direction` based on which `Redirect` it hit
/// and whether the current memory edge is positive.
pub fn redirect(dir: Direction, redir: Redirect, positive: bool) -> (out: Direction)
    ensures
        out == redirected(dir, redir, positive),
{
    match (dir, redir) {
        (Direction::NorthEast, Redirect::MirrorHori) => Direction::SouthEast,
        (Direction::NorthEast, Redirect::MirrorVert) => Direction::NorthWest,
        (Direction::NorthEast, Redirect::MirrorForw) => Direction::NorthEast,
        (Direction::NorthEast, Redirect::MirrorBack) => Direction::West,
        (Direction::NorthEast, Redirect::BranchLeft) => Direction::SouthWest,
        (Direction::NorthEast, Redirect::BranchRight) => Direction::East,
        (Direction::NorthWest, Redirect::MirrorHori) => Direction::SouthWest,
        (Direction::NorthWest, Redirect::MirrorVert) => Direction::NorthEast,
        (Direction::NorthWest, Redirect::MirrorForw) => Direction::East,
        (Direction::NorthWest, Redirect::MirrorBack) => Direction::NorthWest,
        (Direction::NorthWest, Redirect::BranchLeft) => Direction::West,
        (Direction::NorthWest, Redirect::BranchRight) => Direction::SouthEast,
        (Direction::West, Redirect::MirrorHori) => Direction::West,
        (Direction::West, Redirect::MirrorVert) => Direction::East,
        (Direction::West, Redirect::MirrorForw) => Direction::SouthEast,
        (Direction::West, Redirect::MirrorBack) => Direction::NorthEast,
        (Direction::West, Redirect::BranchLeft) => Direction::East,
        (Direction::West, Redirect::BranchRight) => if positive {
            Direction::NorthWest
        } else {
            Direction::SouthWest
        },
        (Direction::SouthWest, Redirect::MirrorHori) => Direction::NorthWest,
        (Direction::SouthWest, Redirect::MirrorVert) => Direction::SouthEast,
        (Direction::SouthWest, Redirect::MirrorForw) => Direction::SouthWest,
        (Direction::SouthWest, Redirect::MirrorBack) => Direction::East,
        (Direction::SouthWest, Redirect::BranchLeft) => Direction::West,
        (Direction::SouthWest, Redirect::BranchRight) => Direction::NorthEast,
        (Direction::SouthEast, Redirect::MirrorHori) => Direction::NorthEast,
        (Direction::SouthEast, Redirect::MirrorVert) => Direction::SouthWest,
        (Direction::SouthEast, Redirect::MirrorForw) => Direction::West,
        (Direction::SouthEast, Redirect::MirrorBack) => Direction::SouthEast,
        (Direction::SouthEast, Redirect::BranchLeft) => Direction::NorthWest,
        (Direction::SouthEast, Redirect::BranchRight) => Direction::East,
        (Direction::East, Redirect::MirrorHori) => Direction::East,
        (Direction::East, Redirect::MirrorVert) => Direction::West,
        (Direction::East, Redirect::MirrorForw) => Direction::NorthWest,
        (Direction::East, Redirect::MirrorBack) => Direction::SouthWest,
        (Direction::East, Redirect::BranchLeft) => if positive {
            Direction::SouthEast
        } else {
            Direction::NorthEast
        },
        (Direction::East, Redirect::BranchRight) => Direction::West,
    }
}

/// A mirror reflects the bearing of travel about the line it lies on, whatever
/// the memory edge holds.
pub proof fn lemma_mirror_reflects(dir: Direction, redir: Redirect, positive: bool)
    requires
        is_mirror(redir),
    ensures
        bearing(redirected(dir, redir, positive)) == (mirror_axis(redir) - bearing(dir)) % 6,
{
}

/// Hitting the same mirror twice in a row restores the direction of travel.
pub proof fn lemma_mirror_involution(dir: Direction, redir: Redirect, p1: bool, p2: bool)
    requires
        is_mirror(redir),
    ensures
        redirected(redirected(dir, redir, p1), redir, p2) == dir,
{
}

/// A branch sends the IP the same way whatever the memory edge holds, unless
/// the IP meets it head-on: heading east into a left branch, or heading west
/// into a right branch.
pub proof fn lemma_branch_ignores_sign_unless_head_on(dir: Direction, redir: Redirect)
    requires
        !is_mirror(redir),
        !(redir == Redirect::BranchLeft && dir == Direction::East),
        !(redir == Redirect::BranchRight && dir == Direction::West),
    ensures
        redirected(dir, redir, true) == redirected(dir, redir, false),
{
}

} // verus!
