//! The memory of a Hexagony program: an unbounded hexagonal lattice with an
//! integer on every edge, and a pointer that sits on one edge and faces one
//! of its two ends.

use crate::bigint::{big_clone, big_zero, int_of};
use rug::Integer;
use std::collections::HashMap;
use vstd::prelude::*;
use vstd::std_specs::iter::IteratorSpec;

verus! {

/// One of three edges of the hex used for indexing.
#[derive(Clone, Copy, PartialEq, Eq, Hash, Debug, Structural)]
pub enum Dir {
    NE,
    E,
    SE,
}

/// Orientation of a memory pointer relative to its hex.
#[derive(Clone, Copy, PartialEq, Eq, Debug, Structural)]
pub enum Rot {
    CW,
    CCW,
}

/// Index of a memory edge: the axial coordinates of the hexagon to its west,
/// and which of that hexagon's three eastern edges it is.
pub struct EdgeIndex {
    pub q: int,
    pub r: int,
    pub e: Dir,
}

/// Mathematical model of the memory: the edges written so far, the edge the
/// pointer is on, and its orientation.  An edge that was never written holds
/// zero.
#[verifier::ext_equal]
pub struct MemoryModel {
    pub cells: Map<EdgeIndex, int>,
    pub mp: EdgeIndex,
    pub rot: Rot,
}

/// The other orientation.
pub open spec fn flipped(rot: Rot) -> Rot {
    match rot {
        Rot::CW => Rot::CCW,
        Rot::CCW => Rot::CW,
    }
}

/// The edge to the left of a pointer on `mp` with orientation `rot`, and the
/// orientation the pointer has once it is there.
pub open spec fn left_of(mp: EdgeIndex, rot: Rot) -> (EdgeIndex, Rot) {
    let (q, r) = (mp.q, mp.r);
    match (mp.e, rot) {
        (Dir::NE, Rot::CCW) => (EdgeIndex { q: q, r: r - 1, e: Dir::SE }, Rot::CW),
        (Dir::NE, Rot::CW) => (EdgeIndex { q: q + 1, r: r - 1, e: Dir::SE }, Rot::CCW),
        (Dir::E, Rot::CCW) => (EdgeIndex { q: q, r: r, e: Dir::NE }, Rot::CCW),
        (Dir::E, Rot::CW) => (EdgeIndex { q: q, r: r + 1, e: Dir::NE }, Rot::CW),
        (Dir::SE, Rot::CCW) => (EdgeIndex { q: q, r: r, e: Dir::E }, Rot::CCW),
        (Dir::SE, Rot::CW) => (EdgeIndex { q: q - 1, r: r + 1, e: Dir::E }, Rot::CW),
    }
}

/// The edge to the right of a pointer on `mp` with orientation `rot`, and the
/// orientation the pointer has once it is there.
pub open spec fn right_of(mp: EdgeIndex, rot: Rot) -> (EdgeIndex, Rot) {
    let (q, r) = (mp.q, mp.r);
    match (mp.e, rot) {
        (Dir::NE, Rot::CCW) => (EdgeIndex { q: q, r: r - 1, e: Dir::E }, Rot::CCW),
        (Dir::NE, Rot::CW) => (EdgeIndex { q: q, r: r, e: Dir::E }, Rot::CW),
        (Dir::E, Rot::CCW) => (EdgeIndex { q: q + 1, r: r - 1, e: Dir::SE }, Rot::CCW),
        (Dir::E, Rot::CW) => (EdgeIndex { q: q, r: r, e: Dir::SE }, Rot::CW),
        (Dir::SE, Rot::CCW) => (EdgeIndex { q: q, r: r + 1, e: Dir::NE }, Rot::CW),
        (Dir::SE, Rot::CW) => (EdgeIndex { q: q - 1, r: r + 1, e: Dir::NE }, Rot::CCW),
    }
}

impl MemoryModel {
    /// The memory of a program that has not run yet.
    pub open spec fn initial() -> MemoryModel {
        MemoryModel {
            cells: Map::empty(),
            mp: EdgeIndex { q: 0, r: 0, e: Dir::E },
            rot: Rot::CCW,
        }
    }

    /// The integer on edge `i`.
    pub open spec fn value(self, i: EdgeIndex) -> int {
        if self.cells.contains_key(i) {
            self.cells[i]
        } else {
            0
        }
    }

    /// The integer on the edge under the pointer.
    pub open spec fn current(self) -> int {
        self.value(self.mp)
    }

    /// The integer on the left neighbour of the edge under the pointer.
    pub open spec fn left_value(self) -> int {
        self.value(left_of(self.mp, self.rot).0)
    }

    /// The integer on the right neighbour of the edge under the pointer.
    pub open spec fn right_value(self) -> int {
        self.value(right_of(self.mp, self.rot).0)
    }

    /// The memory after `v` is written to the edge under the pointer.
    pub open spec fn set(self, v: int) -> MemoryModel {
        MemoryModel { cells: self.cells.insert(self.mp, v), ..self }
    }

    /// The memory after the pointer moves to its left neighbour.
    pub open spec fn move_left(self) -> MemoryModel {
        let (mp, rot) = left_of(self.mp, self.rot);
        MemoryModel { mp, rot, ..self }
    }

    /// The memory after the pointer moves to its right neighbour.
    pub open spec fn move_right(self) -> MemoryModel {
        let (mp, rot) = right_of(self.mp, self.rot);
        MemoryModel { mp, rot, ..self }
    }

    /// The memory after the pointer turns round on its edge.
    pub open spec fn reverse(self) -> MemoryModel {
        MemoryModel { rot: flipped(self.rot), ..self }
    }

    /// The memory after the pointer moves backwards to the left: it turns
    /// round, moves right and turns round again.
    pub open spec fn back_left(self) -> MemoryModel {
        self.reverse().move_right().reverse()
    }

    /// The memory after the pointer moves backwards to the right: it turns
    /// round, moves left and turns round again.
    pub open spec fn back_right(self) -> MemoryModel {
        self.reverse().move_left().reverse()
    }

    /// The memory after a branch: right if the current edge is positive,
    /// left otherwise.
    pub open spec fn branch(self) -> MemoryModel {
        if self.current() > 0 {
            self.move_right()
        } else {
            self.move_left()
        }
    }

    /// The memory after a copy: the current edge takes the value of its right
    /// neighbour if it is positive, of its left neighbour otherwise.
    pub open spec fn copy(self) -> MemoryModel {
        if self.current() > 0 {
            self.set(self.right_value())
        } else {
            self.set(self.left_value())
        }
    }

    /// How far the pointer is from the origin: the larger magnitude of its
    /// two coordinates.
    pub open spec fn reach(self) -> int {
        let q = if self.mp.q < 0 { -self.mp.q } else { self.mp.q };
        let r = if self.mp.r < 0 { -self.mp.r } else { self.mp.r };
        if q >= r {
            q
        } else {
            r
        }
    }
}

/// Largest distance from the origin, per coordinate, that the pointer of a
/// [`Memory`] can be moved to.
pub const RADIUS: i64 = 0x1000_0000_0000_0000;

const OFFSET: i64 = 0x2000_0000_0000_0000;

const SPAN: u128 = 0x4000_0000_0000_0000;

const KEYS: u128 = 0x4000_0000_0000_0000_0000_0000_0000_0000;

// Edges are stored under keys that pack the two coordinates and the
// direction of an edge into one integer.

/// Number that stands for an edge direction inside a key.
spec fn dir_code(e: Dir) -> int {
    match e {
        Dir::NE => 0,
        Dir::E => 1,
        Dir::SE => 2,
    }
}

/// Whether the coordinates of `i` are close enough to the origin for the
/// edge to have a key.
spec fn has_key(i: EdgeIndex) -> bool {
    -OFFSET <= i.q < OFFSET && -OFFSET <= i.r < OFFSET
}

/// The key under which the hash map stores edge `i`.
spec fn key_of(i: EdgeIndex) -> u128 {
    ((((i.q + OFFSET) * SPAN + (i.r + OFFSET)) * 4) + dir_code(i.e)) as u128
}

/// Whether `k` is the key of an edge.
spec fn is_key(k: u128) -> bool {
    k < KEYS && k % 4 < 3
}

/// The edge that key `k` stands for.
spec fn edge_of(k: u128) -> EdgeIndex {
    EdgeIndex {
        q: (k / 4) / SPAN - OFFSET,
        r: (k / 4) % SPAN - OFFSET,
        e: if k % 4 == 0 {
            Dir::NE
        } else if k % 4 == 1 {
            Dir::E
        } else {
            Dir::SE
        },
    }
}

proof fn lemma_key_of_edge(i: EdgeIndex)
    requires
        has_key(i),
    ensures
        is_key(key_of(i)),
        edge_of(key_of(i)) == i,
{
}

proof fn lemma_edge_of_key(k: u128)
    requires
        is_key(k),
    ensures
        has_key(edge_of(k)),
        key_of(edge_of(k)) == k,
{
}

proof fn lemma_key_injective(a: EdgeIndex, b: EdgeIndex)
    requires
        has_key(a),
        has_key(b),
        key_of(a) == key_of(b),
    ensures
        a == b,
{
}

/// The edge index that the coordinates and direction `at` stand for.
pub open spec fn edge_at(at: (i64, i64, Dir)) -> EdgeIndex {
    EdgeIndex { q: at.0 as int, r: at.1 as int, e: at.2 }
}

/// A pointy-topped hexagonal grid that stores an integer in each edge.
///
/// Edges are indexed by the axial coordinates of the westward adjacent hexagon,
/// and a direction (NE, E, SE) to identify a specific edge of the hexagon.
pub struct Memory {
    mem: HashMap<u128, Integer>,
    mp: (i64, i64, Dir),
    rot: Rot,
    default: Integer,
}

impl View for Memory {
    type V = MemoryModel;

    closed spec fn view(&self) -> MemoryModel {
        MemoryModel {
            cells: Map::new(
                |i: EdgeIndex| has_key(i) && self.mem@.contains_key(key_of(i)),
                |i: EdgeIndex| int_of(self.mem@[key_of(i)]),
            ),
            mp: EdgeIndex { q: self.mp.0 as int, r: self.mp.1 as int, e: self.mp.2 },
            rot: self.rot,
        }
    }
}

impl Memory {
    /// Whether the representation is sound: the pointer is within
    /// [`RADIUS`] of the origin, the stored default is zero and every key of
    /// the hash map stands for an edge.
    pub closed spec fn wf(&self) -> bool {
        &&& -RADIUS <= self.mp.0 <= RADIUS
        &&& -RADIUS <= self.mp.1 <= RADIUS
        &&& int_of(self.default) == 0
        &&& forall|k: u128| self.mem@.contains_key(k) ==> is_key(k)
    }

    /// A well-formed memory has its pointer within [`RADIUS`] of the origin.
    pub proof fn lemma_reach_bounded(&self)
        requires
            self.wf(),
        ensures
            self@.reach() <= RADIUS,
    {
    }

    /// Creates an empty `Memory` instance.
    pub fn new() -> (m: Memory)
        ensures
            m.wf(),
            m@ == MemoryModel::initial(),
    {
        let m = Memory {
            mem: HashMap::new(),
            mp: (0, 0, Dir::E),
            rot: Rot::CCW,
            default: big_zero(),
        };
        assert(m@.cells =~= Map::<EdgeIndex, int>::empty());
        m
    }

    fn key(q: i64, r: i64, e: Dir) -> (k: u128)
        requires
            -OFFSET <= q < OFFSET,
            -OFFSET <= r < OFFSET,
        ensures
            k == key_of(EdgeIndex { q: q as int, r: r as int, e }),
    {
        let uq = (q + OFFSET) as u128;
        let ur = (r + OFFSET) as u128;
        let code: u128 = match e {
            Dir::NE => 0,
            Dir::E => 1,
            Dir::SE => 2,
        };
        (uq * SPAN + ur) * 4 + code
    }

    /// Returns the index of the left neighbour edge.
    fn left_index(&self) -> (out: ((i64, i64, Dir), Rot))
        requires
            self.wf(),
        ensures
            (EdgeIndex { q: out.0.0 as int, r: out.0.1 as int, e: out.0.2 }, out.1) == left_of(
                self@.mp,
                self@.rot,
            ),
            -RADIUS - 1 <= out.0.0 <= RADIUS + 1,
            -RADIUS - 1 <= out.0.1 <= RADIUS + 1,
    {
        let (q, r, e) = self.mp;
        match (e, self.rot) {
            (Dir::NE, Rot::CCW) => ((q, r - 1, Dir::SE), Rot::CW),
            (Dir::NE, Rot::CW) => ((q + 1, r - 1, Dir::SE), Rot::CCW),
            (Dir::E, Rot::CCW) => ((q, r, Dir::NE), Rot::CCW),
            (Dir::E, Rot::CW) => ((q, r + 1, Dir::NE), Rot::CW),
            (Dir::SE, Rot::CCW) => ((q, r, Dir::E), Rot::CCW),
            (Dir::SE, Rot::CW) => ((q - 1, r + 1, Dir::E), Rot::CW),
        }
    }

    /// Returns the index of the right neighbour edge.
    fn right_index(&self) -> (out: ((i64, i64, Dir), Rot))
        requires
            self.wf(),
        ensures
            (EdgeIndex { q: out.0.0 as int, r: out.0.1 as int, e: out.0.2 }, out.1) == right_of(
                self@.mp,
                self@.rot,
            ),
            -RADIUS - 1 <= out.0.0 <= RADIUS + 1,
            -RADIUS - 1 <= out.0.1 <= RADIUS + 1,
    {
        let (q, r, e) = self.mp;
        match (e, self.rot) {
            (Dir::NE, Rot::CCW) => ((q, r - 1, Dir::E), Rot::CCW),
            (Dir::NE, Rot::CW) => ((q, r, Dir::E), Rot::CW),
            (Dir::E, Rot::CCW) => ((q + 1, r - 1, Dir::SE), Rot::CCW),
            (Dir::E, Rot::CW) => ((q, r, Dir::SE), Rot::CW),
            (Dir::SE, Rot::CCW) => ((q, r + 1, Dir::NE), Rot::CW),
            (Dir::SE, Rot::CW) => ((q - 1, r + 1, Dir::NE), Rot::CCW),
        }
    }

    fn lookup(&self, at: (i64, i64, Dir)) -> (v: &Integer)
        requires
            self.wf(),
            -RADIUS - 1 <= at.0 <= RADIUS + 1,
            -RADIUS - 1 <= at.1 <= RADIUS + 1,
        ensures
            int_of(*v) == self@.value(EdgeIndex { q: at.0 as int, r: at.1 as int, e: at.2 }),
    {
        broadcast use vstd::std_specs::hash::group_hash_axioms;

        let k = Memory::key(at.0, at.1, at.2);
        match self.mem.get(&k) {
            Some(v) => v,
            None => &self.default,
        }
    }

    /// Returns a reference to the value in the left neighbour.
    pub fn get_left(&self) -> (v: &Integer)
        requires
            self.wf(),
        ensures
            int_of(*v) == self@.left_value(),
    {
        let (at, _) = self.left_index();
        self.lookup(at)
    }

    /// Returns a reference to the value in the right neighbour.
    pub fn get_right(&self) -> (v: &Integer)
        requires
            self.wf(),
        ensures
            int_of(*v) == self@.right_value(),
    {
        let (at, _) = self.right_index();
        self.lookup(at)
    }

    /// Returns a reference to the value in the current memory edge.
    pub fn get(&self) -> (v: &Integer)
        requires
            self.wf(),
        ensures
            int_of(*v) == self@.current(),
    {
        self.lookup(self.mp)
    }

    /// Sets the current memory edge to the given value.
    pub fn set(&mut self, value: Integer)
        requires
            old(self).wf(),
        ensures
            final(self).wf(),
            final(self)@ == old(self)@.set(int_of(value)),
    {
        broadcast use vstd::std_specs::hash::group_hash_axioms;

        let k = Memory::key(self.mp.0, self.mp.1, self.mp.2);
        self.mem.insert(k, value);
        proof {
            let here = old(self)@.mp;
            lemma_key_of_edge(here);
            assert forall|i: EdgeIndex| has_key(i) && i != here implies key_of(i) != k by {
                if key_of(i) == k {
                    lemma_key_injective(i, here);
                }
            }
            assert(self@.cells =~= old(self)@.cells.insert(here, int_of(value)));
        }
    }

    /// Returns a mutable reference to the value in the current memory edge.
    /// What is written through it is what the edge holds afterwards.
    pub fn get_mut(&mut self) -> (v: &mut Integer)
        requires
            old(self).wf(),
        ensures
            int_of(*v) == old(self)@.current(),
            final(self).wf(),
            final(self)@ == old(self)@.set(int_of(*final(v))),
    {
        broadcast use vstd::std_specs::hash::group_hash_axioms;

        let k = Memory::key(self.mp.0, self.mp.1, self.mp.2);
        let ghost here = self@.mp;
        proof {
            lemma_key_of_edge(here);
            assert forall|i: EdgeIndex| has_key(i) && i != here implies key_of(i) != k by {
                if key_of(i) == k {
                    lemma_key_injective(i, here);
                }
            }
        }
        self.mem.entry(k).or_insert(big_zero())
    }

    /// The edge under the pointer: the coordinates of its hexagon and which
    /// of the hexagon's edges it is.
    pub fn pointer(&self) -> (at: (i64, i64, Dir))
        ensures
            edge_at(at) == self@.mp,
    {
        self.mp
    }

    /// The orientation of the pointer.
    pub fn rot(&self) -> (rot: Rot)
        ensures
            rot == self@.rot,
    {
        self.rot
    }

    /// The edges written so far, each once and with the value it holds, in no
    /// particular order.
    pub fn entries(&self) -> (out: Vec<((i64, i64, Dir), Integer)>)
        requires
            self.wf(),
        ensures
            forall|n: int|
                0 <= n < out@.len() ==> self@.cells.contains_key(edge_at((#[trigger] out@[n]).0))
                    && self@.cells[edge_at(out@[n].0)] == int_of(out@[n].1),
            forall|i: EdgeIndex|
                self@.cells.contains_key(i) ==> exists|n: int|
                    0 <= n < out@.len() && edge_at((#[trigger] out@[n]).0) == i,
            forall|a: int, b: int|
                0 <= a < b < out@.len() ==> edge_at((#[trigger] out@[a]).0) != edge_at(
                    (#[trigger] out@[b]).0,
                ),
    {
        broadcast use vstd::std_specs::hash::group_hash_axioms;

        let mut out: Vec<((i64, i64, Dir), Integer)> = Vec::new();
        let pairs = self.mem.iter();
        proof {
            let seq = pairs.remaining();
            assert forall|k: u128| self.mem@.contains_key(k) implies exists|n: int|
                0 <= n < seq.len() && *(#[trigger] seq[n]).0 == k by {
                assert(seq.contains((&k, &self.mem@[k])));
            }
            assert forall|a: int, b: int| 0 <= a < b < seq.len() implies *(#[trigger] seq[a]).0
                != *(#[trigger] seq[b]).0 by {
                assert(self.mem@.contains_key(*seq[a].0) && self.mem@.contains_key(*seq[b].0));
                if *seq[a].0 == *seq[b].0 {
                    assert(seq[a] == seq[b]);
                }
            }
        }
        for pair in it: pairs
            invariant
                self.wf(),
                forall|n: int|
                    0 <= n < it.seq().len() ==> self.mem@.contains_key(*(#[trigger] it.seq()[n]).0)
                        && self.mem@[*it.seq()[n].0] == *it.seq()[n].1,
                forall|k: u128|
                    self.mem@.contains_key(k) ==> exists|n: int|
                        0 <= n < it.seq().len() && *(#[trigger] it.seq()[n]).0 == k,
                forall|a: int, b: int|
                    0 <= a < b < it.seq().len() ==> *(#[trigger] it.seq()[a]).0 != *(
                    #[trigger] it.seq()[b]).0,
                out@.len() == it.index(),
                forall|n: int|
                    #![trigger out@[n]]
                    #![trigger it.seq()[n]]
                    0 <= n < out@.len() ==> edge_at(out@[n].0) == edge_of(*it.seq()[n].0) && int_of(
                        out@[n].1,
                    ) == int_of(*it.seq()[n].1),
        {
            let (k, v) = pair;
            assert(pair == it.seq()[it.index() as int]);
            assert(self.mem@.contains_key(*k));
            assert(is_key(*k));
            let rest = *k / 4;
            assert(rest / SPAN < SPAN);
            let q = ((rest / SPAN) as i64) - OFFSET;
            let r = ((rest % SPAN) as i64) - OFFSET;
            let e = match *k % 4 {
                0 => Dir::NE,
                1 => Dir::E,
                _ => Dir::SE,
            };
            let value = big_clone(v);
            assert(edge_at((q, r, e)) == edge_of(*k));
            out.push(((q, r, e), value));
        }
        proof {
            assert forall|k: u128| self.mem@.contains_key(k) implies has_key(edge_of(k))
                && key_of(edge_of(k)) == k by {
                lemma_edge_of_key(k);
            }
            assert forall|i: EdgeIndex| self@.cells.contains_key(i) implies exists|n: int|
                0 <= n < out@.len() && edge_at((#[trigger] out@[n]).0) == i by {
                lemma_key_of_edge(i);
                assert(self.mem@.contains_key(key_of(i)));
            }
        }
        out
    }

    /// Moves the MP to the left neighbour.
    pub fn move_left(&mut self)
        requires
            old(self).wf(),
            old(self)@.reach() < RADIUS,
        ensures
            final(self).wf(),
            final(self)@ == old(self)@.move_left(),
    {
        let (mp, rot) = self.left_index();
        self.mp = mp;
        self.rot = rot;
        assert(self@.cells =~= old(self)@.cells);
    }

    /// Moves the MP to the right neighbour.
    pub fn move_right(&mut self)
        requires
            old(self).wf(),
            old(self)@.reach() < RADIUS,
        ensures
            final(self).wf(),
            final(self)@ == old(self)@.move_right(),
    {
        let (mp, rot) = self.right_index();
        self.mp = mp;
        self.rot = rot;
        assert(self@.cells =~= old(self)@.cells);
    }

    /// Reverses the direction of the MP.
    pub fn reverse(&mut self)
        requires
            old(self).wf(),
        ensures
            final(self).wf(),
            final(self)@ == old(self)@.reverse(),
    {
        self.rot = match self.rot {
            Rot::CW => Rot::CCW,
            Rot::CCW => Rot::CW,
        };
        assert(self@.cells =~= old(self)@.cells);
    }
}

/// Short name of an edge direction.
pub open spec fn dir_name(e: Dir) -> Seq<char> {
    match e {
        Dir::NE => "NE"@,
        Dir::E => "E"@,
        Dir::SE => "SE"@,
    }
}

impl Dir {
    /// The name used in diagnostics: `NE`, `E` or `SE`.
    pub fn name(&self) -> (s: &'static str)
        ensures
            s@ == dir_name(*self),
    {
        match self {
            Dir::NE => "NE",
            Dir::E => "E",
            Dir::SE => "SE",
        }
    }
}

/// Turning the pointer round twice leaves the memory as it was.
pub proof fn lemma_reverse_twice(m: MemoryModel)
    ensures
        m.reverse().reverse() == m,
{
}

/// Moving backwards to the left undoes a move to the left: the pointer is
/// back on its edge with its orientation, and no edge has changed.
pub proof fn lemma_back_left_undoes_move_left(m: MemoryModel)
    ensures
        m.move_left().back_left() == m,
{
}

/// Moving backwards to the right undoes a move to the right.
pub proof fn lemma_back_right_undoes_move_right(m: MemoryModel)
    ensures
        m.move_right().back_right() == m,
{
}

/// Moving to the left undoes a move backwards to the left.
pub proof fn lemma_move_left_undoes_back_left(m: MemoryModel)
    ensures
        m.back_left().move_left() == m,
{
}

/// Moving to the right undoes a move backwards to the right.
pub proof fn lemma_move_right_undoes_back_right(m: MemoryModel)
    ensures
        m.back_right().move_right() == m,
{
}

/// A move to the left is not undone by a move to the right, nor a move to
/// the right by a move to the left: the pointer ends on another edge.
pub proof fn lemma_left_and_right_do_not_cancel(m: MemoryModel)
    ensures
        m.move_left().move_right().mp != m.mp,
        m.move_right().move_left().mp != m.mp,
{
}

/// Moving backwards to the left keeps the orientation of a pointer that does
/// not start on a south-east edge.
pub proof fn lemma_back_left_keeps_rot(m: MemoryModel)
    requires
        m.mp.e != Dir::SE,
    ensures
        m.back_left().rot == m.rot,
{
}

/// Moving backwards to the right keeps the orientation of a pointer that does
/// not start on a north-east edge.
pub proof fn lemma_back_right_keeps_rot(m: MemoryModel)
    requires
        m.mp.e != Dir::NE,
    ensures
        m.back_right().rot == m.rot,
{
}

/// No movement of the pointer changes what an edge holds, and a move takes
/// the pointer at most one step further from the origin.
pub proof fn lemma_moves_keep_cells(m: MemoryModel)
    ensures
        m.move_left().cells == m.cells,
        m.move_right().cells == m.cells,
        m.reverse().cells == m.cells,
        m.back_left().cells == m.cells,
        m.back_right().cells == m.cells,
        m.branch().cells == m.cells,
        m.move_left().reach() <= m.reach() + 1,
        m.move_right().reach() <= m.reach() + 1,
        m.back_left().reach() <= m.reach() + 1,
        m.back_right().reach() <= m.reach() + 1,
        m.branch().reach() <= m.reach() + 1,
        m.reverse().reach() == m.reach(),
        m.copy().reach() == m.reach(),
{
}

/// A write changes the edge under the pointer and no other.
pub proof fn lemma_set_writes_one_edge(m: MemoryModel, v: int, i: EdgeIndex)
    ensures
        m.set(v).current() == v,
        i != m.mp ==> m.set(v).value(i) == m.value(i),
        m.set(v).mp == m.mp,
        m.set(v).rot == m.rot,
{
}

} // verus!
