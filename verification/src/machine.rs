//! The abstract machine: what one tick of a Hexagony program does, stated
//! over mathematical values.  The interpreter is proved to follow it.

use crate::arith::{floor_div, floor_mod};
use crate::bigint::decimal;
use crate::direction::{redirected, unit_vector, Direction};
use crate::grid::{in_bounds, GridModel};
use crate::memory::MemoryModel;
use crate::op::Op;
use vstd::prelude::*;

verus! {

/// An instruction pointer: where it is on the grid and where it is heading.
pub struct IpModel {
    pub pos: (int, int),
    pub dir: Direction,
}

/// What is known of the input beyond the bytes that wait to be read.
pub enum InputEnd {
    /// More bytes may come.
    Open,
    /// No more bytes will come.
    Eof,
    /// Reading failed after the bytes that wait.
    Failed,
}

/// Why a run stopped, or that it did not.
pub enum Event {
    /// The tick was carried out and the program goes on.
    Ticked,
    /// The active IP met the terminate instruction.
    Halted,
    /// The instruction needs input that has not arrived yet.
    Starved,
    /// A division or modulo met a zero divisor.
    DivisionByZero,
    /// The instruction needs input, and reading it failed.
    InputFailed,
}

/// The state of a program between two ticks.
pub struct Machine {
    pub grid: GridModel,
    pub mem: MemoryModel,
    pub ips: Seq<IpModel>,
    pub active: int,
    pub tick: nat,
    /// Bytes of input that arrived and were not read yet.
    pub input: Seq<u8>,
    pub end: InputEnd,
    /// Bytes written so far and not handed out yet.
    pub output: Seq<u8>,
}

/// Whether the cube component `v` lies outside a hexagon of side length
/// `side`.
pub open spec fn beyond(v: int, side: int) -> bool {
    v >= side || v <= -side
}

/// Which of the cube components `x`, `y` and `z` lie outside a hexagon of
/// side length `side` after one step from `p` in direction `dir`.
pub open spec fn overshoot(p: (int, int), dir: Direction, side: int) -> (bool, bool, bool) {
    let x = p.0 + unit_vector(dir).0;
    let z = p.1 + unit_vector(dir).1;
    (beyond(x, side), beyond(-x - z, side), beyond(z, side))
}

/// The cell an IP at `p` heading `dir` enters next on a hexagon of side
/// length `side`.  A step that stays on the grid is taken as it is.  A step
/// that leaves it across an edge re-enters on the far side; one that leaves
/// through a corner has two far sides to choose from, and `positive` decides.
/// On a grid of one cell the IP stays where it is.
///
/// From a cell of the grid no step overshoots on all three components, see
/// [`lemma_advanced_in_bounds`]; for other cells the function says that the
/// IP stays.
pub open spec fn advanced(p: (int, int), dir: Direction, side: int, positive: bool) -> (int, int) {
    let (q, r) = p;
    if side == 1 {
        p
    } else {
        match overshoot(p, dir, side) {
            (false, false, false) => (q + unit_vector(dir).0, r + unit_vector(dir).1),
            (false, false, true) => (q + r, -r),
            (false, true, false) => (-r, -q),
            (true, false, false) => (-q, q + r),
            (false, true, true) => if positive {
                (-r, -q)
            } else {
                (q + r, -r)
            },
            (true, false, true) => if positive {
                (q + r, -r)
            } else {
                (-q, q + r)
            },
            (true, true, false) => if positive {
                (-q, q + r)
            } else {
                (-r, -q)
            },
            (true, true, true) => p,
        }
    }
}

/// Wherever an IP on the grid heads, its next cell is on the grid, and its
/// step does not overshoot on all three cube components at once.
pub proof fn lemma_advanced_in_bounds(p: (int, int), dir: Direction, side: int, positive: bool)
    requires
        side >= 1,
        in_bounds(p, side),
    ensures
        in_bounds(advanced(p, dir, side, positive), side),
        overshoot(p, dir, side) != (true, true, true),
{
}

/// Whether `b` is an ASCII digit.
pub open spec fn is_digit_byte(b: u8) -> bool {
    48 <= b <= 57
}

/// Whether `b` can start a number: a plus sign, a minus sign or a digit.
pub open spec fn starts_number(b: u8) -> bool {
    b == 43 || b == 45 || is_digit_byte(b)
}

/// Index of the first byte at or after `from` that can start a number, or
/// the length of `input` if there is none.
pub open spec fn number_start(input: Seq<u8>, from: int) -> int
    decreases input.len() - from,
{
    if from < 0 || from >= input.len() || starts_number(input[from]) {
        from
    } else {
        number_start(input, from + 1)
    }
}

/// Index of the first byte at or after `from` that is no digit, or the
/// length of `input` if there is none.
pub open spec fn digits_end(input: Seq<u8>, from: int) -> int
    decreases input.len() - from,
{
    if from < 0 || from >= input.len() || !is_digit_byte(input[from]) {
        from
    } else {
        digits_end(input, from + 1)
    }
}

/// The number that results from appending the decimal digits `digits` to the
/// number `head`.
pub open spec fn appended(head: int, digits: Seq<u8>) -> int
    decreases digits.len(),
{
    if digits.len() == 0 {
        head
    } else {
        appended(head, digits.drop_last()) * 10 + (digits.last() - 48)
    }
}

/// What reading an integer from the input comes to.
pub enum Scan {
    /// The number read, and how many bytes of input were used up for it.
    Done { value: int, used: int },
    /// Whether the number is complete depends on bytes that have not come.
    Starved,
    /// Reading failed before a number started.
    Failed,
}

/// Reads an integer from the front of `input`.  Bytes are discarded up to
/// and including the first plus sign, minus sign or digit; the digits that
/// follow it without a gap are then used up.  A minus sign negates the
/// number; a sign without digits, or an input that ends before a number
/// starts, gives zero.
pub open spec fn read_int(input: Seq<u8>, end: InputEnd) -> Scan {
    let start = number_start(input, 0);
    if start >= input.len() {
        match end {
            InputEnd::Open => Scan::Starved,
            InputEnd::Eof => Scan::Done { value: 0, used: input.len() as int },
            InputEnd::Failed => Scan::Failed,
        }
    } else {
        let stop = digits_end(input, start + 1);
        if stop >= input.len() && end is Open {
            Scan::Starved
        } else {
            let first = input[start];
            let head: int = if is_digit_byte(first) {
                first - 48
            } else {
                0
            };
            let size = appended(head, input.subrange(start + 1, stop));
            Scan::Done {
                value: if first == 45 {
                    -size
                } else {
                    size
                },
                used: stop,
            }
        }
    }
}

/// Reading an integer uses up no more bytes than there are.
pub proof fn lemma_read_int_used(input: Seq<u8>, end: InputEnd)
    ensures
        read_int(input, end) matches Scan::Done { value, used } ==> 0 <= used <= input.len(),
{
    lemma_number_start(input, 0);
    let start = number_start(input, 0);
    if start < input.len() {
        lemma_digits_end(input, start + 1);
    }
}

proof fn lemma_number_start(input: Seq<u8>, from: int)
    requires
        0 <= from <= input.len(),
    ensures
        from <= number_start(input, from) <= input.len(),
    decreases input.len() - from,
{
    if from < input.len() && !starts_number(input[from]) {
        lemma_number_start(input, from + 1);
    }
}

proof fn lemma_digits_end(input: Seq<u8>, from: int)
    requires
        0 <= from <= input.len(),
    ensures
        from <= digits_end(input, from) <= input.len(),
    decreases input.len() - from,
{
    if from < input.len() && is_digit_byte(input[from]) {
        lemma_digits_end(input, from + 1);
    }
}

impl Machine {
    /// The state in which a program on `grid` starts: the six IPs on the
    /// six corners, clockwise from the top left, each heading along its
    /// edge; the first of them active; an empty memory; no input yet.
    pub open spec fn start(grid: GridModel) -> Machine {
        let s = grid.side as int;
        Machine {
            grid,
            mem: MemoryModel::initial(),
            ips: seq![
                IpModel { pos: (0, -s + 1), dir: Direction::East },
                IpModel { pos: (s - 1, -s + 1), dir: Direction::SouthEast },
                IpModel { pos: (s - 1, 0), dir: Direction::SouthWest },
                IpModel { pos: (0, s - 1), dir: Direction::West },
                IpModel { pos: (-s + 1, s - 1), dir: Direction::NorthWest },
                IpModel { pos: (-s + 1, 0), dir: Direction::NorthEast },
            ],
            active: 0,
            tick: 0,
            input: Seq::empty(),
            end: InputEnd::Open,
            output: Seq::empty(),
        }
    }

    /// What holds of every state a program can reach: the grid is a
    /// hexagon, there are six IPs, all of them on the grid, one of them is
    /// active, and the memory pointer is no further from the origin than
    /// the number of ticks carried out.
    pub open spec fn inv(self) -> bool {
        &&& self.grid.wf()
        &&& self.ips.len() == 6
        &&& 0 <= self.active < 6
        &&& forall|i: int| 0 <= i < 6 ==> in_bounds((#[trigger] self.ips[i]).pos, self.grid.side as int)
        &&& self.mem.reach() <= self.tick
    }

    /// The active IP.
    pub open spec fn ip(self) -> IpModel {
        self.ips[self.active]
    }

    /// The instruction under the active IP.
    pub open spec fn op(self) -> Op {
        self.grid.at(self.ip().pos).0
    }

    /// Whether the cell under the active IP carries a debug flag.
    pub open spec fn flagged(self) -> bool {
        self.grid.at(self.ip().pos).1
    }

    /// The integer on the memory edge under the pointer.
    pub open spec fn value(self) -> int {
        self.mem.current()
    }

    /// The state after `v` is written to the current memory edge.
    pub open spec fn write(self, v: int) -> Machine {
        Machine { mem: self.mem.set(v), ..self }
    }

    /// The state with memory `mem`.
    pub open spec fn with_mem(self, mem: MemoryModel) -> Machine {
        Machine { mem, ..self }
    }

    /// The state after `n` bytes of input were read.
    pub open spec fn consume(self, n: int) -> Machine {
        Machine { input: self.input.skip(n), ..self }
    }

    /// The state after `bytes` were written to the output.
    pub open spec fn emit(self, bytes: Seq<u8>) -> Machine {
        Machine { output: self.output + bytes, ..self }
    }

    /// The state after the active IP turned to `dir`.
    pub open spec fn turn(self, dir: Direction) -> Machine {
        Machine { ips: self.ips.update(self.active, IpModel { dir, ..self.ip() }), ..self }
    }

    /// The state after the active IP moved one cell on, wrapping where it
    /// leaves the grid.
    pub open spec fn moved(self) -> Machine {
        let ip = self.ip();
        let pos = advanced(ip.pos, ip.dir, self.grid.side as int, self.value() > 0);
        Machine { ips: self.ips.update(self.active, IpModel { pos, ..ip }), ..self }
    }

    /// The state at the end of a tick whose instruction has been carried
    /// out: the IP that was active moves on, and `next` is active from now.
    pub open spec fn finish(self, next: int) -> Machine {
        Machine { active: next, tick: self.tick + 1, ..self.moved() }
    }

    /// The state after the failure of the input was reported: from now on
    /// the input counts as ended.
    pub open spec fn fail_reported(self) -> Machine {
        Machine { end: InputEnd::Eof, ..self }
    }

    /// The state after `bytes` arrived as input.  Bytes that arrive after the
    /// input has ended are dropped.
    pub open spec fn fed(self, bytes: Seq<u8>) -> Machine {
        if self.end is Open {
            Machine { input: self.input + bytes, ..self }
        } else {
            self
        }
    }

    /// The state after the input was said to have ended in the way `end`.
    /// An input that has ended already stays as it is.
    pub open spec fn ended(self, end: InputEnd) -> Machine {
        if self.end is Open {
            Machine { end, ..self }
        } else {
            self
        }
    }

    /// The state after the output written so far was handed out.
    pub open spec fn drained(self) -> Machine {
        Machine { output: Seq::empty(), ..self }
    }

    /// The instruction under the active IP, carried out: the state it
    /// leaves, the IP that is active after this tick, and whether the tick
    /// goes on.  Where the instruction cannot be carried out the state stays
    /// as it is, and the event says why.
    pub open spec fn execute(self) -> (Machine, int, Event) {
        let v = self.value();
        let left = self.mem.left_value();
        let right = self.mem.right_value();
        let same = self.active;
        match self.op() {
            Op::Nop => (self, same, Event::Ticked),
            Op::Terminate => (self, same, Event::Halted),
            Op::Letter(b) => (self.write(b as int), same, Event::Ticked),
            Op::Digit(d) => (self.write(v * 10 + d), same, Event::Ticked),
            Op::Increment => (self.write(v + 1), same, Event::Ticked),
            Op::Decrement => (self.write(v - 1), same, Event::Ticked),
            Op::Add => (self.write(left + right), same, Event::Ticked),
            Op::Subtract => (self.write(left - right), same, Event::Ticked),
            Op::Multiply => (self.write(left * right), same, Event::Ticked),
            Op::Divide => if right == 0 {
                (self, same, Event::DivisionByZero)
            } else {
                (self.write(floor_div(left, right)), same, Event::Ticked)
            },
            Op::Modulo => if right == 0 {
                (self, same, Event::DivisionByZero)
            } else {
                (self.write(floor_mod(left, right)), same, Event::Ticked)
            },
            Op::Negate => (self.write(-v), same, Event::Ticked),
            Op::ReadByte => if self.input.len() > 0 {
                (self.consume(1).write(self.input[0] as int), same, Event::Ticked)
            } else {
                match self.end {
                    InputEnd::Open => (self, same, Event::Starved),
                    InputEnd::Eof => (self.write(-1), same, Event::Ticked),
                    InputEnd::Failed => (self.fail_reported(), same, Event::InputFailed),
                }
            },
            Op::ReadInt => match read_int(self.input, self.end) {
                Scan::Done { value, used } => (
                    self.consume(used).write(value),
                    same,
                    Event::Ticked,
                ),
                Scan::Starved => (self, same, Event::Starved),
                Scan::Failed => (self.fail_reported(), same, Event::InputFailed),
            },
            Op::WriteByte => (self.emit(seq![(v % 256) as u8]), same, Event::Ticked),
            Op::WriteInt => (self.emit(decimal(v)), same, Event::Ticked),
            Op::Jump => (self.moved(), same, Event::Ticked),
            Op::Redir(redir) => (
                self.turn(redirected(self.ip().dir, redir, v > 0)),
                same,
                Event::Ticked,
            ),
            Op::IPPrev => (self, (same + 5) % 6, Event::Ticked),
            Op::IPNext => (self, (same + 1) % 6, Event::Ticked),
            Op::IPSelect => (self, v % 6, Event::Ticked),
            Op::MPLeft => (self.with_mem(self.mem.move_left()), same, Event::Ticked),
            Op::MPRight => (self.with_mem(self.mem.move_right()), same, Event::Ticked),
            Op::MPBackLeft => (self.with_mem(self.mem.back_left()), same, Event::Ticked),
            Op::MPBackRight => (self.with_mem(self.mem.back_right()), same, Event::Ticked),
            Op::MPReverse => (self.with_mem(self.mem.reverse()), same, Event::Ticked),
            Op::MPBranch => (self.with_mem(self.mem.branch()), same, Event::Ticked),
            Op::MemCopy => (self.with_mem(self.mem.copy()), same, Event::Ticked),
        }
    }

    /// One tick: the instruction under the active IP is carried out, the IP
    /// moves on, and the IP chosen by the instruction becomes active.  Where
    /// the instruction cannot be carried out, no IP moves and the tick is
    /// not counted.
    pub open spec fn step(self) -> (Machine, Event) {
        let (after, next, event) = self.execute();
        if event is Ticked {
            (after.finish(next), event)
        } else {
            (after, event)
        }
    }

    /// A run of at most `fuel` ticks: the state it ends in, and why it ended
    /// there.  `Ticked` says that the fuel ran out first.
    pub open spec fn run(self, fuel: nat) -> (Machine, Event)
        decreases fuel,
    {
        if fuel == 0 {
            (self, Event::Ticked)
        } else {
            let (next, event) = self.step();
            if event is Ticked {
                next.run((fuel - 1) as nat)
            } else {
                (next, event)
            }
        }
    }
}

/// The state in which a program starts is one that the invariant holds of.
pub proof fn lemma_start_inv(grid: GridModel)
    requires
        grid.wf(),
    ensures
        Machine::start(grid).inv(),
{
}

/// What holds of a state in the middle of a tick: as [`Machine::inv`], but
/// the memory pointer may have moved one step already.
pub open spec fn mid_tick(m: Machine) -> bool {
    &&& m.grid.wf()
    &&& m.ips.len() == 6
    &&& 0 <= m.active < 6
    &&& forall|i: int| 0 <= i < 6 ==> in_bounds((#[trigger] m.ips[i]).pos, m.grid.side as int)
    &&& m.mem.reach() <= m.tick + 1
}

proof fn lemma_moved_mid(m: Machine)
    requires
        mid_tick(m),
    ensures
        mid_tick(m.moved()),
        m.moved().mem == m.mem,
        m.moved().tick == m.tick,
        m.moved().active == m.active,
{
    let ip = m.ip();
    lemma_advanced_in_bounds(ip.pos, ip.dir, m.grid.side as int, m.value() > 0);
    let after = m.moved();
    assert forall|i: int| 0 <= i < 6 implies in_bounds(
        (#[trigger] after.ips[i]).pos,
        after.grid.side as int,
    ) by {
        if i != m.active {
            assert(after.ips[i] == m.ips[i]);
        }
    }
}

proof fn lemma_finish_inv(m: Machine, next: int)
    requires
        mid_tick(m),
        0 <= next < 6,
    ensures
        m.finish(next).inv(),
{
    lemma_moved_mid(m);
    let after = m.finish(next);
    assert(after.ips == m.moved().ips);
}

proof fn lemma_turn_mid(m: Machine, dir: Direction)
    requires
        mid_tick(m),
    ensures
        mid_tick(m.turn(dir)),
{
    let after = m.turn(dir);
    assert forall|i: int| 0 <= i < 6 implies in_bounds(
        (#[trigger] after.ips[i]).pos,
        after.grid.side as int,
    ) by {
        if i != m.active {
            assert(after.ips[i] == m.ips[i]);
        }
    }
}

proof fn lemma_carry_mid(m: Machine, after: Machine)
    requires
        m.inv(),
        after.grid == m.grid,
        after.ips == m.ips,
        after.active == m.active,
        after.tick == m.tick,
        after.mem.reach() <= m.mem.reach() + 1,
    ensures
        mid_tick(after),
        after.mem.reach() == m.mem.reach() ==> after.inv(),
{
}

/// Carrying out an instruction leaves every IP on the grid, names one of
/// the six IPs as the next to be active, and moves the memory pointer by one
/// step at most.
pub proof fn lemma_execute_mid(m: Machine)
    requires
        m.inv(),
    ensures
        mid_tick(m.execute().0),
        0 <= m.execute().1 < 6,
        !(m.execute().2 is Ticked) ==> m.execute().0.inv(),
{
    let (after, next, event) = m.execute();
    match m.op() {
        Op::Jump => {
            lemma_moved_mid(m);
        },
        Op::Redir(redir) => {
            lemma_turn_mid(m, redirected(m.ip().dir, redir, m.value() > 0));
        },
        Op::MPLeft | Op::MPRight | Op::MPBackLeft | Op::MPBackRight | Op::MPReverse
        | Op::MPBranch | Op::MemCopy => {
            crate::memory::lemma_moves_keep_cells(m.mem);
            lemma_carry_mid(m, after);
        },
        _ => {
            assert(after.mem.mp == m.mem.mp);
            lemma_carry_mid(m, after);
        },
    }
}

/// A tick keeps the invariant: in particular every IP stays on the grid,
/// whatever the program does.
pub proof fn lemma_step_inv(m: Machine)
    requires
        m.inv(),
    ensures
        m.step().0.inv(),
{
    lemma_execute_mid(m);
    let (after, next, event) = m.execute();
    if event is Ticked {
        lemma_finish_inv(after, next);
    }
}

/// What a tick leaves alone: the grid stays as it was parsed, no memory edge
/// that was written is forgotten, what was written to the output stays
/// written, input is only used up from the front, and the tick counter goes
/// up by one exactly if the tick was carried out.
pub proof fn lemma_step_lifecycle(m: Machine)
    ensures
        m.step().0.grid == m.grid,
        m.mem.cells.dom().subset_of(m.step().0.mem.cells.dom()),
        m.output.is_prefix_of(m.step().0.output),
        exists|used: int| 0 <= used <= m.input.len() && m.step().0.input == m.input.skip(used),
        m.step().0.tick == m.tick + if m.step().1 is Ticked {
            1nat
        } else {
            0nat
        },
{
    let (after, next, event) = m.execute();
    crate::memory::lemma_moves_keep_cells(m.mem);
    assert(m.input.skip(0) =~= m.input);
    match m.op() {
        Op::ReadByte => {
            if m.input.len() > 0 {
                assert(after.input == m.input.skip(1));
            } else {
                assert(after.input == m.input.skip(0));
            }
        },
        Op::ReadInt => {
            lemma_read_int_used(m.input, m.end);
            match read_int(m.input, m.end) {
                Scan::Done { value, used } => {
                    assert(after.input == m.input.skip(used));
                },
                _ => {
                    assert(after.input == m.input.skip(0));
                },
            }
        },
        _ => {
            assert(after.input == m.input.skip(0));
        },
    }
    assert(m.output.is_prefix_of(after.output));
    assert(m.mem.cells.dom().subset_of(after.mem.cells.dom()));
}

/// A run of `a + b` ticks is a run of `a` ticks followed, if the program
/// is still running, by a run of `b` ticks.
pub proof fn lemma_run_split(m: Machine, a: nat, b: nat)
    ensures
        m.run(a + b) == if m.run(a).1 is Ticked {
            m.run(a).0.run(b)
        } else {
            m.run(a)
        },
    decreases a,
{
    if a > 0 {
        let (next, event) = m.step();
        if event is Ticked {
            lemma_run_split(next, (a - 1) as nat, b);
            assert(m.run(a + b) == next.run((a + b - 1) as nat));
        } else {
            assert(m.run(a + b) == (next, event));
        }
    } else {
        assert(a + b == b);
    }
}

/// A run keeps the invariant, however long it is.
pub proof fn lemma_run_inv(m: Machine, fuel: nat)
    requires
        m.inv(),
    ensures
        m.run(fuel).0.inv(),
    decreases fuel,
{
    if fuel > 0 {
        lemma_step_inv(m);
        if m.step().1 is Ticked {
            lemma_run_inv(m.step().0, (fuel - 1) as nat);
        }
    }
}

} // verus!
