//! The interpreter: the state of a running program and the loop that
//! carries out its ticks.

use crate::arith::checked_floor_div_rem;
use crate::bigint::{
    big_add, big_clone, big_from_i32, big_mod_u, big_mul, big_sub, big_to_decimal, int_of,
    is_positive,
};
use crate::coords::PointAxial;
use crate::direction::{redirect, Direction};
use crate::grid::{in_bounds, parse, side_fits, Cell, Grid};
use crate::machine::{
    advanced, appended, digits_end, is_digit_byte, lemma_advanced_in_bounds, lemma_execute_mid,
    number_start, read_int, Event, InputEnd, IpModel, Machine, Scan,
};
use crate::memory::{Memory, RADIUS};
use crate::op::Op;
use crate::Error;
use rug::Integer;
use vstd::prelude::*;

verus! {

/// An instruction pointer (IP).
///
/// Each IP stores its location on the grid and its current direction.
#[derive(Clone, Copy, PartialEq, Eq, Debug, Structural)]
pub struct IP {
    pub coords: PointAxial,
    pub dir: Direction,
}

impl View for IP {
    type V = IpModel;

    open spec fn view(&self) -> IpModel {
        IpModel { pos: self.coords@, dir: self.dir }
    }
}

/// How a program stands after the interpreter worked on it.
#[derive(Clone, Copy, PartialEq, Eq, Debug, Structural)]
pub enum Status {
    /// The program has not ended; more ticks can be run.
    Running,
    /// The program met its terminate instruction.
    Halted,
    /// The program waits for input that has not been fed yet.
    AwaitingInput,
}

/// The largest number of ticks one interpreter carries out in its lifetime.
pub const TICK_LIMIT: u64 = 0x1000_0000_0000_0000;

/// The cell an IP at `coords` heading `dir` enters next on a grid of side
/// length `size`, where `positive` says whether the current memory edge is
/// greater than zero.
pub fn advance(coords: PointAxial, dir: Direction, size: usize, positive: bool) -> (out:
    PointAxial)
    requires
        side_fits(size as int),
        in_bounds(coords@, size as int),
    ensures
        out@ == advanced(coords@, dir, size as int, positive),
        in_bounds(out@, size as int),
{
    proof {
        lemma_advanced_in_bounds(coords@, dir, size as int, positive);
    }
    if size == 1 {
        return coords;
    }
    // Use post-move cube coords to check for wrapping
    let PointAxial(x, z) = coords + dir.to_vector();
    let y = -x - z;
    let side = size as isize;
    let x_big = x >= side || x <= -side;
    let y_big = y >= side || y <= -side;
    let z_big = z >= side || z <= -side;
    // Use pre-move axial coords to compute wrapped coords
    let PointAxial(q, r) = coords;
    if !(x_big || y_big || z_big) {
        PointAxial(x, z)
    } else if !x_big && !y_big {
        // If two values are in range, wrap around an edge
        PointAxial(q + r, -r)
    } else if !x_big && !z_big {
        PointAxial(-r, -q)
    } else if !y_big && !z_big {
        PointAxial(-q, q + r)
    } else if !x_big {
        // If one value is in range, branch out of a corner
        // There are two paths that lead to each corner
        if positive {
            PointAxial(-r, -q)
        } else {
            PointAxial(q + r, -r)
        }
    } else if !y_big {
        if positive {
            PointAxial(q + r, -r)
        } else {
            PointAxial(-q, q + r)
        }
    } else {
        if positive {
            PointAxial(-q, q + r)
        } else {
            PointAxial(-r, -q)
        }
    }
}

/// What reading an integer from the input came to.
pub enum Scanned {
    /// The number read, and how many bytes of input were used up for it.
    Done(Integer, usize),
    /// Whether the number is complete depends on bytes that have not come.
    Starved,
    /// Reading failed before a number started.
    Failed,
}

/// Whether what was scanned is what the abstract machine reads.
pub open spec fn scanned_as(scanned: Scanned, scan: Scan) -> bool {
    match scan {
        Scan::Done { value, used } => scanned matches Scanned::Done(v, n) && int_of(v) == value
            && n == used,
        Scan::Starved => scanned is Starved,
        Scan::Failed => scanned is Failed,
    }
}

/// Reads an integer from `input`, starting at index `from`: skips to the
/// first sign or digit, then takes the digits that follow it.
pub fn scan_int(input: &Vec<u8>, from: usize, end: InputEnd) -> (scanned: Scanned)
    requires
        from <= input@.len(),
    ensures
        scanned_as(scanned, read_int(input@.skip(from as int), end)),
        scanned matches Scanned::Done(_, used) ==> from + used <= input@.len(),
{
    let ghost tail = input@.skip(from as int);
    let n = input.len();
    let mut i = from;
    while i < n && !(input[i] == 43 || input[i] == 45 || (48 <= input[i] && input[i] <= 57))
        invariant
            from <= i <= n,
            n == input@.len(),
            tail == input@.skip(from as int),
            number_start(tail, 0) == number_start(tail, i - from),
        decreases n - i,
    {
        i = i + 1;
    }
    if i >= n {
        return match end {
            InputEnd::Open => Scanned::Starved,
            InputEnd::Eof => Scanned::Done(big_from_i32(0), n - from),
            InputEnd::Failed => Scanned::Failed,
        };
    }
    let first = input[i];
    let ghost start = i - from;
    let ghost head: int = if is_digit_byte(first) {
        first - 48
    } else {
        0
    };
    let mut size = if 48 <= first && first <= 57 {
        big_from_i32((first - 48) as i32)
    } else {
        big_from_i32(0)
    };
    let ten = big_from_i32(10);
    let mut j = i + 1;
    assert(tail.subrange(start + 1, start + 1) =~= Seq::<u8>::empty());
    while j < n && 48 <= input[j] && input[j] <= 57
        invariant
            i < j <= n,
            start == i - from,
            from <= i,
            n == input@.len(),
            tail == input@.skip(from as int),
            int_of(ten) == 10,
            digits_end(tail, start + 1) == digits_end(tail, j - from),
            int_of(size) == appended(head, tail.subrange(start + 1, j - from)),
        decreases n - j,
    {
        let digit = big_from_i32((input[j] - 48) as i32);
        size = big_add(&big_mul(&size, &ten), &digit);
        proof {
            let run = tail.subrange(start + 1, j - from + 1);
            assert(run.drop_last() =~= tail.subrange(start + 1, j - from));
            assert(run.last() == input@[j as int]);
        }
        j = j + 1;
    }
    if j >= n && matches!(end, InputEnd::Open) {
        return Scanned::Starved;
    }
    let value = if first == 45 {
        big_sub(&big_from_i32(0), &size)
    } else {
        size
    };
    Scanned::Done(value, j - from)
}

/// Whether `res` is how the interpreter reports `event`, where `failure` is
/// the failure of the input that waited to be reported.
pub open spec fn reported(
    event: Event,
    res: Result<Status, Error>,
    failure: Option<std::io::Error>,
) -> bool {
    match event {
        Event::Ticked => res matches Ok(status) && status == Status::Running,
        Event::Halted => res matches Ok(status) && status == Status::Halted,
        Event::Starved => res matches Ok(status) && status == Status::AwaitingInput,
        Event::DivisionByZero => res matches Err(e) && e is ZeroDivisionError,
        Event::InputFailed => res matches Err(Error::IOError(e)) && failure == Some(e),
    }
}

/// Whether `after`, `next` and `res` are what carrying out the instruction
/// under the active IP of `before` comes to.
pub open spec fn carried_out(
    before: Machine,
    after: Machine,
    next: usize,
    res: Result<Status, Error>,
    failure: Option<std::io::Error>,
) -> bool {
    &&& after == before.execute().0
    &&& next == before.execute().1
    &&& reported(before.execute().2, res, failure)
}

/// Number of ticks that a run of `m` is granted when `max_ticks` are asked
/// for: no more than the interpreter has left of its [`TICK_LIMIT`].
pub open spec fn ticks_granted(m: Machine, max_ticks: u64) -> nat {
    if m.tick + max_ticks <= TICK_LIMIT {
        max_ticks as nat
    } else if m.tick <= TICK_LIMIT {
        (TICK_LIMIT - m.tick) as nat
    } else {
        0
    }
}

/// Whether a tick is traced at debug level `level`, where `flagged` says
/// whether its cell carries a debug flag.
pub open spec fn traced(level: u8, flagged: bool) -> bool {
    level >= 2 || (level == 1 && flagged)
}

/// A Hexagony interpreter.
///
/// Stores all state-related information needed to run a Hexagony program.
pub struct Hexagony {
    grid: Grid,
    mem: Memory,
    ips: [IP; 6],
    ip_idx: usize,
    tick: u64,
    debug_level: u8,
    input: Vec<u8>,
    read: usize,
    closed: bool,
    failure: Option<std::io::Error>,
    output: Vec<u8>,
}

impl View for Hexagony {
    type V = Machine;

    closed spec fn view(&self) -> Machine {
        Machine {
            grid: self.grid@,
            mem: self.mem@,
            ips: Seq::new(6, |i: int| self.ips@[i]@),
            active: self.ip_idx as int,
            tick: self.tick as nat,
            input: self.input@.skip(self.read as int),
            end: if self.failure is Some {
                InputEnd::Failed
            } else if self.closed {
                InputEnd::Eof
            } else {
                InputEnd::Open
            },
            output: self.output@,
        }
    }
}

impl Hexagony {
    spec fn rep(&self) -> bool {
        &&& self.grid.wf()
        &&& self.mem.wf()
        &&& self.ip_idx < 6
        &&& forall|i: int|
            0 <= i < 6 ==> in_bounds((#[trigger] self.ips@[i]).coords@, self.grid@.side as int)
        &&& self.read <= self.input@.len()
        &&& self.tick <= TICK_LIMIT
        &&& self.failure is Some ==> self.closed
    }

    /// Whether the interpreter is in a state that a program can reach, held
    /// in a sound representation.
    pub closed spec fn wf(&self) -> bool {
        self.rep() && self@.mem.reach() <= self.tick
    }

    /// The failure of the input that waits to be reported, if there is one.
    pub closed spec fn pending_failure(&self) -> Option<std::io::Error> {
        self.failure
    }

    /// What [`Hexagony::wf`] says of the model.
    pub proof fn lemma_wf(&self)
        requires
            self.wf(),
        ensures
            self@.inv(),
            self@.tick <= TICK_LIMIT,
            self@.end is Failed <==> self.pending_failure() is Some,
    {
        self.grid.lemma_wf();
    }

    /// Creates a new Hexagony interpreter with the given source code and debug level.
    pub fn new(src: &str, debug_level: u8) -> (res: Result<Hexagony, Error>)
        ensures
            match parse(src@) {
                Ok(grid) => res matches Ok(h) && h.wf() && h@ == Machine::start(grid)
                    && h.pending_failure() is None && h.debug_level() == debug_level,
                Err(c) => res matches Err(Error::SyntaxError(bad)) && bad == c,
            },
    {
        let grid = match Grid::from_str(src) {
            Ok(grid) => grid,
            Err(e) => {
                return Err(e);
            },
        };
        proof {
            grid.lemma_wf();
        }
        let size = grid.size() as isize;
        let h = Hexagony {
            grid,
            mem: Memory::new(),
            ips: [
                IP { coords: PointAxial(0, -size + 1), dir: Direction::East },
                IP { coords: PointAxial(size - 1, -size + 1), dir: Direction::SouthEast },
                IP { coords: PointAxial(size - 1, 0), dir: Direction::SouthWest },
                IP { coords: PointAxial(0, size - 1), dir: Direction::West },
                IP { coords: PointAxial(-size + 1, size - 1), dir: Direction::NorthWest },
                IP { coords: PointAxial(-size + 1, 0), dir: Direction::NorthEast },
            ],
            ip_idx: 0,
            tick: 0,
            debug_level,
            input: Vec::new(),
            read: 0,
            closed: false,
            failure: None,
            output: Vec::new(),
        };
        proof {
            let start = Machine::start(h.grid@);
            assert(h@.ips =~= start.ips);
            assert(h@.input =~= start.input);
            assert(h@.output =~= start.output);
        }
        Ok(h)
    }

    /// Moves the current IP to the next grid space in its current direction.
    fn advance_ip(&mut self)
        requires
            old(self).rep(),
        ensures
            final(self).rep(),
            final(self)@ == old(self)@.moved(),
            final(self).failure == old(self).failure,
    {
        proof {
            self.grid.lemma_wf();
        }
        let ip = self.ips[self.ip_idx];
        let positive = is_positive(self.mem.get());
        let coords = advance(ip.coords, ip.dir, self.grid.size(), positive);
        self.ips[self.ip_idx] = IP { coords, dir: ip.dir };
        proof {
            assert(self@.ips =~= old(self)@.moved().ips);
        }
    }

    /// Ends a tick: the IP that was active moves on, `next` becomes the
    /// active IP and the tick is counted.
    fn finish(&mut self, next: usize)
        requires
            old(self).rep(),
            next < 6,
            old(self).tick < TICK_LIMIT,
        ensures
            final(self).rep(),
            final(self)@ == old(self)@.finish(next as int),
            final(self).failure == old(self).failure,
    {
        self.advance_ip();
        self.ip_idx = next;
        self.tick = self.tick + 1;
        proof {
            assert(self@.ips =~= old(self)@.finish(next as int).ips);
        }
    }

    /// Writes `v` to the current memory edge.
    fn store(&mut self, v: Integer)
        requires
            old(self).rep(),
        ensures
            final(self).rep(),
            final(self)@ == old(self)@.write(int_of(v)),
            final(self).failure == old(self).failure,
    {
        self.mem.set(v);
    }

    /// Carries out an instruction that computes a new value for the
    /// current memory edge from the values around it.
    fn compute(&mut self, op: Op) -> (out: (usize, Result<Status, Error>))
        requires
            old(self).rep(),
            op == old(self)@.op(),
            match op {
                Op::Letter(_) | Op::Digit(_) | Op::Increment | Op::Decrement | Op::Add
                | Op::Subtract | Op::Multiply | Op::Divide | Op::Modulo | Op::Negate => true,
                _ => false,
            },
        ensures
            final(self).rep(),
            carried_out(old(self)@, final(self)@, out.0, out.1, old(self).failure),
            !(old(self)@.execute().2 is InputFailed) ==> final(self).failure == old(self).failure,
    {
        let v = match op {
            Op::Letter(b) => big_from_i32(b as i32),
            Op::Digit(d) => {
                let ten = big_from_i32(10);
                let digit = big_from_i32(d as i32);
                let tenfold = big_mul(self.mem.get(), &ten);
                assert(int_of(tenfold) == self@.value() * 10) by (nonlinear_arith)
                    requires
                        int_of(tenfold) == self@.value() * int_of(ten),
                        int_of(ten) == 10,
                ;
                big_add(&tenfold, &digit)
            },
            Op::Increment => big_add(self.mem.get(), &big_from_i32(1)),
            Op::Decrement => big_sub(self.mem.get(), &big_from_i32(1)),
            Op::Add => big_add(self.mem.get_left(), self.mem.get_right()),
            Op::Subtract => big_sub(self.mem.get_left(), self.mem.get_right()),
            Op::Multiply => big_mul(self.mem.get_left(), self.mem.get_right()),
            Op::Divide => match checked_floor_div_rem(self.mem.get_left(), self.mem.get_right()) {
                Some((quotient, _)) => quotient,
                None => {
                    return (self.ip_idx, Err(Error::ZeroDivisionError));
                },
            },
            Op::Modulo => match checked_floor_div_rem(self.mem.get_left(), self.mem.get_right()) {
                Some((_, remainder)) => remainder,
                None => {
                    return (self.ip_idx, Err(Error::ZeroDivisionError));
                },
            },
            _ => {
                let minus_one = big_from_i32(-1);
                let negated = big_mul(self.mem.get(), &minus_one);
                assert(int_of(negated) == -self@.value()) by (nonlinear_arith)
                    requires
                        int_of(negated) == self@.value() * int_of(minus_one),
                        int_of(minus_one) == -1,
                ;
                negated
            },
        };
        self.store(v);
        (self.ip_idx, Ok(Status::Running))
    }

    /// The state of the input beyond the bytes that wait.
    fn input_end(&self) -> (end: InputEnd)
        ensures
            end == self@.end,
    {
        if self.failure.is_some() {
            InputEnd::Failed
        } else if self.closed {
            InputEnd::Eof
        } else {
            InputEnd::Open
        }
    }

    /// Hands out the failure of the input, which from then on counts as
    /// ended.
    fn report_failure(&mut self) -> (res: Result<Status, Error>)
        requires
            old(self).rep(),
            old(self).failure is Some,
        ensures
            final(self).rep(),
            final(self)@ == old(self)@.fail_reported(),
            reported(Event::InputFailed, res, old(self).failure),
    {
        match self.failure.take() {
            Some(e) => Err(Error::IOError(e)),
            None => Ok(Status::AwaitingInput),
        }
    }

    /// Carries out an instruction that reads from the input or writes to
    /// the output.
    fn transfer(&mut self, op: Op) -> (out: (usize, Result<Status, Error>))
        requires
            old(self).rep(),
            op == old(self)@.op(),
            match op {
                Op::ReadByte | Op::ReadInt | Op::WriteByte | Op::WriteInt => true,
                _ => false,
            },
        ensures
            final(self).rep(),
            carried_out(old(self)@, final(self)@, out.0, out.1, old(self).failure),
            !(old(self)@.execute().2 is InputFailed) ==> final(self).failure == old(self).failure,
    {
        let same = self.ip_idx;
        match op {
            Op::ReadByte => {
                if self.read < self.input.len() {
                    let byte = self.input[self.read];
                    self.read = self.read + 1;
                    assert(self@.input =~= old(self)@.input.skip(1));
                    self.store(big_from_i32(byte as i32));
                    (same, Ok(Status::Running))
                } else {
                    match self.input_end() {
                        InputEnd::Open => (same, Ok(Status::AwaitingInput)),
                        InputEnd::Eof => {
                            self.store(big_from_i32(-1));
                            (same, Ok(Status::Running))
                        },
                        InputEnd::Failed => (same, self.report_failure()),
                    }
                }
            },
            Op::ReadInt => {
                let len = self.input.len();
                match scan_int(&self.input, self.read, self.input_end()) {
                    Scanned::Done(value, used) => {
                        assert(self.read + used <= len);
                        self.read = self.read + used;
                        assert(self@.input =~= old(self)@.input.skip(used as int));
                        self.store(value);
                        (same, Ok(Status::Running))
                    },
                    Scanned::Starved => (same, Ok(Status::AwaitingInput)),
                    Scanned::Failed => (same, self.report_failure()),
                }
            },
            Op::WriteByte => {
                let byte = big_mod_u(self.mem.get(), 256) as u8;
                self.output.push(byte);
                assert(self@.output =~= old(self)@.output + seq![byte]);
                (same, Ok(Status::Running))
            },
            _ => {
                let mut text = big_to_decimal(self.mem.get());
                self.output.append(&mut text);
                (same, Ok(Status::Running))
            },
        }
    }

    /// Carries out an instruction that moves the memory pointer or copies
    /// between memory edges.
    fn shift(&mut self, op: Op) -> (out: (usize, Result<Status, Error>))
        requires
            old(self).rep(),
            old(self)@.mem.reach() < RADIUS,
            op == old(self)@.op(),
            match op {
                Op::MPLeft | Op::MPRight | Op::MPBackLeft | Op::MPBackRight | Op::MPReverse
                | Op::MPBranch | Op::MemCopy => true,
                _ => false,
            },
        ensures
            final(self).rep(),
            carried_out(old(self)@, final(self)@, out.0, out.1, old(self).failure),
            !(old(self)@.execute().2 is InputFailed) ==> final(self).failure == old(self).failure,
    {
        match op {
            Op::MPLeft => self.mem.move_left(),
            Op::MPRight => self.mem.move_right(),
            Op::MPBackLeft => {
                self.mem.reverse();
                self.mem.move_right();
                self.mem.reverse();
            },
            Op::MPBackRight => {
                self.mem.reverse();
                self.mem.move_left();
                self.mem.reverse();
            },
            Op::MPReverse => self.mem.reverse(),
            Op::MPBranch => {
                if is_positive(self.mem.get()) {
                    self.mem.move_right()
                } else {
                    self.mem.move_left()
                }
            },
            _ => {
                let v = if is_positive(self.mem.get()) {
                    big_clone(self.mem.get_right())
                } else {
                    big_clone(self.mem.get_left())
                };
                self.mem.set(v);
            },
        }
        (self.ip_idx, Ok(Status::Running))
    }

    /// Carries out an instruction that steers the IPs.
    fn steer(&mut self, op: Op) -> (out: (usize, Result<Status, Error>))
        requires
            old(self).rep(),
            op == old(self)@.op(),
            match op {
                Op::Nop | Op::Terminate | Op::Jump | Op::Redir(_) | Op::IPPrev | Op::IPNext
                | Op::IPSelect => true,
                _ => false,
            },
        ensures
            final(self).rep(),
            carried_out(old(self)@, final(self)@, out.0, out.1, old(self).failure),
            !(old(self)@.execute().2 is InputFailed) ==> final(self).failure == old(self).failure,
    {
        let same = self.ip_idx;
        match op {
            Op::Nop => (same, Ok(Status::Running)),
            Op::Terminate => (same, Ok(Status::Halted)),
            Op::Jump => {
                self.advance_ip();
                (same, Ok(Status::Running))
            },
            Op::Redir(redir) => {
                let ip = self.ips[same];
                let dir = redirect(ip.dir, redir, is_positive(self.mem.get()));
                self.ips[same] = IP { coords: ip.coords, dir };
                assert(self@.ips =~= old(self)@.turn(dir).ips);
                (same, Ok(Status::Running))
            },
            Op::IPPrev => ((same + 5) % 6, Ok(Status::Running)),
            Op::IPNext => ((same + 1) % 6, Ok(Status::Running)),
            _ => (big_mod_u(self.mem.get(), 6) as usize, Ok(Status::Running)),
        }
    }

    /// Carries out the instruction under the active IP, without moving the
    /// IP on.  Returns the IP that is active after this tick.
    fn execute(&mut self, op: Op) -> (out: (usize, Result<Status, Error>))
        requires
            old(self).rep(),
            old(self)@.mem.reach() < RADIUS,
            op == old(self)@.op(),
        ensures
            final(self).rep(),
            carried_out(old(self)@, final(self)@, out.0, out.1, old(self).failure),
            !(old(self)@.execute().2 is InputFailed) ==> final(self).failure == old(self).failure,
    {
        match op {
            Op::Nop | Op::Terminate | Op::Jump | Op::Redir(_) | Op::IPPrev | Op::IPNext
            | Op::IPSelect => self.steer(op),
            Op::Letter(_) | Op::Digit(_) | Op::Increment | Op::Decrement | Op::Add
            | Op::Subtract | Op::Multiply | Op::Divide | Op::Modulo | Op::Negate => self.compute(
                op,
            ),
            Op::ReadByte | Op::ReadInt | Op::WriteByte | Op::WriteInt => self.transfer(op),
            _ => self.shift(op),
        }
    }

    /// Carries out one tick: the instruction under the active IP, then the
    /// move of that IP, then the switch to the IP that is active next.
    ///
    /// `Ok(Status::Running)` says that the tick was carried out.  In every
    /// other case no tick is counted and the program stays where it is:
    /// `Ok(Status::Halted)` at a terminate instruction,
    /// `Ok(Status::AwaitingInput)` where the instruction needs input that
    /// has not been fed, an error at a division by zero or where the input
    /// that the instruction needs has failed.
    pub fn step(&mut self) -> (res: Result<Status, Error>)
        requires
            old(self).wf(),
            old(self)@.tick < TICK_LIMIT,
        ensures
            final(self).wf(),
            final(self)@ == old(self)@.step().0,
            reported(old(self)@.step().1, res, old(self).pending_failure()),
            !(old(self)@.step().1 is InputFailed) ==> final(self).pending_failure() == old(
                self,
            ).pending_failure(),
    {
        proof {
            self.lemma_wf();
            lemma_execute_mid(self@);
        }
        let (op, _) = self.grid.get(self.ips[self.ip_idx].coords);
        let (next, res) = self.execute(op);
        match res {
            Ok(Status::Running) => {
                self.finish(next);
            },
            _ => {},
        }
        res
    }
    /// Carries out ticks until the program halts, fails or waits for input,
    /// but no more than `max_ticks` of them, and no more than the interpreter
    /// has left of its [`TICK_LIMIT`].  `Ok(Status::Running)` says that the
    /// program was still running when the ticks ran out.
    pub fn run(&mut self, max_ticks: u64) -> (res: Result<Status, Error>)
        requires
            old(self).wf(),
        ensures
            final(self).wf(),
            final(self)@ == old(self)@.run(ticks_granted(old(self)@, max_ticks)).0,
            reported(
                old(self)@.run(ticks_granted(old(self)@, max_ticks)).1,
                res,
                old(self).pending_failure(),
            ),
    {
        let ghost fuel = ticks_granted(self@, max_ticks);
        let mut done: u64 = 0;
        while done < max_ticks && self.tick < TICK_LIMIT
            invariant
                self.wf(),
                done <= fuel,
                fuel == ticks_granted(old(self)@, max_ticks),
                self@.tick == old(self)@.tick + done,
                self.pending_failure() == old(self).pending_failure(),
                old(self)@.run(fuel) == self@.run((fuel - done) as nat),
            decreases max_ticks - done,
        {
            let res = self.step();
            match res {
                Ok(Status::Running) => {
                    done = done + 1;
                },
                _ => {
                    return res;
                },
            }
        }
        Ok(Status::Running)
    }

    /// Hands `bytes` to the program as further input.  Bytes fed after the
    /// input was closed are dropped.
    pub fn feed(&mut self, bytes: &[u8])
        requires
            old(self).wf(),
        ensures
            final(self).wf(),
            final(self)@ == old(self)@.fed(bytes@),
            final(self).pending_failure() == old(self).pending_failure(),
    {
        if !self.closed {
            if self.read > 0 {
                let rest = self.input.split_off(self.read);
                self.input = rest;
                self.read = 0;
            }
            self.input.extend_from_slice(bytes);
            assert(self@.input =~= old(self)@.input + bytes@);
        }
    }

    /// Tells the program that its input has ended: a read past the bytes fed
    /// so far meets the end of the input.
    pub fn close_input(&mut self)
        requires
            old(self).wf(),
        ensures
            final(self).wf(),
            final(self)@ == old(self)@.ended(InputEnd::Eof),
            final(self).pending_failure() == old(self).pending_failure(),
    {
        self.closed = true;
    }

    /// Tells the program that reading its input failed with `error` after
    /// the bytes fed so far.  The instruction that next needs a byte past
    /// them fails with this error.  Ignored when the input has ended.
    pub fn fail_input(&mut self, error: std::io::Error)
        requires
            old(self).wf(),
        ensures
            final(self).wf(),
            final(self)@ == old(self)@.ended(InputEnd::Failed),
            final(self).pending_failure() == if old(self)@.end is Open {
                Some(error)
            } else {
                old(self).pending_failure()
            },
    {
        if !self.closed {
            self.closed = true;
            self.failure = Some(error);
        }
    }

    /// Hands out what the program has written since the last call.
    pub fn take_output(&mut self) -> (bytes: Vec<u8>)
        requires
            old(self).wf(),
        ensures
            final(self).wf(),
            bytes@ == old(self)@.output,
            final(self)@ == old(self)@.drained(),
            final(self).pending_failure() == old(self).pending_failure(),
    {
        let mut bytes: Vec<u8> = Vec::new();
        std::mem::swap(&mut self.output, &mut bytes);
        assert(self@.output =~= Seq::<u8>::empty());
        bytes
    }

    /// Number of ticks carried out so far.
    pub fn ticks(&self) -> (n: u64)
        ensures
            n == self@.tick,
    {
        self.tick
    }

    /// Index of the active IP.
    pub fn active(&self) -> (i: usize)
        ensures
            i == self@.active,
    {
        self.ip_idx
    }

    /// The IP with index `i`.
    pub fn ip(&self, i: usize) -> (ip: IP)
        requires
            i < 6,
        ensures
            ip@ == self@.ips[i as int],
    {
        self.ips[i]
    }

    /// The grid the program runs on.
    pub fn grid(&self) -> (g: &Grid)
        ensures
            g@ == self@.grid,
    {
        &self.grid
    }

    /// The memory of the program.
    pub fn memory(&self) -> (m: &Memory)
        ensures
            m@ == self@.mem,
    {
        &self.mem
    }

    /// The instruction that the next tick carries out, and its debug flag.
    pub fn fetch(&self) -> (cell: Cell)
        requires
            self.wf(),
        ensures
            cell == (self@.op(), self@.flagged()),
    {
        proof {
            self.lemma_wf();
        }
        self.grid.get(self.ips[self.ip_idx].coords)
    }

    /// Whether diagnostics are wanted for the next tick: at debug level 1
    /// where its cell carries a debug flag, from level 2 on always.
    pub fn trace_wanted(&self) -> (wanted: bool)
        requires
            self.wf(),
        ensures
            wanted == traced(self.debug_level(), self@.flagged()),
    {
        let (_, flagged) = self.fetch();
        self.debug_level > 1 || (self.debug_level == 1 && flagged)
    }

    /// The debug level the interpreter was made with.
    pub closed spec fn debug_level(&self) -> u8 {
        self.debug_level
    }
}

} // verus!
