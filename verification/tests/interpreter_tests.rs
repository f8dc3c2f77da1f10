// Single instructions and the run loop, observed through output and through
// the interpreter's state.
//
// The first IP starts in the top left corner and heads east.  Leaving the
// top row at its east end, it enters the middle row at its west end.

use hexagony::coords::PointAxial;
use hexagony::direction::Direction;
use hexagony::interpreter::{advance, scan_int, Hexagony, Scanned, Status};
use hexagony::machine::InputEnd;
use hexagony::memory::{Dir, Rot};
use hexagony::op::Op;
use hexagony::{run, Error};
use std::io;

/// Source text of side length 6 whose top and middle rows hold `program`,
/// followed by a terminate instruction; every other cell is a no-op.
fn linear(program: &str) -> String {
    let ops: Vec<char> = program.chars().filter(|c| !c.is_whitespace()).collect();
    assert!(ops.len() < 17);
    let mut cells = vec!['.'; 91];
    for (n, op) in ops.iter().enumerate() {
        // cells 0..6 are the top row, cells 40..51 the middle row
        cells[if n < 6 { n } else { 34 + n }] = *op;
    }
    cells[if ops.len() < 6 { ops.len() } else { 34 + ops.len() }] = '@';
    cells.into_iter().collect()
}

fn output(program: &str, input: &[u8]) -> String {
    let (out, res) = run(&linear(program), input, 1000);
    assert!(matches!(res, Ok(Status::Halted)), "{:?}", res);
    String::from_utf8(out).unwrap()
}

fn machine(program: &str) -> Hexagony {
    let mut h = Hexagony::new(&linear(program), 0).unwrap();
    h.close_input();
    h
}

// Sets the left neighbour to 7 and the right neighbour to 3, with `a` and
// `b` carried out after the respective digit.
fn around(a: &str, b: &str, then: &str) -> String {
    format!("{{7{}\"}}3{}'{}", a, b, then)
}

#[test]
fn layout_helper_runs_in_reading_order() {
    assert_eq!(output("1!2!3!4!5!6!7!8!", b""), "112123123412345123456123456712345678");
}

#[test]
fn starting_state() {
    let h = Hexagony::new(&".".repeat(19), 0).unwrap();
    assert_eq!(h.grid().size(), 3);
    assert_eq!(h.active(), 0);
    assert_eq!(h.ticks(), 0);
    let corners = [
        ((0, -2), Direction::East),
        ((2, -2), Direction::SouthEast),
        ((2, 0), Direction::SouthWest),
        ((0, 2), Direction::West),
        ((-2, 2), Direction::NorthWest),
        ((-2, 0), Direction::NorthEast),
    ];
    for (i, ((q, r), dir)) in corners.iter().enumerate() {
        assert_eq!(h.ip(i).coords, PointAxial(*q, *r));
        assert_eq!(h.ip(i).dir, *dir);
    }
    assert_eq!(h.memory().pointer(), (0, 0, Dir::E));
    assert_eq!(h.memory().rot(), Rot::CCW);
    assert!(h.memory().entries().is_empty());
}

#[test]
fn starting_state_on_the_smallest_grid() {
    let h = Hexagony::new("", 0).unwrap();
    assert_eq!(h.grid().size(), 1);
    for i in 0..6 {
        assert_eq!(h.ip(i).coords, PointAxial(0, 0));
    }
    assert_eq!(h.fetch(), (Op::Nop, false));
}

#[test]
fn letter_sets_the_edge_to_its_code() {
    assert_eq!(output("a!", b""), "97");
    assert_eq!(output("Z!", b""), "90");
    assert_eq!(output("7z!", b""), "122");
}

#[test]
fn digit_appends_to_the_edge() {
    assert_eq!(output("0!", b""), "0");
    assert_eq!(output("9!", b""), "9");
    assert_eq!(output("120!", b""), "120");
    assert_eq!(output("a5!", b""), "975");
}

#[test]
fn digit_on_a_negative_edge() {
    assert_eq!(output("(5!", b""), "-5");
    assert_eq!(output("3~2!", b""), "-28");
    assert_eq!(output("((0!", b""), "-20");
}

#[test]
fn increment_decrement_negate() {
    assert_eq!(output(")!", b""), "1");
    assert_eq!(output("(!", b""), "-1");
    assert_eq!(output(")))(!", b""), "2");
    assert_eq!(output("5~!", b""), "-5");
    assert_eq!(output("5~~!", b""), "5");
    assert_eq!(output("~!", b""), "0");
}

#[test]
fn add_subtract_multiply() {
    assert_eq!(output(&around("", "", "+!"), b""), "10");
    assert_eq!(output(&around("", "", "-!"), b""), "4");
    assert_eq!(output(&around("", "", "*!"), b""), "21");
    assert_eq!(output(&around("~", "", "+!"), b""), "-4");
    assert_eq!(output(&around("~", "", "-!"), b""), "-10");
    assert_eq!(output(&around("~", "~", "*!"), b""), "21");
    assert_eq!(output(&around("", "~", "*!"), b""), "-21");
    assert_eq!(output(&around("", "", "9+!"), b""), "10");
}

#[test]
fn divide_rounds_down() {
    assert_eq!(output(&around("", "", ":!"), b""), "2");
    assert_eq!(output(&around("~", "", ":!"), b""), "-3");
    assert_eq!(output(&around("", "~", ":!"), b""), "-3");
    assert_eq!(output(&around("~", "~", ":!"), b""), "2");
}

#[test]
fn modulo_takes_the_sign_of_the_right_neighbour() {
    assert_eq!(output(&around("", "", "%!"), b""), "1");
    assert_eq!(output(&around("~", "", "%!"), b""), "2");
    assert_eq!(output(&around("", "~", "%!"), b""), "-2");
    assert_eq!(output(&around("~", "~", "%!"), b""), "-1");
}

#[test]
fn division_by_zero_keeps_earlier_output() {
    for op in [":", "%"] {
        let (out, res) = run(&linear(&format!("{{7!\"{}!", op)), b"", 1000);
        assert_eq!(out, b"7".to_vec());
        assert!(matches!(res, Err(Error::ZeroDivisionError)));
    }
}

#[test]
fn zero_divided_is_zero() {
    assert_eq!(output("}3':!", b""), "0");
    assert_eq!(output("}3'%!", b""), "0");
}

#[test]
fn numbers_grow_past_machine_words() {
    assert_eq!(output("1234567890123!", b""), "1234567890123");
    assert_eq!(
        output("{?\"}?'*!", b"123456789012345678901234567890 -1000000000000"),
        "-123456789012345678901234567890000000000000"
    );
    assert_eq!(
        output("{?\"}?'+!", b"18446744073709551615 1"),
        "18446744073709551616"
    );
    assert_eq!(
        output("{?\"}?':!", b"-100000000000000000000000000000 3"),
        "-33333333333333333333333333334"
    );
    assert_eq!(
        output("{?\"}?'%!", b"-100000000000000000000000000000 3"),
        "2"
    );
}

#[test]
fn read_byte() {
    assert_eq!(output(",!", b"A"), "65");
    assert_eq!(output(",!", b"\xff"), "255");
    assert_eq!(output(",!", b"\0"), "0");
    assert_eq!(output(",!,!,!", b"ab"), "9798-1");
    assert_eq!(output(",;,;", b"hi"), "hi");
}

#[test]
fn read_byte_at_end_of_input() {
    assert_eq!(output(",!", b""), "-1");
    assert_eq!(output("5,!,!", b""), "-1-1");
}

#[test]
fn read_int() {
    assert_eq!(output("?!", b"42"), "42");
    assert_eq!(output("?!", b"0"), "0");
    assert_eq!(output("?!", b"007"), "7");
    assert_eq!(output("?!", b"  -17abc"), "-17");
    assert_eq!(output("?!", b"+5"), "5");
    assert_eq!(output("?!", b"x+5"), "5");
    assert_eq!(output("?!", b"--5"), "0");
    assert_eq!(output("?!", b"123456789012345678901234567890 "), "123456789012345678901234567890");
    assert_eq!(output("9?!", b"3"), "3");
}

#[test]
fn read_int_without_a_number() {
    assert_eq!(output("9?!", b""), "0");
    assert_eq!(output("9?!", b"abc"), "0");
    assert_eq!(output("9?!", b"+"), "0");
    assert_eq!(output("9?!", b"-"), "0");
    assert_eq!(output("9?!", b"+x1"), "0");
    assert_eq!(output("9?!", b"-x1"), "0");
}

#[test]
fn read_int_leaves_what_follows_the_number() {
    assert_eq!(output("?!?!", b"12 34"), "1234");
    assert_eq!(output("?!,!", b"7a"), "797");
    assert_eq!(output("?!?!", b"1-2"), "1-2");
    assert_eq!(output("?!?!", b"+-3"), "0-3");
    assert_eq!(output("?!?!", b"--5"), "0-5");
    assert_eq!(output("?!?!?!", b"+x1"), "010");
    assert_eq!(output("?!,!", b"abc"), "0-1");
    assert_eq!(output("?!,;", b"5+"), "5+");
}

#[test]
fn write_byte_takes_the_value_modulo_256() {
    let bytes = |program: &str| run(&linear(program), b"", 1000).0;
    assert_eq!(bytes("A;"), vec![65]);
    assert_eq!(bytes("321;"), vec![65]);
    assert_eq!(bytes("(;"), vec![255]);
    assert_eq!(bytes("256;"), vec![0]);
    assert_eq!(bytes("257~;"), vec![255]);
    assert_eq!(bytes(";"), vec![0]);
    assert_eq!(bytes("200;"), vec![200]);
}

#[test]
fn write_int() {
    assert_eq!(output("!", b""), "0");
    assert_eq!(output("10!", b""), "10");
    assert_eq!(output("10~!", b""), "-10");
    assert_eq!(output("1!!", b""), "11");
}

#[test]
fn jump_skips_a_cell() {
    assert_eq!(output("1$2!", b""), "1");
    assert_eq!(output("$@1!", b""), "1");
    assert_eq!(output("$$1!", b""), "1");
    let mut h = machine("$12");
    assert!(matches!(h.step(), Ok(Status::Running)));
    assert_eq!(h.ip(0).coords, PointAxial(2, -5));
    assert_eq!(h.ticks(), 1);
}

#[test]
fn jump_wraps_like_any_step() {
    // The jump sits at the east end of the top row: the first step wraps to
    // the west end of the middle row, the second goes on from there.
    let mut h = machine(".....$12!");
    assert!(matches!(h.run(6), Ok(Status::Running)));
    assert_eq!(h.ip(0).coords, PointAxial(-4, 0));
    assert!(matches!(h.run(100), Ok(Status::Halted)));
    assert_eq!(h.take_output(), b"2".to_vec());
}

#[test]
fn redirect_turns_the_active_ip() {
    let cases = [
        ("_", Direction::East, (1, -5)),
        // west out of the north-west corner: y alone out of range
        ("|", Direction::West, (5, 0)),
        // north-west out of the north-west corner, edge not positive
        ("/", Direction::NorthWest, (-5, 5)),
        ("\\", Direction::SouthWest, (-1, -4)),
        // north-east out of the top row: z alone out of range
        ("<", Direction::NorthEast, (-5, 5)),
        (")<", Direction::SouthEast, (1, -4)),
        (">", Direction::West, (5, 0)),
    ];
    for (program, dir, (q, r)) in cases {
        let mut h = machine(program);
        let ticks = program.chars().count() as u64;
        assert!(matches!(h.run(ticks), Ok(Status::Running)));
        assert_eq!(h.ip(0).dir, dir, "{}", program);
        assert_eq!(h.ip(0).coords, PointAxial(q, r), "{}", program);
    }
}

#[test]
fn ip_switches_take_effect_after_the_move() {
    let mut h = machine("]");
    assert!(matches!(h.step(), Ok(Status::Running)));
    assert_eq!(h.active(), 1);
    assert_eq!(h.ip(0).coords, PointAxial(1, -5));
    assert_eq!(h.ip(1).coords, PointAxial(5, -5));
    assert!(matches!(h.step(), Ok(Status::Running)));
    assert_eq!(h.ip(1).coords, PointAxial(5, -4));
    assert_eq!(h.ip(1).dir, Direction::SouthEast);
    let mut h = machine("[");
    assert!(matches!(h.step(), Ok(Status::Running)));
    assert_eq!(h.active(), 5);
    assert_eq!(h.ip(0).coords, PointAxial(1, -5));
    assert!(matches!(h.step(), Ok(Status::Running)));
    assert_eq!(h.ip(5).coords, PointAxial(-4, -1));
}

#[test]
fn ip_select_takes_the_value_modulo_six() {
    for (program, index) in [("#", 0), ("3#", 3), ("5#", 5), ("6#", 0), ("7#", 1), ("(#", 5), ("7~#", 5), ("6~#", 0), ("13~#", 5)] {
        let mut h = machine(program);
        let ticks = program.chars().count() as u64;
        assert!(matches!(h.run(ticks), Ok(Status::Running)));
        assert_eq!(h.active(), index, "{}", program);
    }
}

#[test]
fn ip_prev_and_next_wrap_round() {
    // From IP 5, which starts at the west corner heading north-east, `]`
    // leads back to IP 0.
    let mut cells = vec!['.'; 19];
    cells[0] = '[';
    cells[7] = ']';
    let src: String = cells.into_iter().collect();
    let mut h = Hexagony::new(&src, 0).unwrap();
    assert!(matches!(h.step(), Ok(Status::Running)));
    assert_eq!(h.active(), 5);
    assert_eq!(h.fetch().0, Op::IPNext);
    assert!(matches!(h.step(), Ok(Status::Running)));
    assert_eq!(h.active(), 0);
    assert_eq!(h.ip(5).coords, PointAxial(-1, -1));
}

#[test]
fn memory_pointer_moves() {
    let cases = [
        ("{", (0, 0, Dir::NE), Rot::CCW),
        ("}", (1, -1, Dir::SE), Rot::CCW),
        ("=", (0, 0, Dir::E), Rot::CW),
        ("\"", (0, 0, Dir::SE), Rot::CCW),
        ("'", (0, 1, Dir::NE), Rot::CCW),
        ("^", (0, 0, Dir::NE), Rot::CCW),
        (")^", (1, -1, Dir::SE), Rot::CCW),
        ("(^", (0, 0, Dir::NE), Rot::CCW),
        ("{\"", (0, 0, Dir::E), Rot::CCW),
        ("}'", (0, 0, Dir::E), Rot::CCW),
        ("==", (0, 0, Dir::E), Rot::CCW),
    ];
    for (program, at, rot) in cases {
        let mut h = machine(program);
        let ticks = program.chars().count() as u64;
        assert!(matches!(h.run(ticks), Ok(Status::Running)));
        assert_eq!(h.memory().pointer(), at, "{}", program);
        assert_eq!(h.memory().rot(), rot, "{}", program);
    }
}

#[test]
fn mem_copy_takes_right_if_positive_else_left() {
    assert_eq!(output(&around("", "", "1&!"), b""), "3");
    assert_eq!(output(&around("", "", "&!"), b""), "7");
    assert_eq!(output(&around("", "", "(&!"), b""), "7");
    assert_eq!(output(&around("", "", "1&!{!"), b""), "37");
}

#[test]
fn nop_only_moves_the_ip() {
    let mut h = machine(".");
    assert!(matches!(h.step(), Ok(Status::Running)));
    assert_eq!(h.ticks(), 1);
    assert_eq!(h.active(), 0);
    assert_eq!(h.ip(0).coords, PointAxial(1, -5));
    assert!(h.memory().entries().is_empty());
    assert!(h.take_output().is_empty());
}

#[test]
fn terminate_does_not_move_or_count() {
    let mut h = machine("1");
    assert!(matches!(h.run(100), Ok(Status::Halted)));
    assert_eq!(h.ticks(), 1);
    assert_eq!(h.ip(0).coords, PointAxial(1, -5));
    assert!(matches!(h.step(), Ok(Status::Halted)));
    assert!(matches!(h.run(5), Ok(Status::Halted)));
    assert_eq!(h.ticks(), 1);
}

#[test]
fn ips_stay_on_the_grid() {
    let src = "\\_/|<>)$#]([{}\"'=^&~+-*.+/\\_|<>$#][)(.$";
    let mut h = Hexagony::new(src, 0).unwrap();
    h.close_input();
    let side = h.grid().size() as isize;
    for _ in 0..20_000 {
        match h.step() {
            Ok(Status::Running) => (),
            _ => break,
        }
        for i in 0..6 {
            let PointAxial(q, r) = h.ip(i).coords;
            assert!(q.abs() < side && r.abs() < side && (q + r).abs() < side);
        }
        assert!(h.active() < 6);
    }
    assert!(h.ticks() > 100);
}

#[test]
fn advance_inside_the_grid() {
    assert_eq!(advance(PointAxial(0, 0), Direction::East, 3, false), PointAxial(1, 0));
    assert_eq!(advance(PointAxial(0, 0), Direction::NorthEast, 3, false), PointAxial(1, -1));
    assert_eq!(advance(PointAxial(0, 0), Direction::NorthWest, 3, true), PointAxial(0, -1));
    assert_eq!(advance(PointAxial(0, 0), Direction::West, 3, true), PointAxial(-1, 0));
    assert_eq!(advance(PointAxial(0, 0), Direction::SouthWest, 3, true), PointAxial(-1, 1));
    assert_eq!(advance(PointAxial(1, 1), Direction::SouthEast, 4, true), PointAxial(1, 2));
}

#[test]
fn advance_across_an_edge() {
    for positive in [true, false] {
        // z alone out of range: (q + r, -r)
        assert_eq!(advance(PointAxial(1, -2), Direction::NorthWest, 3, positive), PointAxial(-1, 2));
        // y alone out of range: (-r, -q)
        assert_eq!(advance(PointAxial(1, 1), Direction::SouthEast, 3, positive), PointAxial(-1, -1));
        // x alone out of range: (-q, q + r)
        assert_eq!(advance(PointAxial(2, -1), Direction::East, 3, positive), PointAxial(-2, 1));
    }
}

#[test]
fn advance_out_of_a_corner() {
    // East corner heading east: x and y out of range.
    assert_eq!(advance(PointAxial(2, 0), Direction::East, 3, true), PointAxial(-2, 2));
    assert_eq!(advance(PointAxial(2, 0), Direction::East, 3, false), PointAxial(0, -2));
    // North-east corner heading north-east: x and z out of range.
    assert_eq!(advance(PointAxial(2, -2), Direction::NorthEast, 3, true), PointAxial(0, 2));
    assert_eq!(advance(PointAxial(2, -2), Direction::NorthEast, 3, false), PointAxial(-2, 0));
    // North-west corner heading north-west: y and z out of range.
    assert_eq!(advance(PointAxial(0, -2), Direction::NorthWest, 3, true), PointAxial(2, 0));
    assert_eq!(advance(PointAxial(0, -2), Direction::NorthWest, 3, false), PointAxial(-2, 2));
    // The opposite corners.
    assert_eq!(advance(PointAxial(-2, 0), Direction::West, 3, true), PointAxial(2, -2));
    assert_eq!(advance(PointAxial(-2, 0), Direction::West, 3, false), PointAxial(0, 2));
    assert_eq!(advance(PointAxial(-2, 2), Direction::SouthWest, 3, true), PointAxial(0, -2));
    assert_eq!(advance(PointAxial(-2, 2), Direction::SouthWest, 3, false), PointAxial(2, 0));
    assert_eq!(advance(PointAxial(0, 2), Direction::SouthEast, 3, true), PointAxial(-2, 0));
    assert_eq!(advance(PointAxial(0, 2), Direction::SouthEast, 3, false), PointAxial(2, -2));
}

#[test]
fn advance_on_the_smallest_grid_never_moves() {
    for dir in [
        Direction::NorthEast,
        Direction::NorthWest,
        Direction::West,
        Direction::SouthWest,
        Direction::SouthEast,
        Direction::East,
    ] {
        for positive in [true, false] {
            assert_eq!(advance(PointAxial(0, 0), dir, 1, positive), PointAxial(0, 0));
        }
    }
}

#[test]
fn waits_for_input_that_has_not_been_fed() {
    let mut h = Hexagony::new(&linear("1!,;,;"), 0).unwrap();
    assert!(matches!(h.run(100), Ok(Status::AwaitingInput)));
    assert_eq!(h.ticks(), 2);
    assert_eq!(h.take_output(), b"1".to_vec());
    assert!(matches!(h.step(), Ok(Status::AwaitingInput)));
    assert_eq!(h.ticks(), 2);
    h.feed(b"x");
    assert!(matches!(h.run(100), Ok(Status::AwaitingInput)));
    assert_eq!(h.take_output(), b"x".to_vec());
    h.feed(b"");
    assert!(matches!(h.run(100), Ok(Status::AwaitingInput)));
    h.feed(b"yz");
    assert!(matches!(h.run(100), Ok(Status::Halted)));
    assert_eq!(h.take_output(), b"y".to_vec());
}

#[test]
fn read_int_waits_for_the_end_of_the_number() {
    let mut h = Hexagony::new(&linear("?!,;"), 0).unwrap();
    assert!(matches!(h.run(100), Ok(Status::AwaitingInput)));
    h.feed(b"  ");
    assert!(matches!(h.run(100), Ok(Status::AwaitingInput)));
    h.feed(b"-");
    assert!(matches!(h.run(100), Ok(Status::AwaitingInput)));
    h.feed(b"12");
    assert!(matches!(h.run(100), Ok(Status::AwaitingInput)));
    assert_eq!(h.ticks(), 0);
    assert!(h.memory().entries().is_empty());
    h.feed(b"3\n");
    assert!(matches!(h.run(100), Ok(Status::Halted)));
    assert_eq!(h.take_output(), b"-123\n".to_vec());
}

#[test]
fn read_int_ends_a_number_at_the_end_of_input() {
    let mut h = Hexagony::new(&linear("?!"), 0).unwrap();
    h.feed(b"12");
    assert!(matches!(h.run(100), Ok(Status::AwaitingInput)));
    h.close_input();
    assert!(matches!(h.run(100), Ok(Status::Halted)));
    assert_eq!(h.take_output(), b"12".to_vec());
}

#[test]
fn bytes_fed_after_the_end_are_dropped() {
    let mut h = Hexagony::new(&linear(",!,!"), 0).unwrap();
    h.feed(b"a");
    h.close_input();
    h.feed(b"b");
    h.fail_input(io::Error::new(io::ErrorKind::Other, "late"));
    assert!(matches!(h.run(100), Ok(Status::Halted)));
    assert_eq!(h.take_output(), b"97-1".to_vec());
}

#[test]
fn failed_input_is_reported_where_a_byte_is_needed() {
    let mut h = Hexagony::new(&linear(",;,;,;"), 0).unwrap();
    h.feed(b"ok");
    h.fail_input(io::Error::new(io::ErrorKind::BrokenPipe, "pipe closed"));
    match h.run(100) {
        Err(Error::IOError(e)) => {
            assert_eq!(e.kind(), io::ErrorKind::BrokenPipe);
            assert_eq!(e.to_string(), "pipe closed");
        }
        other => panic!("{:?}", other),
    }
    assert_eq!(h.take_output(), b"ok".to_vec());
    assert_eq!(h.ticks(), 4);
}

#[test]
fn failed_input_ends_a_number_and_is_reported_by_the_next_read() {
    let mut h = Hexagony::new(&linear("?!?!"), 0).unwrap();
    h.feed(b"12");
    h.fail_input(io::Error::new(io::ErrorKind::TimedOut, "too slow"));
    match h.run(100) {
        Err(e) => {
            assert!(matches!(&e, Error::IOError(inner) if inner.kind() == io::ErrorKind::TimedOut));
            assert_eq!(e.message(), "too slow");
        }
        other => panic!("{:?}", other),
    }
    assert_eq!(h.take_output(), b"12".to_vec());
}

#[test]
fn failed_input_before_a_number_is_reported_by_read_int() {
    let mut h = Hexagony::new(&linear("1!?!"), 0).unwrap();
    h.feed(b"  ");
    h.fail_input(io::Error::new(io::ErrorKind::UnexpectedEof, "gone"));
    assert!(matches!(h.run(100), Err(Error::IOError(_))));
    assert_eq!(h.take_output(), b"1".to_vec());
}

#[test]
fn tracing_follows_the_debug_level() {
    let src = "`1 2 `3 . . . .";
    let wanted = |level: u8| {
        let mut h = Hexagony::new(src, level).unwrap();
        let mut seen = Vec::new();
        for _ in 0..2 {
            seen.push(h.trace_wanted());
            assert!(matches!(h.step(), Ok(Status::Running)));
        }
        seen.push(h.trace_wanted());
        seen
    };
    assert_eq!(wanted(0), vec![false, false, false]);
    assert_eq!(wanted(1), vec![true, false, true]);
    assert_eq!(wanted(2), vec![true, true, true]);
    assert_eq!(wanted(3), vec![true, true, true]);
}

#[test]
fn debug_flags_do_not_change_what_a_program_does() {
    let plain = run("48!@", b"", 100);
    let flagged = run("`4`8`!`@", b"", 100);
    assert_eq!(plain.0, flagged.0);
    assert!(matches!(flagged.1, Ok(Status::Halted)));
}

#[test]
fn error_messages() {
    assert_eq!(
        Error::SyntaxError('\u{e9}').message(),
        "Unrecognized character in source code: \u{e9}"
    );
    assert_eq!(Error::ZeroDivisionError.message(), "Division by zero");
    let e = Error::from(io::Error::new(io::ErrorKind::Other, "disk on fire"));
    assert!(matches!(e, Error::IOError(_)));
    assert_eq!(e.message(), "disk on fire");
}


#[test]
fn input_in_pieces_gives_the_same_run() {
    let program = "?!,;?!,;?!,;";
    let input: &[u8] = b"x 12,-7y+3+  ";
    let (whole, res) = run(&linear(program), input, 1000);
    assert!(matches!(res, Ok(Status::Halted)));
    assert_eq!(whole, b"12,-7y3+".to_vec());
    for cut in 0..=input.len() {
        for second in cut..=input.len() {
            let mut h = Hexagony::new(&linear(program), 0).unwrap();
            let mut out = Vec::new();
            for piece in [&input[..cut], &input[cut..second], &input[second..]] {
                h.feed(piece);
                assert!(!matches!(h.run(1000), Err(_)));
                out.extend(h.take_output());
            }
            h.close_input();
            assert!(matches!(h.run(1000), Ok(Status::Halted)));
            out.extend(h.take_output());
            assert_eq!(out, whole);
            assert_eq!(h.ticks(), 12);
        }
    }
}

#[test]
fn scanning_an_integer() {
    let done = |input: &[u8], from: usize, end: InputEnd| match scan_int(&input.to_vec(), from, end) {
        Scanned::Done(value, used) => Some((value.to_i64().unwrap(), used)),
        _ => None,
    };
    assert_eq!(done(b"12 ", 0, InputEnd::Open), Some((12, 2)));
    assert_eq!(done(b"12 ", 1, InputEnd::Open), Some((2, 1)));
    assert_eq!(done(b"12 ", 2, InputEnd::Eof), Some((0, 1)));
    assert_eq!(done(b"12 ", 3, InputEnd::Eof), Some((0, 0)));
    assert_eq!(done(b"ab-40;", 0, InputEnd::Open), Some((-40, 5)));
    assert_eq!(done(b"+-40;", 0, InputEnd::Open), Some((0, 1)));
    assert_eq!(done(b"12", 0, InputEnd::Eof), Some((12, 2)));
    assert_eq!(done(b"12", 0, InputEnd::Failed), Some((12, 2)));
    assert_eq!(done(b"-", 0, InputEnd::Failed), Some((0, 1)));
    assert!(matches!(scan_int(&b"12".to_vec(), 0, InputEnd::Open), Scanned::Starved));
    assert!(matches!(scan_int(&b"-".to_vec(), 0, InputEnd::Open), Scanned::Starved));
    assert!(matches!(scan_int(&b"  ".to_vec(), 0, InputEnd::Open), Scanned::Starved));
    assert!(matches!(scan_int(&b"".to_vec(), 0, InputEnd::Open), Scanned::Starved));
    assert!(matches!(scan_int(&b"  ".to_vec(), 0, InputEnd::Failed), Scanned::Failed));
    assert!(matches!(scan_int(&b"".to_vec(), 0, InputEnd::Failed), Scanned::Failed));
}
