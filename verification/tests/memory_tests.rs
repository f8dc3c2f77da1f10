// The memory lattice: neighbour tables, reads and writes, pointer moves.

use hexagony::memory::{Dir, Memory, Rot};
use rug::Integer;

/// A memory whose pointer sits on edge `e` of the hexagon at the origin or
/// next to it, with orientation `rot`.
fn at(e: Dir, rot: Rot) -> Memory {
    let mut mem = Memory::new();
    match e {
        Dir::E => (),
        Dir::NE => mem.move_left(),
        Dir::SE => mem.move_right(),
    }
    if rot == Rot::CW {
        mem.reverse();
    }
    assert_eq!(mem.pointer().2, e);
    assert_eq!(mem.rot(), rot);
    mem
}

#[test]
fn starts_on_the_east_edge_of_the_origin() {
    let mem = Memory::new();
    assert_eq!(mem.pointer(), (0, 0, Dir::E));
    assert_eq!(mem.rot(), Rot::CCW);
    assert_eq!(*mem.get(), 0);
    assert_eq!(*mem.get_left(), 0);
    assert_eq!(*mem.get_right(), 0);
    assert!(mem.entries().is_empty());
}

#[test]
fn left_neighbour_table() {
    let cases = [
        (Dir::NE, Rot::CCW, (0, -1, Dir::SE), Rot::CW),
        (Dir::NE, Rot::CW, (1, -1, Dir::SE), Rot::CCW),
        (Dir::E, Rot::CCW, (0, 0, Dir::NE), Rot::CCW),
        (Dir::E, Rot::CW, (0, 1, Dir::NE), Rot::CW),
        (Dir::SE, Rot::CCW, (0, 0, Dir::E), Rot::CCW),
        (Dir::SE, Rot::CW, (-1, 1, Dir::E), Rot::CW),
    ];
    for (e, rot, (dq, dr, to), to_rot) in cases {
        let mut mem = at(e, rot);
        let (q, r, _) = mem.pointer();
        mem.move_left();
        assert_eq!(mem.pointer(), (q + dq, r + dr, to));
        assert_eq!(mem.rot(), to_rot);
    }
}

#[test]
fn right_neighbour_table() {
    let cases = [
        (Dir::NE, Rot::CCW, (0, -1, Dir::E), Rot::CCW),
        (Dir::NE, Rot::CW, (0, 0, Dir::E), Rot::CW),
        (Dir::E, Rot::CCW, (1, -1, Dir::SE), Rot::CCW),
        (Dir::E, Rot::CW, (0, 0, Dir::SE), Rot::CW),
        (Dir::SE, Rot::CCW, (0, 1, Dir::NE), Rot::CW),
        (Dir::SE, Rot::CW, (-1, 1, Dir::NE), Rot::CCW),
    ];
    for (e, rot, (dq, dr, to), to_rot) in cases {
        let mut mem = at(e, rot);
        let (q, r, _) = mem.pointer();
        mem.move_right();
        assert_eq!(mem.pointer(), (q + dq, r + dr, to));
        assert_eq!(mem.rot(), to_rot);
    }
}

#[test]
fn set_then_get() {
    let mut mem = Memory::new();
    mem.set(Integer::from(42));
    assert_eq!(*mem.get(), 42);
    mem.set(Integer::from(-7));
    assert_eq!(*mem.get(), -7);
    assert_eq!(*mem.get_left(), 0);
    assert_eq!(*mem.get_right(), 0);
}

#[test]
fn neighbours_are_read_where_the_pointer_would_move() {
    let mut mem = Memory::new();
    mem.move_left();
    mem.set(Integer::from(7));
    mem.reverse();
    mem.move_right();
    mem.reverse();
    mem.move_right();
    mem.set(Integer::from(3));
    mem.reverse();
    mem.move_left();
    mem.reverse();
    assert_eq!(mem.pointer(), (0, 0, Dir::E));
    assert_eq!(mem.rot(), Rot::CCW);
    assert_eq!(*mem.get(), 0);
    assert_eq!(*mem.get_left(), 7);
    assert_eq!(*mem.get_right(), 3);
    mem.reverse();
    assert_eq!(*mem.get_left(), 0);
    assert_eq!(*mem.get_right(), 0);
}

#[test]
fn values_stay_where_they_were_written() {
    let mut mem = Memory::new();
    for step in 0..50 {
        mem.set(Integer::from(step + 1));
        if step % 3 == 0 {
            mem.move_left();
        } else {
            mem.move_right();
        }
    }
    let entries = mem.entries();
    for (n, (at, _)) in entries.iter().enumerate() {
        for (other, _) in &entries[n + 1..] {
            assert_ne!(at, other);
        }
    }
    let mut back = Memory::new();
    let mut seen = 0;
    for step in 0..50 {
        let here = back.pointer();
        let value = &entries.iter().find(|(at, _)| *at == here).unwrap().1;
        let mut latest = 0;
        let mut walk = Memory::new();
        for again in 0..50 {
            if walk.pointer() == here {
                latest = again + 1;
            }
            if again % 3 == 0 {
                walk.move_left();
            } else {
                walk.move_right();
            }
        }
        assert_eq!(*value, latest);
        seen += 1;
        if step % 3 == 0 {
            back.move_left();
        } else {
            back.move_right();
        }
    }
    assert_eq!(seen, 50);
}

#[test]
fn get_mut_writes_through() {
    let mut mem = Memory::new();
    *mem.get_mut() += 5;
    assert_eq!(*mem.get(), 5);
    *mem.get_mut() *= -3;
    assert_eq!(*mem.get(), -15);
    mem.move_left();
    assert_eq!(*mem.get_mut(), 0);
    assert_eq!(mem.entries().len(), 2);
}

#[test]
fn reverse_twice_is_identity() {
    for e in [Dir::NE, Dir::E, Dir::SE] {
        for rot in [Rot::CW, Rot::CCW] {
            let mut mem = at(e, rot);
            let before = mem.pointer();
            mem.reverse();
            assert_ne!(mem.rot(), rot);
            assert_eq!(mem.pointer(), before);
            mem.reverse();
            assert_eq!(mem.rot(), rot);
            assert_eq!(mem.pointer(), before);
        }
    }
}

fn back_left(mem: &mut Memory) {
    mem.reverse();
    mem.move_right();
    mem.reverse();
}

fn back_right(mem: &mut Memory) {
    mem.reverse();
    mem.move_left();
    mem.reverse();
}

#[test]
fn moving_back_undoes_a_move() {
    for e in [Dir::NE, Dir::E, Dir::SE] {
        for rot in [Rot::CW, Rot::CCW] {
            let mut mem = at(e, rot);
            let before = mem.pointer();
            mem.move_left();
            back_left(&mut mem);
            assert_eq!((mem.pointer(), mem.rot()), (before, rot));
            mem.move_right();
            back_right(&mut mem);
            assert_eq!((mem.pointer(), mem.rot()), (before, rot));
            back_left(&mut mem);
            mem.move_left();
            assert_eq!((mem.pointer(), mem.rot()), (before, rot));
            back_right(&mut mem);
            mem.move_right();
            assert_eq!((mem.pointer(), mem.rot()), (before, rot));
        }
    }
}

#[test]
fn left_then_right_is_another_edge() {
    for e in [Dir::NE, Dir::E, Dir::SE] {
        for rot in [Rot::CW, Rot::CCW] {
            let mut mem = at(e, rot);
            let before = mem.pointer();
            mem.move_left();
            mem.move_right();
            assert_ne!(mem.pointer(), before);
        }
    }
    let mut mem = Memory::new();
    mem.move_left();
    mem.move_right();
    assert_eq!(mem.pointer(), (0, -1, Dir::E));
}

#[test]
fn moving_back_keeps_the_orientation_except_across_one_edge() {
    for e in [Dir::NE, Dir::E, Dir::SE] {
        for rot in [Rot::CW, Rot::CCW] {
            let mut mem = at(e, rot);
            back_left(&mut mem);
            assert_eq!(mem.rot() == rot, e != Dir::SE);
            let mut mem = at(e, rot);
            back_right(&mut mem);
            assert_eq!(mem.rot() == rot, e != Dir::NE);
        }
    }
}

#[test]
fn edge_names() {
    assert_eq!(Dir::NE.name(), "NE");
    assert_eq!(Dir::E.name(), "E");
    assert_eq!(Dir::SE.name(), "SE");
}

#[test]
fn far_from_the_origin() {
    let mut mem = Memory::new();
    for _ in 0..100_000 {
        mem.move_left();
        mem.move_right();
    }
    mem.set(Integer::from(9));
    let here = mem.pointer();
    assert_eq!(here, (0, -100_000, Dir::E));
    for _ in 0..100_000 {
        back_right(&mut mem);
        back_left(&mut mem);
    }
    assert_eq!(mem.pointer(), (0, 0, Dir::E));
    assert_eq!(*mem.get(), 0);
    assert_eq!(mem.entries(), vec![(here, Integer::from(9))]);
}

#[test]
fn turning_right_six_times_walks_round_a_hexagon() {
    let mut mem = Memory::new();
    for step in 1..=6 {
        mem.move_right();
        assert_eq!(mem.pointer() == (0, 0, Dir::E), step == 6);
    }
    assert_eq!(mem.rot(), Rot::CCW);
}
