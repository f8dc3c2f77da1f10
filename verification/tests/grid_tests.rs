// The source grid: side lengths, cell placement, parsing and rendering.

use hexagony::coords::PointAxial;
use hexagony::direction::Redirect;
use hexagony::grid::{side_length, Grid};
use hexagony::op::{is_whitespace, Op};
use hexagony::{source_template, Error};

fn hex_cells(side: usize) -> usize {
    3 * side * (side - 1) + 1
}

fn parse(src: &str) -> Grid {
    match Grid::from_str(src) {
        Ok(grid) => grid,
        Err(e) => panic!("{}", e.message()),
    }
}

#[test]
fn side_length_is_the_smallest_that_fits() {
    for n in 0..5000 {
        let side = side_length(n);
        assert!(side >= 1);
        assert!(hex_cells(side) >= n);
        if side > 1 {
            assert!(hex_cells(side - 1) < n);
        }
    }
}

#[test]
fn side_length_at_the_steps() {
    assert_eq!(side_length(0), 1);
    assert_eq!(side_length(1), 1);
    assert_eq!(side_length(2), 2);
    assert_eq!(side_length(7), 2);
    assert_eq!(side_length(8), 3);
    assert_eq!(side_length(19), 3);
    assert_eq!(side_length(20), 4);
    assert_eq!(side_length(37), 4);
    assert_eq!(side_length(38), 5);
    assert_eq!(side_length(2_997_001), 1000);
    assert_eq!(side_length(2_997_002), 1001);
    assert_eq!(side_length(3_003_001), 1001);
    assert_eq!(side_length(3_003_002), 1002);
}

#[test]
fn parsed_side_length_counts_instructions_only() {
    assert_eq!(parse("").size(), 1);
    assert_eq!(parse(" \n\t").size(), 1);
    assert_eq!(parse(".").size(), 1);
    assert_eq!(parse(" ` . \n").size(), 1);
    assert_eq!(parse("..").size(), 2);
    assert_eq!(parse(". . . . . . .").size(), 2);
    assert_eq!(parse("`.`.`.`.`.`.`.").size(), 2);
    assert_eq!(parse("........").size(), 3);
    assert_eq!(parse(&".".repeat(19)).size(), 3);
    assert_eq!(parse(&". ".repeat(20)).size(), 4);
}

#[test]
fn cells_are_filled_row_by_row() {
    let grid = parse("abcdefg");
    assert_eq!(grid.size(), 2);
    assert_eq!(grid.get(PointAxial(0, -1)), (Op::Letter(b'a'), false));
    assert_eq!(grid.get(PointAxial(1, -1)), (Op::Letter(b'b'), false));
    assert_eq!(grid.get(PointAxial(-1, 0)), (Op::Letter(b'c'), false));
    assert_eq!(grid.get(PointAxial(0, 0)), (Op::Letter(b'd'), false));
    assert_eq!(grid.get(PointAxial(1, 0)), (Op::Letter(b'e'), false));
    assert_eq!(grid.get(PointAxial(-1, 1)), (Op::Letter(b'f'), false));
    assert_eq!(grid.get(PointAxial(0, 1)), (Op::Letter(b'g'), false));
}

#[test]
fn cells_of_a_side_three_grid() {
    let grid = parse("0123456789abcdefghi");
    assert_eq!(grid.size(), 3);
    // top row
    assert_eq!(grid.get(PointAxial(0, -2)).0, Op::Digit(0));
    assert_eq!(grid.get(PointAxial(2, -2)).0, Op::Digit(2));
    // second row
    assert_eq!(grid.get(PointAxial(-1, -1)).0, Op::Digit(3));
    assert_eq!(grid.get(PointAxial(2, -1)).0, Op::Digit(6));
    // middle row
    assert_eq!(grid.get(PointAxial(-2, 0)).0, Op::Digit(7));
    assert_eq!(grid.get(PointAxial(0, 0)).0, Op::Digit(9));
    assert_eq!(grid.get(PointAxial(2, 0)).0, Op::Letter(b'b'));
    // fourth row
    assert_eq!(grid.get(PointAxial(-2, 1)).0, Op::Letter(b'c'));
    assert_eq!(grid.get(PointAxial(1, 1)).0, Op::Letter(b'f'));
    // bottom row
    assert_eq!(grid.get(PointAxial(-2, 2)).0, Op::Letter(b'g'));
    assert_eq!(grid.get(PointAxial(0, 2)).0, Op::Letter(b'i'));
}

#[test]
fn cells_past_the_text_are_plain_nops() {
    let grid = parse("`a`b");
    assert_eq!(grid.size(), 2);
    assert_eq!(grid.get(PointAxial(0, -1)), (Op::Letter(b'a'), true));
    assert_eq!(grid.get(PointAxial(1, -1)), (Op::Letter(b'b'), true));
    for &(q, r) in &[(-1, 0), (0, 0), (1, 0), (-1, 1), (0, 1)] {
        assert_eq!(grid.get(PointAxial(q, r)), (Op::Nop, false));
    }
}

#[test]
fn backtick_flags_the_next_instruction_only() {
    let grid = parse("`a b ` \n c ``d e`");
    assert_eq!(grid.size(), 2);
    assert_eq!(grid.get(PointAxial(0, -1)), (Op::Letter(b'a'), true));
    assert_eq!(grid.get(PointAxial(1, -1)), (Op::Letter(b'b'), false));
    assert_eq!(grid.get(PointAxial(-1, 0)), (Op::Letter(b'c'), true));
    assert_eq!(grid.get(PointAxial(0, 0)), (Op::Letter(b'd'), true));
    assert_eq!(grid.get(PointAxial(1, 0)), (Op::Letter(b'e'), false));
    assert_eq!(grid.get(PointAxial(-1, 1)), (Op::Nop, false));
}

#[test]
fn new_grid_is_all_nops() {
    for side in 1..6usize {
        let grid = Grid::new(side);
        assert_eq!(grid.size(), side);
        let s = side as isize;
        let mut cells = 0;
        for q in -s + 1..s {
            for r in -s + 1..s {
                if (q + r).abs() < s {
                    assert_eq!(grid.get(PointAxial(q, r)), (Op::Nop, false));
                    cells += 1;
                }
            }
        }
        assert_eq!(cells, hex_cells(side));
    }
}

fn table() -> Vec<(char, Op)> {
    vec![
        ('.', Op::Nop),
        ('@', Op::Terminate),
        (')', Op::Increment),
        ('(', Op::Decrement),
        ('+', Op::Add),
        ('-', Op::Subtract),
        ('*', Op::Multiply),
        (':', Op::Divide),
        ('%', Op::Modulo),
        ('~', Op::Negate),
        (',', Op::ReadByte),
        ('?', Op::ReadInt),
        (';', Op::WriteByte),
        ('!', Op::WriteInt),
        ('$', Op::Jump),
        ('_', Op::Redir(Redirect::MirrorHori)),
        ('|', Op::Redir(Redirect::MirrorVert)),
        ('/', Op::Redir(Redirect::MirrorForw)),
        ('\\', Op::Redir(Redirect::MirrorBack)),
        ('<', Op::Redir(Redirect::BranchLeft)),
        ('>', Op::Redir(Redirect::BranchRight)),
        ('[', Op::IPPrev),
        (']', Op::IPNext),
        ('#', Op::IPSelect),
        ('{', Op::MPLeft),
        ('}', Op::MPRight),
        ('"', Op::MPBackLeft),
        ('\'', Op::MPBackRight),
        ('=', Op::MPReverse),
        ('^', Op::MPBranch),
        ('&', Op::MemCopy),
    ]
}

#[test]
fn every_instruction_character_decodes() {
    for (c, op) in table() {
        assert_eq!(Op::from_char(c), Some(op));
        assert_eq!(op.to_char(), c);
    }
    for c in ('a'..='z').chain('A'..='Z') {
        assert_eq!(Op::from_char(c), Some(Op::Letter(c as u8)));
        assert_eq!(Op::Letter(c as u8).to_char(), c);
    }
    for (d, c) in ('0'..='9').enumerate() {
        assert_eq!(Op::from_char(c), Some(Op::Digit(d as u8)));
        assert_eq!(Op::Digit(d as u8).to_char(), c);
    }
}

#[test]
fn no_other_character_decodes() {
    let mut known: Vec<char> = table().into_iter().map(|(c, _)| c).collect();
    known.extend('a'..='z');
    known.extend('A'..='Z');
    known.extend('0'..='9');
    for u in 0..=0x10FFFFu32 {
        if let Some(c) = char::from_u32(u) {
            assert_eq!(Op::from_char(c).is_some(), known.contains(&c), "{:?}", c);
        }
    }
}

#[test]
fn parsing_places_every_instruction() {
    let mut src = String::new();
    for (c, _) in table() {
        src.push(c);
    }
    let grid = parse(&src);
    assert_eq!(grid.size(), 4);
    assert_eq!(grid.to_string().chars().filter(|c| !c.is_whitespace()).collect::<String>(),
        format!("{}{}", src, ".".repeat(37 - 31)));
}

#[test]
fn white_space_is_what_the_standard_library_says() {
    for u in 0..=0x10FFFFu32 {
        if let Some(c) = char::from_u32(u) {
            assert_eq!(is_whitespace(c), c.is_whitespace(), "{:?}", c);
        }
    }
}

#[test]
fn every_white_space_character_is_skipped() {
    let mut src = String::from("a");
    for u in 0..=0x10FFFFu32 {
        if let Some(c) = char::from_u32(u) {
            if c.is_whitespace() {
                src.push(c);
            }
        }
    }
    src.push('b');
    let grid = parse(&src);
    assert_eq!(grid.size(), 2);
    assert_eq!(grid.get(PointAxial(1, -1)), (Op::Letter(b'b'), false));
}

#[test]
fn first_unknown_character_is_reported() {
    assert!(matches!(Grid::from_str("..\u{20ac}.\u{a5}"), Err(Error::SyntaxError('\u{20ac}'))));
    assert!(matches!(Grid::from_str("\u{0}"), Err(Error::SyntaxError('\u{0}'))));
    assert!(matches!(Grid::from_str("a`\u{b4}"), Err(Error::SyntaxError('\u{b4}'))));
    assert!(matches!(Grid::from_str(" \u{e9}t\u{e9} "), Err(Error::SyntaxError('\u{e9}'))));
}

#[test]
fn rendering_pads_rows_to_a_hexagon() {
    assert_eq!(parse("abcdefg").to_string(), "  a b\n c d e\n  f g\n");
    assert_eq!(parse("`a").to_string(), "`a\n");
    assert_eq!(parse("1`2").to_string(), "  1`2\n . . .\n  . .\n");
    assert_eq!(
        parse("0123456789abcdefghi").to_string(),
        "   0 1 2\n  3 4 5 6\n 7 8 9 a b\n  c d e f\n   g h i\n"
    );
}

#[test]
fn templates() {
    assert_eq!(source_template(0), "");
    assert_eq!(source_template(1), " .\n");
    assert_eq!(source_template(2), "  . .\n . . .\n  . .\n");
    assert_eq!(
        source_template(3),
        "   . . .\n  . . . .\n . . . . .\n  . . . .\n   . . .\n"
    );
    assert_eq!(source_template(4).lines().count(), 7);
    assert_eq!(source_template(4).matches('.').count(), 37);
}

#[test]
fn template_round_trip() {
    for side in 1..12 {
        let text = source_template(side);
        let grid = parse(&text);
        assert_eq!(grid.size(), side);
        assert_eq!(grid.to_string(), text);
        assert_eq!(Grid::new(side).to_string(), text);
    }
}

#[test]
fn rendered_grid_parses_to_the_same_grid() {
    for src in ["48!@", "`H;e;l`l;o;@", "a`b`c", "\\_/|<>", "1`2`3`4`5`6`7`8`9"] {
        let text = parse(src).to_string();
        assert_eq!(parse(&text).to_string(), text);
        let plain: String = text.chars().filter(|c| !c.is_whitespace()).collect();
        assert!(plain.starts_with(src));
        assert!(plain[src.len()..].chars().all(|c| c == '.'));
    }
}
