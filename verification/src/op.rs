//! The instruction set and its source characters.

use crate::direction::Redirect;
use vstd::prelude::*;

verus! {

/// Enumeration of all commands.
#[derive(Clone, Copy, PartialEq, Eq, Debug, Structural)]
pub enum Op {
    /// Does nothing
    Nop,
    /// Terminates the program
    Terminate,
    /// Sets the current edge to some letter's ASCII code
    Letter(u8),
    /// Multiplies the current edge by 10, then adds some digit
    Digit(u8),
    /// Increments the current edge
    Increment,
    /// Decrements the current edge
    Decrement,
    /// Sets the current edge to the sum of the left and right neighbours
    Add,
    /// Sets the current edge to the difference of the left and right neighbours (`left - right`)
    Subtract,
    /// Sets the current edge to the product of the left and right neighbours
    Multiply,
    /// Sets the current edge to the quotient of the left and right neighbours (`left / right`), rounded down
    Divide,
    /// Sets the current edge to the modulo of the left and right neighbours (`left % right`);
    /// the result will have the same sign as `right`
    Modulo,
    /// Multiplies the current edge by -1
    Negate,
    /// Reads a byte from the input and saves it to the current memory edge (-1 once EOF is reached)
    ReadByte,
    /// Reads and discards from the input until a digit, `-` or `+` is found, then reads as many bytes as possible
    /// to form a valid (signed) decimal integer and sets the current memory edge to its value
    /// (0 if EOF is reached without finding a valid number)
    ReadInt,
    /// Writes the current memory edge (mod 256) to the output as a byte
    WriteByte,
    /// Writes the current memory edge's decimal representation to the output
    WriteInt,
    /// Skips the next instruction
    Jump,
    /// Changes the direction of the IP
    Redir(Redirect),
    /// Switches to the previous IP (wrapping from 0 to 5)
    IPPrev,
    /// Switches to the next IP (wrapping from 5 to 0)
    IPNext,
    /// Switches to the IP with the index of the current memory edge mod 6
    IPSelect,
    /// Moves the MP to the left neighbour
    MPLeft,
    /// Moves the MP to the right neighbour
    MPRight,
    /// Moves the MP backwards to the left
    MPBackLeft,
    /// Moves the MP backwards to the right
    MPBackRight,
    /// Reverses the direction of the MP
    MPReverse,
    /// Moves the MP to the right neighbour if the current edge is positive and the left neighbour otherwise
    MPBranch,
    /// Sets the current edge to the value of the right neighbour if the current edge is positive,
    /// and the value of the left neighbour otherwise
    MemCopy,
}

/// Whether `c` has the Unicode property `White_Space`.
pub open spec fn is_space(c: char) -> bool {
    let u = c as u32;
    ||| 0x09 <= u <= 0x0D
    ||| u == 0x20
    ||| u == 0x85
    ||| u == 0xA0
    ||| u == 0x1680
    ||| 0x2000 <= u <= 0x200A
    ||| u == 0x2028
    ||| u == 0x2029
    ||| u == 0x202F
    ||| u == 0x205F
    ||| u == 0x3000
}

/// Whether `c` is an ASCII letter.
pub open spec fn is_letter(c: char) -> bool {
    ('a' <= c && c <= 'z') || ('A' <= c && c <= 'Z')
}

/// Whether `c` is an ASCII digit.
pub open spec fn is_digit(c: char) -> bool {
    '0' <= c && c <= '9'
}

/// The instruction that source character `c` stands for, if it stands for one.
pub open spec fn decode(c: char) -> Option<Op> {
    if c == '.' {
        Some(Op::Nop)
    } else if c == '@' {
        Some(Op::Terminate)
    } else if is_letter(c) {
        Some(Op::Letter(c as u8))
    } else if is_digit(c) {
        Some(Op::Digit((c as u8 - 48) as u8))
    } else if c == ')' {
        Some(Op::Increment)
    } else if c == '(' {
        Some(Op::Decrement)
    } else if c == '+' {
        Some(Op::Add)
    } else if c == '-' {
        Some(Op::Subtract)
    } else if c == '*' {
        Some(Op::Multiply)
    } else if c == ':' {
        Some(Op::Divide)
    } else if c == '%' {
        Some(Op::Modulo)
    } else if c == '~' {
        Some(Op::Negate)
    } else if c == ',' {
        Some(Op::ReadByte)
    } else if c == '?' {
        Some(Op::ReadInt)
    } else if c == ';' {
        Some(Op::WriteByte)
    } else if c == '!' {
        Some(Op::WriteInt)
    } else if c == '$' {
        Some(Op::Jump)
    } else if c == '_' {
        Some(Op::Redir(Redirect::MirrorHori))
    } else if c == '|' {
        Some(Op::Redir(Redirect::MirrorVert))
    } else if c == '/' {
        Some(Op::Redir(Redirect::MirrorForw))
    } else if c == '\\' {
        Some(Op::Redir(Redirect::MirrorBack))
    } else if c == '<' {
        Some(Op::Redir(Redirect::BranchLeft))
    } else if c == '>' {
        Some(Op::Redir(Redirect::BranchRight))
    } else if c == '[' {
        Some(Op::IPPrev)
    } else if c == ']' {
        Some(Op::IPNext)
    } else if c == '#' {
        Some(Op::IPSelect)
    } else if c == '{' {
        Some(Op::MPLeft)
    } else if c == '}' {
        Some(Op::MPRight)
    } else if c == '"' {
        Some(Op::MPBackLeft)
    } else if c == '\'' {
        Some(Op::MPBackRight)
    } else if c == '=' {
        Some(Op::MPReverse)
    } else if c == '^' {
        Some(Op::MPBranch)
    } else if c == '&' {
        Some(Op::MemCopy)
    } else {
        None
    }
}

/// The source character of an instruction.
pub open spec fn op_char(op: Op) -> char {
    match op {
        Op::Nop => '.',
        Op::Terminate => '@',
        Op::Letter(b) => b as char,
        Op::Digit(d) => ((d + 48) as u8) as char,
        Op::Increment => ')',
        Op::Decrement => '(',
        Op::Add => '+',
        Op::Subtract => '-',
        Op::Multiply => '*',
        Op::Divide => ':',
        Op::Modulo => '%',
        Op::Negate => '~',
        Op::ReadByte => ',',
        Op::ReadInt => '?',
        Op::WriteByte => ';',
        Op::WriteInt => '!',
        Op::Jump => '$',
        Op::Redir(Redirect::MirrorHori) => '_',
        Op::Redir(Redirect::MirrorVert) => '|',
        Op::Redir(Redirect::MirrorForw) => '/',
        Op::Redir(Redirect::MirrorBack) => '\\',
        Op::Redir(Redirect::BranchLeft) => '<',
        Op::Redir(Redirect::BranchRight) => '>',
        Op::IPPrev => '[',
        Op::IPNext => ']',
        Op::IPSelect => '#',
        Op::MPLeft => '{',
        Op::MPRight => '}',
        Op::MPBackLeft => '"',
        Op::MPBackRight => '\'',
        Op::MPReverse => '=',
        Op::MPBranch => '^',
        Op::MemCopy => '&',
    }
}

/// Whether `c` has the Unicode property `White_Space`; such characters
/// separate instructions in source text and are otherwise ignored.
pub fn is_whitespace(c: char) -> (b: bool)
    ensures
        b == is_space(c),
{
    let u = c as u32;
    (0x09 <= u && u <= 0x0D) || u == 0x20 || u == 0x85 || u == 0xA0 || u == 0x1680 || (0x2000 <= u
        && u <= 0x200A) || u == 0x2028 || u == 0x2029 || u == 0x202F || u == 0x205F || u == 0x3000
}

impl Op {
    /// Whether the instruction can come out of source text: a letter
    /// carries the code of an ASCII letter, a digit is at most 9.
    pub open spec fn wf(self) -> bool {
        match self {
            Op::Letter(b) => is_letter(b as char),
            Op::Digit(d) => d <= 9,
            _ => true,
        }
    }

    /// Decodes a source character; `None` for a character that is no
    /// instruction.
    pub fn from_char(c: char) -> (op: Option<Op>)
        ensures
            op == decode(c),
    {
        let op = match c {
            '.' => Op::Nop,
            '@' => Op::Terminate,
            'a'..='z' | 'A'..='Z' => Op::Letter(c as u8),
            '0'..='9' => Op::Digit(c as u8 - 48u8),
            ')' => Op::Increment,
            '(' => Op::Decrement,
            '+' => Op::Add,
            '-' => Op::Subtract,
            '*' => Op::Multiply,
            ':' => Op::Divide,
            '%' => Op::Modulo,
            '~' => Op::Negate,
            ',' => Op::ReadByte,
            '?' => Op::ReadInt,
            ';' => Op::WriteByte,
            '!' => Op::WriteInt,
            '$' => Op::Jump,
            '_' => Op::Redir(Redirect::MirrorHori),
            '|' => Op::Redir(Redirect::MirrorVert),
            '/' => Op::Redir(Redirect::MirrorForw),
            '\\' => Op::Redir(Redirect::MirrorBack),
            '<' => Op::Redir(Redirect::BranchLeft),
            '>' => Op::Redir(Redirect::BranchRight),
            '[' => Op::IPPrev,
            ']' => Op::IPNext,
            '#' => Op::IPSelect,
            '{' => Op::MPLeft,
            '}' => Op::MPRight,
            '"' => Op::MPBackLeft,
            '\'' => Op::MPBackRight,
            '=' => Op::MPReverse,
            '^' => Op::MPBranch,
            '&' => Op::MemCopy,
            _ => return None,
        };
        Some(op)
    }

    /// The source character of the instruction.
    pub fn to_char(&self) -> (c: char)
        requires
            self.wf(),
        ensures
            c == op_char(*self),
    {
        match self {
            Op::Nop => '.',
            Op::Terminate => '@',
            Op::Letter(b) => *b as char,
            Op::Digit(d) => (*d + 48u8) as char,
            Op::Increment => ')',
            Op::Decrement => '(',
            Op::Add => '+',
            Op::Subtract => '-',
            Op::Multiply => '*',
            Op::Divide => ':',
            Op::Modulo => '%',
            Op::Negate => '~',
            Op::ReadByte => ',',
            Op::ReadInt => '?',
            Op::WriteByte => ';',
            Op::WriteInt => '!',
            Op::Jump => '$',
            Op::Redir(Redirect::MirrorHori) => '_',
            Op::Redir(Redirect::MirrorVert) => '|',
            Op::Redir(Redirect::MirrorForw) => '/',
            Op::Redir(Redirect::MirrorBack) => '\\',
            Op::Redir(Redirect::BranchLeft) => '<',
            Op::Redir(Redirect::BranchRight) => '>',
            Op::IPPrev => '[',
            Op::IPNext => ']',
            Op::IPSelect => '#',
            Op::MPLeft => '{',
            Op::MPRight => '}',
            Op::MPBackLeft => '"',
            Op::MPBackRight => '\'',
            Op::MPReverse => '=',
            Op::MPBranch => '^',
            Op::MemCopy => '&',
        }
    }
}

/// Every decoded instruction is well formed, and its character is the one it
/// was decoded from.
pub proof fn lemma_decode_char(c: char)
    requires
        decode(c) is Some,
    ensures
        decode(c)->0.wf(),
        op_char(decode(c)->0) == c,
        !is_space(c),
        c != '`',
{
}

/// The character of a well-formed instruction decodes to that instruction,
/// and is neither white space nor a backtick.
pub proof fn lemma_char_decode(op: Op)
    requires
        op.wf(),
    ensures
        decode(op_char(op)) == Some(op),
        !is_space(op_char(op)),
        op_char(op) != '`',
        (op_char(op) as u32) < 128,
{
}

} // verus!
