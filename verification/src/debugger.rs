//! Decision logic of an interactive process debugger: parsing a typed
//! command line into a command, parsing a breakpoint address written in
//! hexadecimal, and the word/byte arithmetic used when a breakpoint byte is
//! planted into an eight-byte machine word. The process control itself
//! (spawning, stepping, reading registers) is I/O against another process
//! and stays outside this crate.

use vstd::prelude::*;

verus! {

/// A breakpoint: the address it was planted at and the byte it replaced.
#[derive(Clone)]
pub struct Breakpoint {
    pub addr: usize,
    pub orig_byte: u8,
}

/// A command the debugger's prompt understands.
#[derive(Debug, PartialEq, Eq)]
pub enum DebuggerCommand {
    Backtrace,
    Break(String),
    Continue,
    Quit,
    Run(Vec<String>),
}

pub open spec fn is_backtrace_word(t: Seq<char>) -> bool {
    t == "bt"@ || t == "back"@ || t == "backtrace"@
}

pub open spec fn is_break_word(t: Seq<char>) -> bool {
    t == "b"@ || t == "break"@
}

pub open spec fn is_continue_word(t: Seq<char>) -> bool {
    t == "c"@ || t == "cont"@ || t == "continue"@
}

pub open spec fn is_quit_word(t: Seq<char>) -> bool {
    t == "q"@ || t == "quit"@
}

pub open spec fn is_run_word(t: Seq<char>) -> bool {
    t == "r"@ || t == "run"@
}

fn str_eq(a: &str, b: &str) -> (r: bool)
    ensures
        r == (a@ == b@),
{
    let sa = a.to_owned();
    let sb = b.to_owned();
    sa == sb
}

impl DebuggerCommand {
    /// Parses one whitespace-split command line. The first token picks the
    /// command; a break command carries its target token and a run command
    /// carries every following token as an argument. An unknown first token
    /// parses to nothing.
    pub fn from_tokens(tokens: &Vec<&str>) -> (r: Option<DebuggerCommand>)
        requires
            tokens@.len() > 0,
            is_break_word(tokens@[0]@) ==> tokens@.len() >= 2,
        ensures
            ({
                let t0 = tokens@[0]@;
                match r {
                    Some(DebuggerCommand::Backtrace) => is_backtrace_word(t0),
                    Some(DebuggerCommand::Break(target)) => is_break_word(t0) && target@
                        == tokens@[1]@,
                    Some(DebuggerCommand::Continue) => is_continue_word(t0),
                    Some(DebuggerCommand::Quit) => is_quit_word(t0),
                    Some(DebuggerCommand::Run(args)) => is_run_word(t0) && args@.len() + 1
                        == tokens@.len() && (forall|i: int|
                        0 <= i < args@.len() ==> (#[trigger] args@[i])@ == tokens@[i + 1]@),
                    None => !is_backtrace_word(t0) && !is_break_word(t0) && !is_continue_word(t0)
                        && !is_quit_word(t0) && !is_run_word(t0),
                }
            }),
    {
        let t0 = tokens[0];
        if str_eq(t0, "bt") || str_eq(t0, "back") || str_eq(t0, "backtrace") {
            Some(DebuggerCommand::Backtrace)
        } else if str_eq(t0, "b") || str_eq(t0, "break") {
            Some(DebuggerCommand::Break(tokens[1].to_owned()))
        } else if str_eq(t0, "c") || str_eq(t0, "cont") || str_eq(t0, "continue") {
            Some(DebuggerCommand::Continue)
        } else if str_eq(t0, "q") || str_eq(t0, "quit") {
            Some(DebuggerCommand::Quit)
        } else if str_eq(t0, "r") || str_eq(t0, "run") {
            let mut args: Vec<String> = Vec::new();
            let mut i: usize = 1;
            while i < tokens.len()
                invariant
                    1 <= i <= tokens@.len(),
                    args@.len() + 1 == i,
                    forall|j: int|
                        0 <= j < args@.len() ==> (#[trigger] args@[j])@ == tokens@[j + 1]@,
                decreases tokens@.len() - i,
            {
                args.push(tokens[i].to_owned());
                i = i + 1;
            }
            Some(DebuggerCommand::Run(args))
        } else {
            None
        }
    }
}

pub open spec fn is_hex_digit(c: char) -> bool {
    (48 <= c as u32 && c as u32 <= 57) || (97 <= c as u32 && c as u32 <= 102) || (65 <= c as u32
        && c as u32 <= 70)
}

pub open spec fn hex_digit_value(c: char) -> nat {
    if 48 <= c as u32 && c as u32 <= 57 {
        (c as u32 - 48) as nat
    } else if 97 <= c as u32 && c as u32 <= 102 {
        (c as u32 - 87) as nat
    } else {
        (c as u32 - 55) as nat
    }
}

pub open spec fn all_hex_digits(s: Seq<char>) -> bool {
    forall|i: int| 0 <= i < s.len() ==> is_hex_digit(#[trigger] s[i])
}

/// The number a sequence of hexadecimal digits denotes, most significant
/// digit first.
pub open spec fn hex_value(s: Seq<char>) -> nat
    decreases s.len(),
{
    if s.len() == 0 {
        0
    } else {
        hex_value(s.drop_last()) * 16 + hex_digit_value(s.last())
    }
}

/// A `0x` or `0X` prefix is not part of the digits.
pub open spec fn strip_hex_prefix(s: Seq<char>) -> Seq<char> {
    if s.len() >= 2 && s[0] == '0' && (s[1] == 'x' || s[1] == 'X') {
        s.skip(2)
    } else {
        s
    }
}

/// A longer digit string never denotes a smaller number.
proof fn lemma_hex_value_prefix(s: Seq<char>, j: int)
    requires
        0 <= j <= s.len(),
    ensures
        hex_value(s) >= hex_value(s.take(j)),
    decreases s.len() - j,
{
    if j < s.len() {
        assert(s.take(j + 1).drop_last() =~= s.take(j));
        assert(s.take(j + 1).last() == s[j]);
        lemma_hex_value_prefix(s, j + 1);
    } else {
        assert(s.take(j) =~= s);
    }
}

fn hex_digit_of(c: char) -> (r: Option<u8>)
    ensures
        (r is Some) <==> is_hex_digit(c),
        r matches Some(d) ==> d as nat == hex_digit_value(c),
{
    let u = c as u32;
    if 48 <= u && u <= 57 {
        Some((u - 48) as u8)
    } else if 97 <= u && u <= 102 {
        Some((u - 87) as u8)
    } else if 65 <= u && u <= 70 {
        Some((u - 55) as u8)
    } else {
        None
    }
}

/// Parses a breakpoint address: hexadecimal digits with an optional `0x` or
/// `0X` prefix. Returns the denoted number when there is at least one digit,
/// every character is a hexadecimal digit, and the number fits a `usize`;
/// and nothing otherwise.
pub fn parse_address(addr: &str) -> (r: Option<usize>)
    ensures
        ({
            let digits = strip_hex_prefix(addr@);
            match r {
                Some(v) => digits.len() > 0 && all_hex_digits(digits) && hex_value(digits)
                    <= usize::MAX && v == hex_value(digits),
                None => digits.len() == 0 || !all_hex_digits(digits) || hex_value(digits)
                    > usize::MAX,
            }
        }),
{
    let n = addr.unicode_len();
    let mut start: usize = 0;
    if n >= 2 {
        let c0 = addr.get_char(0);
        let c1 = addr.get_char(1);
        if c0 == '0' && (c1 == 'x' || c1 == 'X') {
            start = 2;
        }
    }
    proof {
        assert(strip_hex_prefix(addr@) =~= addr@.skip(start as int));
    }
    let ghost digits = addr@.skip(start as int);
    if start == n {
        return None;
    }
    let mut acc: usize = 0;
    let mut i: usize = start;
    while i < n
        invariant
            start <= i <= n,
            n == addr@.len(),
            digits == addr@.skip(start as int),
            digits == strip_hex_prefix(addr@),
            digits.len() == n - start,
            all_hex_digits(digits.take(i - start)),
            acc == hex_value(digits.take(i - start)),
        decreases n - i,
    {
        let ghost k = i - start;
        proof {
            assert(digits.take(k + 1).drop_last() =~= digits.take(k));
            assert(digits.take(k + 1).last() == digits[k]);
            assert(digits[k] == addr@[i as int]);
        }
        let c = addr.get_char(i);
        let d = match hex_digit_of(c) {
            Some(d) => d,
            None => {
                proof {
                    assert(!is_hex_digit(digits[k]));
                }
                return None;
            },
        };
        let wide = acc as u128 * 16 + d as u128;
        if wide > usize::MAX as u128 {
            proof {
                assert(hex_value(digits.take(k + 1)) > usize::MAX);
                lemma_hex_value_prefix(digits, k + 1);
            }
            return None;
        }
        acc = wide as usize;
        i = i + 1;
    }
    proof {
        assert(digits.take(n - start) =~= digits);
    }
    Some(acc)
}

/// Rounds an address down to the start of its eight-byte machine word.
pub fn align_addr_to_word(addr: usize) -> (r: usize)
    ensures
        r == addr - (addr % 8),
{
    proof {
        assert(addr & !7usize == addr - (addr % 8)) by (bit_vector);
    }
    addr & !7usize
}

/// The byte of `w` at byte position `j`, counting from the least
/// significant end.
pub open spec fn byte_of_word(w: u64, j: u64) -> u64 {
    (w >> ((8 * j) as u64)) & 0xff
}

proof fn lemma_replace_byte(word: u64, bo: u64, v: u64, j: u64)
    by (bit_vector)
    requires
        bo < 8,
        j < 8,
        v < 256,
    ensures
        byte_of_word((word & !(0xffu64 << ((8 * bo) as u64))) | (v << ((8 * bo) as u64)), bo) == v,
        j != bo ==> byte_of_word(
            (word & !(0xffu64 << ((8 * bo) as u64))) | (v << ((8 * bo) as u64)),
            j,
        ) == byte_of_word(word, j),
        byte_of_word(word, j) < 256,
{
}

/// Plants `val` as the byte at `byte_offset` of the machine word `word`:
/// returns the updated word, in which only that byte changed, together with
/// the byte that was there before — what a debugger needs to plant a
/// breakpoint instruction and later restore the original code.
pub fn replace_byte_in_word(word: u64, byte_offset: u64, val: u8) -> (r: (u64, u8))
    requires
        byte_offset < 8,
    ensures
        r.1 as u64 == byte_of_word(word, byte_offset),
        byte_of_word(r.0, byte_offset) == val as u64,
        forall|j: u64|
            j < 8 && j != byte_offset ==> byte_of_word(r.0, j) == byte_of_word(word, j),
{
    let shift = 8 * byte_offset;
    let orig_wide = (word >> shift) & 0xff;
    proof {
        lemma_replace_byte(word, byte_offset, val as u64, byte_offset);
        assert(orig_wide < 256 ==> (orig_wide as u8) as u64 == orig_wide) by (bit_vector);
    }
    let orig = orig_wide as u8;
    let masked = word & !(0xffu64 << shift);
    let updated = masked | ((val as u64) << shift);
    proof {
        assert forall|j: u64| j < 8 && j != byte_offset implies byte_of_word(updated, j)
            == byte_of_word(word, j) by {
            lemma_replace_byte(word, byte_offset, val as u64, j);
        }
    }
    (updated, orig)
}

} // verus!
