//! The arguments by which a process learns its part in a session.
//!
//! Without arguments a process is the parent of a session over all
//! displays. `--only-monitor <index>` makes it the parent of a session
//! that shows one display; `--monitor <index>` makes it the child that
//! shows that display.

use vstd::prelude::*;
use vstd::string::StrSliceExecFns;
use vstd::string::StringExecFns;

verus! {

/// The part of a process in a session.
#[derive(Clone, Copy, Debug, PartialEq, Eq, Structural)]
pub enum LaunchMode {
    /// The parent: it captures every display and shows every display.
    AllMonitors,
    /// The parent: it captures every display and shows the one named.
    OnlyMonitor(usize),
    /// A child: it shows the display named.
    Child(usize),
}

/// Why the arguments name no part.
#[derive(Clone, Copy, Debug, PartialEq, Eq, Structural)]
pub enum ArgumentError {
    /// What stands for the index is no decimal number, or one too large.
    InvalidIndex,
}

pub open spec fn is_digit(c: char) -> bool {
    '0' <= c && c <= '9'
}

pub open spec fn digit_value(c: char) -> nat {
    (c as int - '0' as int) as nat
}

/// The digit that stands for `d`, a number below ten.
pub open spec fn digit_char(d: nat) -> char {
    (d + '0' as nat) as char
}

pub open spec fn all_digits(s: Seq<char>) -> bool {
    forall|i: int| 0 <= i < s.len() ==> is_digit(#[trigger] s[i])
}

/// The number that a row of decimal digits writes.
pub open spec fn decimal_value(digits: Seq<char>) -> nat
    decreases digits.len(),
{
    if digits.len() == 0 {
        0
    } else {
        decimal_value(digits.drop_last()) * 10 + digit_value(digits.last())
    }
}

/// The decimal digits that write `n`, without leading zeros.
pub open spec fn decimal_digits(n: nat) -> Seq<char>
    decreases n,
{
    if n < 10 {
        seq![digit_char(n)]
    } else {
        decimal_digits(n / 10).push(digit_char(n % 10))
    }
}

/// The text without the plus sign that may stand before a number.
pub open spec fn unsigned_part(s: Seq<char>) -> Seq<char> {
    if s.len() > 0 && s[0] == '+' {
        s.skip(1)
    } else {
        s
    }
}

/// The number that `s` writes: one or more decimal digits, with or
/// without a plus sign before them. Any other text writes none.
pub open spec fn spec_parse_index(s: Seq<char>) -> Option<nat> {
    let digits = unsigned_part(s);
    if digits.len() > 0 && all_digits(digits) {
        Some(decimal_value(digits))
    } else {
        None
    }
}

proof fn lemma_decimal_value_grows(digits: Seq<char>, n: int)
    requires
        0 <= n <= digits.len(),
    ensures
        decimal_value(digits.take(n)) <= decimal_value(digits),
    decreases digits.len() - n,
{
    if n == digits.len() {
        assert(digits.take(n) =~= digits);
    } else {
        lemma_decimal_value_grows(digits, n + 1);
        assert(digits.take(n + 1).drop_last() =~= digits.take(n));
    }
}

/// Reads an index from `s`. The text must be a decimal number that fits
/// the machine's word; a plus sign may stand before it.
pub fn parse_index(s: &str) -> (r: Option<usize>)
    ensures
        r == named_index(s@),
{
    let len: usize = s.unicode_len();
    let mut i: usize = 0;
    if len > 0 && s.get_char(0) == '+' {
        i = 1;
    }
    let start: usize = i;
    if start == len {
        return None;
    }
    let ghost digits = unsigned_part(s@);
    assert(digits =~= s@.skip(start as int));
    let mut value: usize = 0;
    assert(digits.take(0) =~= Seq::<char>::empty());
    while i < len
        invariant
            start <= i <= len,
            start <= 1,
            len == s@.len(),
            digits == s@.skip(start as int),
            digits == unsigned_part(s@),
            digits.len() == len - start,
            digits.len() > 0,
            all_digits(digits.take(i - start)),
            value == decimal_value(digits.take(i - start)),
        decreases len - i,
    {
        let c: char = s.get_char(i);
        let ghost k = i - start;
        assert(digits[k] == c);
        assert(digits.take(k + 1).drop_last() =~= digits.take(k));
        assert(digits.take(k + 1).last() == c);
        if !(c >= '0' && c <= '9') {
            assert(!is_digit(digits[k]));
            return None;
        }
        let d: usize = (c as u32 - '0' as u32) as usize;
        assert(d == digit_value(c));
        proof {
            lemma_decimal_value_grows(digits, k + 1);
            assert(decimal_value(digits.take(k + 1)) == value * 10 + d);
        }
        let tens = match value.checked_mul(10) {
            Some(t) => t,
            None => {
                return None;
            },
        };
        value = match tens.checked_add(d) {
            Some(v) => v,
            None => {
                return None;
            },
        };
        assert forall|j: int| 0 <= j < digits.take(k + 1).len() implies is_digit(
            #[trigger] digits.take(k + 1)[j],
        ) by {
            if j < k {
                assert(digits.take(k + 1)[j] == digits.take(k)[j]);
            }
        }
        i = i + 1;
    }
    assert(digits.take(len - start) =~= digits);
    Some(value)
}


fn digit_text(d: usize) -> (t: &'static str)
    requires
        d < 10,
    ensures
        t@ == seq![digit_char(d as nat)],
{
    proof {
        reveal_strlit("0");
        reveal_strlit("1");
        reveal_strlit("2");
        reveal_strlit("3");
        reveal_strlit("4");
        reveal_strlit("5");
        reveal_strlit("6");
        reveal_strlit("7");
        reveal_strlit("8");
        reveal_strlit("9");
    }
    let t: &'static str = if d == 0 {
        "0"
    } else if d == 1 {
        "1"
    } else if d == 2 {
        "2"
    } else if d == 3 {
        "3"
    } else if d == 4 {
        "4"
    } else if d == 5 {
        "5"
    } else if d == 6 {
        "6"
    } else if d == 7 {
        "7"
    } else if d == 8 {
        "8"
    } else {
        "9"
    };
    assert(t@ =~= seq![digit_char(d as nat)]);
    t
}

/// Writes an index in decimal digits.
pub fn format_index(n: usize) -> (s: String)
    ensures
        s@ == decimal_digits(n as nat),
    decreases n,
{
    if n < 10 {
        String::from_str(digit_text(n))
    } else {
        let mut s = format_index(n / 10);
        s.append(digit_text(n % 10));
        assert(s@ =~= decimal_digits(n as nat));
        s
    }
}

/// Decimal digits write the number they were made from, and nothing
/// stands before them.
pub proof fn lemma_decimal_round_trip(n: nat)
    ensures
        decimal_digits(n).len() > 0,
        all_digits(decimal_digits(n)),
        decimal_value(decimal_digits(n)) == n,
        spec_parse_index(decimal_digits(n)) == Some(n),
    decreases n,
{
    let digits = decimal_digits(n);
    if n < 10 {
        assert(digits.drop_last() =~= Seq::<char>::empty());
        assert(decimal_value(digits.drop_last()) == 0);
        assert(digits.last() == digit_char(n));
    } else {
        lemma_decimal_round_trip(n / 10);
        assert(digits.drop_last() =~= decimal_digits(n / 10));
        assert(digits.last() == digit_char(n % 10));
        assert forall|i: int| 0 <= i < digits.len() implies is_digit(#[trigger] digits[i]) by {
            if i < digits.len() - 1 {
                assert(digits[i] == decimal_digits(n / 10)[i]);
            }
        }
    }
    assert(is_digit(digits[0]));
    assert(unsigned_part(digits) == digits);
}

/// The texts of the arguments.
pub open spec fn texts_of(args: Seq<String>) -> Seq<Seq<char>> {
    Seq::new(args.len(), |i: int| args[i]@)
}

/// The index that an argument names.
pub open spec fn named_index(s: Seq<char>) -> Option<usize> {
    match spec_parse_index(s) {
        Some(v) => if v <= usize::MAX {
            Some(v as usize)
        } else {
            None
        },
        None => None,
    }
}

/// The part that the arguments name. The first argument is the name of
/// the program. Only a flag with exactly one index behind it counts;
/// anything else is the parent of a session over all displays.
pub open spec fn spec_parse_arguments(args: Seq<Seq<char>>) -> Result<LaunchMode, ArgumentError> {
    if args.len() == 3 && args[1] == "--monitor"@ {
        match named_index(args[2]) {
            Some(index) => Ok(LaunchMode::Child(index)),
            None => Err(ArgumentError::InvalidIndex),
        }
    } else if args.len() == 3 && args[1] == "--only-monitor"@ {
        match named_index(args[2]) {
            Some(index) => Ok(LaunchMode::OnlyMonitor(index)),
            None => Err(ArgumentError::InvalidIndex),
        }
    } else {
        Ok(LaunchMode::AllMonitors)
    }
}

/// The arguments, after the program's name, that name a part.
pub open spec fn spec_launch_arguments(mode: LaunchMode) -> Seq<Seq<char>> {
    match mode {
        LaunchMode::AllMonitors => seq![],
        LaunchMode::OnlyMonitor(index) => seq!["--only-monitor"@, decimal_digits(index as nat)],
        LaunchMode::Child(index) => seq!["--monitor"@, decimal_digits(index as nat)],
    }
}

/// Reads the part of this process from its arguments, the program's name
/// first.
pub fn parse_arguments(args: &Vec<String>) -> (r: Result<LaunchMode, ArgumentError>)
    ensures
        r == spec_parse_arguments(texts_of(args@)),
{
    if args.len() == 3 {
        let child_flag = String::from_str("--monitor");
        let only_flag = String::from_str("--only-monitor");
        if args[1] == child_flag {
            return match parse_index(args[2].as_str()) {
                Some(index) => Ok(LaunchMode::Child(index)),
                None => Err(ArgumentError::InvalidIndex),
            };
        }
        if args[1] == only_flag {
            proof {
                reveal_strlit("--monitor");
                reveal_strlit("--only-monitor");
            }
            return match parse_index(args[2].as_str()) {
                Some(index) => Ok(LaunchMode::OnlyMonitor(index)),
                None => Err(ArgumentError::InvalidIndex),
            };
        }
    }
    Ok(LaunchMode::AllMonitors)
}

/// The arguments that make a new process take the part `mode`.
pub fn launch_arguments(mode: LaunchMode) -> (args: Vec<String>)
    ensures
        texts_of(args@) == spec_launch_arguments(mode),
        args@.len() == spec_launch_arguments(mode).len(),
{
    let mut args: Vec<String> = Vec::new();
    match mode {
        LaunchMode::AllMonitors => {},
        LaunchMode::OnlyMonitor(index) => {
            args.push(String::from_str("--only-monitor"));
            args.push(format_index(index));
        },
        LaunchMode::Child(index) => {
            args.push(String::from_str("--monitor"));
            args.push(format_index(index));
        },
    }
    assert(texts_of(args@) =~= spec_launch_arguments(mode));
    args
}

/// A process that is started with the arguments made for a part takes
/// that part, whatever the program is called.
pub proof fn lemma_arguments_round_trip(program: Seq<char>, mode: LaunchMode)
    ensures
        spec_parse_arguments(seq![program] + spec_launch_arguments(mode)) == Ok::<
            LaunchMode,
            ArgumentError,
        >(mode),
{
    let args = seq![program] + spec_launch_arguments(mode);
    reveal_strlit("--monitor");
    reveal_strlit("--only-monitor");
    match mode {
        LaunchMode::AllMonitors => {
            assert(args.len() == 1);
        },
        LaunchMode::OnlyMonitor(index) => {
            lemma_decimal_round_trip(index as nat);
            assert(args.len() == 3);
            assert(args[1] == "--only-monitor"@);
            assert(args[2] == decimal_digits(index as nat));
            assert("--only-monitor"@.len() != "--monitor"@.len());
        },
        LaunchMode::Child(index) => {
            lemma_decimal_round_trip(index as nat);
            assert(args.len() == 3);
            assert(args[1] == "--monitor"@);
            assert(args[2] == decimal_digits(index as nat));
        },
    }
}

} // verus!
