//! What `wax` can be asked to build: a scan of a glob expression for the
//! nesting and the repetition bounds that make `wax` give up in the middle of
//! its work instead of returning an error.

use vstd::prelude::*;
use crate::text::chars_of;

verus! {

/// The most groups (alternatives and repetitions) that may be open at one
/// point of an expression. For each open group the regular expression that
/// `wax` writes nests up to four levels deep, and a regular expression
/// nested more than 250 levels deep is one that `wax` does not survive.
pub const MAX_DEPTH: usize = 56;

/// The largest bound of a repetition: the largest count that a regular
/// expression can hold.
pub const MAX_BOUND: u64 = 0xffff_ffff;

/// The size that is counted for one character: the most bytes it can take.
pub const CHAR_SIZE: usize = 4;

/// Where the scan stands in the text.
#[derive(Clone, Copy, Debug, PartialEq, Eq, Structural)]
pub enum ScanMode {
    /// Between the tokens of the expression.
    Plain,
    /// Right after a backslash.
    Escaped,
    /// Inside a character class.
    Class,
    /// Right after a backslash inside a character class.
    ClassEscaped,
}

/// What a scan knows after a part of the expression.
pub struct ScanModel {
    /// Where the scan stands.
    pub mode: ScanMode,
    /// For the expression itself and for each group that is open, from the
    /// outermost to the innermost: a size that is at least that of any text
    /// that `wax` measures in what was read of it.
    pub sizes: Seq<usize>,
    /// The most groups that were open at one point.
    pub deepest: usize,
    /// How much of a repetition bound was read: 0 nothing, 1 the part after
    /// the colon, 2 the part after the comma.
    pub stage: u8,
    /// The lower bound read so far.
    pub lower: u64,
    /// The upper bound read so far.
    pub upper: u64,
    /// Whether a bound was too large to be a count, or a size too large for
    /// a machine word.
    pub unfit: bool,
}

/// The scan before anything is read.
pub open spec fn start() -> ScanModel {
    ScanModel {
        mode: ScanMode::Plain,
        sizes: seq![0usize],
        deepest: 0,
        stage: 0,
        lower: 0,
        upper: 0,
        unfit: false,
    }
}

/// Whether `c` is a decimal digit.
pub open spec fn is_digit(c: char) -> bool {
    '0' <= c && c <= '9'
}

/// The value of a decimal digit.
pub open spec fn digit_value(c: char) -> u64 {
    (c as u32 - '0' as u32) as u64
}

/// A bound with one more digit, held at one above the largest bound once
/// it is beyond it.
pub open spec fn with_digit(bound: u64, c: char) -> u64 {
    if bound * 10 + digit_value(c) > MAX_BOUND {
        (MAX_BOUND + 1) as u64
    } else {
        (bound * 10 + digit_value(c)) as u64
    }
}

/// The sum of two sizes, held at the largest machine word.
pub open spec fn capped_sum(a: usize, b: usize) -> usize {
    if a + b > usize::MAX {
        usize::MAX
    } else {
        (a + b) as usize
    }
}

/// The product of two sizes, held at the largest machine word.
pub open spec fn capped_product(a: usize, b: usize) -> usize {
    if a * b > usize::MAX {
        usize::MAX
    } else {
        (a * b) as usize
    }
}

/// How often the text of a repetition counts, by the bound that was read:
/// the larger of its bounds, and at least once.
pub open spec fn times(s: ScanModel) -> usize {
    let most = if s.stage == 2 && s.upper > s.lower {
        s.upper
    } else {
        s.lower
    };
    if s.stage == 0 || most == 0 {
        1
    } else if most > MAX_BOUND {
        usize::MAX
    } else {
        most as usize
    }
}

/// Whether the bound that was read cannot be a count.
pub open spec fn bound_too_large(s: ScanModel) -> bool {
    s.stage != 0 && (s.lower > MAX_BOUND || s.upper > MAX_BOUND)
}

/// The scan with one more character counted in the innermost open group.
pub open spec fn counted(s: ScanModel) -> ScanModel {
    let top = s.sizes.last();
    ScanModel {
        sizes: s.sizes.drop_last().push(capped_sum(top, CHAR_SIZE)),
        unfit: s.unfit || top + CHAR_SIZE > usize::MAX,
        ..s
    }
}

/// The scan without a bound in reading.
pub open spec fn unbound(s: ScanModel) -> ScanModel {
    ScanModel { stage: 0, lower: 0, upper: 0, ..s }
}

/// The scan with one more group open.
pub open spec fn opened(s: ScanModel) -> ScanModel {
    ScanModel {
        sizes: s.sizes.push(0),
        deepest: if s.sizes.len() > s.deepest {
            s.sizes.len() as usize
        } else {
            s.deepest
        },
        ..s
    }
}

/// The scan with the innermost group closed: its size, taken `n` times, is
/// added to the group around it. A closing bracket without a group to close
/// changes nothing.
pub open spec fn closed(s: ScanModel, n: usize) -> ScanModel {
    if s.sizes.len() < 2 {
        s
    } else {
        let inner = s.sizes.last();
        let outer = s.sizes.drop_last().last();
        let whole = capped_product(inner, n);
        ScanModel {
            sizes: s.sizes.drop_last().drop_last().push(capped_sum(outer, whole)),
            unfit: s.unfit || inner * n > usize::MAX || outer + whole > usize::MAX,
            ..s
        }
    }
}

/// The scan after one more character. Every character counts as text of
/// the innermost open group. A backslash takes the next character out of
/// play, and between `[` and `]` only the closing bracket is looked for. `{`
/// and `<` open a group, `}` and `>` close one; the text of a repetition
/// counts as often as the bound before its `>` says, and a bound that
/// cannot be a count makes the expression unfit. A bound is what follows a
/// colon: digits, a comma, digits.
pub open spec fn step(s: ScanModel, c: char) -> ScanModel {
    let t = counted(s);
    match s.mode {
        ScanMode::Escaped => ScanModel { mode: ScanMode::Plain, ..unbound(t) },
        ScanMode::ClassEscaped => ScanModel { mode: ScanMode::Class, ..t },
        ScanMode::Class => if c == '\\' {
            ScanModel { mode: ScanMode::ClassEscaped, ..t }
        } else if c == ']' {
            ScanModel { mode: ScanMode::Plain, ..t }
        } else {
            t
        },
        ScanMode::Plain => if c == '\\' {
            ScanModel { mode: ScanMode::Escaped, ..unbound(t) }
        } else if c == '[' {
            ScanModel { mode: ScanMode::Class, ..unbound(t) }
        } else if c == '{' || c == '<' {
            unbound(opened(t))
        } else if c == '}' {
            unbound(closed(t, 1))
        } else if c == '>' {
            let done = closed(t, times(t));
            unbound(ScanModel { unfit: done.unfit || bound_too_large(t), ..done })
        } else if c == ':' {
            ScanModel { stage: 1, lower: 0, upper: 0, ..t }
        } else if c == ',' && s.stage == 1 {
            ScanModel { stage: 2, ..t }
        } else if is_digit(c) && s.stage == 1 {
            ScanModel { lower: with_digit(s.lower, c), ..t }
        } else if is_digit(c) && s.stage == 2 {
            ScanModel { upper: with_digit(s.upper, c), ..t }
        } else {
            unbound(t)
        },
    }
}

/// The scan after the first `n` characters of an expression.
pub open spec fn scan(expression: Seq<char>, n: int) -> ScanModel
    decreases n,
{
    if n <= 0 {
        start()
    } else {
        step(scan(expression, n - 1), expression[n - 1])
    }
}

/// Whether an expression can be handed to `wax`: at no point are more than
/// `MAX_DEPTH` groups open, no bound of a repetition is beyond `MAX_BOUND`,
/// and the size of the text, with the text of each repetition counted as
/// often as its bound says, fits in a machine word. Beyond these limits
/// `wax` does not return an error but gives up: the regular expression it
/// writes is nested too deeply or holds a count that is none, or a size that
/// it computes for repeated text overflows.
pub open spec fn fits(expression: Seq<char>) -> bool {
    let s = scan(expression, expression.len() as int);
    !s.unfit && s.deepest <= MAX_DEPTH
}

/// The state of a scan.
struct Scanner {
    mode: ScanMode,
    sizes: Vec<usize>,
    deepest: usize,
    stage: u8,
    lower: u64,
    upper: u64,
    unfit: bool,
}

/// Whether `c` is a decimal digit.
pub fn digit(c: char) -> (d: bool)
    ensures
        d == is_digit(c),
{
    '0' <= c && c <= '9'
}

impl Scanner {
    spec fn model(self) -> ScanModel {
        ScanModel {
            mode: self.mode,
            sizes: self.sizes@,
            deepest: self.deepest,
            stage: self.stage,
            lower: self.lower,
            upper: self.upper,
            unfit: self.unfit,
        }
    }

    /// A scan that has read nothing.
    fn new() -> (scanner: Scanner)
        ensures
            scanner.model() == start(),
    {
        let mut sizes: Vec<usize> = Vec::new();
        sizes.push(0);
        let scanner = Scanner {
            mode: ScanMode::Plain,
            sizes,
            deepest: 0,
            stage: 0,
            lower: 0,
            upper: 0,
            unfit: false,
        };
        assert(scanner.sizes@ =~= seq![0usize]);
        scanner
    }

    fn with_digit(bound: u64, c: char) -> (more: u64)
        requires
            is_digit(c),
            bound <= MAX_BOUND + 1,
        ensures
            more == with_digit(bound, c),
            more <= MAX_BOUND + 1,
    {
        let value: u64 = (c as u32 - '0' as u32) as u64;
        let more: u64 = bound * 10 + value;
        if more > MAX_BOUND {
            MAX_BOUND + 1
        } else {
            more
        }
    }

    fn close(&mut self, n: usize)
        requires
            old(self).sizes@.len() >= 1,
        ensures
            final(self).model() == closed(old(self).model(), n),
            final(self).sizes@.len() >= 1,
            final(self).sizes@.len() <= old(self).sizes@.len(),
    {
        if self.sizes.len() >= 2 {
            let ghost before = self.sizes@;
            let inner = self.sizes.pop().unwrap();
            let outer = self.sizes.pop().unwrap();
            let whole = match inner.checked_mul(n) {
                Some(w) => w,
                None => {
                    self.unfit = true;
                    usize::MAX
                },
            };
            let both = match outer.checked_add(whole) {
                Some(b) => b,
                None => {
                    self.unfit = true;
                    usize::MAX
                },
            };
            self.sizes.push(both);
            assert(self.sizes@ =~= before.drop_last().drop_last().push(both));
        }
    }

    /// Reads one more character.
    fn advance(&mut self, c: char)
        requires
            old(self).sizes@.len() >= 1,
            old(self).lower <= MAX_BOUND + 1,
            old(self).upper <= MAX_BOUND + 1,
        ensures
            final(self).model() == step(old(self).model(), c),
            1 <= final(self).sizes@.len() <= old(self).sizes@.len() + 1,
            final(self).lower <= MAX_BOUND + 1,
            final(self).upper <= MAX_BOUND + 1,
    {
        let ghost s = self.model();
        let ghost before = self.sizes@;
        let top = self.sizes.pop().unwrap();
        let more = match top.checked_add(CHAR_SIZE) {
            Some(m) => m,
            None => {
                self.unfit = true;
                usize::MAX
            },
        };
        self.sizes.push(more);
        assert(self.sizes@ =~= before.drop_last().push(more));
        assert(self.model() == counted(s));
        let ghost t = self.model();
        match self.mode {
            ScanMode::Escaped => {
                self.mode = ScanMode::Plain;
                self.stage = 0;
                self.lower = 0;
                self.upper = 0;
            },
            ScanMode::ClassEscaped => {
                self.mode = ScanMode::Class;
            },
            ScanMode::Class => {
                if c == '\\' {
                    self.mode = ScanMode::ClassEscaped;
                } else if c == ']' {
                    self.mode = ScanMode::Plain;
                }
            },
            ScanMode::Plain => {
                if c == '\\' {
                    self.mode = ScanMode::Escaped;
                    self.stage = 0;
                    self.lower = 0;
                    self.upper = 0;
                } else if c == '[' {
                    self.mode = ScanMode::Class;
                    self.stage = 0;
                    self.lower = 0;
                    self.upper = 0;
                } else if c == '{' || c == '<' {
                    let open = self.sizes.len();
                    if open > self.deepest {
                        self.deepest = open;
                    }
                    self.sizes.push(0);
                    self.stage = 0;
                    self.lower = 0;
                    self.upper = 0;
                } else if c == '}' {
                    self.close(1);
                    self.stage = 0;
                    self.lower = 0;
                    self.upper = 0;
                } else if c == '>' {
                    let most = if self.stage == 2 && self.upper > self.lower {
                        self.upper
                    } else {
                        self.lower
                    };
                    let n: usize = if self.stage == 0 || most == 0 {
                        1
                    } else if most > MAX_BOUND {
                        usize::MAX
                    } else {
                        most as usize
                    };
                    let large = self.stage != 0 && (self.lower > MAX_BOUND || self.upper
                        > MAX_BOUND);
                    assert(n == times(t));
                    assert(large == bound_too_large(t));
                    self.close(n);
                    if large {
                        self.unfit = true;
                    }
                    self.stage = 0;
                    self.lower = 0;
                    self.upper = 0;
                } else if c == ':' {
                    self.stage = 1;
                    self.lower = 0;
                    self.upper = 0;
                } else if c == ',' && self.stage == 1 {
                    self.stage = 2;
                } else if digit(c) && self.stage == 1 {
                    self.lower = Scanner::with_digit(self.lower, c);
                } else if digit(c) && self.stage == 2 {
                    self.upper = Scanner::with_digit(self.upper, c);
                } else {
                    self.stage = 0;
                    self.lower = 0;
                    self.upper = 0;
                }
            },
        }
    }
}

/// Whether an expression can be handed to `wax`.
pub fn check_fits(expression: &str) -> (small: bool)
    ensures
        small == fits(expression@),
{
    let e = chars_of(expression);
    let mut scanner = Scanner::new();
    let mut i: usize = 0;
    while i < e.len()
        invariant
            i <= e.len(),
            e@ == expression@,
            scanner.model() == scan(e@, i as int),
            1 <= scanner.sizes@.len() <= i + 1,
            scanner.lower <= MAX_BOUND + 1,
            scanner.upper <= MAX_BOUND + 1,
        decreases e.len() - i,
    {
        scanner.advance(e[i]);
        i += 1;
    }
    !scanner.unfit && scanner.deepest <= MAX_DEPTH
}

} // verus!
