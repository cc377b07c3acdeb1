//! Reading an image size from text such as `500,500`.

use vstd::prelude::*;
use crate::generate::Resolution;
use crate::text::{decimal, decimal_string, first_of, lemma_first_of_is};

verus! {

/// Whether a character is whitespace: whether it has the Unicode property
/// `White_Space`. These are the controls U+0009 to U+000D, the space, U+0085,
/// the no-break space, U+1680, the spaces U+2000 to U+200A, the line and
/// paragraph separators U+2028 and U+2029, U+202F, U+205F and U+3000.
pub open spec fn white_space(c: char) -> bool {
    let n = c as int;
    ||| 0x09 <= n <= 0x0D
    ||| n == 0x20
    ||| n == 0x85
    ||| n == 0xA0
    ||| n == 0x1680
    ||| 0x2000 <= n <= 0x200A
    ||| n == 0x2028
    ||| n == 0x2029
    ||| n == 0x202F
    ||| n == 0x205F
    ||| n == 0x3000
}

/// `char::is_whitespace` of the standard library, which its documentation
/// defines as membership in the Unicode property `White_Space`. The contract
/// writes that property out as [`white_space`].
pub assume_specification[ char::is_whitespace ](c: char) -> (r: bool)
    ensures
        r == white_space(c),
;

/// Why a piece of text is no number.
#[derive(Copy, Clone, Debug, PartialEq, Eq, Structural)]
pub enum NumberError {
    /// The text is empty.
    Empty,
    /// The text holds something else than digits after an optional `+`.
    InvalidDigit,
    /// The number does not fit.
    PosOverflow,
}

/// Why a piece of text is no image size.
#[derive(Copy, Clone, Debug, PartialEq, Eq, Structural)]
pub enum ResolutionError {
    /// The text has not exactly two parts between commas.
    WrongCount {
        /// The number of parts that it has.
        found: usize,
    },
    /// One of the two parts is no number.
    InvalidNumber {
        /// The part: 0 for the width, 1 for the height.
        index: usize,
        /// What is wrong with it.
        reason: NumberError,
    },
}

/// What [`NumberError::message`] returns.
pub open spec fn number_message(reason: NumberError) -> Seq<char> {
    match reason {
        NumberError::Empty => "cannot parse integer from empty string"@,
        NumberError::InvalidDigit => "invalid digit found in string"@,
        NumberError::PosOverflow => "number too large to fit in target type"@,
    }
}

/// What [`ResolutionError::message`] returns.
pub open spec fn resolution_message(error: ResolutionError) -> Seq<char> {
    match error {
        ResolutionError::WrongCount { found } =>
            "expected exactly 2 comma-separated positive integers, got "@ + decimal(found as nat),
        ResolutionError::InvalidNumber { index, reason } => "Failed to parse argument "@ + decimal(
            index as nat,
        ) + ": "@ + number_message(reason),
    }
}

impl NumberError {
    /// A sentence that describes the error.
    pub fn message(&self) -> (m: &'static str)
        ensures
            m@ == number_message(*self),
    {
        match self {
            NumberError::Empty => "cannot parse integer from empty string",
            NumberError::InvalidDigit => "invalid digit found in string",
            NumberError::PosOverflow => "number too large to fit in target type",
        }
    }
}

impl ResolutionError {
    /// A sentence that describes the error.
    pub fn message(&self) -> (m: String)
        ensures
            m@ == resolution_message(*self),
    {
        match self {
            ResolutionError::WrongCount { found } => {
                let mut m = "expected exactly 2 comma-separated positive integers, got ".to_owned();
                let count = decimal_string(*found as u64);
                m.append(count.as_str());
                m
            },
            ResolutionError::InvalidNumber { index, reason } => {
                let mut m = "Failed to parse argument ".to_owned();
                let place = decimal_string(*index as u64);
                m.append(place.as_str());
                m.append(": ");
                m.append(reason.message());
                m
            },
        }
    }
}

/// `s` without the whitespace at its two ends.
pub open spec fn trimmed(s: Seq<char>) -> Seq<char>
    decreases s.len(),
{
    if s.len() > 0 && white_space(s[0]) {
        trimmed(s.drop_first())
    } else if s.len() > 0 && white_space(s.last()) {
        trimmed(s.drop_last())
    } else {
        s
    }
}

/// Whether `c` is a decimal digit.
pub open spec fn is_digit(c: char) -> bool {
    '0' <= c && c <= '9'
}

/// The number that a sequence of digits denotes.
pub open spec fn digits_value(s: Seq<char>) -> nat
    decreases s.len(),
{
    if s.len() == 0 {
        0
    } else {
        digits_value(s.drop_last()) * 10 + (s.last() as int - '0' as int) as nat
    }
}

/// Reads the digits of `body` from place `at` on, with `acc` the number read
/// so far: a character that is no digit ends the reading, and so does the
/// first digit with which the number no longer fits.
pub open spec fn read_digits(body: Seq<char>, at: int, acc: nat) -> Result<nat, NumberError>
    decreases body.len() - at,
{
    if at < 0 || at >= body.len() {
        Ok(acc)
    } else if !is_digit(body[at]) {
        Err(NumberError::InvalidDigit)
    } else {
        let next = acc * 10 + (body[at] as int - '0' as int) as nat;
        if next > usize::MAX {
            Err(NumberError::PosOverflow)
        } else {
            read_digits(body, at + 1, next)
        }
    }
}

/// The number that `s` denotes: an optional `+` and at least one digit, and
/// nothing else; the number must fit.
pub open spec fn parse_number(s: Seq<char>) -> Result<nat, NumberError> {
    if s.len() == 0 {
        Err(NumberError::Empty)
    } else {
        let body = if s[0] == '+' {
            s.skip(1)
        } else {
            s
        };
        if body.len() == 0 {
            Err(NumberError::InvalidDigit)
        } else {
            read_digits(body, 0, 0)
        }
    }
}

/// The number of commas in `s`.
pub open spec fn commas(s: Seq<char>) -> nat
    decreases s.len(),
{
    if s.len() == 0 {
        0
    } else {
        commas(s.drop_last()) + if s.last() == ',' {
            1nat
        } else {
            0nat
        }
    }
}

/// The image size that `s` denotes: two numbers with one comma between
/// them, each with any whitespace around it. The width is read first.
pub open spec fn parse_resolution(s: Seq<char>) -> Result<Resolution, ResolutionError> {
    if commas(s) != 1 {
        Err(ResolutionError::WrongCount { found: (commas(s) + 1) as usize })
    } else {
        let at = first_of(s, ',');
        match parse_number(trimmed(s.take(at))) {
            Err(reason) => Err(ResolutionError::InvalidNumber { index: 0, reason }),
            Ok(width) => match parse_number(trimmed(s.skip(at + 1))) {
                Err(reason) => Err(ResolutionError::InvalidNumber { index: 1, reason }),
                Ok(height) => Ok(Resolution { width: width as usize, height: height as usize }),
            },
        }
    }
}

/// Reading the digits succeeds exactly when every character from `at` on is
/// a digit and the number that all the digits denote fits; it then gives
/// that number.
pub proof fn lemma_read_digits_ok(body: Seq<char>, at: int, acc: nat)
    requires
        0 <= at <= body.len(),
        acc == digits_value(body.take(at)),
        acc <= usize::MAX,
    ensures
        read_digits(body, at, acc) is Ok <==> (forall|i: int|
            at <= i < body.len() ==> is_digit(#[trigger] body[i])) && digits_value(body)
            <= usize::MAX,
        read_digits(body, at, acc) matches Ok(v) ==> v == digits_value(body),
    decreases body.len() - at,
{
    if at >= body.len() {
        assert(body.take(at) =~= body);
    } else if is_digit(body[at]) {
        let next = acc * 10 + (body[at] as int - '0' as int) as nat;
        assert(body.take(at + 1).drop_last() =~= body.take(at));
        assert(body.take(at + 1).last() == body[at]);
        assert(next == digits_value(body.take(at + 1)));
        if forall|i: int| at <= i < body.len() ==> is_digit(#[trigger] body[i]) {
            lemma_digits_value_grows(body, at + 1);
        }
        if next <= usize::MAX {
            lemma_read_digits_ok(body, at + 1, next);
        }
    }
}

/// A longer prefix of digits denotes no smaller number.
pub proof fn lemma_digits_value_grows(body: Seq<char>, at: int)
    requires
        0 <= at <= body.len(),
        forall|i: int| at <= i < body.len() ==> is_digit(#[trigger] body[i]),
    ensures
        digits_value(body.take(at)) <= digits_value(body),
    decreases body.len() - at,
{
    if at == body.len() {
        assert(body.take(at) =~= body);
    } else {
        assert(body.take(at + 1).drop_last() =~= body.take(at));
        assert(is_digit(body[at]));
        assert(body.take(at + 1).last() == body[at]);
        lemma_digits_value_grows(body, at + 1);
    }
}

/// Reads the number that stands between the places `from` and `to` of `s`,
/// whitespace around it set aside.
fn parse_part(s: &str, from: usize, to: usize) -> (r: Result<usize, NumberError>)
    requires
        from <= to <= s@.len(),
    ensures
        match (r, parse_number(trimmed(s@.subrange(from as int, to as int)))) {
            (Ok(n), Ok(v)) => n == v,
            (Err(e), Err(reason)) => e == reason,
            _ => false,
        },
{
    let ghost part = s@.subrange(from as int, to as int);
    let mut lo = from;
    while lo < to && s.get_char(lo).is_whitespace()
        invariant
            from <= lo <= to <= s@.len(),
            trimmed(part) == trimmed(s@.subrange(lo as int, to as int)),
        decreases to - lo,
    {
        proof {
            let now = s@.subrange(lo as int, to as int);
            assert(now[0] == s@[lo as int]);
            assert(now.drop_first() =~= s@.subrange(lo + 1, to as int));
        }
        lo += 1;
    }
    let mut hi = to;
    while hi > lo && s.get_char(hi - 1).is_whitespace()
        invariant
            lo <= hi <= to <= s@.len(),
            lo < to ==> !white_space(s@[lo as int]),
            trimmed(part) == trimmed(s@.subrange(lo as int, hi as int)),
        decreases hi - lo,
    {
        proof {
            let now = s@.subrange(lo as int, hi as int);
            assert(now[0] == s@[lo as int]);
            assert(now.last() == s@[hi - 1]);
            assert(now.drop_last() =~= s@.subrange(lo as int, hi - 1));
        }
        hi -= 1;
    }
    let ghost text = s@.subrange(lo as int, hi as int);
    proof {
        if lo < hi {
            assert(text[0] == s@[lo as int]);
            assert(text.last() == s@[hi - 1]);
        }
        assert(trimmed(text) == text);
    }
    if lo == hi {
        return Err(NumberError::Empty);
    }
    let start = if s.get_char(lo) == '+' {
        lo + 1
    } else {
        lo
    };
    let ghost body = s@.subrange(start as int, hi as int);
    proof {
        assert(text[0] == s@[lo as int]);
        if start > lo {
            assert(text.skip(1) =~= body);
        } else {
            assert(text =~= body);
        }
    }
    if start == hi {
        return Err(NumberError::InvalidDigit);
    }
    let mut acc: usize = 0;
    let mut at = start;
    proof {
        assert(parse_number(trimmed(part)) == read_digits(body, 0, 0));
    }
    while at < hi
        invariant
            from <= to <= s@.len(),
            start <= at <= hi <= s@.len(),
            body == s@.subrange(start as int, hi as int),
            parse_number(trimmed(s@.subrange(from as int, to as int))) == read_digits(body, 0, 0),
            read_digits(body, 0, 0) == read_digits(body, at - start, acc as nat),
        decreases hi - at,
    {
        let c = s.get_char(at);
        assert(body[at - start] == c);
        if !('0' <= c && c <= '9') {
            return Err(NumberError::InvalidDigit);
        }
        let digit = (c as u8 - 48) as usize;
        assert(digit == (c as int - '0' as int) as nat);
        let next = match acc.checked_mul(10) {
            Some(tenfold) => tenfold.checked_add(digit),
            None => None,
        };
        match next {
            Some(next) => {
                acc = next;
            },
            None => {
                return Err(NumberError::PosOverflow);
            },
        }
        at += 1;
    }
    Ok(acc)
}

impl Resolution {
    /// Reads an image size written as width, a comma and height, such as
    /// `500,500`. Whitespace around either number is ignored, and a number
    /// may carry a `+`.
    pub fn from_str(s: &str) -> (r: Result<Self, ResolutionError>)
        requires
            s@.len() < usize::MAX,
        ensures
            r == parse_resolution(s@),
    {
        let n = s.unicode_len();
        let mut found: usize = 0;
        let mut first: usize = n;
        let mut i: usize = 0;
        while i < n
            invariant
                n == s@.len(),
                n < usize::MAX,
                i <= n,
                found == commas(s@.take(i as int)),
                found <= i,
                found == 0 ==> first == n && forall|j: int| 0 <= j < i ==> s@[j] != ',',
                found > 0 ==> first < i && s@[first as int] == ',' && forall|j: int|
                    0 <= j < first ==> s@[j] != ',',
            decreases n - i,
        {
            proof {
                assert(s@.take(i + 1).drop_last() =~= s@.take(i as int));
                assert(s@.take(i + 1).last() == s@[i as int]);
            }
            if s.get_char(i) == ',' {
                if found == 0 {
                    first = i;
                }
                found += 1;
            }
            i += 1;
        }
        proof {
            assert(s@.take(n as int) =~= s@);
            lemma_first_of_is(s@, ',', first as int);
        }
        if found != 1 {
            return Err(ResolutionError::WrongCount { found: found + 1 });
        }
        proof {
            assert(s@.take(first as int) =~= s@.subrange(0, first as int));
            assert(s@.skip(first + 1) =~= s@.subrange(first + 1, n as int));
        }
        let width = match parse_part(s, 0, first) {
            Ok(width) => width,
            Err(reason) => {
                return Err(ResolutionError::InvalidNumber { index: 0, reason });
            },
        };
        let height = match parse_part(s, first + 1, n) {
            Ok(height) => height,
            Err(reason) => {
                return Err(ResolutionError::InvalidNumber { index: 1, reason });
            },
        };
        Ok(Self { width, height })
    }
}

} // verus!
