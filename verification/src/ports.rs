//! Choosing the MIDI input port.
//!
//! With no input port there is nothing to read from; with one it is taken;
//! with several the user is asked for the index of one, which is read the way
//! `str::trim` and `str::parse::<usize>` read it.

use vstd::prelude::*;

verus! {

broadcast use vstd::string::axiom_spec_iter;

/// Why no input port could be chosen.
#[derive(Clone, Copy, Debug, PartialEq, Eq, Structural)]
pub enum PortError {
    /// There is no MIDI input port.
    NoInputPort,
    /// The answer is not a decimal number, for the reason given.
    NotANumber(NumberError),
    /// The answer is a number, but no port has that index.
    NoSuchPort,
}

/// Why a text is not a `usize` in decimal, as `str::parse::<usize>` tells it
/// (`std::num::IntErrorKind`).
#[derive(Clone, Copy, Debug, PartialEq, Eq, Structural)]
pub enum NumberError {
    /// The text is empty.
    Empty,
    /// The text holds a character that is no decimal digit in its place, or is
    /// a lone `+`.
    InvalidDigit,
    /// The number is too large for a `usize`.
    TooLarge,
}

/// A character of the Unicode `White_Space` property, the whitespace that
/// `str::trim` removes.
pub open spec fn is_white_space(c: char) -> bool {
    let u = c as u32;
    ||| 0x9 <= u <= 0xD
    ||| u == 0x20
    ||| u == 0x85
    ||| u == 0xA0
    ||| u == 0x1680
    ||| 0x2000 <= u <= 0x200A
    ||| u == 0x2028
    ||| u == 0x2029
    ||| u == 0x202F
    ||| u == 0x205F
    ||| u == 0x3000
}

/// `s` without its leading whitespace.
pub open spec fn trim_start(s: Seq<char>) -> Seq<char>
    decreases s.len(),
{
    if s.len() > 0 && is_white_space(s[0]) {
        trim_start(s.drop_first())
    } else {
        s
    }
}

/// `s` without its trailing whitespace.
pub open spec fn trim_end(s: Seq<char>) -> Seq<char>
    decreases s.len(),
{
    if s.len() > 0 && is_white_space(s.last()) {
        trim_end(s.drop_last())
    } else {
        s
    }
}

/// `s` without its leading and trailing whitespace.
pub open spec fn trimmed(s: Seq<char>) -> Seq<char> {
    trim_end(trim_start(s))
}

/// An ASCII decimal digit.
pub open spec fn is_digit(c: char) -> bool {
    '0' as u32 <= c as u32 <= '9' as u32
}

/// The number that the decimal digits `s` write.
pub open spec fn digits_value(s: Seq<char>) -> nat
    decreases s.len(),
{
    if s.len() == 0 {
        0
    } else {
        digits_value(s.drop_last()) * 10 + (s.last() as u32 - '0' as u32) as nat
    }
}

/// Whether every character of `s` is a decimal digit.
pub open spec fn all_digits(s: Seq<char>) -> bool {
    forall|i: int| 0 <= i < s.len() ==> is_digit(#[trigger] s[i])
}

/// `s` without a leading `+`, if it has one.
pub open spec fn unsigned_part(s: Seq<char>) -> Seq<char> {
    if s.len() > 0 && s[0] == '+' { s.drop_first() } else { s }
}

/// The value of a decimal digit.
pub open spec fn digit_value(c: char) -> nat {
    (c as u32 - '0' as u32) as nat
}

/// Reading the characters `s` as decimal digits from left to right, as
/// `parse` does: the number read, or the first failure met, a character that
/// is no digit or a number grown past `usize::MAX`.
pub open spec fn scan_digits(s: Seq<char>) -> Result<nat, NumberError>
    decreases s.len(),
{
    if s.len() == 0 {
        Ok(0)
    } else {
        match scan_digits(s.drop_last()) {
            Err(e) => Err(e),
            Ok(v) => if !is_digit(s.last()) {
                Err(NumberError::InvalidDigit)
            } else if v * 10 + digit_value(s.last()) > usize::MAX {
                Err(NumberError::TooLarge)
            } else {
                Ok(v * 10 + digit_value(s.last()))
            },
        }
    }
}

/// The `usize` that `s` writes in decimal, with an optional leading `+`, or
/// why it writes none: `s` is empty, is a lone `+`, or fails when read from
/// left to right.
pub open spec fn parsed_usize(s: Seq<char>) -> Result<usize, NumberError> {
    if s.len() == 0 {
        Err(NumberError::Empty)
    } else if unsigned_part(s).len() == 0 {
        Err(NumberError::InvalidDigit)
    } else {
        match scan_digits(unsigned_part(s)) {
            Ok(v) => Ok(v as usize),
            Err(e) => Err(e),
        }
    }
}

fn is_white_space_char(c: char) -> (b: bool)
    ensures
        b == is_white_space(c),
{
    let u = c as u32;
    (0x9 <= u && u <= 0xD) || u == 0x20 || u == 0x85 || u == 0xA0 || u == 0x1680 || (0x2000 <= u
        && u <= 0x200A) || u == 0x2028 || u == 0x2029 || u == 0x202F || u == 0x205F || u == 0x3000
}

/// The characters of `s`.
fn chars_of(s: &str) -> (chars: Vec<char>)
    ensures
        chars@ == s@,
{
    let mut chars: Vec<char> = Vec::new();
    for c in it: s.chars()
        invariant
            it.seq() == s@,
            chars@ == it.seq().take(it.index() as int),
    {
        chars.push(c);
    }
    chars
}


/// The bounds of `chars` without its leading and trailing whitespace.
fn trim_bounds(chars: &Vec<char>) -> (bounds: (usize, usize))
    ensures
        bounds.0 <= bounds.1 <= chars@.len(),
        chars@.subrange(bounds.0 as int, bounds.1 as int) == trimmed(chars@),
{
    let n = chars.len();
    let mut start: usize = 0;
    assert(chars@.subrange(0, n as int) =~= chars@);
    while start < n && is_white_space_char(chars[start])
        invariant
            start <= n == chars@.len(),
            trim_start(chars@) == trim_start(chars@.subrange(start as int, n as int)),
        decreases n - start,
    {
        assert(chars@.subrange(start as int, n as int).drop_first() =~= chars@.subrange(
            start + 1,
            n as int,
        ));
        start = start + 1;
    }
    assert(trim_start(chars@) == chars@.subrange(start as int, n as int));
    let mut end: usize = n;
    while end > start && is_white_space_char(chars[end - 1])
        invariant
            start <= end <= n == chars@.len(),
            trim_start(chars@) == chars@.subrange(start as int, n as int),
            trimmed(chars@) == trim_end(chars@.subrange(start as int, end as int)),
        decreases end - start,
    {
        assert(chars@.subrange(start as int, end as int).drop_last() =~= chars@.subrange(
            start as int,
            end - 1,
        ));
        end = end - 1;
    }
    (start, end)
}

/// A number written in decimal digits is at least the number that any prefix
/// of its digits writes.
proof fn lemma_digits_value_grows(s: Seq<char>, k: int)
    requires
        0 <= k <= s.len(),
    ensures
        digits_value(s.take(k)) <= digits_value(s),
    decreases s.len(),
{
    if k < s.len() {
        assert(s.drop_last().take(k) =~= s.take(k));
        lemma_digits_value_grows(s.drop_last(), k);
    } else {
        assert(s.take(k) =~= s);
    }
}

/// Once reading a prefix of `s` fails, reading the whole of `s` fails the
/// same way.
proof fn lemma_scan_failure_persists(s: Seq<char>, k: int)
    requires
        0 <= k <= s.len(),
        scan_digits(s.take(k)) is Err,
    ensures
        scan_digits(s) == scan_digits(s.take(k)),
    decreases s.len(),
{
    if k < s.len() {
        assert(s.drop_last().take(k) =~= s.take(k));
        lemma_scan_failure_persists(s.drop_last(), k);
    } else {
        assert(s.take(k) =~= s);
    }
}

/// Reading digits succeeds exactly where every character is a digit and the
/// number they write fits a `usize`, and then gives that number.
proof fn lemma_scan_digits_value(s: Seq<char>)
    ensures
        scan_digits(s) is Ok <==> all_digits(s) && digits_value(s) <= usize::MAX,
        scan_digits(s) is Ok ==> scan_digits(s)->Ok_0 == digits_value(s),
    decreases s.len(),
{
    if s.len() > 0 {
        let p = s.drop_last();
        lemma_scan_digits_value(p);
        assert(p.take(p.len() as int) =~= p);
        lemma_digits_value_grows(s, p.len() as int);
        assert(s.take(p.len() as int) =~= p);
        if all_digits(s) {
            assert forall|i: int| 0 <= i < p.len() implies is_digit(#[trigger] p[i]) by {
                assert(p[i] == s[i]);
            }
            assert(is_digit(s[s.len() - 1]));
        }
        if all_digits(p) && is_digit(s.last()) {
            assert forall|i: int| 0 <= i < s.len() implies is_digit(#[trigger] s[i]) by {
                if i < p.len() {
                    assert(p[i] == s[i]);
                }
            }
        }
        if !all_digits(p) {
            let i = choose|i: int| 0 <= i < p.len() && !is_digit(#[trigger] p[i]);
            assert(s[i] == p[i]);
        }
    }
}

/// An answer reads as a number exactly where, after an optional `+`, it is a
/// non-empty run of decimal digits that writes a number that fits a `usize`,
/// and then as that number.
pub proof fn lemma_parsed_number(s: Seq<char>)
    ensures
        parsed_usize(s) is Ok <==> {
            &&& unsigned_part(s).len() > 0
            &&& all_digits(unsigned_part(s))
            &&& digits_value(unsigned_part(s)) <= usize::MAX
        },
        parsed_usize(s) is Ok ==> parsed_usize(s)->Ok_0 == digits_value(unsigned_part(s)),
{
    lemma_scan_digits_value(unsigned_part(s));
}

/// Reading digits fails on a character that is no digit only where every
/// character before it is a digit and writes a number that still fits; it
/// fails on size only where a run of digits from the start writes a number
/// past `usize::MAX`.
proof fn lemma_scan_failure_reason(s: Seq<char>)
    ensures
        scan_digits(s) != Err::<nat, NumberError>(NumberError::Empty),
        scan_digits(s) == Err::<nat, NumberError>(NumberError::InvalidDigit) ==> exists|i: int|
            0 <= i < s.len() && !is_digit(#[trigger] s[i]) && all_digits(s.take(i))
                && digits_value(s.take(i)) <= usize::MAX,
        scan_digits(s) == Err::<nat, NumberError>(NumberError::TooLarge) ==> exists|k: int|
            0 < k <= s.len() && all_digits(#[trigger] s.take(k)) && digits_value(s.take(k))
                > usize::MAX,
    decreases s.len(),
{
    if s.len() > 0 {
        let p = s.drop_last();
        let n = p.len() as int;
        lemma_scan_failure_reason(p);
        lemma_scan_digits_value(p);
        if scan_digits(p) is Err {
            if scan_digits(p) == Err::<nat, NumberError>(NumberError::InvalidDigit) {
                let i = choose|i: int| 0 <= i < p.len() && !is_digit(#[trigger] p[i]) && all_digits(p.take(i))
                    && digits_value(p.take(i)) <= usize::MAX;
                assert(s[i] == p[i]);
                assert(s.take(i) =~= p.take(i));
            } else {
                let k = choose|k: int| 0 < k <= p.len() && all_digits(#[trigger] p.take(k))
                    && digits_value(p.take(k)) > usize::MAX;
                assert(s.take(k) =~= p.take(k));
            }
        } else {
            assert(s.take(n) =~= p);
            if is_digit(s.last()) {
                assert(s.take(n + 1) =~= s);
                assert(s.drop_last() =~= p);
                assert forall|j: int| 0 <= j < s.len() implies is_digit(#[trigger] s[j]) by {
                    if j < n {
                        assert(p[j] == s[j]);
                    }
                }
            }
        }
    }
}

/// Why an answer fails to read as a number: an empty answer, and only that,
/// is `Empty`; `InvalidDigit` comes from a lone `+` or a character that is no
/// digit, met while the digits before it still write a number that fits;
/// `TooLarge` comes from a run of digits at the start that writes a number
/// past `usize::MAX`.
pub proof fn lemma_parse_failure_reason(s: Seq<char>)
    ensures
        parsed_usize(s) == Err::<usize, NumberError>(NumberError::Empty) <==> s.len() == 0,
        parsed_usize(s) == Err::<usize, NumberError>(NumberError::InvalidDigit) ==> unsigned_part(
            s,
        ).len() == 0 || exists|i: int|
            0 <= i < unsigned_part(s).len() && !is_digit(#[trigger] unsigned_part(s)[i])
                && all_digits(unsigned_part(s).take(i)) && digits_value(unsigned_part(s).take(i))
                <= usize::MAX,
        parsed_usize(s) == Err::<usize, NumberError>(NumberError::TooLarge) ==> exists|k: int|
            0 < k <= unsigned_part(s).len() && all_digits(#[trigger] unsigned_part(s).take(k))
                && digits_value(unsigned_part(s).take(k)) > usize::MAX,
{
    lemma_scan_failure_reason(unsigned_part(s));
}

/// The `usize` that `chars[lo..hi]` writes in decimal.
fn parse_decimal(chars: &Vec<char>, lo: usize, hi: usize) -> (value: Result<usize, NumberError>)
    requires
        lo <= hi <= chars@.len(),
    ensures
        value == parsed_usize(chars@.subrange(lo as int, hi as int)),
{
    let ghost s = chars@.subrange(lo as int, hi as int);
    if lo == hi {
        return Err(NumberError::Empty);
    }
    let mut first = lo;
    if chars[first] == '+' {
        first = first + 1;
    }
    let ghost digits = chars@.subrange(first as int, hi as int);
    assert(digits =~= unsigned_part(s));
    if first == hi {
        return Err(NumberError::InvalidDigit);
    }
    let mut value: usize = 0;
    let mut i = first;
    assert(chars@.subrange(first as int, first as int) =~= Seq::<char>::empty());
    while i < hi
        invariant
            first <= i <= hi <= chars@.len(),
            digits == chars@.subrange(first as int, hi as int),
            digits.len() > 0,
            parsed_usize(chars@.subrange(lo as int, hi as int)) == match scan_digits(digits) {
                Ok(v) => Ok::<usize, NumberError>(v as usize),
                Err(e) => Err(e),
            },
            scan_digits(chars@.subrange(first as int, i as int)) == Ok::<nat, NumberError>(value as nat),
        decreases hi - i,
    {
        let c = chars[i];
        let code = c as u32;
        let ghost prefix = chars@.subrange(first as int, i + 1);
        assert(prefix.drop_last() =~= chars@.subrange(first as int, i as int));
        assert(digits.take(i + 1 - first) =~= prefix);
        assert(prefix.last() == c);
        if code < '0' as u32 || code > '9' as u32 {
            proof {
                lemma_scan_failure_persists(digits, i + 1 - first);
            }
            return Err(NumberError::InvalidDigit);
        }
        let digit = (code - '0' as u32) as usize;
        match value.checked_mul(10) {
            None => {
                proof {
                    lemma_scan_failure_persists(digits, i + 1 - first);
                }
                return Err(NumberError::TooLarge);
            },
            Some(tens) => match tens.checked_add(digit) {
                None => {
                    proof {
                        lemma_scan_failure_persists(digits, i + 1 - first);
                    }
                    return Err(NumberError::TooLarge);
                },
                Some(next) => {
                    value = next;
                },
            },
        }
        i = i + 1;
    }
    assert(chars@.subrange(first as int, i as int) =~= digits);
    Ok(value)
}

/// Whether the user has to be asked for a port: with no input port there is
/// none to choose, with exactly one it is taken, with several the user is
/// asked (`None`).
pub fn choose_port(port_count: usize) -> (choice: Result<Option<usize>, PortError>)
    ensures
        port_count == 0 <==> choice == Err::<Option<usize>, PortError>(PortError::NoInputPort),
        port_count == 1 <==> choice == Ok::<Option<usize>, PortError>(Some(0usize)),
        port_count >= 2 <==> choice == Ok::<Option<usize>, PortError>(None),
{
    if port_count == 0 {
        Err(PortError::NoInputPort)
    } else if port_count == 1 {
        Ok(Some(0))
    } else {
        Ok(None)
    }
}

/// The index of the port that the user's `answer` names, among `port_count`
/// ports: the answer without surrounding whitespace must be a decimal number,
/// optionally after a `+`, below `port_count`. Where it is no number the error
/// says why, as `str::parse::<usize>` does.
pub fn port_from_answer(port_count: usize, answer: &str) -> (port: Result<usize, PortError>)
    ensures
        port == match parsed_usize(trimmed(answer@)) {
            Err(e) => Err::<usize, PortError>(PortError::NotANumber(e)),
            Ok(n) => if n < port_count {
                Ok::<usize, PortError>(n)
            } else {
                Err(PortError::NoSuchPort)
            },
        },
        port matches Ok(n) ==> n < port_count,
{
    let chars = chars_of(answer);
    let (lo, hi) = trim_bounds(&chars);
    match parse_decimal(&chars, lo, hi) {
        Err(e) => Err(PortError::NotANumber(e)),
        Ok(n) => if n < port_count {
            Ok(n)
        } else {
            Err(PortError::NoSuchPort)
        },
    }
}


/// Whether every character of `s` is whitespace.
pub open spec fn all_white_space(s: Seq<char>) -> bool {
    forall|i: int| 0 <= i < s.len() ==> is_white_space(#[trigger] s[i])
}

proof fn lemma_trim_start_skips(w: Seq<char>, x: Seq<char>)
    requires
        all_white_space(w),
    ensures
        trim_start(w + x) == trim_start(x),
    decreases w.len(),
{
    if w.len() > 0 {
        assert((w + x)[0] == w[0]);
        assert((w + x).drop_first() =~= w.drop_first() + x);
        lemma_trim_start_skips(w.drop_first(), x);
    } else {
        assert(w + x =~= x);
    }
}

proof fn lemma_trim_end_skips(x: Seq<char>, w: Seq<char>)
    requires
        all_white_space(w),
    ensures
        trim_end(x + w) == trim_end(x),
    decreases w.len(),
{
    if w.len() > 0 {
        assert((x + w).last() == w.last());
        assert((x + w).drop_last() =~= x + w.drop_last());
        lemma_trim_end_skips(x, w.drop_last());
    } else {
        assert(x + w =~= x);
    }
}

proof fn lemma_trim_start_append(x: Seq<char>, w: Seq<char>)
    requires
        all_white_space(w),
    ensures
        trim_start(x + w) == if trim_start(x).len() == 0 {
            Seq::<char>::empty()
        } else {
            trim_start(x) + w
        },
    decreases x.len(),
{
    if x.len() == 0 {
        assert(x + w =~= Seq::<char>::empty() + w);
        lemma_trim_start_skips(w, Seq::<char>::empty());
        assert(w + Seq::<char>::empty() =~= w);
        assert(x + w =~= w);
    } else if is_white_space(x[0]) {
        assert((x + w)[0] == x[0]);
        assert((x + w).drop_first() =~= x.drop_first() + w);
        lemma_trim_start_append(x.drop_first(), w);
    } else {
        assert((x + w)[0] == x[0]);
    }
}

/// Whitespace around an answer, such as the line break that reading a line
/// leaves at its end, does not change what the answer reads as.
pub proof fn lemma_surrounding_white_space_ignored(before: Seq<char>, s: Seq<char>, after: Seq<char>)
    requires
        all_white_space(before),
        all_white_space(after),
    ensures
        trimmed(before + s + after) == trimmed(s),
        parsed_usize(trimmed(before + s + after)) == parsed_usize(trimmed(s)),
{
    assert(before + s + after =~= before + (s + after));
    lemma_trim_start_skips(before, s + after);
    lemma_trim_start_append(s, after);
    if trim_start(s).len() != 0 {
        lemma_trim_end_skips(trim_start(s), after);
    }
}

} // verus!
