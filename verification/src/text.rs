//! Text as sequences of characters: the decimal form of a number and its
//! reading, white space, words and lines, substitution at a marker, joining.

use vstd::prelude::*;
use vstd::string::StrSliceExecFns;
use vstd::string::StringExecFns;

verus! {

/// The characters of `s`, one by one.
pub fn chars(s: &str) -> (v: Vec<char>)
    ensures
        v@ == s@,
{
    let mut v: Vec<char> = Vec::new();
    for c in it: s.chars()
        invariant
            it.seq() == s@,
            v@ == it.seq().take(it.index()),
    {
        v.push(c);
    }
    v
}

/// The decimal digit that stands for `d`.
pub open spec fn digit_char(d: nat) -> char
    recommends
        d < 10,
{
    if d == 0 {
        '0'
    } else if d == 1 {
        '1'
    } else if d == 2 {
        '2'
    } else if d == 3 {
        '3'
    } else if d == 4 {
        '4'
    } else if d == 5 {
        '5'
    } else if d == 6 {
        '6'
    } else if d == 7 {
        '7'
    } else if d == 8 {
        '8'
    } else {
        '9'
    }
}

/// Whether `c` is one of the ten decimal digits.
pub open spec fn is_digit(c: char) -> bool {
    '0' <= c && c <= '9'
}

/// The number that the decimal digit `c` stands for.
pub open spec fn digit_value(c: char) -> nat
    recommends
        is_digit(c),
{
    (c as nat - '0' as nat) as nat
}

/// The decimal form of `n`: no sign, no leading zero but for zero itself.
pub open spec fn decimal(n: nat) -> Seq<char>
    decreases n,
{
    if n < 10 {
        seq![digit_char(n)]
    } else {
        decimal(n / 10).push(digit_char(n % 10))
    }
}

/// The number that a run of decimal digits stands for; zero for the empty run.
pub open spec fn digits_value(s: Seq<char>) -> nat
    decreases s.len(),
{
    if s.len() == 0 {
        0
    } else {
        digits_value(s.drop_last()) * 10 + digit_value(s.last())
    }
}

/// Every digit stands for its own number, and back.
pub proof fn lemma_digit_round_trip(d: nat)
    requires
        d < 10,
    ensures
        is_digit(digit_char(d)),
        digit_value(digit_char(d)) == d,
{
}

/// The decimal form of a number is made of digits and reads back as that number.
pub proof fn lemma_decimal_round_trip(n: nat)
    ensures
        decimal(n).len() >= 1,
        forall|i: int| 0 <= i < decimal(n).len() ==> is_digit(#[trigger] decimal(n)[i]),
        digits_value(decimal(n)) == n,
    decreases n,
{
    if n < 10 {
        lemma_digit_round_trip(n);
        assert(decimal(n).drop_last() =~= Seq::<char>::empty());
        assert(digits_value(decimal(n).drop_last()) == 0);
    } else {
        lemma_decimal_round_trip(n / 10);
        lemma_digit_round_trip(n % 10);
        assert(decimal(n).drop_last() =~= decimal(n / 10));
    }
}

fn digit_str(d: u64) -> (s: &'static str)
    requires
        d < 10,
    ensures
        s@ == seq![digit_char(d as nat)],
{
    proof {
        reveal_strlit("0");
        reveal_strlit("1");
        reveal_strlit("2");
        reveal_strlit("3");
        reveal_strlit("4");
        reveal_strlit("5");
        reveal_strlit("6");
        reveal_strlit("7");
        reveal_strlit("8");
        reveal_strlit("9");
    }
    if d == 0 {
        "0"
    } else if d == 1 {
        "1"
    } else if d == 2 {
        "2"
    } else if d == 3 {
        "3"
    } else if d == 4 {
        "4"
    } else if d == 5 {
        "5"
    } else if d == 6 {
        "6"
    } else if d == 7 {
        "7"
    } else if d == 8 {
        "8"
    } else {
        "9"
    }
}

/// Writes `n` in decimal.
pub fn decimal_string(n: u64) -> (s: String)
    ensures
        s@ == decimal(n as nat),
    decreases n,
{
    if n < 10 {
        String::from_str(digit_str(n))
    } else {
        let mut s = decimal_string(n / 10);
        s.append(digit_str(n % 10));
        s
    }
}

/// Why a text is not the decimal form of a `u64`.
#[derive(Clone, Copy, Debug, PartialEq, Eq, Structural)]
pub enum NumberError {
    /// The text is empty.
    Empty,
    /// A character is no digit where one must stand.
    InvalidDigit,
    /// The digits stand for more than a `u64` holds.
    Overflow,
}

impl NumberError {
    /// The sentence that says what is wrong.
    pub open spec fn text(self) -> Seq<char> {
        match self {
            NumberError::Empty => "cannot parse integer from empty string"@,
            NumberError::InvalidDigit => "invalid digit found in string"@,
            NumberError::Overflow => "number too large to fit in target type"@,
        }
    }

    /// The sentence that says what is wrong.
    pub fn message(self) -> (s: &'static str)
        ensures
            s@ == self.text(),
    {
        match self {
            NumberError::Empty => "cannot parse integer from empty string",
            NumberError::InvalidDigit => "invalid digit found in string",
            NumberError::Overflow => "number too large to fit in target type",
        }
    }
}

/// The part of a number's text that must be digits: all of it, but for one
/// leading `+` that has something behind it.
pub open spec fn unsigned_digits(s: Seq<char>) -> Seq<char> {
    if s.len() > 1 && s[0] == '+' {
        s.skip(1)
    } else {
        s
    }
}

/// What keeps a run of characters from being the digits of a `u64`, if
/// anything does: the fault of its shortest prefix that has one, which ends in
/// a character that is no digit or stands for too large a number.
pub open spec fn digits_fault(s: Seq<char>) -> Option<NumberError>
    decreases s.len(),
{
    if s.len() == 0 {
        None
    } else {
        match digits_fault(s.drop_last()) {
            Some(e) => Some(e),
            None => if !is_digit(s.last()) {
                Some(NumberError::InvalidDigit)
            } else if digits_value(s) > u64::MAX {
                Some(NumberError::Overflow)
            } else {
                None
            },
        }
    }
}

/// The `u64` that a text stands for, or why it stands for none.
pub open spec fn number(s: Seq<char>) -> Result<u64, NumberError> {
    if s.len() == 0 {
        Err(NumberError::Empty)
    } else {
        match digits_fault(unsigned_digits(s)) {
            Some(e) => Err(e),
            None => Ok(digits_value(unsigned_digits(s)) as u64),
        }
    }
}

/// A fault in a prefix is the fault of the whole.
pub proof fn lemma_fault_of_prefix(s: Seq<char>, k: int)
    requires
        0 <= k <= s.len(),
        digits_fault(s.take(k)) is Some,
    ensures
        digits_fault(s) == digits_fault(s.take(k)),
    decreases s.len(),
{
    if k == s.len() {
        assert(s.take(k) =~= s);
    } else {
        assert(s.drop_last().take(k) =~= s.take(k));
        lemma_fault_of_prefix(s.drop_last(), k);
    }
}

/// A text without a fault is made of digits and stands for a `u64`.
pub proof fn lemma_faultless_digits(s: Seq<char>)
    requires
        digits_fault(s) is None,
    ensures
        forall|i: int| 0 <= i < s.len() ==> is_digit(#[trigger] s[i]),
        digits_value(s) <= u64::MAX,
    decreases s.len(),
{
    if s.len() > 0 {
        let t = s.drop_last();
        lemma_faultless_digits(t);
        assert forall|i: int| 0 <= i < s.len() implies is_digit(#[trigger] s[i]) by {
            if i < t.len() {
                assert(s[i] == t[i]);
            }
        }
    }
}

/// The decimal form of a `u64` reads back as that number.
pub proof fn lemma_number_of_decimal(n: u64)
    ensures
        number(decimal(n as nat)) == Ok::<u64, NumberError>(n),
{
    let s = decimal(n as nat);
    lemma_decimal_round_trip(n as nat);
    assert(is_digit(s[0]));
    assert(unsigned_digits(s) == s);
    lemma_digits_without_fault(s);
}

/// A run of digits that stands for a `u64` has no fault.
pub proof fn lemma_digits_without_fault(s: Seq<char>)
    requires
        forall|i: int| 0 <= i < s.len() ==> is_digit(#[trigger] s[i]),
        digits_value(s) <= u64::MAX,
    ensures
        digits_fault(s) is None,
    decreases s.len(),
{
    if s.len() > 0 {
        let t = s.drop_last();
        assert forall|i: int| 0 <= i < t.len() implies is_digit(#[trigger] t[i]) by {
            assert(t[i] == s[i]);
        }
        lemma_digits_without_fault(t);
    }
}

/// The `u64` that the characters of `v` from `from` up to `to` stand for.
pub fn parse_u64_in(v: &Vec<char>, from: usize, to: usize) -> (r: Result<u64, NumberError>)
    requires
        from <= to <= v.len(),
    ensures
        r == number(v@.subrange(from as int, to as int)),
{
    let ghost s = v@.subrange(from as int, to as int);
    if from == to {
        return Err(NumberError::Empty);
    }
    let start: usize = if to - from > 1 && v[from] == '+' {
        from + 1
    } else {
        from
    };
    let ghost body = unsigned_digits(s);
    assert(body =~= v@.subrange(start as int, to as int));
    let mut acc: u64 = 0;
    let mut i: usize = start;
    while i < to
        invariant
            from < to,
            start <= i <= to <= v.len(),
            body == v@.subrange(start as int, to as int),
            body == unsigned_digits(v@.subrange(from as int, to as int)),
            digits_fault(body.take(i - start)) is None,
            acc == digits_value(body.take(i - start)),
        decreases to - i,
    {
        let c = v[i];
        let ghost before = body.take(i - start);
        let ghost upto = body.take(i - start + 1);
        assert(upto.drop_last() =~= before);
        assert(upto.last() == c);
        if !(c >= '0' && c <= '9') {
            proof {
                lemma_fault_of_prefix(body, i - start + 1);
            }
            return Err(NumberError::InvalidDigit);
        }
        let d: u64 = (c as u32 - '0' as u32) as u64;
        if acc > (u64::MAX - d) / 10 {
            proof {
                lemma_fault_of_prefix(body, i - start + 1);
            }
            return Err(NumberError::Overflow);
        }
        acc = acc * 10 + d;
        i = i + 1;
    }
    assert(body.take(i - start) =~= body);
    Ok(acc)
}

/// The `u64` that `s` stands for: decimal digits, with or without a `+` in
/// front of them.
pub fn parse_u64(s: &str) -> (r: Result<u64, NumberError>)
    ensures
        r == number(s@),
{
    let v = chars(s);
    assert(v@.subrange(0, v.len() as int) =~= v@);
    parse_u64_in(&v, 0, v.len())
}

/// Whether `c` is white space, as Unicode defines it.
pub open spec fn is_space(c: char) -> bool {
    ||| ('\u{9}' <= c && c <= '\u{d}')
    ||| c == ' '
    ||| c == '\u{85}'
    ||| c == '\u{a0}'
    ||| c == '\u{1680}'
    ||| ('\u{2000}' <= c && c <= '\u{200a}')
    ||| c == '\u{2028}'
    ||| c == '\u{2029}'
    ||| c == '\u{202f}'
    ||| c == '\u{205f}'
    ||| c == '\u{3000}'
}

/// Whether `c` is white space, as Unicode defines it.
pub fn is_white_space(c: char) -> (b: bool)
    ensures
        b == is_space(c),
{
    (c >= '\u{9}' && c <= '\u{d}') || c == ' ' || c == '\u{85}' || c == '\u{a0}' || c == '\u{1680}'
        || (c >= '\u{2000}' && c <= '\u{200a}') || c == '\u{2028}' || c == '\u{2029}' || c
        == '\u{202f}' || c == '\u{205f}' || c == '\u{3000}'
}

/// How many characters of white space `s` begins with.
pub open spec fn leading_spaces(s: Seq<char>) -> nat
    decreases s.len(),
{
    if s.len() > 0 && is_space(s[0]) {
        1 + leading_spaces(s.skip(1))
    } else {
        0
    }
}

/// How many characters of white space `s` ends with.
pub open spec fn trailing_spaces(s: Seq<char>) -> nat
    decreases s.len(),
{
    if s.len() > 0 && is_space(s.last()) {
        1 + trailing_spaces(s.drop_last())
    } else {
        0
    }
}

/// How many characters other than white space `s` begins with.
pub open spec fn word_len(s: Seq<char>) -> nat
    decreases s.len(),
{
    if s.len() > 0 && !is_space(s[0]) {
        1 + word_len(s.skip(1))
    } else {
        0
    }
}

/// How many characters `s` has before its first `stop`; all of them where it
/// has none.
pub open spec fn before(s: Seq<char>, stop: char) -> nat
    decreases s.len(),
{
    if s.len() > 0 && s[0] != stop {
        1 + before(s.skip(1), stop)
    } else {
        0
    }
}

/// How many characters `s` has before its first line feed.
pub open spec fn line_len(s: Seq<char>) -> nat {
    before(s, '\n')
}

/// `s` without the white space in front of it.
pub open spec fn trim_start(s: Seq<char>) -> Seq<char> {
    s.skip(leading_spaces(s) as int)
}

/// `s` without the white space at its end.
pub open spec fn trim_end(s: Seq<char>) -> Seq<char> {
    s.take(s.len() - trailing_spaces(s))
}

/// `s` without the white space around it.
pub open spec fn trimmed(s: Seq<char>) -> Seq<char> {
    trim_end(trim_start(s))
}

/// The first run of characters in `s` that holds no white space; empty where
/// `s` is white space only.
pub open spec fn first_word(s: Seq<char>) -> Seq<char> {
    trim_start(s).take(word_len(trim_start(s)) as int)
}

/// What follows the first word of `s`.
pub open spec fn after_first_word(s: Seq<char>) -> Seq<char> {
    trim_start(s).skip(word_len(trim_start(s)) as int)
}

/// What follows the first `k` words of `s`.
pub open spec fn after_words(s: Seq<char>, k: nat) -> Seq<char>
    decreases k,
{
    if k == 0 {
        s
    } else {
        after_first_word(after_words(s, (k - 1) as nat))
    }
}

/// The word of `s` that has `k` words before it; empty where `s` has no more
/// than `k` words.
pub open spec fn nth_word(s: Seq<char>, k: nat) -> Seq<char> {
    first_word(after_words(s, k))
}

/// The first line of `s`, without its line feed.
pub open spec fn first_line(s: Seq<char>) -> Seq<char> {
    s.take(line_len(s) as int)
}

/// What follows the first line of `s` and its line feed.
pub open spec fn after_first_line(s: Seq<char>) -> Seq<char> {
    if line_len(s) < s.len() {
        s.skip(line_len(s) as int + 1)
    } else {
        Seq::empty()
    }
}

/// The length of the first `n` lines of `s`, line feeds included.
pub open spec fn lines_len(s: Seq<char>, n: nat) -> nat
    decreases n,
{
    if n == 0 || s.len() == 0 {
        0
    } else if line_len(s) < s.len() {
        line_len(s) + 1 + lines_len(s.skip(line_len(s) as int + 1), (n - 1) as nat)
    } else {
        s.len()
    }
}

/// The first `n` lines of `s`, line feeds included.
pub open spec fn first_lines(s: Seq<char>, n: nat) -> Seq<char> {
    s.take(lines_len(s, n) as int)
}

/// The end of the white space that `s` begins with is where white space has
/// stood so far and stands no more.
pub proof fn lemma_leading_spaces(s: Seq<char>, k: int)
    requires
        0 <= k <= s.len(),
        forall|i: int| 0 <= i < k ==> is_space(#[trigger] s[i]),
        k == s.len() || !is_space(s[k]),
    ensures
        leading_spaces(s) == k,
    decreases k,
{
    if k > 0 {
        let t = s.skip(1);
        assert forall|i: int| 0 <= i < k - 1 implies is_space(#[trigger] t[i]) by {
            assert(t[i] == s[i + 1]);
        }
        lemma_leading_spaces(t, k - 1);
    }
}

/// The start of the white space that `s` ends with, counted from the end.
pub proof fn lemma_trailing_spaces(s: Seq<char>, k: int)
    requires
        0 <= k <= s.len(),
        forall|i: int| s.len() - k <= i < s.len() ==> is_space(#[trigger] s[i]),
        k == s.len() || !is_space(s[s.len() - k - 1]),
    ensures
        trailing_spaces(s) == k,
    decreases k,
{
    if k > 0 {
        let t = s.drop_last();
        assert forall|i: int| t.len() - (k - 1) <= i < t.len() implies is_space(
            #[trigger] t[i],
        ) by {
            assert(t[i] == s[i]);
        }
        lemma_trailing_spaces(t, k - 1);
    }
}

/// The end of the word that `s` begins with.
pub proof fn lemma_word_len(s: Seq<char>, k: int)
    requires
        0 <= k <= s.len(),
        forall|i: int| 0 <= i < k ==> !is_space(#[trigger] s[i]),
        k == s.len() || is_space(s[k]),
    ensures
        word_len(s) == k,
    decreases k,
{
    if k > 0 {
        let t = s.skip(1);
        assert forall|i: int| 0 <= i < k - 1 implies !is_space(#[trigger] t[i]) by {
            assert(t[i] == s[i + 1]);
        }
        lemma_word_len(t, k - 1);
    }
}

/// The place of the first `stop` in `s`, or the end of `s`.
pub proof fn lemma_before(s: Seq<char>, stop: char, k: int)
    requires
        0 <= k <= s.len(),
        forall|i: int| 0 <= i < k ==> #[trigger] s[i] != stop,
        k == s.len() || s[k] == stop,
    ensures
        before(s, stop) == k,
    decreases k,
{
    if k > 0 {
        let t = s.skip(1);
        assert forall|i: int| 0 <= i < k - 1 implies #[trigger] t[i] != stop by {
            assert(t[i] == s[i + 1]);
        }
        lemma_before(t, stop, k - 1);
    }
}

/// The white space that `s` begins with is white space, all of it lies in
/// `s`, and what follows it is none.
pub proof fn lemma_leading_spaces_are_spaces(s: Seq<char>)
    ensures
        leading_spaces(s) <= s.len(),
        forall|i: int| 0 <= i < leading_spaces(s) ==> is_space(#[trigger] s[i]),
        leading_spaces(s) < s.len() ==> !is_space(s[leading_spaces(s) as int]),
    decreases s.len(),
{
    if s.len() > 0 && is_space(s[0]) {
        let t = s.skip(1);
        lemma_leading_spaces_are_spaces(t);
        assert forall|i: int| 0 <= i < leading_spaces(s) implies is_space(#[trigger] s[i]) by {
            if i > 0 {
                assert(s[i] == t[i - 1]);
            }
        }
        if leading_spaces(s) < s.len() {
            assert(s[leading_spaces(s) as int] == t[leading_spaces(t) as int]);
        }
    }
}

/// The white space that `s` ends with is white space, all of it lies in `s`,
/// and what stands before it is none.
pub proof fn lemma_trailing_spaces_are_spaces(s: Seq<char>)
    ensures
        trailing_spaces(s) <= s.len(),
        forall|i: int| s.len() - trailing_spaces(s) <= i < s.len() ==> is_space(#[trigger] s[i]),
        trailing_spaces(s) < s.len() ==> !is_space(s[s.len() - trailing_spaces(s) - 1]),
    decreases s.len(),
{
    if s.len() > 0 && is_space(s.last()) {
        let t = s.drop_last();
        lemma_trailing_spaces_are_spaces(t);
        assert forall|i: int| s.len() - trailing_spaces(s) <= i < s.len() implies is_space(
            #[trigger] s[i],
        ) by {
            if i < t.len() {
                assert(s[i] == t[i]);
            }
        }
        if trailing_spaces(s) < s.len() {
            assert(s[s.len() - trailing_spaces(s) - 1] == t[t.len() - trailing_spaces(t) - 1]);
        }
    }
}

/// A trimmed text is the middle of the text it was made from: what was cut
/// off at either end is white space, and what is left neither begins nor ends
/// with white space.
pub proof fn lemma_trimmed_is_middle(s: Seq<char>)
    ensures
        ({
            let lo = leading_spaces(s) as int;
            let hi = lo + trimmed(s).len();
            &&& 0 <= lo <= hi <= s.len()
            &&& trimmed(s) == s.subrange(lo, hi)
            &&& forall|i: int| 0 <= i < lo ==> is_space(#[trigger] s[i])
            &&& forall|i: int| hi <= i < s.len() ==> is_space(#[trigger] s[i])
            &&& lo < hi ==> !is_space(s[lo]) && !is_space(s[hi - 1])
        }),
{
    let lo = leading_spaces(s) as int;
    lemma_leading_spaces_are_spaces(s);
    let rest = trim_start(s);
    lemma_trailing_spaces_are_spaces(rest);
    let hi = lo + trimmed(s).len();
    assert(trimmed(s) =~= s.subrange(lo, hi));
    assert forall|i: int| hi <= i < s.len() implies is_space(#[trigger] s[i]) by {
        assert(s[i] == rest[i - lo]);
    }
    if lo < hi {
        assert(rest[0] == s[lo]);
        if trailing_spaces(rest) < rest.len() {
            assert(rest[rest.len() - trailing_spaces(rest) - 1] == s[hi - 1]);
        }
    }
}

/// Where the white space that begins at `from` ends, at `to` at the latest.
pub fn skip_spaces(v: &Vec<char>, from: usize, to: usize) -> (i: usize)
    requires
        from <= to <= v.len(),
    ensures
        from <= i <= to,
        i == from + leading_spaces(v@.subrange(from as int, to as int)),
{
    let mut i: usize = from;
    while i < to && is_white_space(v[i])
        invariant
            from <= i <= to <= v.len(),
            forall|j: int| from <= j < i ==> is_space(#[trigger] v@[j]),
        decreases to - i,
    {
        i = i + 1;
    }
    proof {
        lemma_leading_spaces(v@.subrange(from as int, to as int), i - from);
    }
    i
}

/// Where the white space that ends at `to` begins, at `from` at the earliest.
pub fn skip_spaces_back(v: &Vec<char>, from: usize, to: usize) -> (i: usize)
    requires
        from <= to <= v.len(),
    ensures
        from <= i <= to,
        i == to - trailing_spaces(v@.subrange(from as int, to as int)),
{
    let mut i: usize = to;
    while i > from && is_white_space(v[i - 1])
        invariant
            from <= i <= to <= v.len(),
            forall|j: int| i <= j < to ==> is_space(#[trigger] v@[j]),
        decreases i,
    {
        i = i - 1;
    }
    proof {
        lemma_trailing_spaces(v@.subrange(from as int, to as int), to - i);
    }
    i
}

/// Where the word that begins at `from` ends, at `to` at the latest.
pub fn skip_word(v: &Vec<char>, from: usize, to: usize) -> (i: usize)
    requires
        from <= to <= v.len(),
    ensures
        from <= i <= to,
        i == from + word_len(v@.subrange(from as int, to as int)),
{
    let mut i: usize = from;
    while i < to && !is_white_space(v[i])
        invariant
            from <= i <= to <= v.len(),
            forall|j: int| from <= j < i ==> !is_space(#[trigger] v@[j]),
        decreases to - i,
    {
        i = i + 1;
    }
    proof {
        lemma_word_len(v@.subrange(from as int, to as int), i - from);
    }
    i
}

/// The place of the first `stop` between `from` and `to`; `to` where there is
/// none.
pub fn find(v: &Vec<char>, from: usize, to: usize, stop: char) -> (i: usize)
    requires
        from <= to <= v.len(),
    ensures
        from <= i <= to,
        i == from + before(v@.subrange(from as int, to as int), stop),
{
    let mut i: usize = from;
    while i < to && v[i] != stop
        invariant
            from <= i <= to <= v.len(),
            forall|j: int| from <= j < i ==> #[trigger] v@[j] != stop,
        decreases to - i,
    {
        i = i + 1;
    }
    proof {
        lemma_before(v@.subrange(from as int, to as int), stop, i - from);
    }
    i
}

/// The place of the next word between `from` and `to`: where it begins and
/// where it ends.
pub fn next_word(v: &Vec<char>, from: usize, to: usize) -> (r: (usize, usize))
    requires
        from <= to <= v.len(),
    ensures
        from <= r.0 <= r.1 <= to,
        v@.subrange(r.0 as int, r.1 as int) == first_word(v@.subrange(from as int, to as int)),
        v@.subrange(r.1 as int, to as int) == after_first_word(
            v@.subrange(from as int, to as int),
        ),
{
    let start = skip_spaces(v, from, to);
    let end = skip_word(v, start, to);
    proof {
        let s = v@.subrange(from as int, to as int);
        assert(trim_start(s) =~= v@.subrange(start as int, to as int));
        assert(first_word(s) =~= v@.subrange(start as int, end as int));
        assert(after_first_word(s) =~= v@.subrange(end as int, to as int));
    }
    (start, end)
}

/// `s` without the white space around it.
pub fn trim(s: &str) -> (r: &str)
    ensures
        r@ == trimmed(s@),
{
    let v = chars(s);
    let lo = skip_spaces(&v, 0, v.len());
    let hi = skip_spaces_back(&v, lo, v.len());
    proof {
        assert(v@.subrange(0, v.len() as int) =~= v@);
        assert(trim_start(s@) =~= v@.subrange(lo as int, v.len() as int));
        assert(trimmed(s@) =~= v@.subrange(lo as int, hi as int));
    }
    s.substring_char(lo, hi)
}

/// The first `n` lines of `s`, line feeds included.
pub fn take_lines(s: &str, n: usize) -> (r: &str)
    ensures
        r@ == first_lines(s@, n as nat),
{
    let v = chars(s);
    let len = v.len();
    let mut end: usize = 0;
    let mut left: usize = n;
    proof {
        assert(s@.skip(0) =~= s@);
    }
    while left > 0 && end < len
        invariant
            end <= len == v.len(),
            v@ == s@,
            left <= n,
            lines_len(s@, n as nat) == end + lines_len(s@.skip(end as int), left as nat),
        decreases left,
    {
        let stop = find(&v, end, len, '\n');
        proof {
            assert(v@.subrange(end as int, len as int) =~= s@.skip(end as int));
        }
        if stop < len {
            proof {
                assert(s@.skip(end as int).skip(stop - end + 1) =~= s@.skip(stop + 1));
            }
            end = stop + 1;
        } else {
            proof {
                assert(s@.skip(len as int).len() == 0);
            }
            end = len;
        }
        left = left - 1;
    }
    proof {
        assert(s@.skip(end as int).len() == len - end);
    }
    s.substring_char(0, end)
}

/// Whether the characters of `v` from `at` up to `to` begin with `p`.
pub fn starts_with_at(v: &Vec<char>, at: usize, to: usize, p: &Vec<char>) -> (b: bool)
    requires
        at <= to <= v.len(),
    ensures
        b == p@.is_prefix_of(v@.subrange(at as int, to as int)),
{
    let k = p.len();
    if to - at < k {
        return false;
    }
    let ghost rest = v@.subrange(at as int, to as int);
    let mut j: usize = 0;
    while j < k
        invariant
            j <= k == p.len(),
            at + k <= to <= v.len(),
            rest == v@.subrange(at as int, to as int),
            forall|i: int| 0 <= i < j ==> #[trigger] p@[i] == v@[at + i],
        decreases k - j,
    {
        if p[j] != v[at + j] {
            proof {
                assert(rest.subrange(0, k as int)[j as int] == v@[at + j]);
            }
            return false;
        }
        j = j + 1;
    }
    proof {
        assert(p@ =~= rest.subrange(0, k as int));
    }
    true
}

/// Whether the characters of `v` from `from` up to `to` are those of `word`.
pub fn range_is(v: &Vec<char>, from: usize, to: usize, word: &str) -> (b: bool)
    requires
        from <= to <= v.len(),
    ensures
        b == (v@.subrange(from as int, to as int) == word@),
{
    let w = chars(word);
    if to - from != w.len() {
        return false;
    }
    let b = starts_with_at(v, from, to, &w);
    proof {
        let rest = v@.subrange(from as int, to as int);
        assert(rest.subrange(0, w.len() as int) =~= rest);
    }
    b
}

/// `s` without the copies of `p` that it begins with, one after the other.
pub open spec fn without_prefixes(s: Seq<char>, p: Seq<char>) -> Seq<char>
    decreases s.len(),
{
    if p.len() > 0 && p.is_prefix_of(s) {
        without_prefixes(s.skip(p.len() as int), p)
    } else {
        s
    }
}

/// Where the copies of `p` that begin at `from` end: what stands from there
/// to `to` is what stood from `from` to `to`, without them.
pub fn skip_prefixes(v: &Vec<char>, from: usize, to: usize, p: &Vec<char>) -> (i: usize)
    requires
        from <= to <= v.len(),
    ensures
        from <= i <= to,
        v@.subrange(i as int, to as int) == without_prefixes(
            v@.subrange(from as int, to as int),
            p@,
        ),
{
    let k = p.len();
    let mut i: usize = from;
    if k == 0 {
        return i;
    }
    loop
        invariant
            from <= i <= to <= v.len(),
            0 < k == p.len(),
            without_prefixes(v@.subrange(from as int, to as int), p@) == without_prefixes(
                v@.subrange(i as int, to as int),
                p@,
            ),
        decreases to - i,
    {
        if !starts_with_at(v, i, to, p) {
            return i;
        }
        proof {
            assert(v@.subrange(i as int, to as int).skip(k as int) =~= v@.subrange(
                i + k,
                to as int,
            ));
        }
        i = i + k;
    }
}

/// `template` with `value` in place of `marker`, wherever `marker` stands in
/// it, going from the left; the empty marker stands before every character and
/// at the end.
pub open spec fn replaced(template: Seq<char>, marker: Seq<char>, value: Seq<char>) -> Seq<char>
    decreases template.len(),
{
    if template.len() == 0 {
        if marker.len() == 0 {
            value
        } else {
            template
        }
    } else if marker.len() == 0 {
        value + seq![template[0]] + replaced(template.skip(1), marker, value)
    } else if marker.is_prefix_of(template) {
        value + replaced(template.skip(marker.len() as int), marker, value)
    } else {
        seq![template[0]] + replaced(template.skip(1), marker, value)
    }
}

/// A template in which the marker stands nowhere is left as it is.
pub proof fn lemma_replaced_without_marker(
    template: Seq<char>,
    marker: Seq<char>,
    value: Seq<char>,
)
    requires
        marker.len() > 0,
        forall|i: int|
            0 <= i <= template.len() ==> !marker.is_prefix_of(#[trigger] template.skip(i)),
    ensures
        replaced(template, marker, value) == template,
    decreases template.len(),
{
    if template.len() > 0 {
        let rest = template.skip(1);
        assert(template.skip(0) =~= template);
        assert forall|i: int| 0 <= i <= rest.len() implies !marker.is_prefix_of(
            #[trigger] rest.skip(i),
        ) by {
            assert(rest.skip(i) =~= template.skip(i + 1));
        }
        lemma_replaced_without_marker(rest, marker, value);
        assert(seq![template[0]] + rest =~= template);
    }
}

/// A template that begins with the marker begins with the value once the
/// marker is replaced, and goes on with what follows the marker, replaced
/// likewise.
pub proof fn lemma_replaced_at_marker(template: Seq<char>, marker: Seq<char>, value: Seq<char>)
    requires
        marker.len() > 0,
        marker.is_prefix_of(template),
    ensures
        replaced(template, marker, value) == value + replaced(
            template.skip(marker.len() as int),
            marker,
            value,
        ),
{
}

/// `template` with `value` in place of `marker`, wherever `marker` stands in
/// it, going from the left.
pub fn replace(template: &str, marker: &str, value: &str) -> (r: String)
    ensures
        r@ == replaced(template@, marker@, value@),
{
    let t = chars(template);
    let m = chars(marker);
    let n = t.len();
    let k = m.len();
    let mut out = String::new();
    let mut i: usize = 0;
    let mut kept: usize = 0;
    proof {
        assert(t@.skip(0) =~= t@);
        assert(out@ + t@.subrange(0, 0) + replaced(t@, m@, value@) =~= replaced(
            t@,
            m@,
            value@,
        ));
    }
    while i < n
        invariant
            kept <= i <= n == t.len(),
            k == m.len(),
            k == 0 ==> kept == i,
            t@ == template@,
            m@ == marker@,
            replaced(t@, m@, value@) == out@ + t@.subrange(kept as int, i as int) + replaced(
                t@.skip(i as int),
                m@,
                value@,
            ),
        decreases n - i,
    {
        let ghost rest = t@.skip(i as int);
        let ghost pending = t@.subrange(kept as int, i as int);
        proof {
            assert(t@.subrange(i as int, n as int) =~= rest);
        }
        let ghost before = out@;
        if k == 0 {
            out.append(value);
            out.append(template.substring_char(i, i + 1));
            proof {
                assert(kept == i);
                assert(pending =~= Seq::<char>::empty());
                assert(t@.subrange(i as int, i + 1) =~= seq![rest[0]]);
                assert(rest.skip(1) =~= t@.skip(i + 1));
                assert(before + pending + (value@ + seq![rest[0]] + replaced(
                    rest.skip(1),
                    m@,
                    value@,
                )) =~= out@ + t@.subrange(i + 1, i + 1) + replaced(rest.skip(1), m@, value@));
            }
            i = i + 1;
            kept = i;
        } else if starts_with_at(&t, i, n, &m) {
            out.append(template.substring_char(kept, i));
            out.append(value);
            proof {
                assert(rest.skip(k as int) =~= t@.skip(i + k));
                assert(before + pending + (value@ + replaced(rest.skip(k as int), m@, value@))
                    =~= out@ + t@.subrange(i + k, i + k) + replaced(
                    rest.skip(k as int),
                    m@,
                    value@,
                ));
            }
            i = i + k;
            kept = i;
        } else {
            proof {
                assert(rest.skip(1) =~= t@.skip(i + 1));
                assert(before + pending + (seq![rest[0]] + replaced(rest.skip(1), m@, value@))
                    =~= before + t@.subrange(kept as int, i + 1) + replaced(
                    rest.skip(1),
                    m@,
                    value@,
                ));
            }
            i = i + 1;
        }
    }
    proof {
        assert(t@.skip(n as int).len() == 0);
    }
    if k == 0 {
        out.append(value);
        proof {
            assert(t@.subrange(kept as int, n as int) =~= Seq::<char>::empty());
        }
    } else {
        out.append(template.substring_char(kept, n));
    }
    out
}

/// The texts of `parts`, in order.
pub open spec fn texts(parts: Seq<String>) -> Seq<Seq<char>> {
    Seq::new(parts.len(), |i: int| parts[i]@)
}

/// The texts of `parts` in order, with `sep` between each two neighbours and
/// nowhere else.
pub open spec fn joined(parts: Seq<Seq<char>>, sep: Seq<char>) -> Seq<char>
    decreases parts.len(),
{
    if parts.len() == 0 {
        Seq::empty()
    } else if parts.len() == 1 {
        parts[0]
    } else {
        joined(parts.drop_last(), sep) + sep + parts.last()
    }
}

/// The sum of the lengths of `parts`.
pub open spec fn total_len(parts: Seq<Seq<char>>) -> nat
    decreases parts.len(),
{
    if parts.len() == 0 {
        0
    } else {
        total_len(parts.drop_last()) + parts.last().len()
    }
}

/// A joined text holds its parts and one separator less than it has parts; it
/// begins with its first part and ends with its last, so that no separator
/// leads or trails.
pub proof fn lemma_joined_shape(parts: Seq<Seq<char>>, sep: Seq<char>)
    requires
        parts.len() > 0,
    ensures
        joined(parts, sep).len() == total_len(parts) + (parts.len() - 1) * sep.len(),
        parts[0].is_prefix_of(joined(parts, sep)),
        parts.last().is_suffix_of(joined(parts, sep)),
    decreases parts.len(),
{
    let whole = joined(parts, sep);
    if parts.len() == 1 {
        assert(parts.drop_last().len() == 0);
        assert(total_len(parts.drop_last()) == 0);
        assert(whole.subrange(0, whole.len() as int) =~= whole);
    } else {
        let front = parts.drop_last();
        lemma_joined_shape(front, sep);
        let head = joined(front, sep);
        assert(front[0] == parts[0]);
        assert(whole.subrange(0, parts[0].len() as int) =~= head.subrange(
            0,
            parts[0].len() as int,
        ));
        assert(whole.subrange(whole.len() - parts.last().len(), whole.len() as int)
            =~= parts.last());
        assert((parts.len() - 1) * sep.len() == (front.len() - 1) * sep.len() + sep.len())
            by (nonlinear_arith)
            requires
                front.len() == parts.len() - 1,
        ;
    }
}

/// The texts of `parts` in order, with `sep` between each two neighbours and
/// nowhere else.
pub fn join(parts: &Vec<String>, sep: &str) -> (r: String)
    ensures
        r@ == joined(texts(parts@), sep@),
{
    let ghost all = texts(parts@);
    let mut out = String::new();
    let mut i: usize = 0;
    while i < parts.len()
        invariant
            i <= parts.len(),
            all == texts(parts@),
            out@ == joined(all.take(i as int), sep@),
        decreases parts.len() - i,
    {
        let ghost before = all.take(i as int);
        let ghost upto = all.take(i + 1);
        proof {
            assert(upto.drop_last() =~= before);
            assert(upto.last() == parts@[i as int]@);
        }
        if i > 0 {
            out.append(sep);
        }
        out.append(parts[i].as_str());
        i = i + 1;
    }
    proof {
        assert(all.take(i as int) =~= all);
    }
    out
}

} // verus!
