//! Text primitives: characters, site-relative paths and decimal numbers.

use vstd::prelude::*;
use vstd::string::*;
use vstd::utf8::*;

verus! {

// ---------------------------------------------------------------------
// Characters
// ---------------------------------------------------------------------

/// The characters of `s`, in order.
pub fn to_chars(s: &str) -> (res: Vec<char>)
    ensures
        res@ == s@,
{
    let mut chars: Vec<char> = Vec::new();
    for c in it: s.chars()
        invariant
            chars@ == it.seq().take(it.index()),
            it.seq() == s@,
    {
        chars.push(c);
    }
    chars
}

/// The text made of `chars[from..to]`.
pub fn sub_text(chars: &Vec<char>, from: usize, to: usize) -> (res: String)
    requires
        from <= to <= chars@.len(),
    ensures
        res@ == chars@.subrange(from as int, to as int),
{
    let mut out = String::new();
    let mut i: usize = from;
    while i < to
        invariant
            from <= i <= to <= chars@.len(),
            out@ == chars@.subrange(from as int, i as int),
        decreases to - i,
    {
        out.push(chars[i]);
        i = i + 1;
    }
    out
}

/// Whether two texts are the same.
pub fn same_text(a: &str, b: &str) -> (res: bool)
    ensures
        res == (a@ == b@),
{
    let x: &[u8] = a.as_bytes();
    let y: &[u8] = b.as_bytes();
    proof {
        encode_utf8_decode_utf8(a@);
        encode_utf8_decode_utf8(b@);
    }
    if x.len() != y.len() {
        return false;
    }
    let mut i: usize = 0;
    while i < x.len()
        invariant
            i <= x@.len(),
            x@.len() == y@.len(),
            x@ == encode_utf8(a@),
            y@ == encode_utf8(b@),
            forall|j: int| 0 <= j < i ==> x@[j] == y@[j],
        decreases x@.len() - i,
    {
        if x[i] != y[i] {
            return false;
        }
        i = i + 1;
    }
    assert(x@ == y@);
    true
}

// ---------------------------------------------------------------------
// Site-relative paths
// ---------------------------------------------------------------------

/// A path on this site: it starts with `/`, and not with `//`, which a
/// browser would take for another host.
pub open spec fn relative_path(s: Seq<char>) -> bool {
    &&& s.len() > 0
    &&& s[0] == '/'
    &&& !(s.len() > 1 && s[1] == '/')
}

/// Whether `s` is a path on this site.
pub fn is_relative_path(s: &str) -> (res: bool)
    ensures
        res == relative_path(s@),
        res <==> s@.len() > 0 && s@[0] == '/' && (s@.len() == 1 || s@[1] != '/'),
{
    let n: usize = s.unicode_len();
    if n == 0 {
        return false;
    }
    if s.get_char(0) != '/' {
        return false;
    }
    !(n > 1 && s.get_char(1) == '/')
}

// ---------------------------------------------------------------------
// Decimal numbers
// ---------------------------------------------------------------------

/// The digit for `d`, a number below ten.
pub open spec fn digit_char(d: nat) -> char {
    (48 + d) as char
}

/// An ASCII digit.
pub open spec fn is_digit(c: char) -> bool {
    '0' <= c <= '9'
}

/// The decimal notation of a natural number, without leading zeros.
pub open spec fn decimal_nat(n: nat) -> Seq<char>
    decreases n,
{
    if n < 10 {
        seq![digit_char(n)]
    } else {
        decimal_nat(n / 10).push(digit_char(n % 10))
    }
}

/// The decimal notation of an integer.
pub open spec fn decimal(n: int) -> Seq<char> {
    if n < 0 {
        seq!['-'] + decimal_nat((-n) as nat)
    } else {
        decimal_nat(n as nat)
    }
}

/// What a row of digits stands for.
pub open spec fn digits_value(s: Seq<char>) -> nat
    decreases s.len(),
{
    if s.len() == 0 {
        0
    } else {
        10 * digits_value(s.drop_last()) + (s.last() as nat - 48) as nat
    }
}

/// Digits alone.
pub open spec fn all_digits(s: Seq<char>) -> bool {
    forall|i: int| 0 <= i < s.len() ==> is_digit(#[trigger] s[i])
}

/// One digit or more, with the number they stand for.
pub open spec fn magnitude(s: Seq<char>) -> Option<nat> {
    if s.len() > 0 && all_digits(s) {
        Some(digits_value(s))
    } else {
        None
    }
}

/// A number that fits `u64`: an optional `+`, then digits.
pub open spec fn parsed_u64(s: Seq<char>) -> Option<u64> {
    let digits = if s.len() > 0 && s[0] == '+' {
        s.skip(1)
    } else {
        s
    };
    match magnitude(digits) {
        Some(v) => if v <= u64::MAX {
            Some(v as u64)
        } else {
            None
        },
        None => None,
    }
}

/// A number that fits `i64`: an optional sign, then digits.
pub open spec fn parsed_i64(s: Seq<char>) -> Option<i64> {
    let negative = s.len() > 0 && s[0] == '-';
    let digits = if s.len() > 0 && (s[0] == '-' || s[0] == '+') {
        s.skip(1)
    } else {
        s
    };
    match magnitude(digits) {
        Some(v) => {
            let n = if negative {
                -(v as int)
            } else {
                v as int
            };
            if i64::MIN <= n <= i64::MAX {
                Some(n as i64)
            } else {
                None
            }
        },
        None => None,
    }
}

/// Appends the decimal notation of `n`.
fn push_decimal(out: &mut String, n: u64)
    ensures
        final(out)@ == old(out)@ + decimal_nat(n as nat),
    decreases n,
{
    if n >= 10 {
        push_decimal(out, n / 10);
    }
    let last: u8 = 48u8 + (n % 10) as u8;
    out.push(last as char);
}

/// The decimal notation of `n`.
pub fn decimal_text(n: i64) -> (res: String)
    ensures
        res@ == decimal(n as int),
{
    let mut out = String::new();
    if n < 0 {
        out.push('-');
        let size: u64 = (-(n as i128)) as u64;
        push_decimal(&mut out, size);
    } else {
        push_decimal(&mut out, n as u64);
    }
    out
}

proof fn lemma_digits_value_prefix(s: Seq<char>, i: int)
    requires
        all_digits(s),
        0 <= i <= s.len(),
    ensures
        digits_value(s.take(i)) <= digits_value(s),
    decreases s.len(),
{
    if i == s.len() {
        assert(s.take(i) == s);
    } else {
        let t = s.drop_last();
        assert(all_digits(t)) by {
            assert(forall|j: int| 0 <= j < t.len() ==> t[j] == s[j]);
        }
        lemma_digits_value_prefix(t, i);
        assert(t.take(i) == s.take(i));
    }
}

/// Reads `chars[from..]` as a row of digits.
fn read_digits(chars: &Vec<char>, from: usize) -> (res: Option<u64>)
    requires
        from <= chars@.len(),
    ensures
        match magnitude(chars@.skip(from as int)) {
            Some(v) => if v <= u64::MAX {
                res == Some(v as u64)
            } else {
                res is None
            },
            None => res is None,
        },
{
    let ghost s = chars@.skip(from as int);
    if from == chars.len() {
        return None;
    }
    let mut value: u64 = 0;
    let mut i: usize = from;
    while i < chars.len()
        invariant
            from <= i <= chars@.len(),
            s == chars@.skip(from as int),
            value == digits_value(s.take(i - from)),
            forall|j: int| 0 <= j < i - from ==> is_digit(#[trigger] s[j]),
        decreases chars@.len() - i,
    {
        let c: char = chars[i];
        assert(c == s[i - from]);
        if c < '0' || c > '9' {
            return None;
        }
        let d: u64 = (c as u32 - 48) as u64;
        proof {
            let t = s.take(i - from + 1);
            assert(t.drop_last() == s.take(i - from));
            if all_digits(s) {
                lemma_digits_value_prefix(s, i - from + 1);
            }
        }
        if value > (u64::MAX - d) / 10 {
            return None;
        }
        value = value * 10 + d;
        i = i + 1;
    }
    assert(s.take(i - from) == s);
    Some(value)
}

/// Reads an unsigned number.
pub fn parse_u64(s: &str) -> (res: Option<u64>)
    ensures
        res == parsed_u64(s@),
{
    let chars: Vec<char> = to_chars(s);
    let from: usize = if chars.len() > 0 && chars[0] == '+' {
        1
    } else {
        0
    };
    assert(chars@.skip(0) == chars@);
    read_digits(&chars, from)
}

/// Reads a signed number.
pub fn parse_i64(s: &str) -> (res: Option<i64>)
    ensures
        res == parsed_i64(s@),
{
    let chars: Vec<char> = to_chars(s);
    let negative: bool = chars.len() > 0 && chars[0] == '-';
    let from: usize = if chars.len() > 0 && (chars[0] == '-' || chars[0] == '+') {
        1
    } else {
        0
    };
    assert(chars@.skip(0) == chars@);
    match read_digits(&chars, from) {
        None => None,
        Some(size) => {
            if negative {
                if size <= 9223372036854775808u64 {
                    Some((-(size as i128)) as i64)
                } else {
                    None
                }
            } else if size <= 9223372036854775807u64 {
                Some(size as i64)
            } else {
                None
            }
        },
    }
}

proof fn lemma_decimal_nat(n: nat)
    ensures
        decimal_nat(n).len() > 0,
        all_digits(decimal_nat(n)),
        digits_value(decimal_nat(n)) == n,
    decreases n,
{
    if n < 10 {
        let s = decimal_nat(n);
        assert(s.drop_last() == Seq::<char>::empty());
        assert(digits_value(s.drop_last()) == 0);
    } else {
        lemma_decimal_nat(n / 10);
        let s = decimal_nat(n);
        assert(s.drop_last() == decimal_nat(n / 10));
    }
}

/// Reading back the decimal notation of a number gives that number.
pub proof fn decimal_reads_back(n: i64)
    ensures
        parsed_i64(decimal(n as int)) == Some(n),
        !decimal(n as int).contains(':'),
{
    let size = if n < 0 {
        (-(n as int)) as nat
    } else {
        n as nat
    };
    lemma_decimal_nat(size);
    let s = decimal(n as int);
    if n < 0 {
        assert(s.skip(1) == decimal_nat(size));
        assert forall|i: int| 0 <= i < s.len() implies s[i] != ':' by {
            if i > 0 {
                assert(s[i] == decimal_nat(size)[i - 1]);
            }
        }
    } else {
        assert(is_digit(s[0]));
    }
}

/// The paths of this site: a slash and whatever follows it, as long as that
/// does not start with another slash; nothing else.
pub proof fn paths_of_this_site(rest: Seq<char>, s: Seq<char>)
    ensures
        relative_path(seq!['/'] + rest) <==> rest.len() == 0 || rest[0] != '/',
        !relative_path(Seq::empty()),
        s.len() > 0 && s[0] != '/' ==> !relative_path(s),
{
}

/// The decimal notation of a number is a row of digits, without a zero in
/// front unless it is that alone; a negative number has a minus sign before
/// it. Another digit at the end makes it the notation of ten times the number
/// and that digit.
pub proof fn decimal_notation(n: nat, d: nat)
    requires
        d < 10,
    ensures
        decimal(d as int) == seq![(48 + d) as char],
        n > 0 ==> decimal((10 * n + d) as int) == decimal(n as int).push((48 + d) as char),
        n > 0 ==> decimal(-n) == seq!['-'] + decimal(n as int),
        n > 0 ==> decimal(n as int)[0] != '0',
        decimal(n as int).len() > 0,
        forall|i: int|
            0 <= i < decimal(n as int).len() ==> '0' <= #[trigger] decimal(n as int)[i] <= '9',
{
    lemma_decimal_nat(n);
    lemma_no_leading_zero(n);
    let s = decimal(n as int);
    assert forall|i: int| 0 <= i < s.len() implies '0' <= #[trigger] s[i] <= '9' by {
        assert(is_digit(decimal_nat(n)[i]));
    }
    if n > 0 {
        let m = (10 * n + d) as nat;
        assert(m / 10 == n && m % 10 == d);
    }
}

proof fn lemma_no_leading_zero(n: nat)
    ensures
        n > 0 ==> decimal_nat(n)[0] != '0',
        decimal_nat(n).len() > 0,
    decreases n,
{
    if n >= 10 {
        lemma_no_leading_zero(n / 10);
    }
}

proof fn lemma_magnitude_push(s: Seq<char>, c: char)
    ensures
        magnitude(s.push(c)) == (match (magnitude(s), is_digit(c)) {
            (Some(v), true) => Some((10 * v + (c as nat - 48)) as nat),
            (None, true) => if s.len() == 0 {
                Some((c as nat - 48) as nat)
            } else {
                None
            },
            (_, false) => None,
        }),
{
    let t = s.push(c);
    assert(t.drop_last() == s);
    assert(t.last() == c);
    assert(s.len() == 0 ==> digits_value(s) == 0);
    assert(all_digits(t) <==> all_digits(s) && is_digit(c)) by {
        if all_digits(t) {
            assert forall|i: int| 0 <= i < s.len() implies is_digit(#[trigger] s[i]) by {
                assert(t[i] == s[i]);
            }
            assert(is_digit(t[s.len() as int]));
        }
    }
}

/// Unsigned numbers are read digit by digit, after a plus sign if there is
/// one: another digit makes ten times as much and the digit, as long as that
/// fits; where any other character stands there is no number, and there is
/// none without a digit.
pub proof fn unsigned_number_by_its_digits(s: Seq<char>, c: char)
    ensures
        parsed_u64(Seq::empty()) is None,
        parsed_u64(seq!['+']) is None,
        c != '+' ==> parsed_u64(seq![c]) == (if '0' <= c <= '9' {
            Some((c as u64 - 48) as u64)
        } else {
            None
        }),
        parsed_u64(seq!['+', c]) == (if '0' <= c <= '9' {
            Some((c as u64 - 48) as u64)
        } else {
            None
        }),
        s.len() > 0 && s != seq!['+'] ==> parsed_u64(s.push(c)) == (match parsed_u64(s) {
            Some(v) => if '0' <= c <= '9' && 10 * v + (c as int - 48) <= u64::MAX {
                Some((10 * v + (c as int - 48)) as u64)
            } else {
                None
            },
            None => None,
        }),
{
    let none = Seq::<char>::empty();
    lemma_magnitude_push(none, c);
    assert(none.push(c) == seq![c]);
    assert(seq!['+', c].skip(1) == seq![c]);
    assert(seq!['+'].skip(1) == none);
    lemma_magnitude_push(s, c);
    if s.len() > 0 && s[0] == '+' {
        assert(s.push(c).skip(1) == s.skip(1).push(c));
        lemma_magnitude_push(s.skip(1), c);
        if s.skip(1).len() == 0 {
            assert(s == seq!['+']);
        }
    }
}

/// Signed numbers are read in the same way, after a plus or a minus sign if
/// there is one; after a minus sign they count down.
pub proof fn signed_number_by_its_digits(s: Seq<char>, c: char)
    ensures
        parsed_i64(Seq::empty()) is None,
        parsed_i64(seq!['+']) is None,
        parsed_i64(seq!['-']) is None,
        c != '+' && c != '-' ==> parsed_i64(seq![c]) == (if '0' <= c <= '9' {
            Some((c as i64 - 48) as i64)
        } else {
            None
        }),
        parsed_i64(seq!['+', c]) == (if '0' <= c <= '9' {
            Some((c as i64 - 48) as i64)
        } else {
            None
        }),
        parsed_i64(seq!['-', c]) == (if '0' <= c <= '9' {
            Some((48 - c as i64) as i64)
        } else {
            None
        }),
        s.len() > 0 && s != seq!['+'] && s != seq!['-'] ==> parsed_i64(s.push(c)) == (
        match parsed_i64(s) {
            Some(v) => {
                let next = if s[0] == '-' {
                    10 * v - (c as int - 48)
                } else {
                    10 * v + (c as int - 48)
                };
                if '0' <= c <= '9' && i64::MIN <= next <= i64::MAX {
                    Some(next as i64)
                } else {
                    None
                }
            },
            None => None,
        }),
{
    let none = Seq::<char>::empty();
    lemma_magnitude_push(none, c);
    assert(none.push(c) == seq![c]);
    assert(seq!['+', c].skip(1) == seq![c]);
    assert(seq!['-', c].skip(1) == seq![c]);
    assert(seq!['+'].skip(1) == none);
    assert(seq!['-'].skip(1) == none);
    lemma_magnitude_push(s, c);
    if s.len() > 0 && (s[0] == '+' || s[0] == '-') {
        assert(s.push(c).skip(1) == s.skip(1).push(c));
        lemma_magnitude_push(s.skip(1), c);
        if s.skip(1).len() == 0 {
            assert(s == seq![s[0]]);
        }
    }
}

/// Reading back the decimal notation of an unsigned number gives that number,
/// with zeros or a plus sign in front too.
pub proof fn unsigned_decimal_reads_back(n: u64)
    ensures
        parsed_u64(decimal(n as int)) == Some(n),
        parsed_u64(seq!['0'] + decimal(n as int)) == Some(n),
        parsed_u64(seq!['+'] + decimal(n as int)) == Some(n),
{
    let s = decimal(n as int);
    lemma_decimal_nat(n as nat);
    assert(is_digit(s[0]));
    lemma_zero_in_front(s);
    assert((seq!['+'] + s).skip(1) == s);
}

proof fn lemma_zero_in_front(s: Seq<char>)
    requires
        all_digits(s),
    ensures
        all_digits(seq!['0'] + s),
        digits_value(seq!['0'] + s) == digits_value(s),
    decreases s.len(),
{
    let t = seq!['0'] + s;
    assert forall|i: int| 0 <= i < t.len() implies is_digit(#[trigger] t[i]) by {
        if i > 0 {
            assert(t[i] == s[i - 1]);
        }
    }
    if s.len() == 0 {
        assert(t.drop_last() == Seq::<char>::empty());
        assert(digits_value(t.drop_last()) == 0);
    } else {
        let r = s.drop_last();
        assert(all_digits(r)) by {
            assert(forall|j: int| 0 <= j < r.len() ==> r[j] == s[j]);
        }
        lemma_zero_in_front(r);
        assert(t.drop_last() == seq!['0'] + r);
    }
}

} // verus!
