//! Decimal numerals: reading a `u16` from text the way `str::parse::<u16>`
//! does, and writing one as its shortest decimal form.

use vstd::prelude::*;

verus! {

/// Why a text is not the decimal numeral of a `u16`.
#[derive(Clone, Copy, Debug, PartialEq, Eq, Structural)]
pub enum NumberError {
    /// The text is empty.
    Empty,
    /// A character that is not an ASCII digit stands where a digit belongs.
    InvalidDigit,
    /// The value does not fit in 16 bits.
    Overflow,
}

/// The message `str::parse` gives for each error.
pub open spec fn number_error_text(e: NumberError) -> Seq<char> {
    match e {
        NumberError::Empty => "cannot parse integer from empty string"@,
        NumberError::InvalidDigit => "invalid digit found in string"@,
        NumberError::Overflow => "number too large to fit in target type"@,
    }
}

/// The message of the error `e`.
pub fn number_error_message(e: NumberError) -> (r: &'static str)
    ensures
        r@ == number_error_text(e),
{
    match e {
        NumberError::Empty => "cannot parse integer from empty string",
        NumberError::InvalidDigit => "invalid digit found in string",
        NumberError::Overflow => "number too large to fit in target type",
    }
}

/// Whether `c` is one of `'0'..='9'`.
pub open spec fn is_ascii_digit(c: char) -> bool {
    '0' <= c && c <= '9'
}

/// Whether every character of `s` is an ASCII digit.
pub open spec fn all_ascii_digits(s: Seq<char>) -> bool {
    forall|i: int| 0 <= i < s.len() ==> is_ascii_digit(#[trigger] s[i])
}

/// The value of the ASCII digit `c`.
pub open spec fn digit_value(c: char) -> int {
    c as int - '0' as int
}

/// Reads `s` as digits from left to right. The first character that is not a
/// digit, or the first digit after which the value passes `u16::MAX`, decides
/// the error, whichever comes first.
pub open spec fn scan_digits(s: Seq<char>) -> Result<int, NumberError>
    decreases s.len(),
{
    if s.len() == 0 {
        Ok(0)
    } else {
        match scan_digits(s.drop_last()) {
            Err(e) => Err(e),
            Ok(v) => if !is_ascii_digit(s.last()) {
                Err(NumberError::InvalidDigit)
            } else if v * 10 + digit_value(s.last()) > u16::MAX {
                Err(NumberError::Overflow)
            } else {
                Ok(v * 10 + digit_value(s.last()))
            },
        }
    }
}

/// What `str::parse::<u16>` gives for the text `s`: one optional leading `+`,
/// then at least one ASCII digit, and a value that fits in 16 bits.
pub open spec fn parse_u16_spec(s: Seq<char>) -> Result<u16, NumberError> {
    if s.len() == 0 {
        Err(NumberError::Empty)
    } else if s[0] == '+' && s.len() == 1 {
        Err(NumberError::InvalidDigit)
    } else {
        let digits = if s[0] == '+' { s.drop_first() } else { s };
        match scan_digits(digits) {
            Err(e) => Err(e),
            Ok(v) => Ok(v as u16),
        }
    }
}

/// The character of the digit `d`, for `0 <= d < 10`.
pub open spec fn digit_char(d: int) -> char {
    (d + '0' as int) as char
}

/// The shortest decimal numeral of `n`: no leading zeros, `"0"` for zero.
pub open spec fn decimal(n: nat) -> Seq<char>
    decreases n,
{
    if n < 10 {
        seq![digit_char(n as int)]
    } else {
        decimal(n / 10) + seq![digit_char((n % 10) as int)]
    }
}

/// The numeral of `n` consists of ASCII digits, and reading it back gives `n`.
pub proof fn lemma_decimal_scans_back(n: nat)
    requires
        n <= u16::MAX,
    ensures
        decimal(n).len() > 0,
        all_ascii_digits(decimal(n)),
        scan_digits(decimal(n)) == Ok::<int, NumberError>(n as int),
    decreases n,
{
    if n < 10 {
        let s = decimal(n);
        assert(digit_value(digit_char(n as int)) == n);
        assert(s.drop_last() =~= Seq::<char>::empty());
        assert(scan_digits(s.drop_last()) == Ok::<int, NumberError>(0));
    } else {
        let q = n / 10;
        let r = n % 10;
        lemma_decimal_scans_back(q);
        let s = decimal(n);
        assert(s.drop_last() =~= decimal(q));
        assert(s.last() == digit_char(r as int));
        assert(digit_value(digit_char(r as int)) == r);
        assert(n == q * 10 + r) by (nonlinear_arith)
            requires q == n / 10, r == n % 10;
        assert(scan_digits(s.drop_last()) == Ok::<int, NumberError>(q as int));
        assert forall|i: int| 0 <= i < s.len() implies is_ascii_digit(#[trigger] s[i]) by {
            if i < s.len() - 1 {
                assert(s[i] == decimal(q)[i]);
            }
        }
    }
}

/// Law: the numeral of `n` is its shortest decimal form. It is made of ASCII
/// digits, reads back to `n`, has no leading `0` unless `n` is zero, and for
/// `n < 10` is the single digit of `n`.
pub proof fn law_decimal_shortest(n: nat)
    ensures
        decimal(n).len() > 0,
        all_ascii_digits(decimal(n)),
        n <= u16::MAX ==> scan_digits(decimal(n)) == Ok::<int, NumberError>(n as int),
        n > 0 ==> decimal(n)[0] != '0',
        n < 10 ==> decimal(n) == seq![(n + '0' as nat) as char],
    decreases n,
{
    if n >= 10 {
        law_decimal_shortest(n / 10);
        let s = decimal(n);
        assert(s[0] == decimal(n / 10)[0]);
        assert forall|i: int| 0 <= i < s.len() implies is_ascii_digit(#[trigger] s[i]) by {
            if i < s.len() - 1 {
                assert(s[i] == decimal(n / 10)[i]);
            }
        }
    }
    if n <= u16::MAX {
        lemma_decimal_scans_back(n);
    }
}

/// Parsing the shortest numeral of a `u16` gives that `u16` back.
pub proof fn lemma_parse_decimal(n: u16)
    ensures
        parse_u16_spec(decimal(n as nat)) == Ok::<u16, NumberError>(n),
{
    lemma_decimal_scans_back(n as nat);
    assert(is_ascii_digit(decimal(n as nat)[0]));
}

/// Reads the text `s` as a `u16`, as `str::parse::<u16>` does.
pub fn parse_u16(s: &str) -> (r: Result<u16, NumberError>)
    ensures
        r == parse_u16_spec(s@),
{
    let len = s.unicode_len();
    if len == 0 {
        return Err(NumberError::Empty);
    }
    let first = s.get_char(0);
    let start: usize = if first == '+' { 1 } else { 0 };
    if first == '+' && len == 1 {
        return Err(NumberError::InvalidDigit);
    }
    let ghost digits = if first == '+' { s@.drop_first() } else { s@ };
    let mut value: u32 = 0;
    let mut i: usize = start;
    while i < len
        invariant
            start <= i <= len,
            len == s@.len(),
            start == 0 || start == 1,
            digits =~= s@.subrange(start as int, len as int),
            scan_digits(digits.subrange(0, i - start)) == Ok::<int, NumberError>(value as int),
            value <= u16::MAX,
            parse_u16_spec(s@) == (match scan_digits(digits) {
                Err(e) => Err(e),
                Ok(v) => Ok(v as u16),
            }),
        decreases len - i,
    {
        let c = s.get_char(i);
        let ghost prefix = digits.subrange(0, i + 1 - start);
        assert(prefix.drop_last() =~= digits.subrange(0, i - start));
        assert(prefix.last() == c);
        if !('0' <= c && c <= '9') {
            assert(scan_digits(prefix) == Err::<int, NumberError>(NumberError::InvalidDigit));
            proof { lemma_scan_prefix_err(digits, (i + 1 - start) as int); }
            return Err(NumberError::InvalidDigit);
        }
        let d = (c as u32) - ('0' as u32);
        if value * 10 + d > 65535 {
            assert(scan_digits(prefix) == Err::<int, NumberError>(NumberError::Overflow));
            proof { lemma_scan_prefix_err(digits, (i + 1 - start) as int); }
            return Err(NumberError::Overflow);
        }
        value = value * 10 + d;
        i = i + 1;
    }
    assert(digits.subrange(0, len - start) =~= digits);
    Ok(value as u16)
}

/// An error in a prefix is the error of the whole text.
proof fn lemma_scan_prefix_err(s: Seq<char>, k: int)
    requires
        0 <= k <= s.len(),
        scan_digits(s.subrange(0, k)) is Err,
    ensures
        scan_digits(s) == scan_digits(s.subrange(0, k)),
    decreases s.len() - k,
{
    if k < s.len() {
        let t = s.subrange(0, k + 1);
        assert(t.drop_last() =~= s.subrange(0, k));
        lemma_scan_prefix_err(s, k + 1);
    } else {
        assert(s.subrange(0, k) =~= s);
    }
}

/// The one-character text of the digit `d`.
fn digit_str(d: u16) -> (r: &'static str)
    requires
        d < 10,
    ensures
        r@ == seq![digit_char(d as int)],
{
    proof {
        reveal_strlit("0");
        reveal_strlit("1");
        reveal_strlit("2");
        reveal_strlit("3");
        reveal_strlit("4");
        reveal_strlit("5");
        reveal_strlit("6");
        reveal_strlit("7");
        reveal_strlit("8");
        reveal_strlit("9");
    }
    if d == 0 {
        "0"
    } else if d == 1 {
        "1"
    } else if d == 2 {
        "2"
    } else if d == 3 {
        "3"
    } else if d == 4 {
        "4"
    } else if d == 5 {
        "5"
    } else if d == 6 {
        "6"
    } else if d == 7 {
        "7"
    } else if d == 8 {
        "8"
    } else {
        "9"
    }
}

/// Appends the shortest decimal numeral of `n` to `out`.
pub fn push_decimal(out: &mut String, n: u16)
    ensures
        final(out)@ == old(out)@ + decimal(n as nat),
    decreases n,
{
    if n >= 10 {
        push_decimal(out, n / 10);
        out.append(digit_str(n % 10));
        proof {
            assert(decimal(n as nat) == decimal((n / 10) as nat) + seq![digit_char((n % 10) as int)]);
        }
    } else {
        out.append(digit_str(n));
    }
}

} // verus!
