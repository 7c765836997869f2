//! Text helpers: building strings, decimal and hexadecimal rendering, decimal parsing,
//! and the few `str` operations of std that the configuration and SDP logic rely on.

use vstd::prelude::*;
use vstd::string::StrSliceExecFns;
use vstd::string::StringExecFns;

verus! {

// ---------------------------------------------------------------------------------------------
// std string operations without a specification in vstd
// ---------------------------------------------------------------------------------------------

/// `String::push` (std): appends one character at the end.
#[verifier::external_body]
pub(crate) fn push_char(s: &mut String, c: char)
    ensures
        final(s)@ == old(s)@.push(c),
{
    s.push(c);
}

/// Appends the characters of `t` at the end.
pub(crate) fn push_str(s: &mut String, t: &str)
    ensures
        final(s)@ == old(s)@ + t@,
{
    s.append(t);
}

/// The position of the first occurrence of `sep` in `s` at or after position `i`.
pub open spec fn find_from(s: Seq<char>, sep: Seq<char>, i: nat) -> Option<nat>
    decreases s.len() - i,
{
    if i >= s.len() || i + sep.len() > s.len() {
        None
    } else if s.subrange(i as int, (i + sep.len()) as int) == sep {
        Some(i)
    } else {
        find_from(s, sep, i + 1)
    }
}

/// An occurrence found from `i` on starts at `i` or later and lies in the text.
pub proof fn lemma_find_from_bounds(s: Seq<char>, sep: Seq<char>, i: nat)
    ensures
        find_from(s, sep, i) matches Some(j) ==> i <= j && j + sep.len() <= s.len(),
    decreases s.len() - i,
{
    if !(i >= s.len() || i + sep.len() > s.len()) && s.subrange(i as int, (i + sep.len()) as int) != sep {
        lemma_find_from_bounds(s, sep, i + 1);
    }
}

/// The pieces of `s` from position `start` on, cut at each occurrence of the non-empty
/// `sep`, from the left.
pub open spec fn split_from(s: Seq<char>, sep: Seq<char>, start: nat) -> Seq<Seq<char>>
    decreases s.len() - start,
{
    if sep.len() == 0 || start > s.len() {
        Seq::empty()
    } else {
        match find_from(s, sep, start) {
            Some(i) => {
                proof {
                    lemma_find_from_bounds(s, sep, start);
                }
                seq![s.subrange(start as int, i as int)] + split_from(s, sep, i + sep.len())
            },
            None => seq![s.subrange(start as int, s.len() as int)],
        }
    }
}

/// The pieces that std's `str::split` yields for a string pattern: the text between the
/// occurrences of the pattern, found from the left without overlapping; an empty pattern
/// separates every character, along with the start and the end.
pub open spec fn str_split(s: Seq<char>, sep: Seq<char>) -> Seq<Seq<char>> {
    if sep.len() == 0 {
        seq![Seq::<char>::empty()] + Seq::new(s.len(), |i: int| seq![s[i]]) + seq![
            Seq::<char>::empty(),
        ]
    } else {
        split_from(s, sep, 0)
    }
}

/// `str::split` (std) with a string pattern, each piece copied into a `String`: the
/// pieces are those of [`str_split`], and there is at least one.
#[verifier::external_body]
pub(crate) fn split(s: &str, sep: &str) -> (r: Vec<String>)
    ensures
        r@.map_values(|p: String| p@) == str_split(s@, sep@),
        r@.len() >= 1,
{
    s.split(sep).map(|p| p.to_owned()).collect()
}

/// White space as std's `char::is_whitespace` defines it: the characters of the Unicode
/// property `White_Space`.
pub open spec fn is_white_space(c: char) -> bool {
    ||| '\t' <= c <= '\r'
    ||| c == ' '
    ||| c == '\u{85}'
    ||| c == '\u{a0}'
    ||| c == '\u{1680}'
    ||| '\u{2000}' <= c <= '\u{200a}'
    ||| c == '\u{2028}'
    ||| c == '\u{2029}'
    ||| c == '\u{202f}'
    ||| c == '\u{205f}'
    ||| c == '\u{3000}'
}

/// A string without its leading white space.
pub open spec fn trim_start(s: Seq<char>) -> Seq<char>
    decreases s.len(),
{
    if s.len() > 0 && is_white_space(s[0]) {
        trim_start(s.drop_first())
    } else {
        s
    }
}

/// A string without its trailing white space.
pub open spec fn trim_end(s: Seq<char>) -> Seq<char>
    decreases s.len(),
{
    if s.len() > 0 && is_white_space(s.last()) {
        trim_end(s.drop_last())
    } else {
        s
    }
}

/// What std's `str::trim` leaves of a string: the string without leading and trailing
/// white space.
pub open spec fn str_trim(s: Seq<char>) -> Seq<char> {
    trim_end(trim_start(s))
}

/// A string with a character that is not white space keeps one after trimming.
pub proof fn lemma_trim_keeps_non_white(s: Seq<char>, k: int)
    requires
        0 <= k < s.len(),
        !is_white_space(s[k]),
    ensures
        str_trim(s).len() > 0,
{
    let t = lemma_trim_start_keeps(s, k);
    lemma_trim_end_keeps(trim_start(s), t);
}

proof fn lemma_trim_start_keeps(s: Seq<char>, k: int) -> (j: int)
    requires
        0 <= k < s.len(),
        !is_white_space(s[k]),
    ensures
        0 <= j < trim_start(s).len(),
        !is_white_space(trim_start(s)[j]),
    decreases s.len(),
{
    if s.len() > 0 && is_white_space(s[0]) {
        lemma_trim_start_keeps(s.drop_first(), k - 1)
    } else {
        k
    }
}

proof fn lemma_trim_end_keeps(s: Seq<char>, k: int)
    requires
        0 <= k < s.len(),
        !is_white_space(s[k]),
    ensures
        trim_end(s).len() > k,
    decreases s.len(),
{
    if s.len() > 0 && is_white_space(s.last()) {
        lemma_trim_end_keeps(s.drop_last(), k);
    }
}

/// `str::trim` (std): the string without leading and trailing white space, as
/// `char::is_whitespace` decides it.
#[verifier::external_body]
pub(crate) fn trim(s: &str) -> (r: &str)
    ensures
        r@ == str_trim(s@),
{
    s.trim()
}

// ---------------------------------------------------------------------------------------------
// Comparing and copying strings
// ---------------------------------------------------------------------------------------------

/// Character-wise equality of two string slices.
pub fn str_eq(a: &str, b: &str) -> (r: bool)
    ensures
        r == (a@ == b@),
{
    let n = a.unicode_len();
    let m = b.unicode_len();
    if n != m {
        return false;
    }
    let mut i: usize = 0;
    while i < n
        invariant
            n == a@.len(),
            m == b@.len(),
            n == m,
            i <= n,
            forall|j: int| 0 <= j < i ==> a@[j] == b@[j],
        decreases n - i,
    {
        if a.get_char(i) != b.get_char(i) {
            return false;
        }
        i = i + 1;
    }
    assert(a@ =~= b@);
    true
}

/// A new `String` holding the characters of `s`.
pub fn owned(s: &str) -> (r: String)
    ensures
        r@ == s@,
{
    s.to_owned()
}

/// The characters of a string slice, one by one.
pub fn chars_of(s: &str) -> (r: Vec<char>)
    ensures
        r@ == s@,
{
    let n = s.unicode_len();
    let mut out: Vec<char> = Vec::new();
    let mut i: usize = 0;
    while i < n
        invariant
            n == s@.len(),
            i <= n,
            out@ == s@.subrange(0, i as int),
        decreases n - i,
    {
        out.push(s.get_char(i));
        i = i + 1;
        assert(out@ =~= s@.subrange(0, i as int));
    }
    assert(out@ =~= s@);
    out
}

/// Right-pads `s` with spaces to `width` characters, as `{:<width}` does.
pub open spec fn pad_right(s: Seq<char>, width: nat) -> Seq<char> {
    if s.len() < width {
        s + Seq::new((width - s.len()) as nat, |_i: int| ' ')
    } else {
        s
    }
}

/// Appends `t` right-padded with spaces to `width` characters.
pub fn push_padded(out: &mut String, t: &str, width: usize)
    ensures
        final(out)@ == old(out)@ + pad_right(t@, width as nat),
{
    push_str(out, t);
    let n = t.unicode_len();
    let mut k: usize = n;
    while k < width
        invariant
            n == t@.len(),
            k >= n,
            n < width ==> k <= width,
            n >= width ==> k == n,
            out@ == old(out)@ + t@ + Seq::new((k - n) as nat, |_i: int| ' '),
        decreases width - k,
    {
        push_char(out, ' ');
        k = k + 1;
        assert(out@ =~= old(out)@ + t@ + Seq::new((k - n) as nat, |_i: int| ' '));
    }
    if n < width {
        assert(out@ =~= old(out)@ + pad_right(t@, width as nat));
    } else {
        assert(out@ =~= old(out)@ + t@ + Seq::new(0, |_i: int| ' '));
        assert(out@ =~= old(out)@ + pad_right(t@, width as nat));
    }
}

// ---------------------------------------------------------------------------------------------
// Rendering integers
// ---------------------------------------------------------------------------------------------

/// The character of a digit value below 16, upper case for the letters.
pub open spec fn digit_char(d: nat) -> char {
    if d < 10 {
        (d + 48) as char
    } else {
        (d + 55) as char
    }
}

/// The decimal digits of `n`, most significant first, without leading zeros.
pub open spec fn decimal_digits(n: nat) -> Seq<char>
    decreases n,
{
    if n < 10 {
        seq![digit_char(n)]
    } else {
        decimal_digits(n / 10).push(digit_char(n % 10))
    }
}

/// The text that std's `Display` gives a signed integer.
pub open spec fn signed_decimal(n: int) -> Seq<char> {
    if n < 0 {
        seq!['-'] + decimal_digits((-n) as nat)
    } else {
        decimal_digits(n as nat)
    }
}

/// The upper-case hexadecimal digits of `n`, most significant first, without leading zeros.
pub open spec fn hex_digits(n: nat) -> Seq<char>
    decreases n,
{
    if n < 16 {
        seq![digit_char(n)]
    } else {
        hex_digits(n / 16).push(digit_char(n % 16))
    }
}

/// `{:#0wX}`: `0x`, then the upper-case hexadecimal digits zero-padded so that
/// the whole text has at least `width` characters.
pub open spec fn hex_prefixed(n: nat, width: nat) -> Seq<char> {
    let digits = hex_digits(n);
    if digits.len() + 2 < width {
        seq!['0', 'x'] + Seq::new((width - 2 - digits.len()) as nat, |_i: int| '0') + digits
    } else {
        seq!['0', 'x'] + digits
    }
}

fn digit(d: u64) -> (c: char)
    requires
        d < 16,
    ensures
        c == digit_char(d as nat),
{
    let code: u8 = if d < 10 {
        48 + d as u8
    } else {
        55 + d as u8
    };
    code as char
}

/// The decimal text of a number is not empty and holds digits only.
pub proof fn lemma_decimal_digits_are_digits(n: nat)
    ensures
        decimal_digits(n).len() >= 1,
        all_digits(decimal_digits(n)),
    decreases n,
{
    if n >= 10 {
        lemma_decimal_digits_are_digits(n / 10);
    }
}

/// Appends the decimal digits of `n`.
pub fn push_decimal(out: &mut String, n: u64)
    ensures
        final(out)@ == old(out)@ + decimal_digits(n as nat),
    decreases n,
{
    if n >= 10 {
        push_decimal(out, n / 10);
    }
    push_char(out, digit(n % 10));
    if n >= 10 {
        assert(final(out)@ =~= old(out)@ + decimal_digits(n as nat));
    } else {
        assert(final(out)@ =~= old(out)@ + decimal_digits(n as nat));
    }
}

/// Appends the decimal text of a signed integer, with a leading `-` when negative.
pub fn push_signed_decimal(out: &mut String, n: i64)
    ensures
        final(out)@ == old(out)@ + signed_decimal(n as int),
{
    if n < 0 {
        push_char(out, '-');
        let magnitude: u64 = (0i128 - n as i128) as u64;
        push_decimal(out, magnitude);
        assert(final(out)@ =~= old(out)@ + signed_decimal(n as int));
    } else {
        push_decimal(out, n as u64);
    }
}

/// The decimal text of `n`, as std's `to_string` gives it.
pub fn decimal_string(n: u64) -> (r: String)
    ensures
        r@ == decimal_digits(n as nat),
{
    let mut s = String::new();
    push_decimal(&mut s, n);
    assert(s@ =~= decimal_digits(n as nat));
    s
}

fn push_hex_digits(out: &mut String, n: u64)
    ensures
        final(out)@ == old(out)@ + hex_digits(n as nat),
    decreases n,
{
    if n >= 16 {
        push_hex_digits(out, n / 16);
    }
    push_char(out, digit(n % 16));
    assert(final(out)@ =~= old(out)@ + hex_digits(n as nat));
}

/// Appends `n` as `{:#0wX}` renders it.
pub fn push_hex_prefixed(out: &mut String, n: u64, width: usize)
    ensures
        final(out)@ == old(out)@ + hex_prefixed(n as nat, width as nat),
{
    let mut digits = String::new();
    push_hex_digits(&mut digits, n);
    assert(digits@ =~= hex_digits(n as nat));
    let len = digits.as_str().unicode_len();
    push_char(out, '0');
    push_char(out, 'x');
    let ghost base = out@;
    assert(base =~= old(out)@ + seq!['0', 'x']);
    let mut k: usize = 0;
    while len < width && width - len > 2 && k < width - len - 2
        invariant
            len == hex_digits(n as nat).len(),
            len + 2 < width ==> k <= width - 2 - len,
            len + 2 >= width ==> k == 0,
            out@ == base + Seq::new(k as nat, |_i: int| '0'),
        decreases width - k,
    {
        push_char(out, '0');
        k = k + 1;
        assert(out@ =~= base + Seq::new(k as nat, |_i: int| '0'));
    }
    push_str(out, digits.as_str());
    assert(final(out)@ =~= old(out)@ + hex_prefixed(n as nat, width as nat));
}

// ---------------------------------------------------------------------------------------------
// Parsing decimal integers
// ---------------------------------------------------------------------------------------------

pub open spec fn is_digit(c: char) -> bool {
    '0' <= c <= '9'
}

pub open spec fn all_digits(s: Seq<char>) -> bool {
    forall|i: int| 0 <= i < s.len() ==> is_digit(#[trigger] s[i])
}

/// The value of a sequence of decimal digits.
pub open spec fn digits_value(s: Seq<char>) -> nat
    decreases s.len(),
{
    if s.len() == 0 {
        0
    } else {
        digits_value(s.drop_last()) * 10 + ((s.last() as nat) - 48) as nat
    }
}

/// The value that std's `from_str` reads from a decimal text with an optional `+`,
/// before any range check: `None` for an empty text or one with other characters.
pub open spec fn decimal_value(s: Seq<char>) -> Option<nat> {
    if s.len() > 0 && s[0] == '+' {
        if s.len() > 1 && all_digits(s.drop_first()) {
            Some(digits_value(s.drop_first()))
        } else {
            None
        }
    } else if s.len() > 0 && all_digits(s) {
        Some(digits_value(s))
    } else {
        None
    }
}

/// What parsing an unsigned integer type whose largest value is `max` gives.
pub open spec fn parse_unsigned(s: Seq<char>, max: nat) -> Option<nat> {
    match decimal_value(s) {
        Some(v) => if v <= max {
            Some(v)
        } else {
            None
        },
        None => None,
    }
}

proof fn lemma_digits_value_prefix(s: Seq<char>, i: int)
    requires
        0 <= i <= s.len(),
        all_digits(s),
    ensures
        digits_value(s) >= digits_value(s.subrange(0, i)),
    decreases s.len() - i,
{
    if i < s.len() {
        lemma_digits_value_prefix(s, i + 1);
        let p = s.subrange(0, i + 1);
        assert(p.drop_last() =~= s.subrange(0, i));
        assert(is_digit(p[i]));
    } else {
        assert(s.subrange(0, i) =~= s);
    }
}

/// Parses a decimal unsigned integer no larger than `max`, as std's `from_str` for the
/// unsigned integer types does: an optional `+`, then at least one digit, nothing else.
pub fn parse_decimal(s: &str, max: u64) -> (r: Option<u64>)
    ensures
        r matches Some(v) ==> parse_unsigned(s@, max as nat) == Some(v as nat),
        r is None ==> parse_unsigned(s@, max as nat) is None,
{
    let n = s.unicode_len();
    if n == 0 {
        return None;
    }
    let start: usize = if s.get_char(0) == '+' {
        1
    } else {
        0
    };
    if start == n {
        return None;
    }
    let ghost digits = s@.subrange(start as int, n as int);
    proof {
        if start == 1 {
            assert(digits =~= s@.drop_first());
        } else {
            assert(digits =~= s@);
        }
    }
    let mut acc: u64 = 0;
    let mut i: usize = start;
    while i < n
        invariant
            n == s@.len(),
            start <= i <= n,
            start < n,
            start == 0 ==> s@[0] != '+',
            start == 1 ==> s@[0] == '+',
            start <= 1,
            digits == s@.subrange(start as int, n as int),
            all_digits(s@.subrange(start as int, i as int)),
            acc as nat == digits_value(s@.subrange(start as int, i as int)),
            acc <= max,
        decreases n - i,
    {
        let c = s.get_char(i);
        if !('0' <= c && c <= '9') {
            proof {
                assert(!is_digit(digits[i - start]));
                assert(!all_digits(digits));
                if start == 1 {
                    assert(!all_digits(s@.drop_first()));
                } else {
                    assert(!all_digits(s@));
                }
            }
            return None;
        }
        let d: u64 = (c as u32 - 48) as u64;
        let ghost prefix = s@.subrange(start as int, i as int + 1);
        proof {
            assert(prefix.drop_last() =~= s@.subrange(start as int, i as int));
            assert(all_digits(prefix));
        }
        if d > max || acc > (max - d) / 10 {
            proof {
                if d <= max {
                    assert(acc * 10 + d > max) by (nonlinear_arith)
                        requires
                            acc > (max - d) / 10,
                            d <= max,
                    ;
                }
                assert(digits_value(prefix) == acc * 10 + d);
                if all_digits(digits) {
                    assert(prefix =~= digits.subrange(0, i - start + 1));
                    lemma_digits_value_prefix(digits, i - start + 1);
                    assert(digits_value(digits) > max);
                    if start == 1 {
                        assert(decimal_value(s@) == Some(digits_value(digits)));
                    } else {
                        assert(digits =~= s@);
                        assert(decimal_value(s@) == Some(digits_value(digits)));
                    }
                } else {
                    if start == 1 {
                        assert(!all_digits(s@.drop_first()));
                    } else {
                        assert(!all_digits(s@));
                    }
                }
            }
            return None;
        }
        proof {
            assert(acc * 10 + d <= max) by (nonlinear_arith)
                requires
                    acc <= (max - d) / 10,
                    d <= max,
            ;
        }
        acc = acc * 10 + d;
        i = i + 1;
    }
    proof {
        assert(s@.subrange(start as int, n as int) =~= digits);
    }
    Some(acc)
}

} // verus!
