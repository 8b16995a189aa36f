//! Quoted strings of the specification language and their escape sequences.

use vstd::prelude::*;
use crate::text::push_char;

verus! {

/// Why a quoted string could not be decoded.
#[derive(Debug, PartialEq, Eq, Structural, Clone, Copy)]
pub enum DecodeError {
    /// A `\u` escape ends before its fourth hex digit.
    ExpectedHexCharacter,
    /// A `\u` escape holds a character that is not a hex digit.
    InvalidHexDigit,
    /// A `\u` escape names no valid character (a surrogate).
    ExpectedValidCharacter,
    /// A backslash is followed by a character that starts no escape.
    InvalidEscape,
}

/// The value of a hex digit (`0`-`9`, `a`-`f`, `A`-`F`).
pub open spec fn hex_value(c: char) -> Option<nat> {
    if '0' <= c && c <= '9' {
        Some((c as int - '0' as int) as nat)
    } else if 'a' <= c && c <= 'f' {
        Some((c as int - 'a' as int + 10) as nat)
    } else if 'A' <= c && c <= 'F' {
        Some((c as int - 'A' as int + 10) as nat)
    } else {
        None
    }
}

/// A Unicode scalar value: a code point that is no surrogate.
pub open spec fn is_scalar(v: nat) -> bool {
    v < 0xD800 || (0xE000 <= v && v <= 0x10FFFF)
}

/// The value of the `k` hex digits at `pos`, or the error met first when
/// reading them from left to right.
pub open spec fn hex_run(s: Seq<char>, pos: int, k: nat) -> Result<nat, DecodeError>
    decreases k,
{
    if k == 0 {
        Ok(0)
    } else {
        match hex_run(s, pos, (k - 1) as nat) {
            Err(e) => Err(e),
            Ok(prev) => {
                let idx = pos + k - 1;
                if idx >= s.len() {
                    Err(DecodeError::ExpectedHexCharacter)
                } else {
                    match hex_value(s[idx]) {
                        None => Err(DecodeError::InvalidHexDigit),
                        Some(d) => Ok(prev * 16 + d),
                    }
                }
            },
        }
    }
}

/// The character of the four hex digits at `pos`.
pub open spec fn unicode4(s: Seq<char>, pos: int) -> Result<char, DecodeError> {
    match hex_run(s, pos, 4) {
        Err(e) => Err(e),
        Ok(v) => if is_scalar(v) {
            Ok(v as char)
        } else {
            Err(DecodeError::ExpectedValidCharacter)
        },
    }
}

/// `c` followed by the decoded rest, or the rest's error.
pub open spec fn prepend(c: char, rest: Result<Seq<char>, DecodeError>) -> Result<Seq<char>, DecodeError> {
    match rest {
        Ok(r) => Ok(seq![c] + r),
        Err(e) => Err(e),
    }
}

/// Decoding from position `i` on: the last character (the closing quote)
/// is dropped; `\n`, `\r`, `\t` and `\uXXXX` are escapes; any other
/// character after a backslash is an error.
pub open spec fn decode_from(s: Seq<char>, i: int) -> Result<Seq<char>, DecodeError>
    decreases s.len() - i,
{
    if i < 0 || i + 1 >= s.len() {
        Ok(Seq::empty())
    } else if s[i] == '\\' {
        let e = s[i + 1];
        if e == 'n' {
            prepend('\n', decode_from(s, i + 2))
        } else if e == 'r' {
            prepend('\r', decode_from(s, i + 2))
        } else if e == 't' {
            prepend('\t', decode_from(s, i + 2))
        } else if e == 'u' {
            match unicode4(s, i + 2) {
                Err(x) => Err(x),
                Ok(c) => prepend(c, decode_from(s, i + 6)),
            }
        } else {
            Err(DecodeError::InvalidEscape)
        }
    } else {
        prepend(s[i], decode_from(s, i + 1))
    }
}

/// The content of a quoted string: the characters between its first and
/// its last character, with escapes decoded.
pub open spec fn decode_escaped(s: Seq<char>) -> Result<Seq<char>, DecodeError> {
    decode_from(s, 1)
}

/// The character of a code point.
/// Calls `char::from_u32`, which gives the character exactly for the
/// Unicode scalar values.
#[verifier::external_body]
fn char_from_u32(v: u32) -> (r: Option<char>)
    ensures
        r is Some <==> is_scalar(v as nat),
        r matches Some(c) ==> c == v as char,
{
    char::from_u32(v)
}

/// The value of a hex digit.
fn hex_digit(c: char) -> (r: Option<u32>)
    ensures
        r matches Some(d) ==> hex_value(c) == Some(d as nat),
        r is None ==> hex_value(c) is None,
{
    if '0' <= c && c <= '9' {
        Some((c as u32) - ('0' as u32))
    } else if 'a' <= c && c <= 'f' {
        Some((c as u32) - ('a' as u32) + 10)
    } else if 'A' <= c && c <= 'F' {
        Some((c as u32) - ('A' as u32) + 10)
    } else {
        None
    }
}

/// Decodes the four hex digits at character position `pos` of `input` as a character.
pub fn decode_unicode4(input: &str, pos: usize) -> (r: Result<char, DecodeError>)
    ensures
        r == unicode4(input@, pos as int),
{
    let n = input.unicode_len();
    let mut res: u32 = 0;
    let mut x: usize = 0;
    while x < 4
        invariant
            0 <= x <= 4,
            n == input@.len(),
            hex_run(input@, pos as int, x as nat) == Ok::<nat, DecodeError>(res as nat),
            res < pow16(x as nat),
        decreases 4 - x,
    {
        if pos >= n || x >= n - pos {
            assert(hex_run(input@, pos as int, (x + 1) as nat) == Err::<nat, DecodeError>(DecodeError::ExpectedHexCharacter));
            proof {
                lemma_hex_run_err(input@, pos as int, (x + 1) as nat, 4);
            }
            return Err(DecodeError::ExpectedHexCharacter);
        }
        match hex_digit(input.get_char(pos + x)) {
            None => {
                proof {
                    lemma_hex_run_err(input@, pos as int, (x + 1) as nat, 4);
                }
                return Err(DecodeError::InvalidHexDigit);
            },
            Some(d) => {
                proof {
                    reveal_with_fuel(pow16, 5);
                    assert(pow16(x as nat) <= 4096) by {
                        if x == 0 {} else if x == 1 {} else if x == 2 {} else {}
                    }
                }
                assert(res * 16 + d < pow16((x + 1) as nat)) by (nonlinear_arith)
                    requires
                        res < pow16(x as nat),
                        d < 16,
                        pow16((x + 1) as nat) == pow16(x as nat) * 16,
                ;
                res = res * 16 + d;
            },
        }
        x += 1;
    }
    match char_from_u32(res) {
        Some(c) => Ok(c),
        None => Err(DecodeError::ExpectedValidCharacter),
    }
}

/// 16 to the power `k`.
pub open spec fn pow16(k: nat) -> nat
    decreases k,
{
    if k == 0 {
        1
    } else {
        16 * pow16((k - 1) as nat)
    }
}

/// Once reading hex digits fails, reading more fails the same way.
pub proof fn lemma_hex_run_err(s: Seq<char>, pos: int, k: nat, m: nat)
    requires
        k <= m,
        hex_run(s, pos, k) is Err,
    ensures
        hex_run(s, pos, m) == hex_run(s, pos, k),
    decreases m - k,
{
    if k < m {
        lemma_hex_run_err(s, pos, k, (m - 1) as nat);
    }
}

/// The content of a quoted string, with its escape sequences decoded: the
/// first and the last character (the quotes) are dropped.
pub fn decode_escaped_string(input: &str) -> (r: Result<String, DecodeError>)
    ensures
        match decode_escaped(input@) {
            Ok(s) => r matches Ok(out) && out@ == s,
            Err(e) => r == Err::<String, DecodeError>(e),
        },
{
    let n = input.unicode_len();
    let mut out = String::new();
    let mut i: usize = 1;
    while i < n && i + 1 < n
        invariant
            1 <= i,
            n == input@.len(),
            n <= usize::MAX,
            match decode_from(input@, i as int) {
                Ok(rest) => decode_escaped(input@) == Ok::<Seq<char>, DecodeError>(out@ + rest),
                Err(e) => decode_escaped(input@) == Err::<Seq<char>, DecodeError>(e),
            },
        decreases n - i,
    {
        let c = input.get_char(i);
        if c == '\\' {
            let e = input.get_char(i + 1);
            let escaped = if e == 'n' {
                '\n'
            } else if e == 'r' {
                '\r'
            } else if e == 't' {
                '\t'
            } else if e == 'u' {
                match decode_unicode4(input, i + 2) {
                    Ok(u) => u,
                    Err(err) => {
                        return Err(err);
                    },
                }
            } else {
                return Err(DecodeError::InvalidEscape);
            };
            let ghost prev = out@;
            push_char(&mut out, escaped);
            if e == 'u' {
                proof {
                    match decode_from(input@, i + 6) {
                        Ok(rest) => {
                            assert(prev + (seq![escaped] + rest) =~= out@ + rest);
                        },
                        Err(_) => {},
                    }
                }
                if i + 6 > n {
                    assert(decode_from(input@, i + 6) == Ok::<Seq<char>, DecodeError>(Seq::empty()));
                    assert(out@ + Seq::<char>::empty() =~= out@);
                    return Ok(out);
                }
                i = i + 6;
            } else {
                proof {
                    match decode_from(input@, i + 2) {
                        Ok(rest) => {
                            assert(prev + (seq![escaped] + rest) =~= out@ + rest);
                        },
                        Err(_) => {},
                    }
                }
                i = i + 2;
            }
        } else {
            let ghost prev = out@;
            push_char(&mut out, c);
            proof {
                match decode_from(input@, i + 1) {
                    Ok(rest) => {
                        assert(prev + (seq![c] + rest) =~= out@ + rest);
                    },
                    Err(_) => {},
                }
            }
            i = i + 1;
        }
    }
    assert(out@ + Seq::<char>::empty() =~= out@);
    Ok(out)
}

/// The hex digits in lower case, by value.
pub open spec fn lower_hex_digits() -> Seq<char> {
    "0123456789abcdef"@
}

/// The hex digits in upper case, by value.
pub open spec fn upper_hex_digits() -> Seq<char> {
    "0123456789ABCDEF"@
}

/// Each of the 22 hex digits has its value: the digit of every value below
/// 16, in lower or upper case, reads back as that value; and a character
/// with a value is the digit of that value in one of the two cases.
pub proof fn law_hex_digits(d: nat, c: char)
    ensures
        d < 16 ==> hex_value(lower_hex_digits()[d as int]) == Some(d),
        d < 16 ==> hex_value(upper_hex_digits()[d as int]) == Some(d),
        hex_value(c) matches Some(v) ==> v < 16 && (c == lower_hex_digits()[v as int] || c == upper_hex_digits()[v as int]),
{
    reveal_strlit("0123456789abcdef");
    reveal_strlit("0123456789ABCDEF");
}

/// A `\u` escape of four hex digits naming a Unicode scalar value decodes
/// to that character: the quoted text `\u` followed by the digits of `v`,
/// most significant first, in either case, is the one character `v`.
pub proof fn law_unicode_escape_decodes(v: nat, upper: bool)
    requires
        v < 0x10000,
        is_scalar(v),
    ensures
        ({
            let digits = if upper { upper_hex_digits() } else { lower_hex_digits() };
            decode_escaped(
                seq![
                    '"',
                    '\\',
                    'u',
                    digits[(v / 4096) as int],
                    digits[((v / 256) % 16) as int],
                    digits[((v / 16) % 16) as int],
                    digits[(v % 16) as int],
                    '"',
                ],
            ) == Ok::<Seq<char>, DecodeError>(seq![v as char])
        }),
{
    let digits = if upper { upper_hex_digits() } else { lower_hex_digits() };
    let a = v / 4096;
    let b = (v / 256) % 16;
    let c = (v / 16) % 16;
    let e = v % 16;
    assert(a < 16) by (nonlinear_arith)
        requires
            v < 0x10000,
            a == v / 4096,
    ;
    reveal_strlit("0123456789abcdef");
    reveal_strlit("0123456789ABCDEF");
    law_hex_digits(a, ' ');
    law_hex_digits(b, ' ');
    law_hex_digits(c, ' ');
    law_hex_digits(e, ' ');
    let s = seq!['"', '\\', 'u', digits[a as int], digits[b as int], digits[c as int], digits[e as int], '"'];
    assert(((a * 16 + b) * 16 + c) * 16 + e == v) by (nonlinear_arith)
        requires
            v < 0x10000,
            a == v / 4096,
            b == (v / 256) % 16,
            c == (v / 16) % 16,
            e == v % 16,
    ;
    assert(s[3] == digits[a as int]);
    assert(hex_value(s[3]) == Some(a));
    assert(hex_run(s, 3, 0) == Ok::<nat, DecodeError>(0));
    assert(hex_run(s, 3, 1) == Ok::<nat, DecodeError>(a));
    assert(hex_run(s, 3, 2) == Ok::<nat, DecodeError>(a * 16 + b));
    assert(hex_run(s, 3, 3) == Ok::<nat, DecodeError>((a * 16 + b) * 16 + c));
    assert(hex_run(s, 3, 4) == Ok::<nat, DecodeError>(v));
    assert(unicode4(s, 3) == Ok::<char, DecodeError>(v as char));
    assert(decode_from(s, 7) == Ok::<Seq<char>, DecodeError>(Seq::empty()));
    assert(decode_from(s, 1) =~= Ok::<Seq<char>, DecodeError>(seq![v as char]));
}

} // verus!
