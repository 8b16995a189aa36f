//! The grammar of types: built-in types, sized integers, maps, arrays and
//! named types.

use vstd::prelude::*;
use crate::ast::{RpName, RpType, RpNameView, RpTypeView, name_view, type_view};
use crate::parser::escapes::DecodeError;
use crate::parser::lexical::{has_at, lit_at, skip, skip_end, identifier, identifier_end, type_identifier, type_identifier_end, slice};

verus! {

/// Why a matched piece of a specification has no value.
#[derive(Debug, PartialEq, Eq, Structural, Clone, Copy)]
pub enum ParseError {
    /// A size does not fit in `usize`.
    InvalidSize,
    /// A string holds an escape that does not decode.
    Escape(DecodeError),
}

/// The value of the decimal digits between two positions.
pub open spec fn digits_value(s: Seq<char>, start: int, end: int) -> nat
    decreases end - start,
{
    if end <= start {
        0
    } else {
        digits_value(s, start, end - 1) * 10 + ((s[end - 1] as int - '0' as int) as nat)
    }
}

/// Whether a character is a decimal digit.
pub open spec fn is_digit(c: char) -> bool {
    '0' <= c && c <= '9'
}

/// The end of the run of digits from `p`.
pub open spec fn digits_end(s: Seq<char>, p: int) -> int
    decreases s.len() - p,
{
    if p < 0 || p >= s.len() || !is_digit(s[p]) {
        p
    } else {
        digits_end(s, p + 1)
    }
}

/// The end of an unsigned integer at `pos`: `0`, or a non-zero digit
/// followed by digits.
pub open spec fn int_end(s: Seq<char>, pos: int) -> Option<int> {
    if 0 <= pos < s.len() && s[pos] == '0' {
        Some(pos + 1)
    } else if 0 <= pos < s.len() && '1' <= s[pos] && s[pos] <= '9' {
        Some(digits_end(s, pos + 1))
    } else {
        None
    }
}

pub proof fn lemma_digits_end(s: Seq<char>, p: int)
    requires
        0 <= p <= s.len(),
    ensures
        p <= digits_end(s, p) <= s.len(),
        forall|k: int| p <= k < digits_end(s, p) ==> is_digit(#[trigger] s[k]),
    decreases s.len() - p,
{
    if p < s.len() && is_digit(s[p]) {
        lemma_digits_end(s, p + 1);
    }
}

/// The size after a sized integer type's keyword at `q`: `/` and an
/// unsigned integer, with its value, or nothing.
pub open spec fn type_bits_spec(s: Seq<char>, q: int) -> (Option<nat>, int) {
    if has_at(s, q, "/"@) {
        match int_end(s, q + 1) {
            Some(e) => (Some(digits_value(s, q + 1, e)), e),
            None => (None, q),
        }
    } else {
        (None, q)
    }
}

/// A size as a `usize`, if it fits.
pub open spec fn size_result(bits: Option<nat>) -> Result<Option<usize>, ParseError> {
    match bits {
        None => Ok(None),
        Some(v) => if v <= usize::MAX {
            Ok(Some(v as usize))
        } else {
            Err(ParseError::InvalidSize)
        },
    }
}

/// The end of the dotted type identifiers from `p` (where one starts), and
/// their texts.
pub open spec fn type_id_list(s: Seq<char>, p: int) -> (Seq<Seq<char>>, int)
    decreases s.len() - p,
{
    match type_identifier_end(s, p) {
        None => (Seq::empty(), p),
        Some(t) => if p < t && has_at(s, t, "."@) && type_identifier_end(s, t + 1) is Some {
            let rest = type_id_list(s, t + 1);
            (seq![s.subrange(p, t)] + rest.0, rest.1)
        } else {
            (seq![s.subrange(p, t)], t)
        },
    }
}

/// A named type at `pos`: an optional `alias::` prefix, then type
/// identifiers separated by dots, with no space between them.
pub open spec fn custom_spec(s: Seq<char>, pos: int) -> Option<(RpNameView, int)> {
    let (prefix, start) = match identifier_end(s, pos) {
        Some(i) => if has_at(s, i, "::"@) {
            (Some(s.subrange(pos, i)), i + 2)
        } else {
            (None, pos)
        },
        None => (None, pos),
    };
    if type_identifier_end(s, start) is Some {
        let (parts, end) = type_id_list(s, start);
        Some((RpNameView { prefix, parts }, end))
    } else {
        None
    }
}

/// A type at `pos`, and where it ends; the value is an error if a size does
/// not fit. The alternatives are tried in order: `float`, `double`,
/// `signed`, `unsigned` (each with an optional `/size`), `boolean`,
/// `string`, `bytes`, `any`, `{key: value}`, `[type]`, a named type.
/// Whitespace and comments may stand between the tokens of maps and arrays.
pub open spec fn type_spec_spec(s: Seq<char>, pos: int) -> Option<(Result<RpTypeView, ParseError>, int)>
    decreases s.len() - pos,
{
    if pos < 0 || pos > s.len() {
        None
    } else if has_at(s, pos, "float"@) {
        Some((Ok(RpTypeView::Float), pos + 5))
    } else if has_at(s, pos, "double"@) {
        Some((Ok(RpTypeView::Double), pos + 6))
    } else if has_at(s, pos, "signed"@) {
        let (bits, e) = type_bits_spec(s, pos + 6);
        Some(
            (
                match size_result(bits) {
                    Ok(b) => Ok(RpTypeView::Signed(b)),
                    Err(x) => Err(x),
                },
                e,
            ),
        )
    } else if has_at(s, pos, "unsigned"@) {
        let (bits, e) = type_bits_spec(s, pos + 8);
        Some(
            (
                match size_result(bits) {
                    Ok(b) => Ok(RpTypeView::Unsigned(b)),
                    Err(x) => Err(x),
                },
                e,
            ),
        )
    } else if has_at(s, pos, "boolean"@) {
        Some((Ok(RpTypeView::Boolean), pos + 7))
    } else if has_at(s, pos, "string"@) {
        Some((Ok(RpTypeView::String), pos + 6))
    } else if has_at(s, pos, "bytes"@) {
        Some((Ok(RpTypeView::Bytes), pos + 5))
    } else if has_at(s, pos, "any"@) {
        Some((Ok(RpTypeView::Any), pos + 3))
    } else if has_at(s, pos, "{"@) {
        let p1 = skip_end(s, pos + 1);
        if pos < p1 && p1 <= s.len() {
            match type_spec_spec(s, p1) {
                None => None,
                Some((key, k_end)) => {
                    let p2 = skip_end(s, k_end);
                    if has_at(s, p2, ":"@) {
                        let p3 = skip_end(s, p2 + 1);
                        if pos < p3 && p3 <= s.len() {
                            match type_spec_spec(s, p3) {
                                None => None,
                                Some((value, v_end)) => {
                                    let p4 = skip_end(s, v_end);
                                    if has_at(s, p4, "}"@) {
                                        Some(
                                            (
                                                match key {
                                                    Err(x) => Err(x),
                                                    Ok(k) => match value {
                                                        Err(x) => Err(x),
                                                        Ok(v) => Ok(RpTypeView::Mapping(Box::new(k), Box::new(v))),
                                                    },
                                                },
                                                p4 + 1,
                                            ),
                                        )
                                    } else {
                                        None
                                    }
                                },
                            }
                        } else {
                            None
                        }
                    } else {
                        None
                    }
                },
            }
        } else {
            None
        }
    } else if has_at(s, pos, "["@) {
        let p1 = skip_end(s, pos + 1);
        if pos < p1 && p1 <= s.len() {
            match type_spec_spec(s, p1) {
                None => None,
                Some((inner, i_end)) => {
                    let p2 = skip_end(s, i_end);
                    if has_at(s, p2, "]"@) {
                        Some(
                            (
                                match inner {
                                    Err(x) => Err(x),
                                    Ok(t) => Ok(RpTypeView::Array(Box::new(t))),
                                },
                                p2 + 1,
                            ),
                        )
                    } else {
                        None
                    }
                },
            }
        } else {
            None
        }
    } else {
        match custom_spec(s, pos) {
            Some((name, e)) => Some((Ok(RpTypeView::Name(name)), e)),
            None => None,
        }
    }
}

/// The model of a parse result.
pub open spec fn type_parse_view(r: Option<(Result<RpType, ParseError>, usize)>) -> Option<(Result<RpTypeView, ParseError>, int)> {
    match r {
        None => None,
        Some((Ok(t), e)) => Some((Ok(type_view(t)), e as int)),
        Some((Err(x), e)) => Some((Err(x), e as int)),
    }
}

/// Adding a digit never makes the value smaller.
proof fn lemma_digits_value_grows(s: Seq<char>, start: int, i: int, j: int)
    requires
        start <= i <= j <= s.len(),
        forall|k: int| start <= k < j ==> is_digit(#[trigger] s[k]),
    ensures
        digits_value(s, start, i) <= digits_value(s, start, j),
    decreases j - i,
{
    if i < j {
        lemma_digits_value_grows(s, start, i, j - 1);
    }
}

/// The end of an unsigned integer at `pos`, if one starts there.
pub fn int_at(s: &Vec<char>, pos: usize) -> (r: Option<usize>)
    requires
        pos <= s@.len(),
    ensures
        match r {
            Some(e) => int_end(s@, pos as int) == Some(e as int) && pos < e <= s@.len(),
            None => int_end(s@, pos as int) is None,
        },
{
    if pos < s.len() && s[pos] == '0' {
        Some(pos + 1)
    } else if pos < s.len() && '1' <= s[pos] && s[pos] <= '9' {
        let mut p = pos + 1;
        while p < s.len() && '0' <= s[p] && s[p] <= '9'
            invariant
                pos + 1 <= p <= s@.len(),
                digits_end(s@, pos + 1) == digits_end(s@, p as int),
            decreases s.len() - p,
        {
            p += 1;
        }
        Some(p)
    } else {
        None
    }
}

/// The value of the digits between two positions, if it fits in `usize`.
fn digits_to_size(s: &Vec<char>, start: usize, end: usize) -> (r: Option<usize>)
    requires
        start <= end <= s@.len(),
        forall|k: int| start <= k < end ==> is_digit(#[trigger] s@[k]),
    ensures
        match r {
            Some(v) => v as nat == digits_value(s@, start as int, end as int),
            None => digits_value(s@, start as int, end as int) > usize::MAX,
        },
{
    let mut acc: usize = 0;
    let mut i = start;
    while i < end
        invariant
            start <= i <= end,
            end <= s@.len(),
            forall|k: int| start <= k < end ==> is_digit(#[trigger] s@[k]),
            acc as nat == digits_value(s@, start as int, i as int),
        decreases end - i,
    {
        let d = (s[i] as u32 - '0' as u32) as usize;
        assert(is_digit(s@[i as int]));
        match acc.checked_mul(10) {
            None => {
                proof {
                    lemma_digits_value_grows(s@, start as int, i + 1, end as int);
                }
                return None;
            },
            Some(m) => match m.checked_add(d) {
                None => {
                    proof {
                        lemma_digits_value_grows(s@, start as int, i + 1, end as int);
                    }
                    return None;
                },
                Some(v) => {
                    acc = v;
                },
            },
        }
        i += 1;
    }
    Some(acc)
}

/// The size after a sized integer type's keyword at `q`.
fn type_bits(s: &Vec<char>, q: usize) -> (r: (Result<Option<usize>, ParseError>, usize))
    requires
        q <= s@.len(),
    ensures
        r.0 == size_result(type_bits_spec(s@, q as int).0),
        r.1 == type_bits_spec(s@, q as int).1,
        q <= r.1 <= s@.len(),
{
    proof {
        reveal_strlit("/");
    }
    let n = s.len();
    if q < n && lit_at(s, q, "/") {
        match int_at(s, q + 1) {
            Some(e) => {
                proof {
                    lemma_digits_end(s@, q + 2);
                }
                match digits_to_size(s, q + 1, e) {
                    Some(v) => (Ok(Some(v)), e),
                    None => (Err(ParseError::InvalidSize), e),
                }
            },
            None => (Ok(None), q),
        }
    } else {
        (Ok(None), q)
    }
}

/// The dotted type identifiers from `start`, where one starts.
fn type_ids(s: &Vec<char>, start: usize) -> (r: (Vec<String>, usize))
    requires
        start <= s@.len(),
        type_identifier_end(s@, start as int) is Some,
    ensures
        (crate::text::strings_view(r.0@), r.1 as int) == type_id_list(s@, start as int),
        start < r.1 <= s@.len(),
{
    let mut parts: Vec<String> = Vec::new();
    let mut p = start;
    proof {
        reveal_strlit(".");
        assert(crate::text::strings_view(parts@) + type_id_list(s@, p as int).0 =~= type_id_list(s@, p as int).0);
    }
    loop
        invariant
            start <= p <= s@.len(),
            type_identifier_end(s@, p as int) is Some,
            type_id_list(s@, start as int) == (crate::text::strings_view(parts@) + type_id_list(s@, p as int).0, type_id_list(s@, p as int).1),
        decreases s.len() - p,
    {
        proof {
            reveal_strlit(".");
        }
        let t = match type_identifier(s, p) {
            Some(t) => t,
            None => {
                return (parts, p);
            },
        };
        let text = slice(s, p, t);
        let ghost before = parts@;
        parts.push(text);
        assert(crate::text::strings_view(parts@) =~= crate::text::strings_view(before).push(s@.subrange(p as int, t as int)));
        if t < s.len() && s[t] == '.' && type_identifier(s, t + 1).is_some() {
            assert(has_at(s@, t as int, "."@)) by {
                assert(s@.subrange(t as int, t + 1) =~= "."@);
            }
            let ghost rest = type_id_list(s@, t + 1);
            assert(type_id_list(s@, p as int) == (seq![s@.subrange(p as int, t as int)] + rest.0, rest.1));
            assert(crate::text::strings_view(before) + type_id_list(s@, p as int).0 =~= crate::text::strings_view(parts@) + rest.0);
            p = t + 1;
        } else {
            proof {
                if t < s@.len() && s@[t as int] == '.' {
                    assert(type_identifier_end(s@, t + 1) is None);
                } else if has_at(s@, t as int, "."@) {
                    assert(s@.subrange(t as int, t + 1)[0] == '.');
                }
            }
            assert(type_id_list(s@, p as int) == (seq![s@.subrange(p as int, t as int)], t as int));
            assert(crate::text::strings_view(before) + seq![s@.subrange(p as int, t as int)] =~= crate::text::strings_view(parts@));
            return (parts, t);
        }
    }
}

/// A named type at `pos`, if one starts there.
pub fn custom(s: &Vec<char>, pos: usize) -> (r: Option<(RpName, usize)>)
    requires
        pos <= s@.len(),
    ensures
        match r {
            Some((n, e)) => custom_spec(s@, pos as int) == Some((name_view(n), e as int)) && pos < e <= s@.len(),
            None => custom_spec(s@, pos as int) is None,
        },
{
    proof {
        reveal_strlit("::");
    }
    let n = s.len();
    let (prefix, start) = match identifier(s, pos) {
        Some(i) => if i < n && lit_at(s, i, "::") {
            (Some(slice(s, pos, i)), i + 2)
        } else {
            (None, pos)
        },
        None => (None, pos),
    };
    if type_identifier(s, start).is_some() {
        let (parts, end) = type_ids(s, start);
        let name = RpName { prefix, parts };
        assert(name_view(name).prefix == custom_spec(s@, pos as int).unwrap().0.prefix);
        Some((name, end))
    } else {
        None
    }
}

/// A type at `pos`, if one starts there, with where it ends.
pub fn type_spec(s: &Vec<char>, pos: usize) -> (r: Option<(Result<RpType, ParseError>, usize)>)
    requires
        pos <= s@.len(),
    ensures
        type_parse_view(r) == type_spec_spec(s@, pos as int),
        r matches Some((_, e)) ==> pos < e <= s@.len(),
    decreases s@.len() - pos,
{
    proof {
        reveal_strlit("float");
        reveal_strlit("double");
        reveal_strlit("signed");
        reveal_strlit("unsigned");
        reveal_strlit("boolean");
        reveal_strlit("string");
        reveal_strlit("bytes");
        reveal_strlit("any");
        reveal_strlit("{");
        reveal_strlit("}");
        reveal_strlit("[");
        reveal_strlit("]");
        reveal_strlit(":");
    }
    let n = s.len();
    if pos >= n {
        return None;
    }
    if lit_at(s, pos, "float") {
        Some((Ok(RpType::Float), pos + 5))
    } else if lit_at(s, pos, "double") {
        Some((Ok(RpType::Double), pos + 6))
    } else if lit_at(s, pos, "signed") {
        let (bits, e) = type_bits(s, pos + 6);
        match bits {
            Ok(b) => Some((Ok(RpType::Signed(b)), e)),
            Err(x) => Some((Err(x), e)),
        }
    } else if lit_at(s, pos, "unsigned") {
        let (bits, e) = type_bits(s, pos + 8);
        match bits {
            Ok(b) => Some((Ok(RpType::Unsigned(b)), e)),
            Err(x) => Some((Err(x), e)),
        }
    } else if lit_at(s, pos, "boolean") {
        Some((Ok(RpType::Boolean), pos + 7))
    } else if lit_at(s, pos, "string") {
        Some((Ok(RpType::String), pos + 6))
    } else if lit_at(s, pos, "bytes") {
        Some((Ok(RpType::Bytes), pos + 5))
    } else if lit_at(s, pos, "any") {
        Some((Ok(RpType::Any), pos + 3))
    } else if lit_at(s, pos, "{") {
        let p1 = skip(s, pos + 1);
        let (key, k_end) = match type_spec(s, p1) {
            None => {
                return None;
            },
            Some(x) => x,
        };
        let p2 = skip(s, k_end);
        if !lit_at(s, p2, ":") {
            return None;
        }
        let p3 = skip(s, p2 + 1);
        let (value, v_end) = match type_spec(s, p3) {
            None => {
                return None;
            },
            Some(x) => x,
        };
        let p4 = skip(s, v_end);
        if !lit_at(s, p4, "}") {
            return None;
        }
        match key {
            Err(x) => Some((Err(x), p4 + 1)),
            Ok(k) => match value {
                Err(x) => Some((Err(x), p4 + 1)),
                Ok(v) => Some((Ok(RpType::Mapping(Box::new(k), Box::new(v))), p4 + 1)),
            },
        }
    } else if lit_at(s, pos, "[") {
        let p1 = skip(s, pos + 1);
        let (inner, i_end) = match type_spec(s, p1) {
            None => {
                return None;
            },
            Some(x) => x,
        };
        let p2 = skip(s, i_end);
        if !lit_at(s, p2, "]") {
            return None;
        }
        match inner {
            Err(x) => Some((Err(x), p2 + 1)),
            Ok(t) => Some((Ok(RpType::Array(Box::new(t))), p2 + 1)),
        }
    } else {
        match custom(s, pos) {
            Some((name, e)) => Some((Ok(RpType::Name(name)), e)),
            None => None,
        }
    }
}

} // verus!
