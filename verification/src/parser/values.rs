//! The grammar of values: instances, constants, arrays, booleans,
//! identifiers, strings and numbers.

use vstd::prelude::*;
use crate::ast::{AstLoc, RpValue, RpValueView, Instance, InstanceView, FieldInit, FieldInitView, Pos, value_view, instance_view, field_init_view, pos_view, values_view};
use crate::parser::escapes::{decode_escaped, decode_escaped_string};
use crate::parser::lexical::{has_at, lit_at, skip, skip_end, identifier, identifier_end, slice};
use crate::parser::type_spec::{ParseError, custom, custom_spec, int_end, digits_end, is_digit, lemma_digits_end};

verus! {

/// The end of an escape sequence at `p` (a backslash and `"`, `\`, `/`,
/// `n`, `r`, `t`, or `u` with four lower-case hex digits).
pub open spec fn escape_end(s: Seq<char>, p: int) -> Option<int> {
    if 0 <= p && p + 1 < s.len() && s[p] == '\\' {
        let c = s[p + 1];
        if c == '"' || c == '\\' || c == '/' || c == 'n' || c == 'r' || c == 't' {
            Some(p + 2)
        } else if c == 'u' && p + 5 < s.len() && is_lower_hex(s[p + 2]) && is_lower_hex(s[p + 3]) && is_lower_hex(s[p + 4]) && is_lower_hex(s[p + 5]) {
            Some(p + 6)
        } else {
            None
        }
    } else {
        None
    }
}

/// A digit or a lower-case letter from `a` to `f`.
pub open spec fn is_lower_hex(c: char) -> bool {
    ('0' <= c && c <= '9') || ('a' <= c && c <= 'f')
}

/// The end of the body of a string from `p`: escapes and characters other
/// than quotes and backslashes.
pub open spec fn string_body_end(s: Seq<char>, p: int) -> int
    decreases s.len() - p,
{
    if p < 0 || p >= s.len() {
        p
    } else {
        match escape_end(s, p) {
            Some(e) => string_body_end(s, e),
            None => if s[p] != '"' && s[p] != '\\' {
                string_body_end(s, p + 1)
            } else {
                p
            },
        }
    }
}

/// The end of a quoted string at `pos`.
pub open spec fn string_end(s: Seq<char>, pos: int) -> Option<int> {
    if has_at(s, pos, "\""@) {
        let b = string_body_end(s, pos + 1);
        if has_at(s, b, "\""@) {
            Some(b + 1)
        } else {
            None
        }
    } else {
        None
    }
}

/// The end of a number at `pos`: an optional minus, an integer, an optional
/// fraction (a dot and digits) and an optional exponent (`e` and an integer).
pub open spec fn number_end(s: Seq<char>, pos: int) -> Option<int> {
    let q = if has_at(s, pos, "-"@) { pos + 1 } else { pos };
    match int_end(s, q) {
        None => None,
        Some(i) => {
            let d = if has_at(s, i, "."@) && i + 1 < s.len() && is_digit(s[i + 1]) {
                digits_end(s, i + 1)
            } else {
                i
            };
            match if has_at(s, d, "e"@) { int_end(s, d + 1) } else { None } {
                Some(x) => Some(x),
                None => Some(d),
            }
        },
    }
}

/// A value at `pos` and where it ends; the value is an error if a string in
/// it does not decode. The alternatives are tried in order: an instance (a
/// named type and field initializers in parentheses), a constant (a named
/// type), an array of values in brackets, `true` or `false`, an identifier,
/// a string, a number.
pub open spec fn value_spec(s: Seq<char>, pos: int) -> Option<(Result<RpValueView, ParseError>, int)>
    decreases s.len() - pos, 1int,
{
    if pos < 0 || pos > s.len() {
        None
    } else {
        match instance_spec(s, pos) {
            Some((r, e)) => Some(
                (
                    match r {
                        Ok(i) => Ok(RpValueView::Instance(i, (pos, e))),
                        Err(x) => Err(x),
                    },
                    e,
                ),
            ),
            None => match custom_spec(s, pos) {
                Some((name, e)) => Some((Ok(RpValueView::Constant(name, (pos, e))), e)),
                None => if has_at(s, pos, "["@) {
                    let p1 = skip_end(s, pos + 1);
                    if pos < p1 <= s.len() {
                        let (items, p2) = match value_list_spec(s, p1) {
                            Some((r, e)) => (r, skip_end(s, e)),
                            None => (Ok(Seq::empty()), p1),
                        };
                        if has_at(s, p2, "]"@) {
                            Some(
                                (
                                    match items {
                                        Ok(vs) => Ok(RpValueView::Array(vs)),
                                        Err(x) => Err(x),
                                    },
                                    p2 + 1,
                                ),
                            )
                        } else {
                            None
                        }
                    } else {
                        None
                    }
                } else if has_at(s, pos, "true"@) {
                    Some((Ok(RpValueView::Boolean(true)), pos + 4))
                } else if has_at(s, pos, "false"@) {
                    Some((Ok(RpValueView::Boolean(false)), pos + 5))
                } else {
                    match identifier_end(s, pos) {
                        Some(e) => Some((Ok(RpValueView::Identifier(s.subrange(pos, e))), e)),
                        None => match string_end(s, pos) {
                            Some(e) => Some(
                                (
                                    match decode_escaped(s.subrange(pos, e)) {
                                        Ok(t) => Ok(RpValueView::String(t)),
                                        Err(x) => Err(ParseError::Escape(x)),
                                    },
                                    e,
                                ),
                            ),
                            None => match number_end(s, pos) {
                                Some(e) => Some((Ok(RpValueView::Number(s.subrange(pos, e))), e)),
                                None => None,
                            },
                        },
                    }
                },
            },
        }
    }
}

/// An instance at `pos`: a named type, then field initializers separated
/// by commas, in parentheses.
pub open spec fn instance_spec(s: Seq<char>, pos: int) -> Option<(Result<InstanceView, ParseError>, int)>
    decreases s.len() - pos, 0int,
{
    match custom_spec(s, pos) {
        None => None,
        Some((name, c_end)) => {
            let p = skip_end(s, c_end);
            if pos < p <= s.len() && has_at(s, p, "("@) {
                let q = skip_end(s, p + 1);
                if pos < q <= s.len() {
                    let (args, q2) = match field_init_list_spec(s, q) {
                        Some((r, e)) => (r, skip_end(s, e)),
                        None => (Ok(Seq::empty()), q),
                    };
                    if has_at(s, q2, ")"@) {
                        Some(
                            (
                                match args {
                                    Ok(fs) => Ok(InstanceView { ty: name, arguments: fs, arguments_pos: (p, q2 + 1) }),
                                    Err(x) => Err(x),
                                },
                                q2 + 1,
                            ),
                        )
                    } else {
                        None
                    }
                } else {
                    None
                }
            } else {
                None
            }
        },
    }
}

/// A field initializer at `pos`: a name, a colon and a value.
pub open spec fn field_init_spec(s: Seq<char>, pos: int) -> Option<(Result<FieldInitView, ParseError>, int)>
    decreases s.len() - pos, 0int,
{
    match identifier_end(s, pos) {
        None => None,
        Some(n_end) => {
            let q = skip_end(s, n_end);
            if pos < q <= s.len() && has_at(s, q, ":"@) {
                let r = skip_end(s, q + 1);
                if pos < r <= s.len() {
                    match value_spec(s, r) {
                        None => None,
                        Some((v, v_end)) => Some(
                            (
                                match v {
                                    Ok(vv) => Ok(
                                        FieldInitView {
                                            name: s.subrange(pos, n_end),
                                            name_pos: (pos, n_end),
                                            value: vv,
                                            value_pos: (r, v_end),
                                        },
                                    ),
                                    Err(x) => Err(x),
                                },
                                v_end,
                            ),
                        ),
                    }
                } else {
                    None
                }
            } else {
                None
            }
        },
    }
}

/// Values separated by commas at `pos`, each with its position, and the end
/// of the last one. An error of a later value is the one reported.
pub open spec fn value_list_spec(s: Seq<char>, pos: int) -> Option<(Result<Seq<(RpValueView, Pos)>, ParseError>, int)>
    decreases s.len() - pos, 2int,
{
    match value_spec(s, pos) {
        None => None,
        Some((h, h_end)) => {
            let single = match h {
                Ok(v) => Ok(seq![(v, (pos, h_end))]),
                Err(x) => Err(x),
            };
            let q = skip_end(s, h_end);
            if pos < h_end && h_end <= q <= s.len() && has_at(s, q, ","@) {
                let r = skip_end(s, q + 1);
                if pos < r <= s.len() {
                    match value_list_spec(s, r) {
                        Some((t, t_end)) => Some(
                            (
                                match t {
                                    Err(x) => Err(x),
                                    Ok(tail) => match h {
                                        Err(x) => Err(x),
                                        Ok(v) => Ok(seq![(v, (pos, h_end))] + tail),
                                    },
                                },
                                t_end,
                            ),
                        ),
                        None => Some((single, h_end)),
                    }
                } else {
                    Some((single, h_end))
                }
            } else {
                Some((single, h_end))
            }
        },
    }
}

/// Field initializers separated by commas at `pos`, each with its position,
/// and the end of the last one. An error of a later one is the one reported.
pub open spec fn field_init_list_spec(s: Seq<char>, pos: int) -> Option<(Result<Seq<(FieldInitView, Pos)>, ParseError>, int)>
    decreases s.len() - pos, 1int,
{
    match field_init_spec(s, pos) {
        None => None,
        Some((h, h_end)) => {
            let single = match h {
                Ok(f) => Ok(seq![(f, (pos, h_end))]),
                Err(x) => Err(x),
            };
            let q = skip_end(s, h_end);
            if pos < h_end && h_end <= q <= s.len() && has_at(s, q, ","@) {
                let r = skip_end(s, q + 1);
                if pos < r <= s.len() {
                    match field_init_list_spec(s, r) {
                        Some((t, t_end)) => Some(
                            (
                                match t {
                                    Err(x) => Err(x),
                                    Ok(tail) => match h {
                                        Err(x) => Err(x),
                                        Ok(f) => Ok(seq![(f, (pos, h_end))] + tail),
                                    },
                                },
                                t_end,
                            ),
                        ),
                        None => Some((single, h_end)),
                    }
                } else {
                    Some((single, h_end))
                }
            } else {
                Some((single, h_end))
            }
        },
    }
}

/// The model of a value result.
pub open spec fn value_result_view(r: Option<(Result<RpValue, ParseError>, usize)>) -> Option<(Result<RpValueView, ParseError>, int)> {
    match r {
        None => None,
        Some((Ok(v), e)) => Some((Ok(value_view(v)), e as int)),
        Some((Err(x), e)) => Some((Err(x), e as int)),
    }
}

/// The model of an instance result.
pub open spec fn instance_result_view(r: Option<(Result<Instance, ParseError>, usize)>) -> Option<(Result<InstanceView, ParseError>, int)> {
    match r {
        None => None,
        Some((Ok(v), e)) => Some((Ok(instance_view(v)), e as int)),
        Some((Err(x), e)) => Some((Err(x), e as int)),
    }
}

/// The model of a field initializer result.
pub open spec fn field_init_result_view(r: Option<(Result<FieldInit, ParseError>, usize)>) -> Option<(Result<FieldInitView, ParseError>, int)> {
    match r {
        None => None,
        Some((Ok(v), e)) => Some((Ok(field_init_view(v)), e as int)),
        Some((Err(x), e)) => Some((Err(x), e as int)),
    }
}

/// The models of located field initializers.
pub open spec fn field_inits_view(v: Seq<AstLoc<FieldInit>>) -> Seq<(FieldInitView, Pos)> {
    v.map_values(|a: AstLoc<FieldInit>| (field_init_view(a.inner), pos_view(a.pos)))
}

/// The model of a value list result.
pub open spec fn value_list_result_view(r: Option<(Result<Vec<AstLoc<RpValue>>, ParseError>, usize)>) -> Option<(Result<Seq<(RpValueView, Pos)>, ParseError>, int)> {
    match r {
        None => None,
        Some((Ok(v), e)) => Some((Ok(values_view(v@)), e as int)),
        Some((Err(x), e)) => Some((Err(x), e as int)),
    }
}

/// The model of a field initializer list result.
pub open spec fn field_init_list_result_view(r: Option<(Result<Vec<AstLoc<FieldInit>>, ParseError>, usize)>) -> Option<(Result<Seq<(FieldInitView, Pos)>, ParseError>, int)> {
    match r {
        None => None,
        Some((Ok(v), e)) => Some((Ok(field_inits_view(v@)), e as int)),
        Some((Err(x), e)) => Some((Err(x), e as int)),
    }
}

/// The end of an escape sequence at `p`, if one starts there.
fn escape_at(s: &Vec<char>, p: usize) -> (r: Option<usize>)
    requires
        p <= s@.len(),
    ensures
        match r {
            Some(e) => escape_end(s@, p as int) == Some(e as int) && p < e <= s@.len(),
            None => escape_end(s@, p as int) is None,
        },
{
    let n = s.len();
    if p < n && p + 1 < n && s[p] == '\\' {
        let c = s[p + 1];
        if c == '"' || c == '\\' || c == '/' || c == 'n' || c == 'r' || c == 't' {
            Some(p + 2)
        } else if c == 'u' && n - p > 5 && lower_hex(s[p + 2]) && lower_hex(s[p + 3]) && lower_hex(s[p + 4]) && lower_hex(s[p + 5]) {
            Some(p + 6)
        } else {
            None
        }
    } else {
        None
    }
}

fn lower_hex(c: char) -> (r: bool)
    ensures
        r == is_lower_hex(c),
{
    ('0' <= c && c <= '9') || ('a' <= c && c <= 'f')
}
/// The end of a quoted string at `pos`, if one starts there.
fn string_at(s: &Vec<char>, pos: usize) -> (r: Option<usize>)
    requires
        pos <= s@.len(),
    ensures
        match r {
            Some(e) => string_end(s@, pos as int) == Some(e as int) && pos < e <= s@.len(),
            None => string_end(s@, pos as int) is None,
        },
{
    proof {
        reveal_strlit("\"");
    }
    let n = s.len();
    if pos < n && lit_at(s, pos, "\"") {
        let mut p = pos + 1;
        loop
            invariant
                pos + 1 <= p <= s@.len(),
                n == s@.len(),
                string_body_end(s@, pos + 1) == string_body_end(s@, p as int),
            ensures
                pos + 1 <= p <= s@.len(),
                string_body_end(s@, pos + 1) == p as int,
            decreases s.len() - p,
        {
            if p >= n {
                break;
            }
            match escape_at(s, p) {
                Some(e) => {
                    p = e;
                },
                None => {
                    if s[p] != '"' && s[p] != '\\' {
                        p += 1;
                    } else {
                        break;
                    }
                },
            }
        }
        proof {
            reveal_strlit("\"");
        }
        if p < n && lit_at(s, p, "\"") {
            Some(p + 1)
        } else {
            None
        }
    } else {
        None
    }
}

/// The end of a number at `pos`, if one starts there.
fn number_at(s: &Vec<char>, pos: usize) -> (r: Option<usize>)
    requires
        pos <= s@.len(),
    ensures
        match r {
            Some(e) => number_end(s@, pos as int) == Some(e as int) && pos < e <= s@.len(),
            None => number_end(s@, pos as int) is None,
        },
{
    proof {
        reveal_strlit("-");
        reveal_strlit(".");
        reveal_strlit("e");
    }
    let n = s.len();
    let q = if pos < n && lit_at(s, pos, "-") { pos + 1 } else { pos };
    let i = match crate::parser::type_spec::int_at(s, q) {
        None => {
            return None;
        },
        Some(i) => i,
    };
    let d = if i < n && lit_at(s, i, ".") && i + 1 < n && '0' <= s[i + 1] && s[i + 1] <= '9' {
        let mut p = i + 1;
        while p < n && '0' <= s[p] && s[p] <= '9'
            invariant
                i + 1 <= p <= s@.len(),
                n == s@.len(),
                digits_end(s@, i + 1) == digits_end(s@, p as int),
            decreases s.len() - p,
        {
            p += 1;
        }
        p
    } else {
        i
    };
    proof {
        if i + 1 <= s@.len() {
            lemma_digits_end(s@, i + 1);
        }
    }
    if d < n && lit_at(s, d, "e") {
        match crate::parser::type_spec::int_at(s, d + 1) {
            Some(x) => Some(x),
            None => Some(d),
        }
    } else {
        Some(d)
    }
}

/// A value at `pos`, if one starts there, with where it ends.
pub fn value(s: &Vec<char>, pos: usize) -> (r: Option<(Result<RpValue, ParseError>, usize)>)
    requires
        pos <= s@.len(),
    ensures
        value_result_view(r) == value_spec(s@, pos as int),
        r matches Some((_, e)) ==> pos < e <= s@.len(),
    decreases s@.len() - pos, 1int,
{
    proof {
        reveal_strlit("[");
        reveal_strlit("]");
        reveal_strlit("true");
        reveal_strlit("false");
    }
    let n = s.len();
    match instance(s, pos) {
        Some((r, e)) => {
            return Some(
                (
                    match r {
                        Ok(i) => Ok(RpValue::Instance(AstLoc { inner: i, pos: (pos, e) })),
                        Err(x) => Err(x),
                    },
                    e,
                ),
            );
        },
        None => {},
    }
    match custom(s, pos) {
        Some((name, e)) => {
            return Some((Ok(RpValue::Constant(AstLoc { inner: name, pos: (pos, e) })), e));
        },
        None => {},
    }
    if pos < n && lit_at(s, pos, "[") {
        let p1 = skip(s, pos + 1);
        let (items, p2) = match value_list(s, p1) {
            Some((r, e)) => (r, skip(s, e)),
            None => {
                let empty: Vec<AstLoc<RpValue>> = Vec::new();
                assert(values_view(empty@) =~= Seq::<(RpValueView, Pos)>::empty());
                (Ok(empty), p1)
            },
        };
        if p2 < n && lit_at(s, p2, "]") {
            let ghost iv = items;
            proof {
                if let Ok(vs) = iv {
                    assert(value_view(RpValue::Array(vs)) == RpValueView::Array(values_view(vs@))) by {
                        assert(values_view(vs@) =~= match value_view(RpValue::Array(vs)) {
                            RpValueView::Array(x) => x,
                            _ => Seq::empty(),
                        });
                    }
                }
            }
            return match items {
                Ok(vs) => Some((Ok(RpValue::Array(vs)), p2 + 1)),
                Err(x) => Some((Err(x), p2 + 1)),
            };
        } else {
            return None;
        }
    }
    if pos < n && lit_at(s, pos, "true") {
        return Some((Ok(RpValue::Boolean(true)), pos + 4));
    }
    if pos < n && lit_at(s, pos, "false") {
        return Some((Ok(RpValue::Boolean(false)), pos + 5));
    }
    match identifier(s, pos) {
        Some(e) => {
            return Some((Ok(RpValue::Identifier(slice(s, pos, e))), e));
        },
        None => {},
    }
    match string_at(s, pos) {
        Some(e) => {
            let text = slice(s, pos, e);
            return match decode_escaped_string(text.as_str()) {
                Ok(t) => Some((Ok(RpValue::String(t)), e)),
                Err(x) => Some((Err(ParseError::Escape(x)), e)),
            };
        },
        None => {},
    }
    match number_at(s, pos) {
        Some(e) => Some((Ok(RpValue::Number(slice(s, pos, e))), e)),
        None => None,
    }
}

/// An instance at `pos`, if one starts there, with where it ends.
pub fn instance(s: &Vec<char>, pos: usize) -> (r: Option<(Result<Instance, ParseError>, usize)>)
    requires
        pos <= s@.len(),
    ensures
        instance_result_view(r) == instance_spec(s@, pos as int),
        r matches Some((_, e)) ==> pos < e <= s@.len(),
    decreases s@.len() - pos, 0int,
{
    proof {
        reveal_strlit("(");
        reveal_strlit(")");
    }
    let n = s.len();
    let (name, c_end) = match custom(s, pos) {
        None => {
            return None;
        },
        Some(x) => x,
    };
    let p = skip(s, c_end);
    if !(p < n && lit_at(s, p, "(")) {
        return None;
    }
    let q = skip(s, p + 1);
    let (args, q2) = match field_init_list(s, q) {
        Some((r, e)) => (r, skip(s, e)),
        None => {
            let empty: Vec<AstLoc<FieldInit>> = Vec::new();
            assert(field_inits_view(empty@) =~= Seq::<(FieldInitView, Pos)>::empty());
            (Ok(empty), q)
        },
    };
    if q2 < n && lit_at(s, q2, ")") {
        match args {
            Ok(fs) => {
                let inst = Instance { ty: name, arguments: AstLoc { inner: fs, pos: (p, q2 + 1) } };
                assert(instance_view(inst).arguments =~= field_inits_view(fs@));
                Some((Ok(inst), q2 + 1))
            },
            Err(x) => Some((Err(x), q2 + 1)),
        }
    } else {
        None
    }
}

/// A field initializer at `pos`, if one starts there, with where it ends.
pub fn field_init(s: &Vec<char>, pos: usize) -> (r: Option<(Result<FieldInit, ParseError>, usize)>)
    requires
        pos <= s@.len(),
    ensures
        field_init_result_view(r) == field_init_spec(s@, pos as int),
        r matches Some((_, e)) ==> pos < e <= s@.len(),
    decreases s@.len() - pos, 0int,
{
    proof {
        reveal_strlit(":");
    }
    let n = s.len();
    let n_end = match identifier(s, pos) {
        None => {
            return None;
        },
        Some(e) => e,
    };
    let q = skip(s, n_end);
    if !(q < n && lit_at(s, q, ":")) {
        return None;
    }
    let r = skip(s, q + 1);
    match value(s, r) {
        None => None,
        Some((v, v_end)) => match v {
            Ok(vv) => Some(
                (
                    Ok(
                        FieldInit {
                            name: AstLoc { inner: slice(s, pos, n_end), pos: (pos, n_end) },
                            value: AstLoc { inner: vv, pos: (r, v_end) },
                        },
                    ),
                    v_end,
                ),
            ),
            Err(x) => Some((Err(x), v_end)),
        },
    }
}

/// Values separated by commas at `pos`, if one starts there, with the end
/// of the last one.
pub fn value_list(s: &Vec<char>, pos: usize) -> (r: Option<(Result<Vec<AstLoc<RpValue>>, ParseError>, usize)>)
    requires
        pos <= s@.len(),
    ensures
        value_list_result_view(r) == value_list_spec(s@, pos as int),
        r matches Some((_, e)) ==> pos < e <= s@.len(),
    decreases s@.len() - pos, 2int,
{
    proof {
        reveal_strlit(",");
    }
    let n = s.len();
    let (h, h_end) = match value(s, pos) {
        None => {
            return None;
        },
        Some(x) => x,
    };
    let q = skip(s, h_end);
    let tail = if q < n && lit_at(s, q, ",") {
        let r = skip(s, q + 1);
        value_list(s, r)
    } else {
        None
    };
    match tail {
        Some((t, t_end)) => match t {
            Err(x) => Some((Err(x), t_end)),
            Ok(mut tail) => match h {
                Err(x) => Some((Err(x), t_end)),
                Ok(v) => {
                    let ghost tv = values_view(tail@);
                    let ghost hv = (value_view(v), (pos as int, h_end as int));
                    tail.insert(0, AstLoc { inner: v, pos: (pos, h_end) });
                    assert(values_view(tail@) =~= seq![hv] + tv);
                    Some((Ok(tail), t_end))
                },
            },
        },
        None => match h {
            Err(x) => Some((Err(x), h_end)),
            Ok(v) => {
                let items = vec![AstLoc { inner: v, pos: (pos, h_end) }];
                assert(values_view(items@) =~= seq![(value_view(items@[0].inner), (pos as int, h_end as int))]);
                Some((Ok(items), h_end))
            },
        },
    }
}

/// Field initializers separated by commas at `pos`, if one starts there,
/// with the end of the last one.
pub fn field_init_list(s: &Vec<char>, pos: usize) -> (r: Option<(Result<Vec<AstLoc<FieldInit>>, ParseError>, usize)>)
    requires
        pos <= s@.len(),
    ensures
        field_init_list_result_view(r) == field_init_list_spec(s@, pos as int),
        r matches Some((_, e)) ==> pos < e <= s@.len(),
    decreases s@.len() - pos, 1int,
{
    proof {
        reveal_strlit(",");
    }
    let n = s.len();
    let (h, h_end) = match field_init(s, pos) {
        None => {
            return None;
        },
        Some(x) => x,
    };
    let q = skip(s, h_end);
    let tail = if q < n && lit_at(s, q, ",") {
        let r = skip(s, q + 1);
        field_init_list(s, r)
    } else {
        None
    };
    match tail {
        Some((t, t_end)) => match t {
            Err(x) => Some((Err(x), t_end)),
            Ok(mut tail) => match h {
                Err(x) => Some((Err(x), t_end)),
                Ok(f) => {
                    let ghost tv = field_inits_view(tail@);
                    let ghost hv = (field_init_view(f), (pos as int, h_end as int));
                    tail.insert(0, AstLoc { inner: f, pos: (pos, h_end) });
                    assert(field_inits_view(tail@) =~= seq![hv] + tv);
                    Some((Ok(tail), t_end))
                },
            },
        },
        None => match h {
            Err(x) => Some((Err(x), h_end)),
            Ok(f) => {
                let items = vec![AstLoc { inner: f, pos: (pos, h_end) }];
                assert(field_inits_view(items@) =~= seq![(field_init_view(items@[0].inner), (pos as int, h_end as int))]);
                Some((Ok(items), h_end))
            },
        },
    }
}

} // verus!
