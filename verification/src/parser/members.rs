//! The grammar of the members of a declaration body: options, match
//! declarations, fields and code blocks.

use vstd::prelude::*;
use crate::ast::{AstLoc, RpModifier, RpValue, Pos, Field, FieldView, Member, MemberView, OptionDecl, OptionDeclView, MatchDecl, MatchDeclView, MatchMember, MatchMemberView, MatchCondition, MatchConditionView, MatchVariable, MatchVariableView, field_view, member_view, pos_view, match_member_view};
use crate::parser::code_block::{stripped_lines, strip_code_block};
use crate::parser::lexical::{has_at, lit_at, skip, skip_end, identifier, identifier_end, is_whitespace, slice};
use crate::parser::type_spec::{ParseError, type_spec, type_spec_spec};
use crate::parser::values::{value, value_spec, value_list, value_list_spec};

verus! {

/// The end of the whitespace characters from `p`.
pub open spec fn whitespace_end(s: Seq<char>, p: int) -> int
    decreases s.len() - p,
{
    if p < 0 || p >= s.len() || !is_whitespace(s[p]) {
        p
    } else {
        whitespace_end(s, p + 1)
    }
}

/// The end of the body of a code block from `p`: up to the first `}}`, or
/// to the end of the input.
pub open spec fn code_body_end(s: Seq<char>, p: int) -> int
    decreases s.len() - p,
{
    if p < 0 || p >= s.len() || has_at(s, p, "}}"@) {
        p
    } else {
        code_body_end(s, p + 1)
    }
}

/// A code block at `pos`: a context identifier, whitespace, `{{`, the code,
/// `}}`, with nothing skipped in between. Its context, its code, and its end.
pub open spec fn code_block_spec(s: Seq<char>, pos: int) -> Option<(Seq<char>, Seq<char>, int)> {
    match identifier_end(s, pos) {
        None => None,
        Some(i) => {
            let w = whitespace_end(s, i);
            if has_at(s, w, "{{"@) {
                let b = code_body_end(s, w + 2);
                if has_at(s, b, "}}"@) {
                    Some((s.subrange(pos, i), s.subrange(w + 2, b), b + 2))
                } else {
                    None
                }
            } else {
                None
            }
        },
    }
}

/// One character of free-standing code at `p`, not starting `}}`, taken
/// after the whitespace and comments there.
pub open spec fn code_char_end(s: Seq<char>, p: int) -> Option<int> {
    if has_at(s, p, "}}"@) {
        None
    } else {
        let y = skip_end(s, p);
        if 0 <= y < s.len() {
            Some(y + 1)
        } else {
            None
        }
    }
}

/// The end of more characters of free-standing code after `e`.
pub open spec fn code_chars_end(s: Seq<char>, e: int) -> int
    decreases s.len() - e,
{
    let q = skip_end(s, e);
    match code_char_end(s, q) {
        Some(e2) => if e < e2 <= s.len() {
            code_chars_end(s, e2)
        } else {
            e
        },
        None => e,
    }
}

/// The end of free-standing code at `pos` (the body of a code block read
/// on its own, where whitespace and comments are skipped between characters).
pub open spec fn code_body_spec(s: Seq<char>, pos: int) -> int {
    match code_char_end(s, pos) {
        Some(e) => code_chars_end(s, e),
        None => pos,
    }
}

/// A field at `pos`: a name, `?` if optional, a colon, a type, an optional
/// `as` and a value, and a semicolon.
pub open spec fn field_spec(s: Seq<char>, pos: int) -> Option<(Result<FieldView, ParseError>, int)> {
    match identifier_end(s, pos) {
        None => None,
        Some(n_end) => {
            let p1 = skip_end(s, n_end);
            let (modifier, p2) = if has_at(s, p1, "?"@) {
                (RpModifier::Optional, skip_end(s, p1 + 1))
            } else {
                (RpModifier::Required, p1)
            };
            if has_at(s, p2, ":"@) {
                let p3 = skip_end(s, p2 + 1);
                match type_spec_spec(s, p3) {
                    None => None,
                    Some((t, t_end)) => {
                        let p4 = skip_end(s, t_end);
                        let (field_as, p6) = if has_at(s, p4, "as"@) {
                            let p5 = skip_end(s, p4 + 2);
                            match value_spec(s, p5) {
                                Some((v, v_end)) => (Some((v, (p5, v_end))), skip_end(s, v_end)),
                                None => (None, p4),
                            }
                        } else {
                            (None, p4)
                        };
                        if has_at(s, p6, ";"@) {
                            Some(
                                (
                                    match t {
                                        Err(x) => Err(x),
                                        Ok(ty) => match field_as {
                                            Some((Err(x), _)) => Err(x),
                                            Some((Ok(v), vp)) => Ok(
                                                FieldView {
                                                    modifier,
                                                    name: s.subrange(pos, n_end),
                                                    ty,
                                                    field_as: Some((v, vp)),
                                                },
                                            ),
                                            None => Ok(
                                                FieldView { modifier, name: s.subrange(pos, n_end), ty, field_as: None },
                                            ),
                                        },
                                    },
                                    p6 + 1,
                                ),
                            )
                        } else {
                            None
                        }
                    },
                }
            } else {
                None
            }
        },
    }
}

/// An option at `pos`: a name, values separated by commas, a semicolon.
pub open spec fn option_decl_spec(s: Seq<char>, pos: int) -> Option<(Result<OptionDeclView, ParseError>, int)> {
    match identifier_end(s, pos) {
        None => None,
        Some(n_end) => {
            let p1 = skip_end(s, n_end);
            match value_list_spec(s, p1) {
                None => None,
                Some((vs, l_end)) => {
                    let p2 = skip_end(s, l_end);
                    if has_at(s, p2, ";"@) {
                        Some(
                            (
                                match vs {
                                    Ok(values) => Ok(OptionDeclView { name: s.subrange(pos, n_end), values }),
                                    Err(x) => Err(x),
                                },
                                p2 + 1,
                            ),
                        )
                    } else {
                        None
                    }
                },
            }
        },
    }
}

/// A match condition at `pos`: a variable with its type, or a value.
pub open spec fn match_condition_spec(s: Seq<char>, pos: int) -> Option<(Result<MatchConditionView, ParseError>, int)> {
    let variable = match identifier_end(s, pos) {
        None => None,
        Some(n_end) => {
            let p1 = skip_end(s, n_end);
            if has_at(s, p1, ":"@) {
                let p2 = skip_end(s, p1 + 1);
                match type_spec_spec(s, p2) {
                    None => None,
                    Some((t, t_end)) => Some(
                        (
                            match t {
                                Ok(ty) => Ok(
                                    MatchConditionView::Type(
                                        MatchVariableView { name: s.subrange(pos, n_end), ty },
                                        (pos, t_end),
                                    ),
                                ),
                                Err(x) => Err(x),
                            },
                            t_end,
                        ),
                    ),
                }
            } else {
                None
            }
        },
    };
    match variable {
        Some(v) => Some(v),
        None => match value_spec(s, pos) {
            Some((v, e)) => Some(
                (
                    match v {
                        Ok(vv) => Ok(MatchConditionView::RpValue(vv, (pos, e))),
                        Err(x) => Err(x),
                    },
                    e,
                ),
            ),
            None => None,
        },
    }
}

/// A match member at `pos`: a condition, `=>`, a value, a semicolon.
pub open spec fn match_member_spec(s: Seq<char>, pos: int) -> Option<(Result<MatchMemberView, ParseError>, int)> {
    match match_condition_spec(s, pos) {
        None => None,
        Some((c, c_end)) => {
            let p1 = skip_end(s, c_end);
            if has_at(s, p1, "=>"@) {
                let p2 = skip_end(s, p1 + 2);
                match value_spec(s, p2) {
                    None => None,
                    Some((v, v_end)) => {
                        let p3 = skip_end(s, v_end);
                        if has_at(s, p3, ";"@) {
                            Some(
                                (
                                    match c {
                                        Err(x) => Err(x),
                                        Ok(cv) => match v {
                                            Err(x) => Err(x),
                                            Ok(vv) => Ok(
                                                MatchMemberView {
                                                    condition: cv,
                                                    condition_pos: (pos, c_end),
                                                    value: vv,
                                                    value_pos: (p2, v_end),
                                                },
                                            ),
                                        },
                                    },
                                    p3 + 1,
                                ),
                            )
                        } else {
                            None
                        }
                    },
                }
            } else {
                None
            }
        },
    }
}

/// The match members from `pos`, each with its position, and the end of
/// the last one (`pos` if there is none). An error of a later member is the
/// one reported.
pub open spec fn match_members_spec(s: Seq<char>, pos: int) -> (Result<Seq<(MatchMemberView, Pos)>, ParseError>, int)
    decreases s.len() - pos,
{
    match match_member_spec(s, pos) {
        None => (Ok(Seq::empty()), pos),
        Some((m, e)) => {
            let q = skip_end(s, e);
            if pos < e && e <= q <= s.len() && match_member_spec(s, q) is Some {
                let (t, t_end) = match_members_spec(s, q);
                (
                    match t {
                        Err(x) => Err(x),
                        Ok(tail) => match m {
                            Err(x) => Err(x),
                            Ok(mv) => Ok(seq![(mv, (pos, e))] + tail),
                        },
                    },
                    t_end,
                )
            } else {
                (
                    match m {
                        Err(x) => Err(x),
                        Ok(mv) => Ok(seq![(mv, (pos, e))]),
                    },
                    e,
                )
            }
        },
    }
}

/// A match declaration at `pos`: `match`, and match members in braces.
pub open spec fn match_decl_spec(s: Seq<char>, pos: int) -> Option<(Result<MatchDeclView, ParseError>, int)> {
    if has_at(s, pos, "match"@) {
        let p1 = skip_end(s, pos + 5);
        if has_at(s, p1, "{"@) {
            let p2 = skip_end(s, p1 + 1);
            let (ms, m_end) = match_members_spec(s, p2);
            let p3 = skip_end(s, m_end);
            if has_at(s, p3, "}"@) {
                Some(
                    (
                        match ms {
                            Ok(members) => Ok(MatchDeclView { members }),
                            Err(x) => Err(x),
                        },
                        p3 + 1,
                    ),
                )
            } else {
                None
            }
        } else {
            None
        }
    } else {
        None
    }
}

/// A member at `pos`; the alternatives are tried in order: an option, a
/// match declaration, a field, a code block (whose lines lose their common
/// indentation).
pub open spec fn member_spec(s: Seq<char>, pos: int) -> Option<(Result<MemberView, ParseError>, int)> {
    match option_decl_spec(s, pos) {
        Some((o, e)) => Some(
            (
                match o {
                    Ok(ov) => Ok(MemberView::Option(ov, (pos, e))),
                    Err(x) => Err(x),
                },
                e,
            ),
        ),
        None => match match_decl_spec(s, pos) {
            Some((d, e)) => Some(
                (
                    match d {
                        Ok(dv) => Ok(MemberView::Match(dv)),
                        Err(x) => Err(x),
                    },
                    e,
                ),
            ),
            None => match field_spec(s, pos) {
                Some((f, e)) => Some(
                    (
                        match f {
                            Ok(fv) => Ok(MemberView::Field(fv)),
                            Err(x) => Err(x),
                        },
                        e,
                    ),
                ),
                None => match code_block_spec(s, pos) {
                    Some((context, content, e)) => Some((Ok(MemberView::Code(context, stripped_lines(content))), e)),
                    None => None,
                },
            },
        },
    }
}

/// The model of a parse result whose value has a model.
pub open spec fn field_result_view(r: Option<(Result<Field, ParseError>, usize)>) -> Option<(Result<FieldView, ParseError>, int)> {
    match r {
        None => None,
        Some((Ok(v), e)) => Some((Ok(field_view(v)), e as int)),
        Some((Err(x), e)) => Some((Err(x), e as int)),
    }
}

pub open spec fn option_result_view(r: Option<(Result<OptionDecl, ParseError>, usize)>) -> Option<(Result<OptionDeclView, ParseError>, int)> {
    match r {
        None => None,
        Some((Ok(v), e)) => Some((Ok(crate::ast::option_decl_view(v)), e as int)),
        Some((Err(x), e)) => Some((Err(x), e as int)),
    }
}

pub open spec fn condition_result_view(r: Option<(Result<MatchCondition, ParseError>, usize)>) -> Option<(Result<MatchConditionView, ParseError>, int)> {
    match r {
        None => None,
        Some((Ok(v), e)) => Some((Ok(crate::ast::match_condition_view(v)), e as int)),
        Some((Err(x), e)) => Some((Err(x), e as int)),
    }
}

pub open spec fn match_member_result_view(r: Option<(Result<MatchMember, ParseError>, usize)>) -> Option<(Result<MatchMemberView, ParseError>, int)> {
    match r {
        None => None,
        Some((Ok(v), e)) => Some((Ok(match_member_view(v)), e as int)),
        Some((Err(x), e)) => Some((Err(x), e as int)),
    }
}

/// The models of located match members.
pub open spec fn match_members_view(v: Seq<AstLoc<MatchMember>>) -> Seq<(MatchMemberView, Pos)> {
    v.map_values(|m: AstLoc<MatchMember>| (match_member_view(m.inner), pos_view(m.pos)))
}

pub open spec fn match_decl_result_view(r: Option<(Result<MatchDecl, ParseError>, usize)>) -> Option<(Result<MatchDeclView, ParseError>, int)> {
    match r {
        None => None,
        Some((Ok(v), e)) => Some((Ok(crate::ast::match_decl_view(v)), e as int)),
        Some((Err(x), e)) => Some((Err(x), e as int)),
    }
}

pub open spec fn member_result_view(r: Option<(Result<Member, ParseError>, usize)>) -> Option<(Result<MemberView, ParseError>, int)> {
    match r {
        None => None,
        Some((Ok(v), e)) => Some((Ok(member_view(v)), e as int)),
        Some((Err(x), e)) => Some((Err(x), e as int)),
    }
}

/// A code block at `pos`, if one starts there: its context, its code and
/// its end.
pub fn code_block(s: &Vec<char>, pos: usize) -> (r: Option<(String, String, usize)>)
    requires
        pos <= s@.len(),
    ensures
        match r {
            Some((c, b, e)) => code_block_spec(s@, pos as int) == Some((c@, b@, e as int)) && pos < e <= s@.len(),
            None => code_block_spec(s@, pos as int) is None,
        },
{
    proof {
        reveal_strlit("{{");
        reveal_strlit("}}");
    }
    let n = s.len();
    let i = match identifier(s, pos) {
        None => {
            return None;
        },
        Some(i) => i,
    };
    let mut w = i;
    while w < n && (s[w] == ' ' || s[w] == '\t' || s[w] == '\r' || s[w] == '\n')
        invariant
            i <= w <= s@.len(),
            n == s@.len(),
            whitespace_end(s@, i as int) == whitespace_end(s@, w as int),
        decreases s.len() - w,
    {
        w += 1;
    }
    if !(w < n && lit_at(s, w, "{{")) {
        return None;
    }
    let mut b = w + 2;
    while b < n && !lit_at(s, b, "}}")
        invariant
            w + 2 <= b <= s@.len(),
            n == s@.len(),
            code_body_end(s@, w + 2) == code_body_end(s@, b as int),
        decreases s.len() - b,
    {
        b += 1;
    }
    if b < n && lit_at(s, b, "}}") {
        Some((slice(s, pos, i), slice(s, w + 2, b), b + 2))
    } else {
        None
    }
}

/// One character of free-standing code at `p`.
fn code_char(s: &Vec<char>, p: usize) -> (r: Option<usize>)
    requires
        p <= s@.len(),
    ensures
        match r {
            Some(e) => code_char_end(s@, p as int) == Some(e as int) && p < e <= s@.len(),
            None => code_char_end(s@, p as int) is None,
        },
{
    proof {
        reveal_strlit("}}");
    }
    let n = s.len();
    if p < n && lit_at(s, p, "}}") {
        None
    } else {
        let y = skip(s, p);
        if y < n {
            Some(y + 1)
        } else {
            None
        }
    }
}

/// The end of free-standing code at `pos`: the body of a code block read on
/// its own.
pub fn code_body(s: &Vec<char>, pos: usize) -> (r: usize)
    requires
        pos <= s@.len(),
    ensures
        r == code_body_spec(s@, pos as int),
        pos <= r <= s@.len(),
{
    let mut e = match code_char(s, pos) {
        None => {
            return pos;
        },
        Some(e) => e,
    };
    loop
        invariant
            pos < e <= s@.len(),
            code_body_spec(s@, pos as int) == code_chars_end(s@, e as int),
        decreases s.len() - e,
    {
        let q = skip(s, e);
        match code_char(s, q) {
            Some(e2) => {
                e = e2;
            },
            None => {
                return e;
            },
        }
    }
}

/// A field at `pos`, if one starts there, with where it ends.
pub fn field(s: &Vec<char>, pos: usize) -> (r: Option<(Result<Field, ParseError>, usize)>)
    requires
        pos <= s@.len(),
    ensures
        field_result_view(r) == field_spec(s@, pos as int),
        r matches Some((_, e)) ==> pos < e <= s@.len(),
{
    proof {
        reveal_strlit("?");
        reveal_strlit(":");
        reveal_strlit("as");
        reveal_strlit(";");
    }
    let n = s.len();
    let n_end = match identifier(s, pos) {
        None => {
            return None;
        },
        Some(e) => e,
    };
    let p1 = skip(s, n_end);
    let (modifier, p2) = if p1 < n && lit_at(s, p1, "?") {
        (RpModifier::Optional, skip(s, p1 + 1))
    } else {
        (RpModifier::Required, p1)
    };
    if !(p2 < n && lit_at(s, p2, ":")) {
        return None;
    }
    let p3 = skip(s, p2 + 1);
    let (t, t_end) = match type_spec(s, p3) {
        None => {
            return None;
        },
        Some(x) => x,
    };
    let p4 = skip(s, t_end);
    let (field_as, p6) = if p4 < n && lit_at(s, p4, "as") {
        let p5 = skip(s, p4 + 2);
        match value(s, p5) {
            Some((v, v_end)) => (Some((v, (p5, v_end))), skip(s, v_end)),
            None => (None, p4),
        }
    } else {
        (None, p4)
    };
    if !(p6 < n && lit_at(s, p6, ";")) {
        return None;
    }
    let name = slice(s, pos, n_end);
    match t {
        Err(x) => Some((Err(x), p6 + 1)),
        Ok(ty) => match field_as {
            Some((Err(x), _)) => Some((Err(x), p6 + 1)),
            Some((Ok(v), vp)) => Some(
                (Ok(Field { modifier, name, ty, field_as: Some(AstLoc { inner: v, pos: vp }) }), p6 + 1),
            ),
            None => Some((Ok(Field { modifier, name, ty, field_as: None }), p6 + 1)),
        },
    }
}

/// An option at `pos`, if one starts there, with where it ends.
pub fn option_decl(s: &Vec<char>, pos: usize) -> (r: Option<(Result<OptionDecl, ParseError>, usize)>)
    requires
        pos <= s@.len(),
    ensures
        option_result_view(r) == option_decl_spec(s@, pos as int),
        r matches Some((_, e)) ==> pos < e <= s@.len(),
{
    proof {
        reveal_strlit(";");
    }
    let n = s.len();
    let n_end = match identifier(s, pos) {
        None => {
            return None;
        },
        Some(e) => e,
    };
    let p1 = skip(s, n_end);
    let (vs, l_end) = match value_list(s, p1) {
        None => {
            return None;
        },
        Some(x) => x,
    };
    let p2 = skip(s, l_end);
    if !(p2 < n && lit_at(s, p2, ";")) {
        return None;
    }
    match vs {
        Ok(values) => Some((Ok(OptionDecl { name: slice(s, pos, n_end), values }), p2 + 1)),
        Err(x) => Some((Err(x), p2 + 1)),
    }
}

/// A match condition at `pos`, if one starts there, with where it ends.
fn match_condition(s: &Vec<char>, pos: usize) -> (r: Option<(Result<MatchCondition, ParseError>, usize)>)
    requires
        pos <= s@.len(),
    ensures
        condition_result_view(r) == match_condition_spec(s@, pos as int),
        r matches Some((_, e)) ==> pos < e <= s@.len(),
{
    proof {
        reveal_strlit(":");
    }
    let n = s.len();
    match identifier(s, pos) {
        Some(n_end) => {
            let p1 = skip(s, n_end);
            if p1 < n && lit_at(s, p1, ":") {
                let p2 = skip(s, p1 + 1);
                match type_spec(s, p2) {
                    Some((t, t_end)) => {
                        return match t {
                            Ok(ty) => Some(
                                (
                                    Ok(
                                        MatchCondition::Type(
                                            AstLoc {
                                                inner: MatchVariable { name: slice(s, pos, n_end), ty },
                                                pos: (pos, t_end),
                                            },
                                        ),
                                    ),
                                    t_end,
                                ),
                            ),
                            Err(x) => Some((Err(x), t_end)),
                        };
                    },
                    None => {},
                }
            }
        },
        None => {},
    }
    match value(s, pos) {
        Some((v, e)) => match v {
            Ok(vv) => Some((Ok(MatchCondition::RpValue(AstLoc { inner: vv, pos: (pos, e) })), e)),
            Err(x) => Some((Err(x), e)),
        },
        None => None,
    }
}

/// A match member at `pos`, if one starts there, with where it ends.
fn match_member(s: &Vec<char>, pos: usize) -> (r: Option<(Result<MatchMember, ParseError>, usize)>)
    requires
        pos <= s@.len(),
    ensures
        match_member_result_view(r) == match_member_spec(s@, pos as int),
        r matches Some((_, e)) ==> pos < e <= s@.len(),
{
    proof {
        reveal_strlit("=>");
        reveal_strlit(";");
    }
    let n = s.len();
    let (c, c_end) = match match_condition(s, pos) {
        None => {
            return None;
        },
        Some(x) => x,
    };
    let p1 = skip(s, c_end);
    if !(p1 < n && lit_at(s, p1, "=>")) {
        return None;
    }
    let p2 = skip(s, p1 + 2);
    let (v, v_end) = match value(s, p2) {
        None => {
            return None;
        },
        Some(x) => x,
    };
    let p3 = skip(s, v_end);
    if !(p3 < n && lit_at(s, p3, ";")) {
        return None;
    }
    match c {
        Err(x) => Some((Err(x), p3 + 1)),
        Ok(cv) => match v {
            Err(x) => Some((Err(x), p3 + 1)),
            Ok(vv) => Some(
                (
                    Ok(
                        MatchMember {
                            condition: AstLoc { inner: cv, pos: (pos, c_end) },
                            value: AstLoc { inner: vv, pos: (p2, v_end) },
                        },
                    ),
                    p3 + 1,
                ),
            ),
        },
    }
}

/// The match members from `pos`, and the end of the last one.
fn match_members(s: &Vec<char>, pos: usize) -> (r: (Result<Vec<AstLoc<MatchMember>>, ParseError>, usize))
    requires
        pos <= s@.len(),
    ensures
        (match r.0 {
            Ok(v) => Ok(match_members_view(v@)),
            Err(x) => Err(x),
        }, r.1 as int) == match_members_spec(s@, pos as int),
        pos <= r.1 <= s@.len(),
    decreases s@.len() - pos,
{
    let (m, e) = match match_member(s, pos) {
        None => {
            let empty: Vec<AstLoc<MatchMember>> = Vec::new();
            assert(match_members_view(empty@) =~= Seq::<(MatchMemberView, Pos)>::empty());
            return (Ok(empty), pos);
        },
        Some(x) => x,
    };
    let q = skip(s, e);
    if match_member(s, q).is_some() {
        let (t, t_end) = match_members(s, q);
        match t {
            Err(x) => (Err(x), t_end),
            Ok(mut tail) => match m {
                Err(x) => (Err(x), t_end),
                Ok(mv) => {
                    let ghost tv = match_members_view(tail@);
                    let ghost hv = (match_member_view(mv), (pos as int, e as int));
                    tail.insert(0, AstLoc { inner: mv, pos: (pos, e) });
                    assert(match_members_view(tail@) =~= seq![hv] + tv);
                    (Ok(tail), t_end)
                },
            },
        }
    } else {
        match m {
            Err(x) => (Err(x), e),
            Ok(mv) => {
                let items = vec![AstLoc { inner: mv, pos: (pos, e) }];
                assert(match_members_view(items@) =~= seq![(match_member_view(items@[0].inner), (pos as int, e as int))]);
                (Ok(items), e)
            },
        }
    }
}

/// A match declaration at `pos`, if one starts there, with where it ends.
pub fn match_decl(s: &Vec<char>, pos: usize) -> (r: Option<(Result<MatchDecl, ParseError>, usize)>)
    requires
        pos <= s@.len(),
    ensures
        match_decl_result_view(r) == match_decl_spec(s@, pos as int),
        r matches Some((_, e)) ==> pos < e <= s@.len(),
{
    proof {
        reveal_strlit("match");
        reveal_strlit("{");
        reveal_strlit("}");
    }
    let n = s.len();
    if !(pos < n && lit_at(s, pos, "match")) {
        return None;
    }
    let p1 = skip(s, pos + 5);
    if !(p1 < n && lit_at(s, p1, "{")) {
        return None;
    }
    let p2 = skip(s, p1 + 1);
    let (ms, m_end) = match_members(s, p2);
    let p3 = skip(s, m_end);
    if !(p3 < n && lit_at(s, p3, "}")) {
        return None;
    }
    match ms {
        Ok(members) => {
            let d = MatchDecl { members };
            assert(crate::ast::match_decl_view(d).members =~= match_members_view(d.members@));
            Some((Ok(d), p3 + 1))
        },
        Err(x) => Some((Err(x), p3 + 1)),
    }
}

/// A member at `pos`, if one starts there, with where it ends.
pub fn member(s: &Vec<char>, pos: usize) -> (r: Option<(Result<Member, ParseError>, usize)>)
    requires
        pos <= s@.len(),
    ensures
        member_result_view(r) == member_spec(s@, pos as int),
        r matches Some((_, e)) ==> pos < e <= s@.len(),
{
    match option_decl(s, pos) {
        Some((o, e)) => {
            return match o {
                Ok(ov) => Some((Ok(Member::Option(AstLoc { inner: ov, pos: (pos, e) })), e)),
                Err(x) => Some((Err(x), e)),
            };
        },
        None => {},
    }
    match match_decl(s, pos) {
        Some((d, e)) => {
            return match d {
                Ok(dv) => Some((Ok(Member::Match(dv)), e)),
                Err(x) => Some((Err(x), e)),
            };
        },
        None => {},
    }
    match field(s, pos) {
        Some((f, e)) => {
            return match f {
                Ok(fv) => Some((Ok(Member::Field(fv)), e)),
                Err(x) => Some((Err(x), e)),
            };
        },
        None => {},
    }
    match code_block(s, pos) {
        Some((context, content, e)) => {
            let lines = strip_code_block(content.as_str());
            Some((Ok(Member::Code(context, lines)), e))
        },
        None => None,
    }
}

} // verus!
