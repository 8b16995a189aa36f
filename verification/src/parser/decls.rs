//! The grammar of declarations and files: the package, `use`
//! declarations, types, tuples, interfaces with their sub-types, and enums.

use vstd::prelude::*;
use crate::text::strings_view;
use crate::ast::{AstLoc, RpPackage, UseDecl, UseDeclView, Member, MemberView, SubType, SubTypeView, EnumValue, EnumValueView, RpValue, RpValueView, Decl, DeclView, File, FileView, TypeBody, TupleBody, InterfaceBody, EnumBody, Pos, members_view, member_view, sub_type_view, enum_value_view, decl_view, file_view, use_decl_view, values_view, pos_view};
use crate::parser::lexical::{has_at, lit_at, skip, skip_end, identifier, identifier_end, type_identifier, type_identifier_end, slice};
use crate::parser::type_spec::ParseError;
use crate::parser::values::{value, value_spec, value_list, value_list_spec};
use crate::parser::members::{member, member_spec, member_result_view};

verus! {

/// The dotted identifiers from `p` (where one starts), and their end.
pub open spec fn ident_list(s: Seq<char>, p: int) -> (Seq<Seq<char>>, int)
    decreases s.len() - p,
{
    match identifier_end(s, p) {
        None => (Seq::empty(), p),
        Some(t) => if p < t && has_at(s, t, "."@) && identifier_end(s, t + 1) is Some {
            let rest = ident_list(s, t + 1);
            (seq![s.subrange(p, t)] + rest.0, rest.1)
        } else {
            (seq![s.subrange(p, t)], t)
        },
    }
}

/// A package name at `pos`: identifiers separated by dots, with no space.
pub open spec fn package_ident_spec(s: Seq<char>, pos: int) -> Option<(Seq<Seq<char>>, int)> {
    if identifier_end(s, pos) is Some {
        Some(ident_list(s, pos))
    } else {
        None
    }
}

/// `package name;` at `pos`: the package, its position, and the end.
pub open spec fn package_decl_spec(s: Seq<char>, pos: int) -> Option<(Seq<Seq<char>>, Pos, int)> {
    if has_at(s, pos, "package"@) {
        let p1 = skip_end(s, pos + 7);
        match package_ident_spec(s, p1) {
            None => None,
            Some((parts, i_end)) => {
                let p2 = skip_end(s, i_end);
                if has_at(s, p2, ";"@) {
                    Some((parts, (p1, i_end), p2 + 1))
                } else {
                    None
                }
            },
        }
    } else {
        None
    }
}

/// `use name as alias;` at `pos`, the alias being optional.
pub open spec fn use_decl_spec(s: Seq<char>, pos: int) -> Option<(UseDeclView, int)> {
    if has_at(s, pos, "use"@) {
        let p1 = skip_end(s, pos + 3);
        match package_ident_spec(s, p1) {
            None => None,
            Some((parts, i_end)) => {
                let p2 = skip_end(s, i_end);
                let (alias, p4) = if has_at(s, p2, "as"@) {
                    let p3 = skip_end(s, p2 + 2);
                    match identifier_end(s, p3) {
                        Some(a) => (Some(s.subrange(p3, a)), skip_end(s, a)),
                        None => (None, p2),
                    }
                } else {
                    (None, p2)
                };
                if has_at(s, p4, ";"@) {
                    Some((UseDeclView { package: parts, package_pos: (p1, i_end), alias }, p4 + 1))
                } else {
                    None
                }
            },
        }
    } else {
        None
    }
}

/// The `use` declarations from `pos`, each with its position, and the end
/// of the last one (`pos` if there is none).
pub open spec fn uses_spec(s: Seq<char>, pos: int) -> (Seq<(UseDeclView, Pos)>, int)
    decreases s.len() - pos,
{
    match use_decl_spec(s, pos) {
        None => (Seq::empty(), pos),
        Some((u, e)) => {
            let q = skip_end(s, e);
            if pos < e && e <= q <= s.len() && use_decl_spec(s, q) is Some {
                let (t, t_end) = uses_spec(s, q);
                (seq![(u, (pos, e))] + t, t_end)
            } else {
                (seq![(u, (pos, e))], e)
            }
        },
    }
}

/// The members from `pos`, each with its position, and the end of the last
/// one (`pos` if there is none). An error of a later member is the one
/// reported.
pub open spec fn members_spec(s: Seq<char>, pos: int) -> (Result<Seq<(MemberView, Pos)>, ParseError>, int)
    decreases s.len() - pos,
{
    match member_spec(s, pos) {
        None => (Ok(Seq::empty()), pos),
        Some((m, e)) => {
            let q = skip_end(s, e);
            if pos < e && e <= q <= s.len() && member_spec(s, q) is Some {
                let (t, t_end) = members_spec(s, q);
                (
                    match t {
                        Err(x) => Err(x),
                        Ok(tail) => match m {
                            Err(x) => Err(x),
                            Ok(mv) => Ok(seq![(mv, (pos, e))] + tail),
                        },
                    },
                    t_end,
                )
            } else {
                (
                    match m {
                        Err(x) => Err(x),
                        Ok(mv) => Ok(seq![(mv, (pos, e))]),
                    },
                    e,
                )
            }
        },
    }
}

/// A body in braces at `pos`: `{`, the members, `}`; the members and the end.
pub open spec fn braced_members_spec(s: Seq<char>, pos: int) -> Option<(Result<Seq<(MemberView, Pos)>, ParseError>, int)> {
    if has_at(s, pos, "{"@) {
        let p1 = skip_end(s, pos + 1);
        let (ms, m_end) = members_spec(s, p1);
        let p2 = skip_end(s, m_end);
        if has_at(s, p2, "}"@) {
            Some((ms, p2 + 1))
        } else {
            None
        }
    } else {
        None
    }
}

/// A sub-type at `pos`: a type name and members in braces.
pub open spec fn sub_type_spec(s: Seq<char>, pos: int) -> Option<(Result<SubTypeView, ParseError>, int)> {
    match type_identifier_end(s, pos) {
        None => None,
        Some(t) => match braced_members_spec(s, skip_end(s, t)) {
            None => None,
            Some((ms, e)) => Some(
                (
                    match ms {
                        Ok(members) => Ok(SubTypeView { name: s.subrange(pos, t), members }),
                        Err(x) => Err(x),
                    },
                    e,
                ),
            ),
        },
    }
}

/// The sub-types from `pos`, each with its position, and the end of the
/// last one.
pub open spec fn sub_types_spec(s: Seq<char>, pos: int) -> (Result<Seq<(SubTypeView, Pos)>, ParseError>, int)
    decreases s.len() - pos,
{
    match sub_type_spec(s, pos) {
        None => (Ok(Seq::empty()), pos),
        Some((m, e)) => {
            let q = skip_end(s, e);
            if pos < e && e <= q <= s.len() && sub_type_spec(s, q) is Some {
                let (t, t_end) = sub_types_spec(s, q);
                (
                    match t {
                        Err(x) => Err(x),
                        Ok(tail) => match m {
                            Err(x) => Err(x),
                            Ok(mv) => Ok(seq![(mv, (pos, e))] + tail),
                        },
                    },
                    t_end,
                )
            } else {
                (
                    match m {
                        Err(x) => Err(x),
                        Ok(mv) => Ok(seq![(mv, (pos, e))]),
                    },
                    e,
                )
            }
        },
    }
}

/// An enum value at `pos`: a type name, optional arguments (values in
/// parentheses), an optional `= ordinal`, and a semicolon.
pub open spec fn enum_value_spec(s: Seq<char>, pos: int) -> Option<(Result<EnumValueView, ParseError>, int)> {
    match type_identifier_end(s, pos) {
        None => None,
        Some(t) => {
            let p1 = skip_end(s, t);
            let (arguments, p2) = if has_at(s, p1, "("@) {
                let q = skip_end(s, p1 + 1);
                match value_list_spec(s, q) {
                    Some((vs, l_end)) => {
                        let q2 = skip_end(s, l_end);
                        if has_at(s, q2, ")"@) {
                            (vs, skip_end(s, q2 + 1))
                        } else {
                            (Ok(Seq::empty()), p1)
                        }
                    },
                    None => (Ok(Seq::empty()), p1),
                }
            } else {
                (Ok(Seq::empty()), p1)
            };
            let (ordinal, p4) = if has_at(s, p2, "="@) {
                let p3 = skip_end(s, p2 + 1);
                match value_spec(s, p3) {
                    Some((v, v_end)) => (Some((v, (p3, v_end))), skip_end(s, v_end)),
                    None => (None, p2),
                }
            } else {
                (None, p2)
            };
            if has_at(s, p4, ";"@) {
                Some(
                    (
                        match arguments {
                            Err(x) => Err(x),
                            Ok(args) => match ordinal {
                                Some((Err(x), _)) => Err(x),
                                Some((Ok(v), vp)) => Ok(
                                    EnumValueView {
                                        name: s.subrange(pos, t),
                                        name_pos: (pos, t),
                                        arguments: args,
                                        ordinal: Some((v, vp)),
                                    },
                                ),
                                None => Ok(
                                    EnumValueView {
                                        name: s.subrange(pos, t),
                                        name_pos: (pos, t),
                                        arguments: args,
                                        ordinal: None,
                                    },
                                ),
                            },
                        },
                        p4 + 1,
                    ),
                )
            } else {
                None
            }
        },
    }
}

/// The enum values from `pos`, each with its position, and the end of the
/// last one.
pub open spec fn enum_values_spec(s: Seq<char>, pos: int) -> (Result<Seq<(EnumValueView, Pos)>, ParseError>, int)
    decreases s.len() - pos,
{
    match enum_value_spec(s, pos) {
        None => (Ok(Seq::empty()), pos),
        Some((m, e)) => {
            let q = skip_end(s, e);
            if pos < e && e <= q <= s.len() && enum_value_spec(s, q) is Some {
                let (t, t_end) = enum_values_spec(s, q);
                (
                    match t {
                        Err(x) => Err(x),
                        Ok(tail) => match m {
                            Err(x) => Err(x),
                            Ok(mv) => Ok(seq![(mv, (pos, e))] + tail),
                        },
                    },
                    t_end,
                )
            } else {
                (
                    match m {
                        Err(x) => Err(x),
                        Ok(mv) => Ok(seq![(mv, (pos, e))]),
                    },
                    e,
                )
            }
        },
    }
}

/// The name after a declaration keyword of `k` characters at `pos`, and
/// where the name ends.
pub open spec fn decl_name_spec(s: Seq<char>, pos: int, k: int) -> Option<(Seq<char>, int)> {
    let p1 = skip_end(s, pos + k);
    match type_identifier_end(s, p1) {
        Some(t) => Some((s.subrange(p1, t), t)),
        None => None,
    }
}

/// A declaration at `pos`; the alternatives are tried in order: `type`,
/// `interface`, `tuple`, `enum`, each followed by a type name and a body in
/// braces (members; members then sub-types for an interface; values then
/// members for an enum).
pub open spec fn decl_spec(s: Seq<char>, pos: int) -> Option<(Result<DeclView, ParseError>, int)> {
    if type_decl_spec(s, pos) is Some {
        type_decl_spec(s, pos)
    } else if interface_decl_spec(s, pos) is Some {
        interface_decl_spec(s, pos)
    } else if tuple_decl_spec(s, pos) is Some {
        tuple_decl_spec(s, pos)
    } else {
        enum_decl_spec(s, pos)
    }
}

/// `type Name { members }` at `pos`.
pub open spec fn type_decl_spec(s: Seq<char>, pos: int) -> Option<(Result<DeclView, ParseError>, int)> {
    if has_at(s, pos, "type"@) {
        match decl_name_spec(s, pos, 4) {
            Some((name, t)) => match braced_members_spec(s, skip_end(s, t)) {
                Some((ms, e)) => Some(
                    (
                        match ms {
                            Ok(members) => Ok(DeclView::Type(name, members)),
                            Err(x) => Err(x),
                        },
                        e,
                    ),
                ),
                None => None,
            },
            None => None,
        }
    } else {
        None
    }
}

/// `interface Name { members sub-types }` at `pos`.
pub open spec fn interface_decl_spec(s: Seq<char>, pos: int) -> Option<(Result<DeclView, ParseError>, int)> {
    if has_at(s, pos, "interface"@) {
        match decl_name_spec(s, pos, 9) {
            Some((name, t)) => {
                let p2 = skip_end(s, t);
                if has_at(s, p2, "{"@) {
                    let p3 = skip_end(s, p2 + 1);
                    let (ms, m_end) = members_spec(s, p3);
                    let q = skip_end(s, m_end);
                    let (subs, s_end) = sub_types_spec(s, q);
                    let p4 = skip_end(s, s_end);
                    if has_at(s, p4, "}"@) {
                        Some(
                            (
                                match ms {
                                    Err(x) => Err(x),
                                    Ok(members) => match subs {
                                        Err(x) => Err(x),
                                        Ok(sub_types) => Ok(DeclView::Interface(name, members, sub_types)),
                                    },
                                },
                                p4 + 1,
                            ),
                        )
                    } else {
                        None
                    }
                } else {
                    None
                }
            },
            None => None,
        }
    } else {
        None
    }
}

/// `tuple Name { members }` at `pos`.
pub open spec fn tuple_decl_spec(s: Seq<char>, pos: int) -> Option<(Result<DeclView, ParseError>, int)> {
    if has_at(s, pos, "tuple"@) {
        match decl_name_spec(s, pos, 5) {
            Some((name, t)) => match braced_members_spec(s, skip_end(s, t)) {
                Some((ms, e)) => Some(
                    (
                        match ms {
                            Ok(members) => Ok(DeclView::Tuple(name, members)),
                            Err(x) => Err(x),
                        },
                        e,
                    ),
                ),
                None => None,
            },
            None => None,
        }
    } else {
        None
    }
}

/// `enum Name { values members }` at `pos`.
pub open spec fn enum_decl_spec(s: Seq<char>, pos: int) -> Option<(Result<DeclView, ParseError>, int)> {
    if has_at(s, pos, "enum"@) {
        match decl_name_spec(s, pos, 4) {
            Some((name, t)) => {
                let p2 = skip_end(s, t);
                if has_at(s, p2, "{"@) {
                    let p3 = skip_end(s, p2 + 1);
                    let (vs, v_end) = enum_values_spec(s, p3);
                    let q = skip_end(s, v_end);
                    let (ms, m_end) = members_spec(s, q);
                    let p4 = skip_end(s, m_end);
                    if has_at(s, p4, "}"@) {
                        Some(
                            (
                                match vs {
                                    Err(x) => Err(x),
                                    Ok(values) => match ms {
                                        Err(x) => Err(x),
                                        Ok(members) => Ok(DeclView::Enum(name, values, members)),
                                    },
                                },
                                p4 + 1,
                            ),
                        )
                    } else {
                        None
                    }
                } else {
                    None
                }
            },
            None => None,
        }
    } else {
        None
    }
}

/// The declarations from `pos`, each with its position, and the end of the
/// last one.
pub open spec fn decls_spec(s: Seq<char>, pos: int) -> (Result<Seq<(DeclView, Pos)>, ParseError>, int)
    decreases s.len() - pos,
{
    match decl_spec(s, pos) {
        None => (Ok(Seq::empty()), pos),
        Some((m, e)) => {
            let q = skip_end(s, e);
            if pos < e && e <= q <= s.len() && decl_spec(s, q) is Some {
                let (t, t_end) = decls_spec(s, q);
                (
                    match t {
                        Err(x) => Err(x),
                        Ok(tail) => match m {
                            Err(x) => Err(x),
                            Ok(mv) => Ok(seq![(mv, (pos, e))] + tail),
                        },
                    },
                    t_end,
                )
            } else {
                (
                    match m {
                        Err(x) => Err(x),
                        Ok(mv) => Ok(seq![(mv, (pos, e))]),
                    },
                    e,
                )
            }
        },
    }
}

/// A whole specification file: the package declaration at its very start,
/// the `use` declarations, the declarations, and then only whitespace and
/// comments up to the end.
pub open spec fn file_spec(s: Seq<char>) -> Option<Result<FileView, ParseError>> {
    match package_decl_spec(s, 0) {
        None => None,
        Some((package, package_pos, e0)) => {
            let p1 = skip_end(s, e0);
            let (uses, u_end) = uses_spec(s, p1);
            let p2 = skip_end(s, u_end);
            let (decls, d_end) = decls_spec(s, p2);
            let p3 = skip_end(s, d_end);
            if p3 == s.len() {
                Some(
                    match decls {
                        Ok(ds) => Ok(FileView { package, package_pos, uses, decls: ds }),
                        Err(x) => Err(x),
                    },
                )
            } else {
                None
            }
        },
    }
}

/// The dotted identifiers from `start`, where one starts.
fn idents(s: &Vec<char>, start: usize) -> (r: (Vec<String>, usize))
    requires
        start <= s@.len(),
        identifier_end(s@, start as int) is Some,
    ensures
        (strings_view(r.0@), r.1 as int) == ident_list(s@, start as int),
        start < r.1 <= s@.len(),
{
    let mut parts: Vec<String> = Vec::new();
    let mut p = start;
    assert(strings_view(parts@) + ident_list(s@, p as int).0 =~= ident_list(s@, p as int).0);
    loop
        invariant
            start <= p <= s@.len(),
            identifier_end(s@, p as int) is Some,
            ident_list(s@, start as int) == (strings_view(parts@) + ident_list(s@, p as int).0, ident_list(s@, p as int).1),
        decreases s.len() - p,
    {
        proof {
            reveal_strlit(".");
        }
        let t = match identifier(s, p) {
            Some(t) => t,
            None => {
                return (parts, p);
            },
        };
        let text = slice(s, p, t);
        let ghost before = parts@;
        parts.push(text);
        assert(strings_view(parts@) =~= strings_view(before).push(s@.subrange(p as int, t as int)));
        if t < s.len() && s[t] == '.' && identifier(s, t + 1).is_some() {
            assert(has_at(s@, t as int, "."@)) by {
                assert(s@.subrange(t as int, t + 1) =~= "."@);
            }
            let ghost rest = ident_list(s@, t + 1);
            assert(ident_list(s@, p as int) == (seq![s@.subrange(p as int, t as int)] + rest.0, rest.1));
            assert(strings_view(before) + ident_list(s@, p as int).0 =~= strings_view(parts@) + rest.0);
            p = t + 1;
        } else {
            proof {
                if t < s@.len() && s@[t as int] == '.' {
                    assert(identifier_end(s@, t + 1) is None);
                } else if has_at(s@, t as int, "."@) {
                    assert(s@.subrange(t as int, t + 1)[0] == '.');
                }
            }
            assert(ident_list(s@, p as int) == (seq![s@.subrange(p as int, t as int)], t as int));
            assert(strings_view(before) + seq![s@.subrange(p as int, t as int)] =~= strings_view(parts@));
            return (parts, t);
        }
    }
}

/// A package name at `pos`, if one starts there.
pub fn package_ident(s: &Vec<char>, pos: usize) -> (r: Option<(RpPackage, usize)>)
    requires
        pos <= s@.len(),
    ensures
        match r {
            Some((p, e)) => package_ident_spec(s@, pos as int) == Some((strings_view(p.parts@), e as int)) && pos < e <= s@.len(),
            None => package_ident_spec(s@, pos as int) is None,
        },
{
    if identifier(s, pos).is_some() {
        let (parts, e) = idents(s, pos);
        Some((RpPackage::new(parts), e))
    } else {
        None
    }
}

/// `package name;` at `pos`, if it is there: the located package and the end.
pub fn package_decl(s: &Vec<char>, pos: usize) -> (r: Option<(AstLoc<RpPackage>, usize)>)
    requires
        pos <= s@.len(),
    ensures
        match r {
            Some((p, e)) => package_decl_spec(s@, pos as int) == Some((strings_view(p.inner.parts@), pos_view(p.pos), e as int)) && pos < e <= s@.len(),
            None => package_decl_spec(s@, pos as int) is None,
        },
{
    proof {
        reveal_strlit("package");
        reveal_strlit(";");
    }
    let n = s.len();
    if !(pos < n && lit_at(s, pos, "package")) {
        return None;
    }
    let p1 = skip(s, pos + 7);
    let (package, i_end) = match package_ident(s, p1) {
        None => {
            return None;
        },
        Some(x) => x,
    };
    let p2 = skip(s, i_end);
    if p2 < n && lit_at(s, p2, ";") {
        Some((AstLoc { inner: package, pos: (p1, i_end) }, p2 + 1))
    } else {
        None
    }
}

/// A `use` declaration at `pos`, if one starts there, with where it ends.
pub fn use_decl(s: &Vec<char>, pos: usize) -> (r: Option<(UseDecl, usize)>)
    requires
        pos <= s@.len(),
    ensures
        match r {
            Some((u, e)) => use_decl_spec(s@, pos as int) == Some((use_decl_view(u), e as int)) && pos < e <= s@.len(),
            None => use_decl_spec(s@, pos as int) is None,
        },
{
    proof {
        reveal_strlit("use");
        reveal_strlit("as");
        reveal_strlit(";");
    }
    let n = s.len();
    if !(pos < n && lit_at(s, pos, "use")) {
        return None;
    }
    let p1 = skip(s, pos + 3);
    let (package, i_end) = match package_ident(s, p1) {
        None => {
            return None;
        },
        Some(x) => x,
    };
    let p2 = skip(s, i_end);
    let (alias, p4) = if p2 < n && lit_at(s, p2, "as") {
        let p3 = skip(s, p2 + 2);
        match identifier(s, p3) {
            Some(a) => (Some(slice(s, p3, a)), skip(s, a)),
            None => (None, p2),
        }
    } else {
        (None, p2)
    };
    if p4 < n && lit_at(s, p4, ";") {
        Some((UseDecl { package: AstLoc { inner: package, pos: (p1, i_end) }, alias }, p4 + 1))
    } else {
        None
    }
}

/// The `use` declarations from `pos`, and the end of the last one.
fn uses(s: &Vec<char>, pos: usize) -> (r: (Vec<AstLoc<UseDecl>>, usize))
    requires
        pos <= s@.len(),
    ensures
        (r.0@.map_values(|u: AstLoc<UseDecl>| (use_decl_view(u.inner), pos_view(u.pos))), r.1 as int) == uses_spec(s@, pos as int),
        pos <= r.1 <= s@.len(),
    decreases s@.len() - pos,
{
    let (u, e) = match use_decl(s, pos) {
        None => {
            let empty: Vec<AstLoc<UseDecl>> = Vec::new();
            assert(empty@.map_values(|u: AstLoc<UseDecl>| (use_decl_view(u.inner), pos_view(u.pos))) =~= Seq::<(UseDeclView, Pos)>::empty());
            return (empty, pos);
        },
        Some(x) => x,
    };
    let q = skip(s, e);
    if use_decl(s, q).is_some() {
        let (mut tail, t_end) = uses(s, q);
        let ghost tv = tail@.map_values(|u: AstLoc<UseDecl>| (use_decl_view(u.inner), pos_view(u.pos)));
        let ghost hv = (use_decl_view(u), (pos as int, e as int));
        tail.insert(0, AstLoc { inner: u, pos: (pos, e) });
        assert(tail@.map_values(|u: AstLoc<UseDecl>| (use_decl_view(u.inner), pos_view(u.pos))) =~= seq![hv] + tv);
        (tail, t_end)
    } else {
        let items = vec![AstLoc { inner: u, pos: (pos, e) }];
        assert(items@.map_values(|u: AstLoc<UseDecl>| (use_decl_view(u.inner), pos_view(u.pos))) =~= seq![(use_decl_view(items@[0].inner), (pos as int, e as int))]);
        (items, e)
    }
}

/// The members from `pos`, and the end of the last one.
fn members(s: &Vec<char>, pos: usize) -> (r: (Result<Vec<AstLoc<Member>>, ParseError>, usize))
    requires
        pos <= s@.len(),
    ensures
        (match r.0 {
            Ok(v) => Ok(v@.map_values(|m: AstLoc<Member>| (member_view(m.inner), pos_view(m.pos)))),
            Err(x) => Err(x),
        }, r.1 as int) == members_spec(s@, pos as int),
        pos <= r.1 <= s@.len(),
    decreases s@.len() - pos,
{
    let (m, e) = match member_item(s, pos) {
        None => {
            let empty: Vec<AstLoc<Member>> = Vec::new();
            assert(empty@.map_values(|m: AstLoc<Member>| (member_view(m.inner), pos_view(m.pos))) =~= Seq::<(MemberView, Pos)>::empty());
            return (Ok(empty), pos);
        },
        Some(x) => x,
    };
    let q = skip(s, e);
    if member_item(s, q).is_some() {
        let (t, t_end) = members(s, q);
        match t {
            Err(x) => (Err(x), t_end),
            Ok(mut tail) => match m {
                Err(x) => (Err(x), t_end),
                Ok(mv) => {
                    let ghost tv = tail@.map_values(|m: AstLoc<Member>| (member_view(m.inner), pos_view(m.pos)));
                    let ghost hv = (member_view(mv), (pos as int, e as int));
                    tail.insert(0, AstLoc { inner: mv, pos: (pos, e) });
                    assert(tail@.map_values(|m: AstLoc<Member>| (member_view(m.inner), pos_view(m.pos))) =~= seq![hv] + tv);
                    (Ok(tail), t_end)
                },
            },
        }
    } else {
        match m {
            Err(x) => (Err(x), e),
            Ok(mv) => {
                let items = vec![AstLoc { inner: mv, pos: (pos, e) }];
                assert(items@.map_values(|m: AstLoc<Member>| (member_view(m.inner), pos_view(m.pos))) =~= seq![(member_view(items@[0].inner), (pos as int, e as int))]);
                (Ok(items), e)
            },
        }
    }
}

/// A member at `pos`, if one starts there.
fn member_item(s: &Vec<char>, pos: usize) -> (r: Option<(Result<Member, ParseError>, usize)>)
    requires
        pos <= s@.len(),
    ensures
        member_result_view(r) == member_spec(s@, pos as int),
        r matches Some((_, e)) ==> pos < e <= s@.len(),
{
    member(s, pos)
}

/// A body in braces at `pos`, if one starts there: the members and the end.
fn braced_members(s: &Vec<char>, pos: usize) -> (r: Option<(Result<Vec<AstLoc<Member>>, ParseError>, usize)>)
    requires
        pos <= s@.len(),
    ensures
        match r {
            Some((ms, e)) => braced_members_spec(s@, pos as int) == Some((match ms {
                Ok(v) => Ok(members_view(v@)),
                Err(x) => Err(x),
            }, e as int)) && pos < e <= s@.len(),
            None => braced_members_spec(s@, pos as int) is None,
        },
{
    proof {
        reveal_strlit("{");
        reveal_strlit("}");
    }
    let n = s.len();
    if !(pos < n && lit_at(s, pos, "{")) {
        return None;
    }
    let p1 = skip(s, pos + 1);
    let (ms, m_end) = members(s, p1);
    let p2 = skip(s, m_end);
    if p2 < n && lit_at(s, p2, "}") {
        Some((ms, p2 + 1))
    } else {
        None
    }
}

/// The model of a sub-type result.
pub open spec fn sub_type_result_view(r: Option<(Result<SubType, ParseError>, usize)>) -> Option<(Result<SubTypeView, ParseError>, int)> {
    match r {
        None => None,
        Some((Ok(v), e)) => Some((Ok(sub_type_view(v)), e as int)),
        Some((Err(x), e)) => Some((Err(x), e as int)),
    }
}

/// A sub-type at `pos`, if one starts there, with where it ends.
pub fn sub_type(s: &Vec<char>, pos: usize) -> (r: Option<(Result<SubType, ParseError>, usize)>)
    requires
        pos <= s@.len(),
    ensures
        sub_type_result_view(r) == sub_type_spec(s@, pos as int),
        r matches Some((_, e)) ==> pos < e <= s@.len(),
{
    let t = match type_identifier(s, pos) {
        None => {
            return None;
        },
        Some(t) => t,
    };
    let p1 = skip(s, t);
    match braced_members(s, p1) {
        None => None,
        Some((ms, e)) => match ms {
            Ok(members) => Some((Ok(SubType { name: slice(s, pos, t), members }), e)),
            Err(x) => Some((Err(x), e)),
        },
    }
}

/// The sub-types from `pos`, and the end of the last one.
fn sub_types(s: &Vec<char>, pos: usize) -> (r: (Result<Vec<AstLoc<SubType>>, ParseError>, usize))
    requires
        pos <= s@.len(),
    ensures
        (match r.0 {
            Ok(v) => Ok(v@.map_values(|m: AstLoc<SubType>| (sub_type_view(m.inner), pos_view(m.pos)))),
            Err(x) => Err(x),
        }, r.1 as int) == sub_types_spec(s@, pos as int),
        pos <= r.1 <= s@.len(),
    decreases s@.len() - pos,
{
    let (m, e) = match sub_type(s, pos) {
        None => {
            let empty: Vec<AstLoc<SubType>> = Vec::new();
            assert(empty@.map_values(|m: AstLoc<SubType>| (sub_type_view(m.inner), pos_view(m.pos))) =~= Seq::<(SubTypeView, Pos)>::empty());
            return (Ok(empty), pos);
        },
        Some(x) => x,
    };
    let q = skip(s, e);
    if sub_type(s, q).is_some() {
        let (t, t_end) = sub_types(s, q);
        match t {
            Err(x) => (Err(x), t_end),
            Ok(mut tail) => match m {
                Err(x) => (Err(x), t_end),
                Ok(mv) => {
                    let ghost tv = tail@.map_values(|m: AstLoc<SubType>| (sub_type_view(m.inner), pos_view(m.pos)));
                    let ghost hv = (sub_type_view(mv), (pos as int, e as int));
                    tail.insert(0, AstLoc { inner: mv, pos: (pos, e) });
                    assert(tail@.map_values(|m: AstLoc<SubType>| (sub_type_view(m.inner), pos_view(m.pos))) =~= seq![hv] + tv);
                    (Ok(tail), t_end)
                },
            },
        }
    } else {
        match m {
            Err(x) => (Err(x), e),
            Ok(mv) => {
                let items = vec![AstLoc { inner: mv, pos: (pos, e) }];
                assert(items@.map_values(|m: AstLoc<SubType>| (sub_type_view(m.inner), pos_view(m.pos))) =~= seq![(sub_type_view(items@[0].inner), (pos as int, e as int))]);
                (Ok(items), e)
            },
        }
    }
}

/// The model of an enum value result.
pub open spec fn enum_value_result_view(r: Option<(Result<EnumValue, ParseError>, usize)>) -> Option<(Result<EnumValueView, ParseError>, int)> {
    match r {
        None => None,
        Some((Ok(v), e)) => Some((Ok(enum_value_view(v)), e as int)),
        Some((Err(x), e)) => Some((Err(x), e as int)),
    }
}

/// An enum value at `pos`, if one starts there, with where it ends.
pub fn enum_value(s: &Vec<char>, pos: usize) -> (r: Option<(Result<EnumValue, ParseError>, usize)>)
    requires
        pos <= s@.len(),
    ensures
        enum_value_result_view(r) == enum_value_spec(s@, pos as int),
        r matches Some((_, e)) ==> pos < e <= s@.len(),
{
    proof {
        reveal_strlit("(");
        reveal_strlit(")");
        reveal_strlit("=");
        reveal_strlit(";");
    }
    let n = s.len();
    let t = match type_identifier(s, pos) {
        None => {
            return None;
        },
        Some(t) => t,
    };
    let p1 = skip(s, t);
    let (arguments, p2) = if p1 < n && lit_at(s, p1, "(") {
        let q = skip(s, p1 + 1);
        match value_list(s, q) {
            Some((vs, l_end)) => {
                let q2 = skip(s, l_end);
                if q2 < n && lit_at(s, q2, ")") {
                    (vs, skip(s, q2 + 1))
                } else {
                    (Ok(Vec::new()), p1)
                }
            },
            None => (Ok(Vec::new()), p1),
        }
    } else {
        (Ok(Vec::new()), p1)
    };
    proof {
        assert(values_view(Seq::<AstLoc<RpValue>>::empty()) =~= Seq::<(RpValueView, Pos)>::empty());
    }
    let (ordinal, p4) = if p2 < n && lit_at(s, p2, "=") {
        let p3 = skip(s, p2 + 1);
        match value(s, p3) {
            Some((v, v_end)) => (Some((v, (p3, v_end))), skip(s, v_end)),
            None => (None, p2),
        }
    } else {
        (None, p2)
    };
    if !(p4 < n && lit_at(s, p4, ";")) {
        return None;
    }
    let name = AstLoc { inner: slice(s, pos, t), pos: (pos, t) };
    match arguments {
        Err(x) => Some((Err(x), p4 + 1)),
        Ok(args) => match ordinal {
            Some((Err(x), _)) => Some((Err(x), p4 + 1)),
            Some((Ok(v), vp)) => Some(
                (Ok(EnumValue { name, arguments: args, ordinal: Some(AstLoc { inner: v, pos: vp }) }), p4 + 1),
            ),
            None => Some((Ok(EnumValue { name, arguments: args, ordinal: None }), p4 + 1)),
        },
    }
}

/// The enum values from `pos`, and the end of the last one.
fn enum_values(s: &Vec<char>, pos: usize) -> (r: (Result<Vec<AstLoc<EnumValue>>, ParseError>, usize))
    requires
        pos <= s@.len(),
    ensures
        (match r.0 {
            Ok(v) => Ok(v@.map_values(|m: AstLoc<EnumValue>| (enum_value_view(m.inner), pos_view(m.pos)))),
            Err(x) => Err(x),
        }, r.1 as int) == enum_values_spec(s@, pos as int),
        pos <= r.1 <= s@.len(),
    decreases s@.len() - pos,
{
    let (m, e) = match enum_value(s, pos) {
        None => {
            let empty: Vec<AstLoc<EnumValue>> = Vec::new();
            assert(empty@.map_values(|m: AstLoc<EnumValue>| (enum_value_view(m.inner), pos_view(m.pos))) =~= Seq::<(EnumValueView, Pos)>::empty());
            return (Ok(empty), pos);
        },
        Some(x) => x,
    };
    let q = skip(s, e);
    if enum_value(s, q).is_some() {
        let (t, t_end) = enum_values(s, q);
        match t {
            Err(x) => (Err(x), t_end),
            Ok(mut tail) => match m {
                Err(x) => (Err(x), t_end),
                Ok(mv) => {
                    let ghost tv = tail@.map_values(|m: AstLoc<EnumValue>| (enum_value_view(m.inner), pos_view(m.pos)));
                    let ghost hv = (enum_value_view(mv), (pos as int, e as int));
                    tail.insert(0, AstLoc { inner: mv, pos: (pos, e) });
                    assert(tail@.map_values(|m: AstLoc<EnumValue>| (enum_value_view(m.inner), pos_view(m.pos))) =~= seq![hv] + tv);
                    (Ok(tail), t_end)
                },
            },
        }
    } else {
        match m {
            Err(x) => (Err(x), e),
            Ok(mv) => {
                let items = vec![AstLoc { inner: mv, pos: (pos, e) }];
                assert(items@.map_values(|m: AstLoc<EnumValue>| (enum_value_view(m.inner), pos_view(m.pos))) =~= seq![(enum_value_view(items@[0].inner), (pos as int, e as int))]);
                (Ok(items), e)
            },
        }
    }
}

/// The name after a declaration keyword of `k` characters at `pos`.
fn decl_name(s: &Vec<char>, pos: usize, k: usize) -> (r: Option<(String, usize)>)
    requires
        pos + k <= s@.len(),
    ensures
        match r {
            Some((name, t)) => decl_name_spec(s@, pos as int, k as int) == Some((name@, t as int)) && pos + k < t <= s@.len(),
            None => decl_name_spec(s@, pos as int, k as int) is None,
        },
{
    let n = s.len();
    let p1 = skip(s, pos + k);
    match type_identifier(s, p1) {
        Some(t) => Some((slice(s, p1, t), t)),
        None => None,
    }
}

/// The model of a declaration result.
pub open spec fn decl_result_view(r: Option<(Result<Decl, ParseError>, usize)>) -> Option<(Result<DeclView, ParseError>, int)> {
    match r {
        None => None,
        Some((Ok(v), e)) => Some((Ok(decl_view(v)), e as int)),
        Some((Err(x), e)) => Some((Err(x), e as int)),
    }
}

/// `type Name { members }` at `pos`, if it is there.
fn type_decl(s: &Vec<char>, pos: usize) -> (r: Option<(Result<Decl, ParseError>, usize)>)
    requires
        pos <= s@.len(),
    ensures
        decl_result_view(r) == type_decl_spec(s@, pos as int),
        r matches Some((_, e)) ==> pos < e <= s@.len(),
{
    proof {
        reveal_strlit("type");
    }
    let n = s.len();
    if !(pos < n && lit_at(s, pos, "type")) {
        return None;
    }
    let (name, t) = match decl_name(s, pos, 4) {
        Some(x) => x,
        None => {
            return None;
        },
    };
    let p1 = skip(s, t);
    match braced_members(s, p1) {
        Some((ms, e)) => match ms {
            Ok(members) => Some((Ok(Decl::Type(TypeBody { name, members })), e)),
            Err(x) => Some((Err(x), e)),
        },
        None => None,
    }
}

/// `tuple Name { members }` at `pos`, if it is there.
fn tuple_decl(s: &Vec<char>, pos: usize) -> (r: Option<(Result<Decl, ParseError>, usize)>)
    requires
        pos <= s@.len(),
    ensures
        decl_result_view(r) == tuple_decl_spec(s@, pos as int),
        r matches Some((_, e)) ==> pos < e <= s@.len(),
{
    proof {
        reveal_strlit("tuple");
    }
    let n = s.len();
    if !(pos < n && lit_at(s, pos, "tuple")) {
        return None;
    }
    let (name, t) = match decl_name(s, pos, 5) {
        Some(x) => x,
        None => {
            return None;
        },
    };
    let p1 = skip(s, t);
    match braced_members(s, p1) {
        Some((ms, e)) => match ms {
            Ok(members) => Some((Ok(Decl::Tuple(TupleBody { name, members })), e)),
            Err(x) => Some((Err(x), e)),
        },
        None => None,
    }
}

/// `interface Name { members sub-types }` at `pos`, if it is there.
fn interface_decl(s: &Vec<char>, pos: usize) -> (r: Option<(Result<Decl, ParseError>, usize)>)
    requires
        pos <= s@.len(),
    ensures
        decl_result_view(r) == interface_decl_spec(s@, pos as int),
        r matches Some((_, e)) ==> pos < e <= s@.len(),
{
    proof {
        reveal_strlit("interface");
        reveal_strlit("{");
        reveal_strlit("}");
    }
    let n = s.len();
    if !(pos < n && lit_at(s, pos, "interface")) {
        return None;
    }
    let (name, t) = match decl_name(s, pos, 9) {
        Some(x) => x,
        None => {
            return None;
        },
    };
    let p2 = skip(s, t);
    if !(p2 < n && lit_at(s, p2, "{")) {
        return None;
    }
    let p3 = skip(s, p2 + 1);
    let (ms, m_end) = members(s, p3);
    let q = skip(s, m_end);
    let (subs, s_end) = sub_types(s, q);
    let p4 = skip(s, s_end);
    if !(p4 < n && lit_at(s, p4, "}")) {
        return None;
    }
    match ms {
        Err(x) => Some((Err(x), p4 + 1)),
        Ok(members) => match subs {
            Err(x) => Some((Err(x), p4 + 1)),
            Ok(sub_types) => Some((Ok(Decl::Interface(InterfaceBody { name, members, sub_types })), p4 + 1)),
        },
    }
}

/// `enum Name { values members }` at `pos`, if it is there.
fn enum_decl(s: &Vec<char>, pos: usize) -> (r: Option<(Result<Decl, ParseError>, usize)>)
    requires
        pos <= s@.len(),
    ensures
        decl_result_view(r) == enum_decl_spec(s@, pos as int),
        r matches Some((_, e)) ==> pos < e <= s@.len(),
{
    proof {
        reveal_strlit("enum");
        reveal_strlit("{");
        reveal_strlit("}");
    }
    let n = s.len();
    if !(pos < n && lit_at(s, pos, "enum")) {
        return None;
    }
    let (name, t) = match decl_name(s, pos, 4) {
        Some(x) => x,
        None => {
            return None;
        },
    };
    let p2 = skip(s, t);
    if !(p2 < n && lit_at(s, p2, "{")) {
        return None;
    }
    let p3 = skip(s, p2 + 1);
    let (vs, v_end) = enum_values(s, p3);
    let q = skip(s, v_end);
    let (ms, m_end) = members(s, q);
    let p4 = skip(s, m_end);
    if !(p4 < n && lit_at(s, p4, "}")) {
        return None;
    }
    match vs {
        Err(x) => Some((Err(x), p4 + 1)),
        Ok(values) => match ms {
            Err(x) => Some((Err(x), p4 + 1)),
            Ok(members) => Some((Ok(Decl::Enum(EnumBody { name, values, members })), p4 + 1)),
        },
    }
}

/// A declaration at `pos`, if one starts there, with where it ends.
pub fn decl(s: &Vec<char>, pos: usize) -> (r: Option<(Result<Decl, ParseError>, usize)>)
    requires
        pos <= s@.len(),
    ensures
        decl_result_view(r) == decl_spec(s@, pos as int),
        r matches Some((_, e)) ==> pos < e <= s@.len(),
{
    let r = type_decl(s, pos);
    if r.is_some() {
        return r;
    }
    let r = interface_decl(s, pos);
    if r.is_some() {
        return r;
    }
    let r = tuple_decl(s, pos);
    if r.is_some() {
        return r;
    }
    enum_decl(s, pos)
}

/// The declarations from `pos`, and the end of the last one.
fn decls(s: &Vec<char>, pos: usize) -> (r: (Result<Vec<AstLoc<Decl>>, ParseError>, usize))
    requires
        pos <= s@.len(),
    ensures
        (match r.0 {
            Ok(v) => Ok(v@.map_values(|m: AstLoc<Decl>| (decl_view(m.inner), pos_view(m.pos)))),
            Err(x) => Err(x),
        }, r.1 as int) == decls_spec(s@, pos as int),
        pos <= r.1 <= s@.len(),
    decreases s@.len() - pos,
{
    let (m, e) = match decl(s, pos) {
        None => {
            let empty: Vec<AstLoc<Decl>> = Vec::new();
            assert(empty@.map_values(|m: AstLoc<Decl>| (decl_view(m.inner), pos_view(m.pos))) =~= Seq::<(DeclView, Pos)>::empty());
            return (Ok(empty), pos);
        },
        Some(x) => x,
    };
    let q = skip(s, e);
    if decl(s, q).is_some() {
        let (t, t_end) = decls(s, q);
        match t {
            Err(x) => (Err(x), t_end),
            Ok(mut tail) => match m {
                Err(x) => (Err(x), t_end),
                Ok(mv) => {
                    let ghost tv = tail@.map_values(|m: AstLoc<Decl>| (decl_view(m.inner), pos_view(m.pos)));
                    let ghost hv = (decl_view(mv), (pos as int, e as int));
                    tail.insert(0, AstLoc { inner: mv, pos: (pos, e) });
                    assert(tail@.map_values(|m: AstLoc<Decl>| (decl_view(m.inner), pos_view(m.pos))) =~= seq![hv] + tv);
                    (Ok(tail), t_end)
                },
            },
        }
    } else {
        match m {
            Err(x) => (Err(x), e),
            Ok(mv) => {
                let items = vec![AstLoc { inner: mv, pos: (pos, e) }];
                assert(items@.map_values(|m: AstLoc<Decl>| (decl_view(m.inner), pos_view(m.pos))) =~= seq![(decl_view(items@[0].inner), (pos as int, e as int))]);
                (Ok(items), e)
            },
        }
    }
}

/// A whole specification file, if the input is one: its package, `use`
/// declarations and declarations.
pub fn parse_file(input: &str) -> (r: Option<Result<File, ParseError>>)
    ensures
        match r {
            None => file_spec(input@) is None,
            Some(Ok(f)) => file_spec(input@) == Some(Ok::<FileView, ParseError>(file_view(f))),
            Some(Err(x)) => file_spec(input@) == Some(Err::<FileView, ParseError>(x)),
        },
{
    let s = crate::parser::lexical::chars_of(input);
    let (package, e0) = match package_decl(&s, 0) {
        None => {
            return None;
        },
        Some(x) => x,
    };
    let p1 = skip(&s, e0);
    let (uses, u_end) = uses(&s, p1);
    let p2 = skip(&s, u_end);
    let (decls, d_end) = decls(&s, p2);
    let p3 = skip(&s, d_end);
    if p3 == s.len() {
        match decls {
            Ok(ds) => Some(Ok(File { package, uses, decls: ds })),
            Err(x) => Some(Err(x)),
        }
    } else {
        None
    }
}

} // verus!
