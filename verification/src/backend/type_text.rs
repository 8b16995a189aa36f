//! The text of a declared type as Rust's derived `Debug` writes it, for the
//! messages of errors about types.

use vstd::prelude::*;
use crate::text::{join, concat, lemma_join_push, push_char};
use crate::java::laws::lemma_concat_push;
use crate::backend::model::{Type, TypeModel, type_model};

verus! {

/// A lower-case hex digit.
pub open spec fn hex_char(d: nat) -> char {
    if d < 10 {
        ((d + 48) as u8) as char
    } else {
        ((d + 87) as u8) as char
    }
}

/// The lower-case hex digits of a number, without leading zeros.
pub open spec fn hex_digits(n: nat) -> Seq<char>
    decreases n,
{
    if n < 16 {
        seq![hex_char(n)]
    } else {
        hex_digits(n / 16).push(hex_char(n % 16))
    }
}

/// A character inside a quoted string: the escapes `\0`, `\t`, `\r`, `\n`,
/// `\\` and `\"`; other ASCII control characters as `\u{..}` in hex; every
/// other character as itself.
pub open spec fn char_debug(c: char) -> Seq<char> {
    if c == '\0' {
        seq!['\\', '0']
    } else if c == '\t' {
        seq!['\\', 't']
    } else if c == '\r' {
        seq!['\\', 'r']
    } else if c == '\n' {
        seq!['\\', 'n']
    } else if c == '\\' {
        seq!['\\', '\\']
    } else if c == '"' {
        seq!['\\', '"']
    } else if (c as u32) < 0x20 || (c as u32) == 0x7f {
        seq!['\\', 'u', '{'] + hex_digits(c as nat) + seq!['}']
    } else {
        seq![c]
    }
}

/// A string in double quotes, with its characters escaped.
pub open spec fn str_debug(s: Seq<char>) -> Seq<char> {
    seq!['"'] + concat(s.map_values(|c: char| char_debug(c))) + seq!['"']
}

/// The text of a type: the variant's name, followed by its fields in
/// parentheses, separated by `, `; a tuple's elements in brackets.
pub open spec fn type_debug(t: TypeModel) -> Seq<char>
    decreases t, 1int,
{
    match t {
        TypeModel::Double => "Double"@,
        TypeModel::Float => "Float"@,
        TypeModel::I32 => "I32"@,
        TypeModel::U32 => "U32"@,
        TypeModel::I64 => "I64"@,
        TypeModel::U64 => "U64"@,
        TypeModel::Boolean => "Boolean"@,
        TypeModel::String => "String"@,
        TypeModel::Bytes => "Bytes"@,
        TypeModel::Any => "Any"@,
        TypeModel::Array(inner) => "Array("@ + type_debug(*inner) + ")"@,
        TypeModel::Mapping(k, v) => "Map("@ + type_debug(*k) + ", "@ + type_debug(*v) + ")"@,
        TypeModel::Custom(name) => "Custom("@ + str_debug(name) + ")"@,
        TypeModel::UsedType(alias, name) => "UsedType("@ + str_debug(alias) + ", "@ + str_debug(name) + ")"@,
        TypeModel::Tuple(_) => "Tuple(["@ + join(tuple_texts(t), ", "@) + "])"@,
    }
}

/// The texts of a tuple's elements.
pub open spec fn tuple_texts(t: TypeModel) -> Seq<Seq<char>>
    decreases t, 0int,
{
    match t {
        TypeModel::Tuple(items) => Seq::new(
            items.len(),
            |i: int|
                if 0 <= i < items.len() {
                    type_debug(items[i])
                } else {
                    Seq::empty()
                },
        ),
        _ => Seq::empty(),
    }
}

/// The hex digits of a number.
fn hex_text(n: u32) -> (r: String)
    ensures
        r@ == hex_digits(n as nat),
    decreases n,
{
    let d: u32 = n % 16;
    let c: char = if d < 10 {
        ((d as u8) + 48) as char
    } else {
        ((d as u8) + 87) as char
    };
    if n < 16 {
        let mut s = String::new();
        push_char(&mut s, c);
        assert(s@ =~= hex_digits(n as nat));
        s
    } else {
        let mut s = hex_text(n / 16);
        push_char(&mut s, c);
        s
    }
}

/// Appends a character as it stands inside a quoted string.
fn push_char_debug(out: &mut String, c: char)
    ensures
        final(out)@ == old(out)@ + char_debug(c),
{
    if c == '\0' {
        out.append("\\0");
    } else if c == '\t' {
        out.append("\\t");
    } else if c == '\r' {
        out.append("\\r");
    } else if c == '\n' {
        out.append("\\n");
    } else if c == '\\' {
        out.append("\\\\");
    } else if c == '"' {
        out.append("\\\"");
    } else if (c as u32) < 0x20 || (c as u32) == 0x7f {
        out.append("\\u{");
        let h = hex_text(c as u32);
        out.append(h.as_str());
        out.append("}");
    } else {
        push_char(out, c);
    }
    proof {
        reveal_strlit("\\0");
        reveal_strlit("\\t");
        reveal_strlit("\\r");
        reveal_strlit("\\n");
        reveal_strlit("\\\\");
        reveal_strlit("\\\"");
        reveal_strlit("\\u{");
        reveal_strlit("}");
    }
    assert(final(out)@ =~= old(out)@ + char_debug(c));
}

/// Appends a string in double quotes, with its characters escaped.
fn push_str_debug(out: &mut String, s: &String)
    ensures
        final(out)@ == old(out)@ + str_debug(s@),
{
    push_char(out, '"');
    let ghost start = out@;
    let n = s.as_str().unicode_len();
    let mut i: usize = 0;
    assert(s@.take(0).map_values(|c: char| char_debug(c)) =~= Seq::<Seq<char>>::empty());
    while i < n
        invariant
            0 <= i <= n,
            n == s@.len(),
            out@ == start + concat(s@.take(i as int).map_values(|c: char| char_debug(c))),
        decreases n - i,
    {
        let c = s.as_str().get_char(i);
        let ghost before = s@.take(i as int).map_values(|c: char| char_debug(c));
        push_char_debug(out, c);
        proof {
            assert(s@.take(i + 1).map_values(|c: char| char_debug(c)) =~= before.push(char_debug(c)));
            lemma_concat_push(before, char_debug(c));
        }
        assert(out@ =~= start + concat(s@.take(i + 1).map_values(|c: char| char_debug(c))));
        i += 1;
    }
    assert(s@.take(n as int) =~= s@);
    push_char(out, '"');
    assert(out@ =~= old(out)@ + str_debug(s@));
}

/// Appends the text of a type.
fn push_type_debug(out: &mut String, t: &Type)
    ensures
        final(out)@ == old(out)@ + type_debug(type_model(*t)),
    decreases t, 1int,
{
    proof {
        reveal_strlit("Double");
        reveal_strlit("Float");
        reveal_strlit("I32");
        reveal_strlit("U32");
        reveal_strlit("I64");
        reveal_strlit("U64");
        reveal_strlit("Boolean");
        reveal_strlit("String");
        reveal_strlit("Bytes");
        reveal_strlit("Any");
    }
    match t {
        Type::Double => out.append("Double"),
        Type::Float => out.append("Float"),
        Type::I32 => out.append("I32"),
        Type::U32 => out.append("U32"),
        Type::I64 => out.append("I64"),
        Type::U64 => out.append("U64"),
        Type::Boolean => out.append("Boolean"),
        Type::String => out.append("String"),
        Type::Bytes => out.append("Bytes"),
        Type::Any => out.append("Any"),
        Type::Array(inner) => {
            out.append("Array(");
            push_type_debug(out, &**inner);
            out.append(")");
            assert(out@ =~= old(out)@ + type_debug(type_model(*t)));
        },
        Type::Mapping(k, v) => {
            out.append("Map(");
            push_type_debug(out, &**k);
            out.append(", ");
            push_type_debug(out, &**v);
            out.append(")");
            assert(out@ =~= old(out)@ + type_debug(type_model(*t)));
        },
        Type::Custom(name) => {
            out.append("Custom(");
            push_str_debug(out, name);
            out.append(")");
            assert(out@ =~= old(out)@ + type_debug(type_model(*t)));
        },
        Type::UsedType(alias, name) => {
            out.append("UsedType(");
            push_str_debug(out, alias);
            out.append(", ");
            push_str_debug(out, name);
            out.append(")");
            assert(out@ =~= old(out)@ + type_debug(type_model(*t)));
        },
        Type::Tuple(items) => {
            out.append("Tuple([");
            push_tuple_debug(out, t, items);
            out.append("])");
            assert(out@ =~= old(out)@ + type_debug(type_model(*t)));
        },
    }
}

/// Appends the texts of a tuple's elements, separated by `, `.
fn push_tuple_debug(out: &mut String, t: &Type, items: &Vec<Type>)
    requires
        *t == Type::Tuple(*items),
    ensures
        final(out)@ == old(out)@ + join(tuple_texts(type_model(*t)), ", "@),
    decreases t, 0int,
{
    let ghost start = out@;
    let ghost texts = tuple_texts(type_model(*t));
    assert(texts.len() == items@.len());
    let mut i: usize = 0;
    assert(join(texts.take(0), ", "@) =~= Seq::<char>::empty());
    while i < items.len()
        invariant
            0 <= i <= items.len(),
            *t == Type::Tuple(*items),
            texts == tuple_texts(type_model(*t)),
            texts.len() == items@.len(),
            out@ == start + join(texts.take(i as int), ", "@),
        decreases items.len() - i,
    {
        let ghost before = texts.take(i as int);
        proof {
            reveal_strlit(", ");
            let v = (*t)->Tuple_0;
            assert(decreases_to!(*t => v));
            assert(v == *items);
            assert(decreases_to!(v => v@));
            assert(decreases_to!(v@ => v@[i as int]));
            assert(texts[i as int] == type_debug(type_model(items@[i as int])));
            lemma_join_push(before, ", "@, texts[i as int]);
            assert(texts.take(i + 1) =~= before.push(texts[i as int]));
        }
        if i > 0 {
            out.append(", ");
        }
        push_type_debug(out, &items[i]);
        assert(out@ =~= start + join(texts.take(i + 1), ", "@));
        i += 1;
    }
    assert(texts.take(items.len() as int) =~= texts);
}

/// The text of a type as the derived `Debug` writes it.
pub fn type_debug_text(t: &Type) -> (r: String)
    ensures
        r@ == type_debug(type_model(*t)),
{
    let mut out = String::new();
    push_type_debug(&mut out, t);
    assert(out@ =~= type_debug(type_model(*t)));
    out
}

} // verus!
