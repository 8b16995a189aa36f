use lib::ast::{AstLoc, Decl, FieldInit, Instance, Member, RpName, RpPackage, RpType, RpValue};
use lib::parser::decls::parse_file;
use lib::parser::lexical::{chars_of, comment};
use lib::parser::members::{code_block, code_body, member, option_decl};
use lib::parser::type_spec::type_spec;
use lib::parser::values::value;

/// The type of a whole input.
fn parse_type_spec(input: &str) -> RpType {
    let s = chars_of(input);
    let (ty, end) = type_spec(&s, 0).expect("type_spec");
    assert_eq!(s.len(), end);
    ty.unwrap()
}

/// The value at the start of an input.
fn parse_value(input: &str) -> RpValue {
    let s = chars_of(input);
    let (v, _) = value(&s, 0).expect("value");
    v.unwrap()
}

fn number(v: &RpValue) -> f64 {
    match v {
        RpValue::Number(text) => text.parse::<f64>().unwrap(),
        _ => panic!("not a number"),
    }
}

#[test]
fn test_array() {
    let ty = parse_type_spec("[string]");

    if let RpType::Array(inner) = ty {
        if let RpType::String = *inner {
            return;
        }
    }

    panic!("Expected Type::Array(Type::String)");
}

#[test]
fn test_map() {
    let ty = parse_type_spec("{string: unsigned/123}");

    if let RpType::Mapping(key, value) = ty {
        if let RpType::String = *key {
            if let RpType::Unsigned(size) = *value {
                assert_eq!(Some(123usize), size);
                return;
            }
        }
    }

    panic!("Expected Type::Array(Type::String)");
}

#[test]
fn test_block_comment() {
    let s = chars_of("/* hello \n world */");
    assert!(comment(&s, 0).is_some());
}

#[test]
fn test_line_comment() {
    let s = chars_of("// hello world\n");
    assert!(comment(&s, 0).is_some());
}

#[test]
fn test_code_block() {
    let s = chars_of("a { b { c } d } e");
    let end = code_body(&s, 0);
    assert!(end > 0);
    assert_eq!(s.len(), end);
}

#[test]
fn test_code() {
    let s = chars_of("java{{\na { b { c } d } e\n}}");
    let (context, content, end) = code_block(&s, 0).expect("code_block");
    assert_eq!("java", context);
    assert_eq!("\na { b { c } d } e\n", content);
    assert_eq!(s.len(), end);
}

#[test]
fn test_instance() {
    let c = RpName {
        prefix: None,
        parts: vec!["Foo".to_owned(), "Bar".to_owned()],
    };

    let field = FieldInit {
        name: AstLoc::new("hello".to_owned(), (8, 13)),
        value: AstLoc::new(RpValue::Number("12".to_owned()), (15, 17)),
    };

    let field = AstLoc::new(field, (8, 17));

    let instance = Instance {
        ty: c,
        arguments: AstLoc::new(vec![field], (7, 18)),
    };

    assert_eq!(RpValue::Instance(AstLoc::new(instance, (0, 18))), parse_value("Foo.Bar(hello: 12)"));
}

#[test]
fn test_values() {
    assert_eq!(RpValue::String("foo\nbar".to_owned()), parse_value("\"foo\\nbar\""));
    assert_eq!(1f64, number(&parse_value("1")));
    assert_eq!(1.25f64, number(&parse_value("1.25")));
}

#[test]
fn test_type_spec() {
    let c = RpName {
        prefix: None,
        parts: vec!["Hello".to_owned(), "World".to_owned()],
    };

    assert_eq!(RpType::String, parse_type_spec("string"));
    assert_eq!(RpType::Name(c), parse_type_spec("Hello.World"));
}

#[test]
fn test_option_decl() {
    let s = chars_of("foo_bar_baz true, foo, \"bar\", 12;");
    let (_, end) = option_decl(&s, 0).expect("option_decl");
    assert_eq!(s.len(), end);

    if let Some((Ok(Member::Option(option)), _)) = member(&s, 0) {
        let option = option.inner;
        assert_eq!("foo_bar_baz", option.name);
        assert_eq!(4, option.values.len());

        assert_eq!(RpValue::Boolean(true), option.values[0].inner);
        assert_eq!(RpValue::Identifier("foo".to_owned()), option.values[1].inner);
        assert_eq!(RpValue::String("bar".to_owned()), option.values[2].inner);
        assert_eq!(12f64, number(&option.values[3].inner));
        return;
    }

    panic!("option did not match");
}

#[test]
fn type_spec_sizes_keywords_and_prefixes() {
    assert_eq!(RpType::Signed(None), parse_type_spec("signed"));
    assert_eq!(RpType::Signed(Some(32)), parse_type_spec("signed/32"));
    assert_eq!(RpType::Boolean, parse_type_spec("boolean"));
    assert_eq!(RpType::Bytes, parse_type_spec("bytes"));
    assert_eq!(RpType::Any, parse_type_spec("any"));
    assert_eq!(RpType::Float, parse_type_spec("float"));
    assert_eq!(RpType::Double, parse_type_spec("double"));
    assert_eq!(
        RpType::Name(RpName { prefix: Some("c".to_owned()), parts: vec!["Point".to_owned()] }),
        parse_type_spec("c::Point")
    );
    assert_eq!(
        RpType::Array(Box::new(RpType::Mapping(Box::new(RpType::String), Box::new(RpType::Any)))),
        parse_type_spec("[ /* list */ { string : any } ]")
    );
    let s = chars_of("unsigned/99999999999999999999999");
    let (r, end) = type_spec(&s, 0).unwrap();
    assert_eq!(s.len(), end);
    assert!(r.is_err());
    let s = chars_of("unsigned/0123");
    let (r, end) = type_spec(&s, 0).unwrap();
    assert_eq!(RpType::Unsigned(Some(0)), r.unwrap());
    assert_eq!(10, end);
    assert!(type_spec(&chars_of("?"), 0).is_none());
}

#[test]
fn values_arrays_constants_and_errors() {
    let v = parse_value("[1, true, foo]");
    if let RpValue::Array(items) = v {
        assert_eq!(3, items.len());
        assert_eq!((1, 2), items[0].pos);
        assert_eq!(RpValue::Boolean(true), items[1].inner);
        assert_eq!((4, 8), items[1].pos);
        assert_eq!(RpValue::Identifier("foo".to_owned()), items[2].inner);
    } else {
        panic!("expected an array");
    }
    assert_eq!(RpValue::Array(vec![]), parse_value("[ ]"));
    let constant = RpName { prefix: None, parts: vec!["Foo".to_owned()] };
    assert_eq!(RpValue::Constant(AstLoc::new(constant, (0, 3))), parse_value("Foo"));
    assert_eq!(RpValue::Number("-1.5e3".to_owned()), parse_value("-1.5e3"));
    let s = chars_of("\"a\\qb\"");
    assert!(value(&s, 0).is_none());
    let s = chars_of("\"a\\/b\"");
    let (r, end) = value(&s, 0).unwrap();
    assert!(r.is_err());
    assert_eq!(s.len(), end);
}

#[test]
fn members_fields_matches_and_code() {
    let s = chars_of("name?: [string] as \"n\";");
    match member(&s, 0) {
        Some((Ok(Member::Field(f)), end)) => {
            assert_eq!(s.len(), end);
            assert_eq!("name", f.name);
            assert_eq!(lib::ast::RpModifier::Optional, f.modifier);
            assert_eq!(RpType::Array(Box::new(RpType::String)), f.ty);
            assert_eq!(RpValue::String("n".to_owned()), f.field_as.unwrap().inner);
        },
        _ => panic!("expected a field"),
    }
    let s = chars_of("match { x: string => x; \"a\" => 1; }");
    match member(&s, 0) {
        Some((Ok(Member::Match(m)), end)) => {
            assert_eq!(s.len(), end);
            assert_eq!(2, m.members.len());
        },
        _ => panic!("expected a match"),
    }
    let s = chars_of("python {{\n    a\n      b\n}}");
    match member(&s, 0) {
        Some((Ok(Member::Code(context, lines)), end)) => {
            assert_eq!(s.len(), end);
            assert_eq!("python", context);
            assert_eq!(vec!["a".to_owned(), "  b".to_owned()], lines);
        },
        _ => panic!("expected code"),
    }
}

#[test]
fn file_with_uses_and_declarations() {
    let input = "package foo.bar.baz;\n\nuse common as c;\n\n// a type\ntype Foo {\n  name: string;\n}\n\ntuple Pair {\n  a: signed/32;\n  b: c::Point;\n}\n\ninterface Shape {\n  id: string;\n  Circle {\n    radius: double;\n  }\n}\n\nenum Color {\n  Red(\"r\") = 1;\n  Green;\n  java {{\n    int x;\n  }}\n}\n";
    let f = parse_file(input).expect("file").expect("values");
    assert_eq!(RpPackage::new(vec!["foo".to_owned(), "bar".to_owned(), "baz".to_owned()]), f.package.inner);
    assert_eq!(1, f.uses.len());
    assert_eq!(Some("c".to_owned()), f.uses[0].inner.alias);
    assert_eq!(4, f.decls.len());
    match &f.decls[0].inner {
        Decl::Type(b) => {
            assert_eq!("Foo", b.name);
            assert_eq!(1, b.members.len());
        },
        _ => panic!("expected a type"),
    }
    match &f.decls[2].inner {
        Decl::Interface(b) => {
            assert_eq!("Shape", b.name);
            assert_eq!(1, b.members.len());
            assert_eq!(1, b.sub_types.len());
            assert_eq!("Circle", b.sub_types[0].inner.name);
        },
        _ => panic!("expected an interface"),
    }
    match &f.decls[3].inner {
        Decl::Enum(b) => {
            assert_eq!(2, b.values.len());
            assert_eq!(1, b.values[0].inner.arguments.len());
            assert!(b.values[0].inner.ordinal.is_some());
            assert_eq!(1, b.members.len());
        },
        _ => panic!("expected an enum"),
    }
}

#[test]
fn file_must_start_with_package_and_end_cleanly() {
    assert!(parse_file("type Foo {}").is_none());
    assert!(parse_file("package foo; type Foo { } trailing").is_none());
    assert!(parse_file("package foo; type Foo { } /* done */ \n").is_some());
}

// A file of the package `foo.bar.baz` with four declarations: a type, a
// tuple, an enum and an interface.
const FILE1: &str = "package foo.bar.baz;

use foo.common as c;

type Foo {
  name: string;
  values?: [unsigned/32];
}

tuple Pair {
  first: string;
  second: c::Point;
}

enum Color {
  Red(\"red\");
  Blue(\"blue\");

  name: string;
}

interface Entry {
  id: string;

  A {
    a: double;
  }
}
";

// A file with a single interface and its two sub-types.
const INTERFACE1: &str = "package foo.bar.baz;

interface Shape {
  // every shape has a name
  name: string;

  Circle {
    radius: double;
  }

  Square {
    side: double;

    java {{
      public double area() { return side * side; }
    }}
  }
}
";

#[test]
fn test_file1() {
    let file = parse_file(FILE1).expect("file").unwrap();

    let package = RpPackage::new(vec!["foo".to_owned(), "bar".to_owned(), "baz".to_owned()]);

    assert_eq!(package, file.package.inner);
    assert_eq!(4, file.decls.len());
}

#[test]
fn test_interface() {
    let file = parse_file(INTERFACE1).expect("file").unwrap();

    assert_eq!(1, file.decls.len());
    match &file.decls[0].inner {
        Decl::Interface(body) => assert_eq!(2, body.sub_types.len()),
        _ => panic!("expected an interface"),
    }
}
