use lib::ast::RpModifier;
use lib::backend::model::{
    Decl, Environment, Field, InterfaceDecl, Member, MessageDecl, Package, SubType, Type, TypeDecl,
    UsedPackage,
};
use lib::backend::naming::{Naming, ToUpperCamel};
use lib::backend::processor::{JavaFile, NoListeners, Options, ProcessError, ProcessErrorView, Processor};
use lib::java::elements::{ClassSpecView, InterfaceSpecView};

fn package(parts: &[&str]) -> Package {
    Package::new(parts.iter().map(|p| p.to_string()).collect())
}

fn field(name: &str, modifier: RpModifier, ty: Type) -> Member {
    Member::Field(Field { modifier, name: name.to_string(), ty })
}

fn all_files(output: (Vec<JavaFile>, Result<(), ProcessError>)) -> Vec<JavaFile> {
    let (files, result) = output;
    assert!(result.is_ok());
    files
}

fn options(convert: bool) -> Options<ToUpperCamel> {
    Options {
        out_path: "out".to_string(),
        id_converter: if convert { Some(ToUpperCamel) } else { None },
    }
}

const POINT_JAVA: &str = "package com.example.foo.bar;

public class Point {
  private final int first;
  private final String second;
  private final double third;
  private final long field3;

  public Point(final int first, final String second, final double third, final long field3) {
    this.first = first;
    this.second = second;
    this.third = third;
    this.field3 = field3;
  }

  public int getFirst() {
    return this.first;
  }

  public String getSecond() {
    return this.second;
  }

  public double getThird() {
    return this.third;
  }

  public long getField3() {
    return this.field3;
  }
}
";

#[test]
fn tuple_type_becomes_value_class() {
    let env = Environment {
        types: vec![(
            package(&["foo", "bar"]),
            Decl::Type(TypeDecl {
                name: "Point".to_string(),
                value: Type::Tuple(vec![Type::I32, Type::String, Type::Double, Type::U64]),
            }),
        )],
        uses: vec![],
    };
    let options = options(false);
    let processor = Processor::new(&options, &env, Some(package(&["com", "example"])));
    let files = all_files(processor.process(&NoListeners));
    assert_eq!(1, files.len());
    assert_eq!(vec!["com", "example", "foo", "bar"], files[0].dir);
    assert_eq!("Point.java", files[0].name);
    assert_eq!(POINT_JAVA, files[0].content);
}

const USER_JAVA: &str = "package foo;

import java.util.List;
import java.util.Optional;

public class User {
  private final String name;
  private final Optional<List<String>> tags;

  public User(final String name, final Optional<List<String>> tags) {
    this.name = name;
    this.tags = tags;
  }

  public String getName() {
    return this.name;
  }

  public Optional<List<String>> getTags() {
    return this.tags;
  }

  // extra
}
";

#[test]
fn message_fields_and_code() {
    let env = Environment {
        types: vec![(
            package(&["foo"]),
            Decl::Message(MessageDecl {
                name: "User".to_string(),
                members: vec![
                    field("name", RpModifier::Required, Type::String),
                    field("tags", RpModifier::Optional, Type::Array(Box::new(Type::String))),
                    Member::Code("java".to_string(), vec!["// extra".to_string()]),
                ],
            }),
        )],
        uses: vec![],
    };
    let options = options(false);
    let processor = Processor::new(&options, &env, None);
    let files = all_files(processor.process(&NoListeners));
    assert_eq!(vec!["foo"], files[0].dir);
    assert_eq!("User.java", files[0].name);
    assert_eq!(USER_JAVA, files[0].content);
}

const SHAPE_JAVA: &str = "package geo;

public interface Shape {
  public static class Circle {
    private final long id;
    private final double radius;

    public Circle(final long id, final double radius) {
      this.id = id;
      this.radius = radius;
    }

    public long getId() {
      return this.id;
    }

    public double getRadius() {
      return this.radius;
    }
  }

  public static class Square {
    private final long id;
    private final float side;

    public Square(final long id, final float side) {
      this.id = id;
      this.side = side;
    }

    public long getId() {
      return this.id;
    }

    public float getSide() {
      return this.side;
    }
  }
}
";

#[test]
fn interface_sub_types_share_fields() {
    let env = Environment {
        types: vec![(
            package(&["geo"]),
            Decl::Interface(InterfaceDecl {
                name: "Shape".to_string(),
                members: vec![field("id", RpModifier::Required, Type::U64)],
                sub_types: vec![
                    SubType {
                        name: "Circle".to_string(),
                        members: vec![field("radius", RpModifier::Required, Type::Double)],
                    },
                    SubType {
                        name: "Square".to_string(),
                        members: vec![field("side", RpModifier::Required, Type::Float)],
                    },
                ],
            }),
        )],
        uses: vec![],
    };
    let options = options(false);
    let processor = Processor::new(&options, &env, None);
    let files = all_files(processor.process(&NoListeners));
    assert_eq!("Shape.java", files[0].name);
    assert_eq!(SHAPE_JAVA, files[0].content);
}

#[test]
fn used_and_custom_types_and_maps() {
    let env = Environment {
        types: vec![(
            package(&["geo"]),
            Decl::Message(MessageDecl {
                name: "Atlas".to_string(),
                members: vec![field(
                    "places",
                    RpModifier::Required,
                    Type::Mapping(
                        Box::new(Type::Custom("Name".to_string())),
                        Box::new(Type::UsedType("c".to_string(), "Point".to_string())),
                    ),
                )],
            }),
        )],
        uses: vec![UsedPackage {
            package: package(&["geo"]),
            alias: "c".to_string(),
            target: package(&["common"]),
        }],
    };
    let options = options(false);
    let processor = Processor::new(&options, &env, Some(package(&["x"])));
    let files = all_files(processor.process(&NoListeners));
    let content = &files[0].content;
    assert!(content.starts_with("package x.geo;\n\nimport java.util.Map;\nimport x.common.Point;\n\npublic class Atlas {\n"));
    assert!(content.contains("  private final Map<Name, Point> places;\n"));
}

#[test]
fn unsupported_and_unknown_types_fail() {
    let boolean_env = Environment {
        types: vec![(
            package(&["a"]),
            Decl::Message(MessageDecl {
                name: "Flag".to_string(),
                members: vec![field("on", RpModifier::Required, Type::Boolean)],
            }),
        )],
        uses: vec![],
    };
    let options = options(false);
    let processor = Processor::new(&options, &boolean_env, None);
    let (files, result) = processor.process(&NoListeners);
    assert!(files.is_empty());
    match result {
        Err(ProcessError::UnsupportedType(message)) => assert_eq!("Unsupported type: Boolean", message),
        _ => panic!("expected an unsupported type"),
    }

    let unknown_env = Environment {
        types: vec![(
            package(&["a"]),
            Decl::Type(TypeDecl {
                name: "Pair".to_string(),
                value: Type::Tuple(vec![Type::UsedType("nope".to_string(), "X".to_string())]),
            }),
        )],
        uses: vec![],
    };
    let processor = Processor::new(&options, &unknown_env, None);
    let (files, result) = processor.process(&NoListeners);
    assert!(files.is_empty());
    match result {
        Err(ProcessError::UnknownUse(alias)) => assert_eq!("nope", alias),
        _ => panic!("expected an unknown use"),
    }
}

#[test]
fn field_names_are_converted() {
    let env = Environment {
        types: vec![(
            package(&["a"]),
            Decl::Message(MessageDecl {
                name: "M".to_string(),
                members: vec![field("value", RpModifier::Required, Type::Any)],
            }),
        )],
        uses: vec![],
    };
    let options = options(true);
    let processor = Processor::new(&options, &env, None);
    let files = all_files(processor.process(&NoListeners));
    assert!(files[0].content.contains("  private final Object Value;\n"));
    assert!(files[0].content.contains("  public Object getValue() {\n    return this.Value;\n  }\n"));
}

#[test]
fn upper_camel_capitalizes_first_letter() {
    assert_eq!("FooBar", ToUpperCamel.convert("fooBar"));
    assert_eq!("Foo_bar", ToUpperCamel.convert("foo_bar"));
    assert_eq!("", ToUpperCamel.convert(""));
    assert_eq!("9lives", ToUpperCamel.convert("9lives"));
}

#[test]
fn java_package_prefixes() {
    let env = Environment { types: vec![], uses: vec![] };
    let options = options(false);
    let processor = Processor::new(&options, &env, Some(package(&["com", "x"])));
    assert_eq!(vec!["com", "x", "a", "b"], processor.java_package(&package(&["a", "b"])).parts);
    assert!(all_files(processor.process(&NoListeners)).is_empty());
}

struct RefuseSubTypes;

impl lib::backend::processor::Listeners for RefuseSubTypes {
    // The spec functions are only read by the verifier; nothing calls them.
    fn class_added_spec(&self, _class: ClassSpecView) -> Result<ClassSpecView, ProcessErrorView> {
        unreachable!()
    }

    fn interface_added_spec(
        &self,
        _interface: InterfaceDecl,
        _spec: InterfaceSpecView,
    ) -> Result<InterfaceSpecView, ProcessErrorView> {
        unreachable!()
    }

    fn sub_type_added_spec(
        &self,
        _interface: InterfaceDecl,
        _sub_type: SubType,
        _class: ClassSpecView,
    ) -> Result<ClassSpecView, ProcessErrorView> {
        unreachable!()
    }

    fn class_added(&self, _class: &mut lib::java::elements::ClassSpec) -> Result<(), ProcessError> {
        Ok(())
    }

    fn interface_added(
        &self,
        _interface: &InterfaceDecl,
        _interface_spec: &mut lib::java::elements::InterfaceSpec,
    ) -> Result<(), ProcessError> {
        Ok(())
    }

    fn sub_type_added(
        &self,
        _interface: &InterfaceDecl,
        _sub_type: &SubType,
        _class: &mut lib::java::elements::ClassSpec,
    ) -> Result<(), ProcessError> {
        Err(ProcessError::Listener("no sub-types".to_string()))
    }
}

struct Annotate;

impl lib::backend::processor::Listeners for Annotate {
    // The spec functions are only read by the verifier; nothing calls them.
    fn class_added_spec(&self, _class: ClassSpecView) -> Result<ClassSpecView, ProcessErrorView> {
        unreachable!()
    }

    fn interface_added_spec(
        &self,
        _interface: InterfaceDecl,
        _spec: InterfaceSpecView,
    ) -> Result<InterfaceSpecView, ProcessErrorView> {
        unreachable!()
    }

    fn sub_type_added_spec(
        &self,
        _interface: InterfaceDecl,
        _sub_type: SubType,
        _class: ClassSpecView,
    ) -> Result<ClassSpecView, ProcessErrorView> {
        unreachable!()
    }

    fn class_added(&self, class: &mut lib::java::elements::ClassSpec) -> Result<(), ProcessError> {
        let annotation = lib::java::specs::AnnotationSpec::new(lib::java::types::Type::class(
            "com.fasterxml.jackson.annotation",
            "JsonAutoDetect",
        ));
        class.push_annotation(&annotation);
        Ok(())
    }

    fn interface_added(
        &self,
        _interface: &InterfaceDecl,
        _interface_spec: &mut lib::java::elements::InterfaceSpec,
    ) -> Result<(), ProcessError> {
        Ok(())
    }

    fn sub_type_added(
        &self,
        _interface: &InterfaceDecl,
        _sub_type: &SubType,
        _class: &mut lib::java::elements::ClassSpec,
    ) -> Result<(), ProcessError> {
        Ok(())
    }
}

fn shape_env() -> Environment {
    Environment {
        types: vec![(
            package(&["geo"]),
            Decl::Interface(InterfaceDecl {
                name: "Shape".to_string(),
                members: vec![],
                sub_types: vec![SubType { name: "Dot".to_string(), members: vec![] }],
            }),
        )],
        uses: vec![],
    }
}

#[test]
fn listeners_can_refuse() {
    let env = shape_env();
    let options = options(false);
    let processor = Processor::new(&options, &env, None);
    let (files, result) = processor.process(&RefuseSubTypes);
    assert!(files.is_empty());
    match result {
        Err(ProcessError::Listener(message)) => assert_eq!("no sub-types", message),
        _ => panic!("expected a listener error"),
    }
}

#[test]
fn listeners_can_change_classes() {
    let env = Environment {
        types: vec![(
            package(&["a"]),
            Decl::Type(TypeDecl { name: "Unit".to_string(), value: Type::Any }),
        )],
        uses: vec![],
    };
    let options = options(false);
    let processor = Processor::new(&options, &env, None);
    let files = all_files(processor.process(&Annotate));
    assert_eq!(
        "package a;\n\nimport com.fasterxml.jackson.annotation.JsonAutoDetect;\n\n@JsonAutoDetect\npublic class Unit {\n  public Unit() {\n  }\n}\n",
        files[0].content
    );
}

#[test]
fn files_before_a_failure_are_kept() {
    let mut env = Environment::new();
    env.insert_type(
        package(&["a"]),
        Decl::Message(MessageDecl { name: "Good".to_string(), members: vec![] }),
    );
    env.insert_type(
        package(&["a"]),
        Decl::Message(MessageDecl {
            name: "Bad".to_string(),
            members: vec![field("b", RpModifier::Required, Type::Bytes)],
        }),
    );
    env.insert_type(
        package(&["a"]),
        Decl::Message(MessageDecl { name: "Later".to_string(), members: vec![] }),
    );
    let options = options(false);
    let processor = Processor::new(&options, &env, None);
    let (files, result) = processor.process(&NoListeners);
    assert_eq!(1, files.len());
    assert_eq!("Good.java", files[0].name);
    match result {
        Err(ProcessError::UnsupportedType(message)) => assert_eq!("Unsupported type: Bytes", message),
        _ => panic!("expected an unsupported type"),
    }
}

#[test]
fn inserting_a_declaration_again_replaces_it() {
    let mut env = Environment::new();
    env.insert_type(package(&["a"]), Decl::Type(TypeDecl { name: "T".to_string(), value: Type::Any }));
    env.insert_type(package(&["b"]), Decl::Type(TypeDecl { name: "T".to_string(), value: Type::Any }));
    env.insert_type(
        package(&["a"]),
        Decl::Type(TypeDecl { name: "T".to_string(), value: Type::Tuple(vec![Type::I32]) }),
    );
    assert_eq!(2, env.types.len());
    assert_eq!(vec!["a".to_string()], env.types[0].0.parts);
    match &env.types[0].1 {
        Decl::Type(t) => assert!(matches!(t.value, Type::Tuple(_))),
        _ => panic!("expected a type"),
    }
}

#[test]
fn unsupported_type_message_names_the_type() {
    let env = Environment {
        types: vec![(
            package(&["a"]),
            Decl::Message(MessageDecl {
                name: "M".to_string(),
                members: vec![field(
                    "t",
                    RpModifier::Required,
                    Type::Array(Box::new(Type::Tuple(vec![
                        Type::I32,
                        Type::Custom("Na\"me\n\u{1}".to_string()),
                        Type::UsedType("c".to_string(), "P".to_string()),
                    ]))),
                )],
            }),
        )],
        uses: vec![],
    };
    let options = options(false);
    let processor = Processor::new(&options, &env, None);
    let (_, result) = processor.process(&NoListeners);
    // The same type written with a derived `Debug`, as the message quotes it.
    let mirror = DebugType::Tuple(vec![
        DebugType::I32,
        DebugType::Custom("Na\"me\n\u{1}".to_string()),
        DebugType::UsedType("c".to_string(), "P".to_string()),
    ]);
    let expected = format!("Unsupported type: {:?}", mirror);
    assert_eq!(
        "Unsupported type: Tuple([I32, Custom(\"Na\\\"me\\n\\u{1}\"), UsedType(\"c\", \"P\")])",
        expected
    );
    match result {
        Err(ProcessError::UnsupportedType(message)) => assert_eq!(expected, message),
        _ => panic!("expected an unsupported type"),
    }
}

#[allow(dead_code)]
#[derive(Debug)]
enum DebugType {
    I32,
    Custom(String),
    UsedType(String, String),
    Tuple(Vec<DebugType>),
}

#[test]
fn unsupported_type_message_writes_maps() {
    let env = Environment {
        types: vec![(
            package(&["a"]),
            Decl::Type(TypeDecl {
                name: "T".to_string(),
                value: Type::Tuple(vec![Type::Tuple(vec![
                    Type::Mapping(Box::new(Type::String), Box::new(Type::Array(Box::new(Type::Any)))),
                    Type::Boolean,
                ])]),
            }),
        )],
        uses: vec![],
    };
    let options = options(false);
    let processor = Processor::new(&options, &env, None);
    let (_, result) = processor.process(&NoListeners);
    match result {
        Err(ProcessError::UnsupportedType(message)) => assert_eq!(
            "Unsupported type: Tuple([Map(String, Array(Any)), Boolean])",
            message
        ),
        _ => panic!("expected an unsupported type"),
    }
}
