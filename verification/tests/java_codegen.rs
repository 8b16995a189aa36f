use lib::java::elements::ClassSpec;
use lib::java::file_spec::FileSpec;
use lib::java::modifiers::{mods, Modifier};
use lib::java::specs::{AnnotationSpec, ArgumentSpec, ConstructorSpec, FieldSpec, MethodSpec};
use lib::java::statement::Statement;
use lib::java::types::Type;

const TEST_JAVA: &str = "package se.tedro;

import com.fasterxml.jackson.annotation.JsonCreator;
import java.util.List;

public class Test {
  private final List<String> values;

  @JsonCreator
  public Test(final List<String> values) {
    this.values = values;
  }

  public List<String> getValues() {
    return this.values;
  }
}
";

#[test]
fn test_test_java() {
    let string_type = Type::class("java.lang", "String");
    let list_type = Type::class("java.util", "List");
    let json_creator_type = Type::class("com.fasterxml.jackson.annotation", "JsonCreator");
    let list_of_strings = list_type.with_arguments(vec![&string_type]);

    let values_field = FieldSpec::new(mods(&[Modifier::Private, Modifier::Final]),
                                      &list_of_strings,
                                      "values");

    let values_argument = ArgumentSpec::new(mods(&[Modifier::Final]), &list_of_strings, "values");

    let mut constructor = ConstructorSpec::new(mods(&[Modifier::Public]));
    constructor.push_annotation(AnnotationSpec::new(json_creator_type));
    constructor.push_argument(&values_argument);
    let mut assign = Statement::new();
    assign.push("this.values = ");
    assign.push(values_argument);
    constructor.push(assign);

    let mut values_getter = MethodSpec::new(mods(&[Modifier::Public]), "getValues");
    values_getter.set_returns(&list_of_strings);
    let mut ret = Statement::new();
    ret.push("return this.");
    ret.push(&values_field);
    values_getter.push(ret);

    let mut class = ClassSpec::new(mods(&[Modifier::Public]), "Test");
    class.push_field(&values_field);
    class.push_constructor(&constructor);
    class.push_method(&values_getter);

    let mut file = FileSpec::new("se.tedro");
    file.push_class(&class);

    let result = file.format();

    let expected = TEST_JAVA;
    assert_eq!(expected, result);
}

#[test]
fn pushing_a_section_appends_its_lines() {
    let mut sections = lib::java::sections::Sections::new();
    let mut first = Statement::new();
    first.push("int a");
    sections.push(first);
    let before = sections.format(0, "", "  ");
    let mut second = Statement::new();
    second.push("int b");
    let mut one = lib::java::sections::Sections::new();
    one.push(&second);
    let alone = one.format(0, "", "  ");
    sections.push(second);
    let mut expected = before.clone();
    expected.extend(alone);
    assert_eq!(expected, sections.format(0, "", "  "));
    assert_eq!(vec!["int a;".to_string(), "int b;".to_string()], expected);
}

#[test]
fn pushing_into_a_block_goes_before_its_close() {
    let mut block = lib::java::sections::Block::new();
    let mut open = Statement::new();
    open.push("if (x)");
    block.open(open);
    let before = block.format(0, "", "  ");
    let mut body = Statement::new();
    body.push("return");
    let mut one = lib::java::sections::Sections::new();
    one.push(&body);
    let alone = one.format(0, "  ", "  ");
    block.push(body);
    let n = before.len();
    let mut expected: Vec<String> = before[..n - 1].to_vec();
    expected.extend(alone);
    expected.push(before[n - 1].clone());
    assert_eq!(expected, block.format(0, "", "  "));
    assert_eq!(vec!["if (x) {".to_string(), "  return;".to_string(), "}".to_string()], expected);
}
