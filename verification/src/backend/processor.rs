//! The Java back end: a Java class or interface for each declaration.

use vstd::prelude::*;
use crate::text::{join, join_strings};
use crate::ast::RpModifier;
use crate::java::modifiers::{Modifier, Modifiers};
use crate::java::types::{
    Type as JavaType, TypeView, type_text, ClassType, ClassTypeView, PrimitiveType, PrimitiveTypeView,
    AsType, clone_class_type, clone_primitive_type,
};
use crate::backend::model::{
    Package, Type, Field, Member, TypeDecl, MessageDecl, SubType, InterfaceDecl, Decl,
    Environment, UsedPackage, lookup_used_spec, clone_package, decl_name, type_model,
};
use crate::backend::type_text::{type_debug, type_debug_text};
use crate::backend::naming::{Naming, ToUpperCamel, upper_camel};
use crate::java::statement::{Statement, StatementView, VariableView};
use crate::java::sections::{SectionView, SectionsView};
use crate::java::specs::{
    FieldSpec, FieldSpecView, ArgumentSpec, ArgumentSpecView, ConstructorSpec, ConstructorSpecView,
    MethodSpec, MethodSpecView, AnnotationSpecView, fields_view, methods_view, stmt_of,
};
use crate::java::elements::{ClassSpec, ClassSpecView, ElementSpecView, InterfaceSpec, InterfaceSpecView};
use crate::java::file_spec::{FileSpec, FileSpecView, file_text};
use crate::text::{concat_str, strings_view, push_char};

verus! {

/// Why a declaration could not be turned into Java.
#[derive(Debug)]
pub enum ProcessError {
    /// A type that has no Java form here (booleans, bytes, nested tuples):
    /// `Unsupported type: ` and the type's debug text.
    UnsupportedType(String),
    /// A type names a package alias that no `use` of its file declares.
    UnknownUse(String),
    /// A listener refused a declaration, with its message.
    Listener(String),
}

/// The model of an error.
pub enum ProcessErrorView {
    UnsupportedType(Seq<char>),
    UnknownUse(Seq<char>),
    Listener(Seq<char>),
}

pub open spec fn error_view(e: ProcessError) -> ProcessErrorView {
    match e {
        ProcessError::UnsupportedType(m) => ProcessErrorView::UnsupportedType(m@),
        ProcessError::UnknownUse(a) => ProcessErrorView::UnknownUse(a@),
        ProcessError::Listener(m) => ProcessErrorView::Listener(m@),
    }
}

/// The options of the Java back end.
pub struct Options<N> {
    /// Where the source files go.
    pub out_path: String,
    /// The conversion of field names, if any.
    pub id_converter: Option<N>,
}

/// What the conversion of declarations depends on: the package prefix, the
/// `use` declarations and the conversion of field names.
pub struct JavaContext<N> {
    pub prefix: Option<Seq<Seq<char>>>,
    pub uses: Seq<UsedPackage>,
    pub id_converter: Option<N>,
}

/// The Java package of a package: the configured prefix followed by it.
pub open spec fn java_package_spec(prefix: Option<Seq<Seq<char>>>, package: Seq<Seq<char>>) -> Seq<Seq<char>> {
    match prefix {
        Some(p) => p + package,
        None => package,
    }
}

/// The dotted name of a Java package.
pub open spec fn package_name(parts: Seq<Seq<char>>) -> Seq<char> {
    join(parts, "."@)
}

/// A class type without generic arguments.
pub open spec fn plain_class(package: Seq<char>, name: Seq<char>) -> TypeView {
    TypeView::Class(ClassTypeView { package, name, arguments: Seq::empty() })
}

/// A class type with generic arguments.
pub open spec fn generic_class(package: Seq<char>, name: Seq<char>, arguments: Seq<TypeView>) -> TypeView {
    TypeView::Class(ClassTypeView { package, name, arguments })
}

/// A primitive type with its boxed class.
pub open spec fn primitive(primitive: Seq<char>, boxed: Seq<char>) -> TypeView {
    TypeView::Primitive(PrimitiveTypeView { primitive, boxed })
}

/// The Java type of a declared type in `package`: strings, numbers and `any`
/// map to the classes and primitives of `java.lang`, arrays to `List` and
/// maps to `Map` of `java.util`, and named types to the class of that name in
/// the Java package of their own package. Other types have no Java form.
pub open spec fn convert_type_spec<N>(ctx: JavaContext<N>, package: Seq<Seq<char>>, ty: Type) -> Result<TypeView, ProcessErrorView>
    decreases ty,
{
    match ty {
        Type::String => Ok(plain_class("java.lang"@, "String"@)),
        Type::I32 => Ok(primitive("int"@, "Integer"@)),
        Type::U32 => Ok(primitive("int"@, "Integer"@)),
        Type::I64 => Ok(primitive("long"@, "Long"@)),
        Type::U64 => Ok(primitive("long"@, "Long"@)),
        Type::Array(inner) => match convert_type_spec(ctx, package, *inner) {
            Ok(t) => Ok(generic_class("java.util"@, "List"@, seq![t])),
            Err(e) => Err(e),
        },
        Type::Custom(name) => Ok(plain_class(package_name(java_package_spec(ctx.prefix, package)), name@)),
        Type::Any => Ok(plain_class("java.lang"@, "Object"@)),
        Type::Float => Ok(primitive("float"@, "Float"@)),
        Type::Double => Ok(primitive("double"@, "Double"@)),
        Type::UsedType(alias, name) => match lookup_used_spec(ctx.uses, package, alias@) {
            Some(p) => Ok(plain_class(package_name(java_package_spec(ctx.prefix, p)), name@)),
            None => Err(ProcessErrorView::UnknownUse(alias@)),
        },
        Type::Mapping(key, value) => match convert_type_spec(ctx, package, *key) {
            Ok(k) => match convert_type_spec(ctx, package, *value) {
                Ok(v) => Ok(generic_class("java.util"@, "Map"@, seq![k, v])),
                Err(e) => Err(e),
            },
            Err(e) => Err(e),
        },
        _ => Err(ProcessErrorView::UnsupportedType("Unsupported type: "@ + type_debug(type_model(ty)))),
    }
}

/// Integer types map to Java primitives by their width, whatever the
/// package and context: 32-bit integers (signed or not) to `int`, boxed
/// `Integer`; 64-bit integers to `long`, boxed `Long`. So a 64-bit field is
/// written `long`, and a list of them `List<Long>`.
pub proof fn law_integer_types_by_width<N>(ctx: JavaContext<N>, package: Seq<Seq<char>>)
    ensures
        convert_type_spec(ctx, package, Type::I32) == Ok::<TypeView, ProcessErrorView>(
            TypeView::Primitive(PrimitiveTypeView { primitive: "int"@, boxed: "Integer"@ }),
        ),
        convert_type_spec(ctx, package, Type::U32) == Ok::<TypeView, ProcessErrorView>(
            TypeView::Primitive(PrimitiveTypeView { primitive: "int"@, boxed: "Integer"@ }),
        ),
        convert_type_spec(ctx, package, Type::I64) == Ok::<TypeView, ProcessErrorView>(
            TypeView::Primitive(PrimitiveTypeView { primitive: "long"@, boxed: "Long"@ }),
        ),
        convert_type_spec(ctx, package, Type::U64) == Ok::<TypeView, ProcessErrorView>(
            TypeView::Primitive(PrimitiveTypeView { primitive: "long"@, boxed: "Long"@ }),
        ),
        convert_type_spec(ctx, package, Type::I64) != convert_type_spec(ctx, package, Type::I32),
        convert_type_spec(ctx, package, Type::Array(Box::new(Type::I64))) matches Ok(t) && type_text(t, 0) == "List<Long>"@,
        convert_type_spec(ctx, package, Type::Array(Box::new(Type::U32))) matches Ok(t) && type_text(t, 0) == "List<Integer>"@,
{
    reveal_strlit("long");
    reveal_strlit("int");
    reveal_strlit("List<Long>");
    reveal_strlit("List<Integer>");
    let long = TypeView::Primitive(PrimitiveTypeView { primitive: "long"@, boxed: "Long"@ });
    let int32 = TypeView::Primitive(PrimitiveTypeView { primitive: "int"@, boxed: "Integer"@ });
    let list_long = ClassTypeView { package: "java.util"@, name: "List"@, arguments: seq![long] };
    let list_int = ClassTypeView { package: "java.util"@, name: "List"@, arguments: seq![int32] };
    crate::java::types::law_primitive_boxed_inside_generics(
        PrimitiveTypeView { primitive: "long"@, boxed: "Long"@ },
        list_long,
        0,
    );
    crate::java::types::law_primitive_boxed_inside_generics(
        PrimitiveTypeView { primitive: "int"@, boxed: "Integer"@ },
        list_int,
        0,
    );
    reveal_strlit("List");
    reveal_strlit("Long");
    reveal_strlit("Integer");
    reveal_strlit("<");
    reveal_strlit(">");
    assert(type_text(TypeView::Class(list_long), 0) =~= "List<Long>"@);
    assert(type_text(TypeView::Class(list_int), 0) =~= "List<Integer>"@);
}

/// The model of a conversion result.
pub open spec fn type_result(r: Result<JavaType, ProcessError>) -> Result<TypeView, ProcessErrorView> {
    match r {
        Ok(t) => Ok(t@),
        Err(e) => Err(error_view(e)),
    }
}

/// `private final`.
pub open spec fn private_final() -> Set<Modifier> {
    Set::empty().insert(Modifier::Private).insert(Modifier::Final)
}

/// `public`.
pub open spec fn public_only() -> Set<Modifier> {
    Set::empty().insert(Modifier::Public)
}

/// `final`.
pub open spec fn final_only() -> Set<Modifier> {
    Set::empty().insert(Modifier::Final)
}

/// The Java name of a field: the name converted by the configured
/// conversion, if there is one.
pub open spec fn field_name_spec<N: Naming>(conv: Option<N>, name: Seq<char>) -> Seq<char> {
    match conv {
        Some(c) => c.naming(name),
        None => name,
    }
}

/// The Java field of a declared field: `private final`, of the converted
/// type (wrapped in `java.util.Optional` if the field is optional) and with
/// the converted name.
pub open spec fn push_field_spec<N: Naming>(ctx: JavaContext<N>, package: Seq<Seq<char>>, field: Field) -> Result<FieldSpecView, ProcessErrorView> {
    match convert_type_spec(ctx, package, field.ty) {
        Ok(t) => Ok(
            FieldSpecView {
                modifiers: private_final(),
                ty: if field.modifier == RpModifier::Optional {
                    generic_class("java.util"@, "Optional"@, seq![t])
                } else {
                    t
                },
                name: field_name_spec(ctx.id_converter, field.name@),
            },
        ),
        Err(e) => Err(e),
    }
}

/// The model of a field result.
pub open spec fn field_result(r: Result<FieldSpec, ProcessError>) -> Result<FieldSpecView, ProcessErrorView> {
    match r {
        Ok(f) => Ok(f@),
        Err(e) => Err(error_view(e)),
    }
}

/// The argument of the constructor for a field: `final`, of the field's
/// type and name.
pub open spec fn constructor_argument(f: FieldSpecView) -> ArgumentSpecView {
    ArgumentSpecView { modifiers: final_only(), ty: f.ty, name: f.name, annotations: Seq::empty() }
}

/// `this.name = name`.
pub open spec fn assign_statement(name: Seq<char>) -> StatementView {
    stmt_of(
        seq![
            VariableView::Literal("this."@),
            VariableView::Literal(name),
            VariableView::Literal(" = "@),
            VariableView::Literal(name),
        ],
    )
}

/// The constructor of a class with the given fields: `public`, with one
/// `final` argument per field, assigning each to its field.
pub open spec fn constructor_spec(fields: Seq<FieldSpecView>) -> ConstructorSpecView {
    ConstructorSpecView {
        modifiers: public_only(),
        annotations: Seq::empty(),
        arguments: fields.map_values(|f: FieldSpecView| constructor_argument(f)),
        sections: SectionsView {
            sections: fields.map_values(|f: FieldSpecView| SectionView::Statement(assign_statement(f.name))),
        },
    }
}

/// The getter of a field: `public`, named `get` and the field's name in
/// upper camel case, returning the field.
pub open spec fn getter_spec(f: FieldSpecView) -> MethodSpecView {
    MethodSpecView {
        modifiers: public_only(),
        name: "get"@ + upper_camel(f.name),
        annotations: Seq::empty(),
        arguments: Seq::empty(),
        returns: Some(f.ty),
        sections: SectionsView {
            sections: seq![
                SectionView::Statement(
                    stmt_of(seq![VariableView::Literal("return this."@), VariableView::Literal(f.name)]),
                ),
            ],
        },
    }
}

/// A value class: the given fields, one constructor taking them all, and a
/// getter for each.
pub open spec fn value_class(modifiers: Set<Modifier>, name: Seq<char>, fields: Seq<FieldSpecView>, elements: Seq<ElementSpecView>) -> ClassSpecView {
    ClassSpecView {
        modifiers,
        name,
        annotations: Seq::empty(),
        fields,
        constructors: seq![constructor_spec(fields)],
        methods: fields.map_values(|f: FieldSpecView| getter_spec(f)),
        elements,
    }
}

/// The decimal digits of a number.
pub open spec fn decimal(n: nat) -> Seq<char>
    decreases n,
{
    if n < 10 {
        seq![((n + 48) as u8) as char]
    } else {
        decimal(n / 10).push((((n % 10) + 48) as u8) as char)
    }
}

/// The name of the field for the `i`-th element of a tuple: `first`,
/// `second`, `third`, then `field3`, `field4` and so on.
pub open spec fn tuple_field_name(i: nat) -> Seq<char> {
    if i == 0 {
        "first"@
    } else if i == 1 {
        "second"@
    } else if i == 2 {
        "third"@
    } else {
        "field"@ + decimal(i)
    }
}

/// The fields of a tuple: `private final`, of the converted element types,
/// named by position; the first element without a Java form stops it.
pub open spec fn tuple_fields_spec<N>(ctx: JavaContext<N>, package: Seq<Seq<char>>, args: Seq<Type>) -> Result<Seq<FieldSpecView>, ProcessErrorView>
    decreases args.len(),
{
    if args.len() == 0 {
        Ok(Seq::empty())
    } else {
        match tuple_fields_spec(ctx, package, args.drop_last()) {
            Err(e) => Err(e),
            Ok(fs) => match convert_type_spec(ctx, package, args.last()) {
                Err(e) => Err(e),
                Ok(t) => Ok(
                    fs.push(
                        FieldSpecView {
                            modifiers: private_final(),
                            ty: t,
                            name: tuple_field_name((args.len() - 1) as nat),
                        },
                    ),
                ),
            },
        }
    }
}

/// The class of a type declaration: a public value class, with a field per
/// element if the type is a tuple, and no fields otherwise.
pub open spec fn type_class_spec<N>(ctx: JavaContext<N>, package: Seq<Seq<char>>, ty: TypeDecl) -> Result<ClassSpecView, ProcessErrorView> {
    let fields = match ty.value {
        Type::Tuple(args) => tuple_fields_spec(ctx, package, args@),
        _ => Ok(Seq::empty()),
    };
    match fields {
        Ok(fs) => Ok(value_class(public_only(), ty.name@, fs, Seq::empty())),
        Err(e) => Err(e),
    }
}

/// The fields and literal code of a message's members, in order: a field
/// per field member, the lines of each code block; other members add
/// nothing. The first field without a Java form stops it.
pub open spec fn message_parts_spec<N: Naming>(ctx: JavaContext<N>, package: Seq<Seq<char>>, members: Seq<Member>) -> Result<(Seq<FieldSpecView>, Seq<ElementSpecView>), ProcessErrorView>
    decreases members.len(),
{
    if members.len() == 0 {
        Ok((Seq::empty(), Seq::empty()))
    } else {
        match message_parts_spec(ctx, package, members.drop_last()) {
            Err(e) => Err(e),
            Ok((fs, es)) => match members.last() {
                Member::Field(f) => match push_field_spec(ctx, package, f) {
                    Ok(fv) => Ok((fs.push(fv), es)),
                    Err(e) => Err(e),
                },
                Member::Code(_, lines) => Ok((fs, es.push(ElementSpecView::Literal(strings_view(lines@))))),
                _ => Ok((fs, es)),
            },
        }
    }
}

/// The class of a message: a public value class of its fields, holding its
/// code blocks.
pub open spec fn message_class_spec<N: Naming>(ctx: JavaContext<N>, package: Seq<Seq<char>>, message: MessageDecl) -> Result<ClassSpecView, ProcessErrorView> {
    match message_parts_spec(ctx, package, message.members@) {
        Ok((fs, es)) => Ok(value_class(public_only(), message.name@, fs, es)),
        Err(e) => Err(e),
    }
}

/// The model of a class result.
pub open spec fn class_result(r: Result<ClassSpec, ProcessError>) -> Result<ClassSpecView, ProcessErrorView> {
    match r {
        Ok(c) => Ok(c@),
        Err(e) => Err(error_view(e)),
    }
}

/// An element of a tuple without a Java form stops the tuple at that error.
proof fn lemma_tuple_fields_err<N>(ctx: JavaContext<N>, package: Seq<Seq<char>>, args: Seq<Type>, k: int)
    requires
        0 <= k <= args.len(),
        tuple_fields_spec(ctx, package, args.take(k)) is Err,
    ensures
        tuple_fields_spec(ctx, package, args) == tuple_fields_spec(ctx, package, args.take(k)),
    decreases args.len() - k,
{
    if k == args.len() {
        assert(args.take(k) =~= args);
    } else {
        assert(args.take(k + 1).drop_last() =~= args.take(k));
        lemma_tuple_fields_err(ctx, package, args, k + 1);
    }
}

/// A member without a Java form stops a message at that error.
proof fn lemma_message_parts_err<N: Naming>(ctx: JavaContext<N>, package: Seq<Seq<char>>, members: Seq<Member>, k: int)
    requires
        0 <= k <= members.len(),
        message_parts_spec(ctx, package, members.take(k)) is Err,
    ensures
        message_parts_spec(ctx, package, members) == message_parts_spec(ctx, package, members.take(k)),
    decreases members.len() - k,
{
    if k == members.len() {
        assert(members.take(k) =~= members);
    } else {
        assert(members.take(k + 1).drop_last() =~= members.take(k));
        lemma_message_parts_err(ctx, package, members, k + 1);
    }
}

/// Hooks that see each class and interface before it is written, and may
/// change it or refuse it. Each hook's effect is a function of what it is
/// handed, given by its spec function.
pub trait Listeners {
    /// What `class_added` makes of a class.
    spec fn class_added_spec(&self, class: ClassSpecView) -> Result<ClassSpecView, ProcessErrorView>;

    /// What `interface_added` makes of the interface of a declaration.
    spec fn interface_added_spec(&self, interface: InterfaceDecl, spec: InterfaceSpecView) -> Result<InterfaceSpecView, ProcessErrorView>;

    /// What `sub_type_added` makes of the class of a sub-type.
    spec fn sub_type_added_spec(&self, interface: InterfaceDecl, sub_type: SubType, class: ClassSpecView) -> Result<ClassSpecView, ProcessErrorView>;

    fn class_added(&self, class: &mut ClassSpec) -> (r: Result<(), ProcessError>)
        ensures
            match self.class_added_spec(old(class)@) {
                Ok(c) => r is Ok && final(class)@ == c,
                Err(e) => r is Err && error_view(r->Err_0) == e,
            },
    ;

    fn interface_added(&self, interface: &InterfaceDecl, interface_spec: &mut InterfaceSpec) -> (r: Result<(), ProcessError>)
        ensures
            match self.interface_added_spec(*interface, old(interface_spec)@) {
                Ok(i) => r is Ok && final(interface_spec)@ == i,
                Err(e) => r is Err && error_view(r->Err_0) == e,
            },
    ;

    fn sub_type_added(&self, interface: &InterfaceDecl, sub_type: &SubType, class: &mut ClassSpec) -> (r: Result<(), ProcessError>)
        ensures
            match self.sub_type_added_spec(*interface, *sub_type, old(class)@) {
                Ok(c) => r is Ok && final(class)@ == c,
                Err(e) => r is Err && error_view(r->Err_0) == e,
            },
    ;
}

/// Listeners that change nothing and refuse nothing.
pub struct NoListeners;

impl Listeners for NoListeners {
    open spec fn class_added_spec(&self, class: ClassSpecView) -> Result<ClassSpecView, ProcessErrorView> {
        Ok(class)
    }

    open spec fn interface_added_spec(&self, interface: InterfaceDecl, spec: InterfaceSpecView) -> Result<InterfaceSpecView, ProcessErrorView> {
        Ok(spec)
    }

    open spec fn sub_type_added_spec(&self, interface: InterfaceDecl, sub_type: SubType, class: ClassSpecView) -> Result<ClassSpecView, ProcessErrorView> {
        Ok(class)
    }

    fn class_added(&self, class: &mut ClassSpec) -> (r: Result<(), ProcessError>) {
        Ok(())
    }

    fn interface_added(&self, interface: &InterfaceDecl, interface_spec: &mut InterfaceSpec) -> (r: Result<(), ProcessError>) {
        Ok(())
    }

    fn sub_type_added(&self, interface: &InterfaceDecl, sub_type: &SubType, class: &mut ClassSpec) -> (r: Result<(), ProcessError>) {
        Ok(())
    }
}

/// A file of the Java package of `package` holding one class, as the
/// listeners leave it.
pub open spec fn class_file_spec<N, L: Listeners>(ctx: JavaContext<N>, listeners: L, package: Seq<Seq<char>>, class: Result<ClassSpecView, ProcessErrorView>) -> Result<FileSpecView, ProcessErrorView> {
    match class {
        Err(e) => Err(e),
        Ok(c) => match listeners.class_added_spec(c) {
            Err(e) => Err(e),
            Ok(c1) => Ok(
                FileSpecView {
                    package: package_name(java_package_spec(ctx.prefix, package)),
                    elements: seq![ElementSpecView::Class(c1)],
                },
            ),
        },
    }
}

/// The model of a file result.
pub open spec fn file_result(r: Result<FileSpec, ProcessError>) -> Result<FileSpecView, ProcessErrorView> {
    match r {
        Ok(f) => Ok(f@),
        Err(e) => Err(error_view(e)),
    }
}

/// `public static`.
pub open spec fn public_static() -> Set<Modifier> {
    Set::empty().insert(Modifier::Public).insert(Modifier::Static)
}

/// The Java fields of the field members, in order; other members add
/// nothing. The first field without a Java form stops it.
pub open spec fn fields_of_spec<N: Naming>(ctx: JavaContext<N>, package: Seq<Seq<char>>, members: Seq<Member>) -> Result<Seq<FieldSpecView>, ProcessErrorView>
    decreases members.len(),
{
    if members.len() == 0 {
        Ok(Seq::empty())
    } else {
        match fields_of_spec(ctx, package, members.drop_last()) {
            Err(e) => Err(e),
            Ok(fs) => match members.last() {
                Member::Field(f) => match push_field_spec(ctx, package, f) {
                    Ok(fv) => Ok(fs.push(fv)),
                    Err(e) => Err(e),
                },
                _ => Ok(fs),
            },
        }
    }
}

/// The model of a list of fields.
pub open spec fn fields_result(r: Result<Vec<FieldSpec>, ProcessError>) -> Result<Seq<FieldSpecView>, ProcessErrorView> {
    match r {
        Ok(v) => Ok(fields_view(v@)),
        Err(e) => Err(error_view(e)),
    }
}

/// The class of a sub-type: a public static value class of the interface's
/// fields followed by its own.
pub open spec fn sub_type_class_spec<N: Naming>(ctx: JavaContext<N>, package: Seq<Seq<char>>, interface_fields: Seq<FieldSpecView>, sub_type: SubType) -> Result<ClassSpecView, ProcessErrorView> {
    match fields_of_spec(ctx, package, sub_type.members@) {
        Ok(fs) => Ok(value_class(public_static(), sub_type.name@, interface_fields + fs, Seq::empty())),
        Err(e) => Err(e),
    }
}

/// The classes of the sub-types, in order, each as the listeners leave it.
pub open spec fn sub_classes_spec<N: Naming, L: Listeners>(ctx: JavaContext<N>, listeners: L, interface: InterfaceDecl, package: Seq<Seq<char>>, interface_fields: Seq<FieldSpecView>, subs: Seq<SubType>) -> Result<Seq<ClassSpecView>, ProcessErrorView>
    decreases subs.len(),
{
    if subs.len() == 0 {
        Ok(Seq::empty())
    } else {
        match sub_classes_spec(ctx, listeners, interface, package, interface_fields, subs.drop_last()) {
            Err(e) => Err(e),
            Ok(cs) => match sub_type_class_spec(ctx, package, interface_fields, subs.last()) {
                Err(e) => Err(e),
                Ok(c0) => match listeners.class_added_spec(c0) {
                    Err(e) => Err(e),
                    Ok(c1) => match listeners.sub_type_added_spec(interface, subs.last(), c1) {
                        Err(e) => Err(e),
                        Ok(c2) => Ok(cs.push(c2)),
                    },
                },
            },
        }
    }
}

/// The file of an interface: a public interface holding the classes of its
/// sub-types, as the listeners leave it.
pub open spec fn interface_file_spec<N: Naming, L: Listeners>(ctx: JavaContext<N>, listeners: L, package: Seq<Seq<char>>, interface: InterfaceDecl) -> Result<FileSpecView, ProcessErrorView> {
    match fields_of_spec(ctx, package, interface.members@) {
        Err(e) => Err(e),
        Ok(ifs) => match sub_classes_spec(ctx, listeners, interface, package, ifs, interface.sub_types@) {
            Err(e) => Err(e),
            Ok(cs) => match listeners.interface_added_spec(
                interface,
                InterfaceSpecView {
                    modifiers: public_only(),
                    name: interface.name@,
                    annotations: Seq::empty(),
                    elements: cs.map_values(|c: ClassSpecView| ElementSpecView::Class(c)),
                },
            ) {
                Err(e) => Err(e),
                Ok(i) => Ok(
                    FileSpecView {
                        package: package_name(java_package_spec(ctx.prefix, package)),
                        elements: seq![ElementSpecView::Interface(i)],
                    },
                ),
            },
        },
    }
}

/// A field member without a Java form stops the list at that error.
proof fn lemma_fields_of_err<N: Naming>(ctx: JavaContext<N>, package: Seq<Seq<char>>, members: Seq<Member>, k: int)
    requires
        0 <= k <= members.len(),
        fields_of_spec(ctx, package, members.take(k)) is Err,
    ensures
        fields_of_spec(ctx, package, members) == fields_of_spec(ctx, package, members.take(k)),
    decreases members.len() - k,
{
    if k == members.len() {
        assert(members.take(k) =~= members);
    } else {
        assert(members.take(k + 1).drop_last() =~= members.take(k));
        lemma_fields_of_err(ctx, package, members, k + 1);
    }
}

/// A sub-type that fails stops the interface at that error.
proof fn lemma_sub_classes_err<N: Naming, L: Listeners>(ctx: JavaContext<N>, listeners: L, interface: InterfaceDecl, package: Seq<Seq<char>>, ifs: Seq<FieldSpecView>, subs: Seq<SubType>, k: int)
    requires
        0 <= k <= subs.len(),
        sub_classes_spec(ctx, listeners, interface, package, ifs, subs.take(k)) is Err,
    ensures
        sub_classes_spec(ctx, listeners, interface, package, ifs, subs) == sub_classes_spec(ctx, listeners, interface, package, ifs, subs.take(k)),
    decreases subs.len() - k,
{
    if k == subs.len() {
        assert(subs.take(k) =~= subs);
    } else {
        assert(subs.take(k + 1).drop_last() =~= subs.take(k));
        lemma_sub_classes_err(ctx, listeners, interface, package, ifs, subs, k + 1);
    }
}

/// The file of a declaration, as the listeners leave it.
pub open spec fn decl_file_spec<N: Naming, L: Listeners>(ctx: JavaContext<N>, listeners: L, package: Seq<Seq<char>>, decl: Decl) -> Result<FileSpecView, ProcessErrorView> {
    match decl {
        Decl::Interface(i) => interface_file_spec(ctx, listeners, package, i),
        Decl::Message(m) => class_file_spec(ctx, listeners, package, message_class_spec(ctx, package, m)),
        Decl::Type(t) => class_file_spec(ctx, listeners, package, type_class_spec(ctx, package, t)),
    }
}

/// The name of a top-level element of a file.
pub open spec fn element_name(e: ElementSpecView) -> Option<Seq<char>> {
    match e {
        ElementSpecView::Class(c) => Some(c.name),
        ElementSpecView::Interface(i) => Some(i.name),
        _ => None,
    }
}

/// Without listeners, the file of a declaration holds exactly one public
/// class or interface, named as the declaration, in the Java package of the
/// declaration's package; so `Name.java` declares `Name`.
pub proof fn law_file_declares_its_name<N: Naming>(ctx: JavaContext<N>, package: Seq<Seq<char>>, decl: Decl)
    ensures
        decl_file_spec(ctx, NoListeners, package, decl) matches Ok(f) ==> {
            &&& f.elements.len() == 1
            &&& element_name(f.elements[0]) == Some(decl_name(decl))
            &&& f.package == package_name(java_package_spec(ctx.prefix, package))
        },
{
    match decl {
        Decl::Interface(i) => {
            if let Ok(ifs) = fields_of_spec(ctx, package, i.members@) {
                if let Ok(cs) = sub_classes_spec(ctx, NoListeners, i, package, ifs, i.sub_types@) {
                    assert(interface_file_spec(ctx, NoListeners, package, i) is Ok);
                }
            }
        },
        Decl::Message(m) => {},
        Decl::Type(t) => {},
    }
}

/// A generated source file: the directories of its Java package under the
/// output root, its file name and its text.
pub struct JavaFile {
    pub dir: Vec<String>,
    pub name: String,
    pub content: String,
}

/// The model of a generated source file.
pub struct JavaFileView {
    pub dir: Seq<Seq<char>>,
    pub name: Seq<char>,
    pub content: Seq<char>,
}

impl View for JavaFile {
    type V = JavaFileView;

    open spec fn view(&self) -> JavaFileView {
        JavaFileView { dir: strings_view(self.dir@), name: self.name@, content: self.content@ }
    }
}

/// The source files of the declarations, in order, up to the first that
/// fails, and that failure: for each declaration, the file `Name.java` in the
/// directories of its Java package, holding the text of its file. The files
/// before a failure are made, as when they are written one by one.
pub open spec fn outputs_spec<N: Naming, L: Listeners>(ctx: JavaContext<N>, listeners: L, entries: Seq<(Package, Decl)>) -> (Seq<JavaFileView>, Result<(), ProcessErrorView>)
    decreases entries.len(),
{
    if entries.len() == 0 {
        (Seq::empty(), Ok(()))
    } else {
        let (out, result) = outputs_spec(ctx, listeners, entries.drop_last());
        match result {
            Err(e) => (out, Err(e)),
            Ok(()) => {
                let (package, decl) = entries.last();
                match decl_file_spec(ctx, listeners, package@, decl) {
                    Err(e) => (out, Err(e)),
                    Ok(f) => (
                        out.push(
                            JavaFileView {
                                dir: java_package_spec(ctx.prefix, package@),
                                name: decl_name(decl) + ".java"@,
                                content: file_text(f),
                            },
                        ),
                        Ok(()),
                    ),
                }
            },
        }
    }
}

/// The model of the files made and the outcome.
pub open spec fn outputs_result(r: (Vec<JavaFile>, Result<(), ProcessError>)) -> (Seq<JavaFileView>, Result<(), ProcessErrorView>) {
    (
        r.0@.map_values(|f: JavaFile| f@),
        match r.1 {
            Ok(()) => Ok(()),
            Err(e) => Err(error_view(e)),
        },
    )
}

/// A declaration that fails stops the output at that error.
proof fn lemma_outputs_err<N: Naming, L: Listeners>(ctx: JavaContext<N>, listeners: L, entries: Seq<(Package, Decl)>, k: int)
    requires
        0 <= k <= entries.len(),
        outputs_spec(ctx, listeners, entries.take(k)).1 is Err,
    ensures
        outputs_spec(ctx, listeners, entries) == outputs_spec(ctx, listeners, entries.take(k)),
    decreases entries.len() - k,
{
    if k == entries.len() {
        assert(entries.take(k) =~= entries);
    } else {
        assert(entries.take(k + 1).drop_last() =~= entries.take(k));
        lemma_outputs_err(ctx, listeners, entries, k + 1);
    }
}

/// Generates Java source files from the declarations of an environment.
pub struct Processor<'a, N> {
    options: &'a Options<N>,
    env: &'a Environment,
    package_prefix: Option<Package>,
    lower_to_upper_camel: ToUpperCamel,
    object: ClassType,
    list: ClassType,
    map: ClassType,
    string: ClassType,
    optional: ClassType,
    integer: PrimitiveType,
    long: PrimitiveType,
    float: PrimitiveType,
    double: PrimitiveType,
}

impl<'a, N: Naming> Processor<'a, N> {
    /// The environment holds one declaration per package and name, and the
    /// Java classes and primitives the processor uses are those of their names.
    pub closed spec fn wf(&self) -> bool {
        &&& self.env.wf()
        &&& self.object@ == (ClassTypeView { package: "java.lang"@, name: "Object"@, arguments: Seq::empty() })
        &&& self.list@ == (ClassTypeView { package: "java.util"@, name: "List"@, arguments: Seq::empty() })
        &&& self.map@ == (ClassTypeView { package: "java.util"@, name: "Map"@, arguments: Seq::empty() })
        &&& self.string@ == (ClassTypeView { package: "java.lang"@, name: "String"@, arguments: Seq::empty() })
        &&& self.optional@ == (ClassTypeView { package: "java.util"@, name: "Optional"@, arguments: Seq::empty() })
        &&& self.integer@ == (PrimitiveTypeView { primitive: "int"@, boxed: "Integer"@ })
        &&& self.long@ == (PrimitiveTypeView { primitive: "long"@, boxed: "Long"@ })
        &&& self.float@ == (PrimitiveTypeView { primitive: "float"@, boxed: "Float"@ })
        &&& self.double@ == (PrimitiveTypeView { primitive: "double"@, boxed: "Double"@ })
    }

    /// The package prefix, the `use` declarations and the field-name conversion.
    pub closed spec fn context(&self) -> JavaContext<N> {
        JavaContext {
            prefix: match self.package_prefix {
                Some(p) => Some(p@),
                None => None,
            },
            uses: self.env.uses@,
            id_converter: self.options.id_converter,
        }
    }

    /// The environment whose declarations are processed.
    pub closed spec fn environment(&self) -> Environment {
        *self.env
    }

    pub fn new(options: &'a Options<N>, env: &'a Environment, package_prefix: Option<Package>) -> (r: Processor<'a, N>)
        requires
            env.wf(),
        ensures
            r.wf(),
            r.environment() == *env,
            r.context() == (JavaContext {
                prefix: match package_prefix {
                    Some(p) => Some(p@),
                    None => None,
                },
                uses: env.uses@,
                id_converter: options.id_converter,
            }),
    {
        Processor {
            options: options,
            env: env,
            package_prefix: package_prefix,
            lower_to_upper_camel: ToUpperCamel,
            object: JavaType::class("java.lang", "Object"),
            list: JavaType::class("java.util", "List"),
            map: JavaType::class("java.util", "Map"),
            string: JavaType::class("java.lang", "String"),
            optional: JavaType::class("java.util", "Optional"),
            integer: JavaType::primitive("int", "Integer"),
            long: JavaType::primitive("long", "Long"),
            float: JavaType::primitive("float", "Float"),
            double: JavaType::primitive("double", "Double"),
        }
    }

    /// The Java package of a package: the configured prefix, if any, followed
    /// by the package.
    pub fn java_package(&self, package: &Package) -> (r: Package)
        ensures
            r@ == java_package_spec(self.context().prefix, package@),
    {
        match &self.package_prefix {
            Some(prefix) => prefix.join(package),
            None => clone_package(package),
        }
    }

    /// The dotted name of the Java package of a package.
    fn java_package_name(&self, package: &Package) -> (r: String)
        ensures
            r@ == package_name(java_package_spec(self.context().prefix, package@)),
    {
        let p = self.java_package(package);
        join_strings(&p.parts, ".")
    }

    /// The Java type of a declared type in `package`.
    pub fn convert_type(&self, package: &Package, ty: &Type) -> (r: Result<JavaType, ProcessError>)
        requires
            self.wf(),
        ensures
            type_result(r) == convert_type_spec(self.context(), package@, *ty),
        decreases ty,
    {
        match ty {
            Type::String => Ok(clone_class_type(&self.string).as_type()),
            Type::I32 => Ok(clone_primitive_type(&self.integer).as_type()),
            Type::U32 => Ok(clone_primitive_type(&self.integer).as_type()),
            Type::I64 => Ok(clone_primitive_type(&self.long).as_type()),
            Type::U64 => Ok(clone_primitive_type(&self.long).as_type()),
            Type::Array(inner) => {
                let argument = self.convert_type(package, &**inner)?;
                let arguments = vec![argument];
                let t = self.list.with_arguments(arguments);
                assert(arguments@.map_values(|a: JavaType| a.type_of()) =~= seq![argument@]);
                Ok(t.as_type())
            },
            Type::Custom(name) => {
                let package_name = self.java_package_name(package);
                Ok(JavaType::class(package_name.as_str(), name.as_str()).as_type())
            },
            Type::Any => Ok(clone_class_type(&self.object).as_type()),
            Type::Float => Ok(clone_primitive_type(&self.float).as_type()),
            Type::Double => Ok(clone_primitive_type(&self.double).as_type()),
            Type::UsedType(used, custom) => {
                let found = self.env.lookup_used(package, used);
                match found {
                    None => Err(ProcessError::UnknownUse(used.clone())),
                    Some(p) => {
                        let package_name = self.java_package_name(p);
                        Ok(JavaType::class(package_name.as_str(), custom.as_str()).as_type())
                    },
                }
            },
            Type::Mapping(key, value) => {
                let key = self.convert_type(package, &**key)?;
                let value = self.convert_type(package, &**value)?;
                let ghost kv = key@;
                let ghost vv = value@;
                let arguments = vec![key, value];
                assert(arguments@.map_values(|a: JavaType| a.type_of()) =~= seq![kv, vv]);
                let t = self.map.with_arguments(arguments);
                Ok(t.as_type())
            },
            _ => {
                let text = type_debug_text(ty);
                Err(ProcessError::UnsupportedType(concat_str("Unsupported type: ", text.as_str())))
            },
        }
    }

    /// The Java field of a declared field.
    pub fn push_field(&self, package: &Package, field: &Field) -> (r: Result<FieldSpec, ProcessError>)
        requires
            self.wf(),
        ensures
            field_result(r) == push_field_spec(self.context(), package@, *field),
    {
        let field_type = self.convert_type(package, &field.ty)?;
        let field_type = if field.is_optional() {
            let ghost inner = field_type@;
            let arguments = vec![field_type];
            assert(arguments@.map_values(|a: JavaType| a.type_of()) =~= seq![inner]);
            self.optional.with_arguments(arguments).as_type()
        } else {
            field_type
        };
        let mut mods = Modifiers::new();
        mods.insert(Modifier::Private);
        mods.insert(Modifier::Final);
        let name = match &self.options.id_converter {
            Some(id_converter) => id_converter.convert(field.name.as_str()),
            None => field.name.clone(),
        };
        Ok(FieldSpec::new(mods, field_type, name.as_str()))
    }

    /// The constructor of a class: one `final` argument per field, each
    /// assigned to its field.
    pub fn build_constructor(&self, class: &ClassSpec) -> (r: ConstructorSpec)
        ensures
            r@ == constructor_spec(class@.fields),
    {
        let mut mods = Modifiers::new();
        mods.insert(Modifier::Public);
        let mut constructor = ConstructorSpec::new(mods);
        let ghost fs = class@.fields;
        let mut i: usize = 0;
        assert(fs.take(0).map_values(|f: FieldSpecView| constructor_argument(f)) =~= Seq::<ArgumentSpecView>::empty());
        assert(fs.take(0).map_values(|f: FieldSpecView| SectionView::Statement(assign_statement(f.name))) =~= Seq::<SectionView>::empty());
        while i < class.fields.len()
            invariant
                0 <= i <= class.fields.len(),
                fs == class@.fields,
                fs == fields_view(class.fields@),
                constructor@ == (ConstructorSpecView {
                    modifiers: public_only(),
                    annotations: Seq::empty(),
                    arguments: fs.take(i as int).map_values(|f: FieldSpecView| constructor_argument(f)),
                    sections: SectionsView {
                        sections: fs.take(i as int).map_values(
                            |f: FieldSpecView| SectionView::Statement(assign_statement(f.name)),
                        ),
                    },
                }),
            decreases class.fields.len() - i,
        {
            let field = &class.fields[i];
            assert(fs[i as int] == field@);
            let mut fin = Modifiers::new();
            fin.insert(Modifier::Final);
            let argument = ArgumentSpec::new(fin, &field.ty, field.name.as_str());
            constructor.push_argument(&argument);
            let mut stmt = Statement::new();
            stmt.push("this.");
            stmt.push(&field.name);
            stmt.push(" = ");
            stmt.push(argument);
            assert(stmt@.parts =~= assign_statement(field@.name).parts);
            constructor.push(stmt);
            assert(fs.take(i + 1) =~= fs.take(i as int).push(fs[i as int]));
            assert(constructor@.arguments =~= fs.take(i + 1).map_values(|f: FieldSpecView| constructor_argument(f)));
            assert(constructor@.sections.sections =~= fs.take(i + 1).map_values(
                |f: FieldSpecView| SectionView::Statement(assign_statement(f.name)),
            ));
            i += 1;
        }
        assert(fs.take(class.fields.len() as int) =~= fs);
        constructor
    }

    /// The getters of a class: one per field.
    pub fn build_getters(&self, class: &ClassSpec) -> (r: Result<Vec<MethodSpec>, ProcessError>)
        ensures
            r is Ok,
            methods_view(r->Ok_0@) == class@.fields.map_values(|f: FieldSpecView| getter_spec(f)),
    {
        let mut result: Vec<MethodSpec> = Vec::new();
        let ghost fs = class@.fields;
        let mut i: usize = 0;
        while i < class.fields.len()
            invariant
                0 <= i <= class.fields.len(),
                fs == class@.fields,
                fs == fields_view(class.fields@),
                methods_view(result@) == fs.take(i as int).map_values(|f: FieldSpecView| getter_spec(f)),
            decreases class.fields.len() - i,
        {
            let field = &class.fields[i];
            assert(fs[i as int] == field@);
            let upper = self.lower_to_upper_camel.convert(field.name.as_str());
            let name = concat_str("get", upper.as_str());
            let mut mods = Modifiers::new();
            mods.insert(Modifier::Public);
            let mut method_spec = MethodSpec::new(mods, name.as_str());
            method_spec.set_returns(&field.ty);
            let mut stmt = Statement::new();
            stmt.push("return this.");
            stmt.push(field);
            assert(stmt@.parts =~= seq![VariableView::Literal("return this."@), VariableView::Literal(field@.name)]);
            method_spec.push(stmt);
            assert(method_spec@.sections.sections =~= getter_spec(field@).sections.sections);
            assert(method_spec@ == getter_spec(field@));
            let ghost before = result@;
            result.push(method_spec);
            assert(methods_view(result@) =~= methods_view(before).push(getter_spec(fs[i as int])));
            assert(fs.take(i + 1) =~= fs.take(i as int).push(fs[i as int]));
            assert(methods_view(result@) =~= fs.take(i + 1).map_values(|f: FieldSpecView| getter_spec(f)));
            i += 1;
        }
        assert(fs.take(class.fields.len() as int) =~= fs);
        Ok(result)
    }

    /// Adds to a class without constructors or methods its constructor and
    /// its getters.
    fn finish_class(&self, class: &mut ClassSpec)
        requires
            old(class)@.annotations.len() == 0,
            old(class)@.constructors.len() == 0,
            old(class)@.methods.len() == 0,
        ensures
            final(class)@ == value_class(old(class)@.modifiers, old(class)@.name, old(class)@.fields, old(class)@.elements),
    {
        let constructor = self.build_constructor(class);
        class.push_constructor(&constructor);
        assert(class@.annotations =~= Seq::<AnnotationSpecView>::empty());
        assert(class@.constructors =~= seq![constructor_spec(old(class)@.fields)]);
        let getters = self.build_getters(class);
        let getters = match getters {
            Ok(g) => g,
            Err(_) => Vec::new(),
        };
        let ghost fs = old(class)@.fields;
        let ghost ms = methods_view(getters@);
        let mut i: usize = 0;
        assert(ms.take(0) =~= Seq::<MethodSpecView>::empty());
        assert(class@.methods =~= ms.take(0));
        assert(class@ == (ClassSpecView { methods: ms.take(0), ..value_class(old(class)@.modifiers, old(class)@.name, fs, old(class)@.elements) }));
        while i < getters.len()
            invariant
                0 <= i <= getters.len(),
                ms == methods_view(getters@),
                ms == fs.map_values(|f: FieldSpecView| getter_spec(f)),
                class@ == (ClassSpecView { methods: ms.take(i as int), ..value_class(old(class)@.modifiers, old(class)@.name, fs, old(class)@.elements) }),
            decreases getters.len() - i,
        {
            assert(ms[i as int] == getters@[i as int]@);
            class.push_method(&getters[i]);
            assert(ms.take(i + 1) =~= ms.take(i as int).push(ms[i as int]));
            i += 1;
        }
        assert(ms.take(getters.len() as int) =~= ms);
    }

    /// The decimal digits of a number.
    fn decimal_string(n: usize) -> (r: String)
        ensures
            r@ == decimal(n as nat),
        decreases n,
    {
        let d: u8 = ((n % 10) as u8) + 48;
        let c = d as char;
        if n < 10 {
            let mut s = String::new();
            push_char(&mut s, c);
            assert(s@ =~= decimal(n as nat));
            s
        } else {
            let mut s = Self::decimal_string(n / 10);
            push_char(&mut s, c);
            s
        }
    }

    /// The name of the field for the `i`-th element of a tuple.
    fn tuple_field_name(i: usize) -> (r: String)
        ensures
            r@ == tuple_field_name(i as nat),
    {
        if i == 0 {
            "first".to_owned()
        } else if i == 1 {
            "second".to_owned()
        } else if i == 2 {
            "third".to_owned()
        } else {
            let digits = Self::decimal_string(i);
            concat_str("field", digits.as_str())
        }
    }

    /// The class of a type declaration, before the listeners see it.
    pub fn type_class(&self, package: &Package, ty: &TypeDecl) -> (r: Result<ClassSpec, ProcessError>)
        requires
            self.wf(),
        ensures
            class_result(r) == type_class_spec(self.context(), package@, *ty),
    {
        let mut pub_mods = Modifiers::new();
        pub_mods.insert(Modifier::Public);
        let mut class = ClassSpec::new(pub_mods, ty.name.as_str());
        match &ty.value {
            Type::Tuple(arguments) => {
                let ghost args = arguments@;
                let mut index: usize = 0;
                assert(args.take(0) =~= Seq::<Type>::empty());
                while index < arguments.len()
                    invariant
                        self.wf(),
                        0 <= index <= arguments.len(),
                        args == arguments@,
                        ty.value == Type::Tuple(*arguments),
                        tuple_fields_spec(self.context(), package@, args.take(index as int)) == Ok::<Seq<FieldSpecView>, ProcessErrorView>(class@.fields),
                        class@.modifiers == public_only(),
                        class@.name == ty.name@,
                        class@.annotations.len() == 0,
                        class@.constructors.len() == 0,
                        class@.methods.len() == 0,
                        class@.elements.len() == 0,
                    decreases arguments.len() - index,
                {
                    let argument = &arguments[index];
                    assert(args.take(index + 1).drop_last() =~= args.take(index as int));
                    assert(args.take(index + 1).last() == *argument);
                    let field_type = match self.convert_type(package, argument) {
                        Ok(t) => t,
                        Err(e) => {
                            proof {
                                let t = args.take(index + 1);
                                assert(t.drop_last() =~= args.take(index as int));
                                assert(tuple_fields_spec(self.context(), package@, t) is Err);
                                lemma_tuple_fields_err(self.context(), package@, args, index + 1);
                                assert(tuple_fields_spec(self.context(), package@, args) == Err::<Seq<FieldSpecView>, ProcessErrorView>(error_view(e)));
                                assert(type_class_spec(self.context(), package@, *ty) == Err::<ClassSpecView, ProcessErrorView>(error_view(e)));
                            }
                            return Err(e);
                        },
                    };
                    let mut mods = Modifiers::new();
                    mods.insert(Modifier::Private);
                    mods.insert(Modifier::Final);
                    let name = Self::tuple_field_name(index);
                    let field = FieldSpec::new(mods, field_type, name.as_str());
                    class.push_field(&field);
                    index += 1;
                }
                assert(args.take(arguments.len() as int) =~= args);
            },
            _ => {},
        }
        assert(class@.elements =~= Seq::<ElementSpecView>::empty());
        self.finish_class(&mut class);
        Ok(class)
    }

    /// The class of a message, before the listeners see it.
    pub fn message_class(&self, package: &Package, message: &MessageDecl) -> (r: Result<ClassSpec, ProcessError>)
        requires
            self.wf(),
        ensures
            class_result(r) == message_class_spec(self.context(), package@, *message),
    {
        let mut pub_mods = Modifiers::new();
        pub_mods.insert(Modifier::Public);
        let mut class = ClassSpec::new(pub_mods, message.name.as_str());
        let ghost ms = message.members@;
        let mut i: usize = 0;
        while i < message.members.len()
            invariant
                self.wf(),
                0 <= i <= message.members.len(),
                ms == message.members@,
                message_parts_spec(self.context(), package@, ms.take(i as int)) == Ok::<(Seq<FieldSpecView>, Seq<ElementSpecView>), ProcessErrorView>((class@.fields, class@.elements)),
                class@.modifiers == public_only(),
                class@.name == message.name@,
                class@.annotations.len() == 0,
                class@.constructors.len() == 0,
                class@.methods.len() == 0,
            decreases message.members.len() - i,
        {
            let member = &message.members[i];
            assert(ms.take(i + 1).drop_last() =~= ms.take(i as int));
            assert(ms.take(i + 1).last() == *member);
            match member {
                Member::Field(field) => {
                    let f = match self.push_field(package, field) {
                        Ok(f) => f,
                        Err(e) => {
                            proof {
                                lemma_message_parts_err(self.context(), package@, ms, i + 1);
                            }
                            return Err(e);
                        },
                    };
                    class.push_field(&f);
                },
                Member::Code(_, content) => {
                    class.push_literal(content);
                },
                _ => {},
            }
            i += 1;
        }
        assert(ms.take(message.members.len() as int) =~= ms);
        self.finish_class(&mut class);
        Ok(class)
    }

    /// A new file of the Java package of a package.
    fn new_file_spec(&self, package: &Package) -> (r: FileSpec)
        ensures
            r@ == (FileSpecView {
                package: package_name(java_package_spec(self.context().prefix, package@)),
                elements: Seq::empty(),
            }),
    {
        let package_name = self.java_package_name(package);
        FileSpec::new(package_name.as_str())
    }

    /// Hands a class to the listeners and puts what they leave of it in a
    /// file of the Java package of `package`.
    fn class_file<L: Listeners>(&self, package: &Package, class: ClassSpec, listeners: &L) -> (r: Result<FileSpec, ProcessError>)
        ensures
            file_result(r) == class_file_spec(self.context(), *listeners, package@, Ok(class@)),
    {
        let mut class = class;
        listeners.class_added(&mut class)?;
        let mut file_spec = self.new_file_spec(package);
        file_spec.push_class(&class);
        assert(file_spec@.elements =~= seq![ElementSpecView::Class(class@)]);
        Ok(file_spec)
    }

    /// The file of a type declaration: its class, as the listeners leave it.
    pub fn process_type<L: Listeners>(&self, package: &Package, ty: &TypeDecl, listeners: &L) -> (r: Result<FileSpec, ProcessError>)
        requires
            self.wf(),
        ensures
            file_result(r) == class_file_spec(self.context(), *listeners, package@, type_class_spec(self.context(), package@, *ty)),
    {
        let class = self.type_class(package, ty)?;
        self.class_file(package, class, listeners)
    }

    /// The file of a message: its class, as the listeners leave it.
    pub fn process_message<L: Listeners>(&self, package: &Package, message: &MessageDecl, listeners: &L) -> (r: Result<FileSpec, ProcessError>)
        requires
            self.wf(),
        ensures
            file_result(r) == class_file_spec(self.context(), *listeners, package@, message_class_spec(self.context(), package@, *message)),
    {
        let class = self.message_class(package, message)?;
        self.class_file(package, class, listeners)
    }

    /// The Java fields of the field members.
    fn fields_of(&self, package: &Package, members: &Vec<Member>) -> (r: Result<Vec<FieldSpec>, ProcessError>)
        requires
            self.wf(),
        ensures
            fields_result(r) == fields_of_spec(self.context(), package@, members@),
    {
        let mut fields: Vec<FieldSpec> = Vec::new();
        let ghost ms = members@;
        let mut i: usize = 0;
        assert(fields_view(fields@) =~= Seq::<FieldSpecView>::empty());
        while i < members.len()
            invariant
                self.wf(),
                0 <= i <= members.len(),
                ms == members@,
                fields_of_spec(self.context(), package@, ms.take(i as int)) == Ok::<Seq<FieldSpecView>, ProcessErrorView>(fields_view(fields@)),
            decreases members.len() - i,
        {
            let member = &members[i];
            assert(ms.take(i + 1).drop_last() =~= ms.take(i as int));
            assert(ms.take(i + 1).last() == *member);
            match member {
                Member::Field(field) => {
                    let f = match self.push_field(package, field) {
                        Ok(f) => f,
                        Err(e) => {
                            proof {
                                lemma_fields_of_err(self.context(), package@, ms, i + 1);
                            }
                            return Err(e);
                        },
                    };
                    let ghost before = fields@;
                    fields.push(f);
                    assert(fields_view(fields@) =~= fields_view(before).push(fields@.last()@));
                },
                _ => {},
            }
            i += 1;
        }
        assert(ms.take(members.len() as int) =~= ms);
        Ok(fields)
    }

    /// The class of a sub-type, before the listeners see it.
    fn sub_type_class(&self, package: &Package, interface_fields: &Vec<FieldSpec>, sub_type: &SubType) -> (r: Result<ClassSpec, ProcessError>)
        requires
            self.wf(),
        ensures
            class_result(r) == sub_type_class_spec(self.context(), package@, fields_view(interface_fields@), *sub_type),
    {
        let mut mods = Modifiers::new();
        mods.insert(Modifier::Public);
        mods.insert(Modifier::Static);
        let mut class = ClassSpec::new(mods, sub_type.name.as_str());
        let ghost ifs = fields_view(interface_fields@);
        let mut i: usize = 0;
        while i < interface_fields.len()
            invariant
                0 <= i <= interface_fields.len(),
                ifs == fields_view(interface_fields@),
                class@.modifiers == public_static(),
                class@.name == sub_type.name@,
                class@.annotations.len() == 0,
                class@.constructors.len() == 0,
                class@.methods.len() == 0,
                class@.elements.len() == 0,
                class@.fields == ifs.take(i as int),
            decreases interface_fields.len() - i,
        {
            class.push_field(&interface_fields[i]);
            assert(ifs.take(i + 1) =~= ifs.take(i as int).push(ifs[i as int]));
            i += 1;
        }
        assert(ifs.take(interface_fields.len() as int) =~= ifs);
        let own = self.fields_of(package, &sub_type.members)?;
        let ghost ofs = fields_view(own@);
        let mut j: usize = 0;
        while j < own.len()
            invariant
                0 <= j <= own.len(),
                ofs == fields_view(own@),
                class@.modifiers == public_static(),
                class@.name == sub_type.name@,
                class@.annotations.len() == 0,
                class@.constructors.len() == 0,
                class@.methods.len() == 0,
                class@.elements.len() == 0,
                class@.fields == ifs + ofs.take(j as int),
            decreases own.len() - j,
        {
            class.push_field(&own[j]);
            assert(ofs.take(j + 1) =~= ofs.take(j as int).push(ofs[j as int]));
            assert(ifs + ofs.take(j + 1) =~= (ifs + ofs.take(j as int)).push(ofs[j as int]));
            j += 1;
        }
        assert(ofs.take(own.len() as int) =~= ofs);
        assert(class@.elements =~= Seq::<ElementSpecView>::empty());
        self.finish_class(&mut class);
        Ok(class)
    }

    /// The file of an interface: an interface holding a class for each
    /// sub-type, as the listeners leave them.
    pub fn process_interface<L: Listeners>(&self, package: &Package, interface: &InterfaceDecl, listeners: &L) -> (r: Result<FileSpec, ProcessError>)
        requires
            self.wf(),
        ensures
            file_result(r) == interface_file_spec(self.context(), *listeners, package@, *interface),
    {
        let mut mods = Modifiers::new();
        mods.insert(Modifier::Public);
        let mut interface_spec = InterfaceSpec::new(mods, interface.name.as_str());
        let interface_fields = self.fields_of(package, &interface.members)?;
        let ghost ifs = fields_view(interface_fields@);
        let ghost subs = interface.sub_types@;
        let ghost mut cs: Seq<ClassSpecView> = Seq::empty();
        let mut i: usize = 0;
        assert(interface_spec@.elements =~= cs.map_values(|c: ClassSpecView| ElementSpecView::Class(c)));
        while i < interface.sub_types.len()
            invariant
                self.wf(),
                0 <= i <= interface.sub_types.len(),
                subs == interface.sub_types@,
                ifs == fields_view(interface_fields@),
                fields_of_spec(self.context(), package@, interface.members@) == Ok::<Seq<FieldSpecView>, ProcessErrorView>(ifs),
                sub_classes_spec(self.context(), *listeners, *interface, package@, ifs, subs.take(i as int)) == Ok::<Seq<ClassSpecView>, ProcessErrorView>(cs),
                interface_spec@ == (InterfaceSpecView {
                    modifiers: public_only(),
                    name: interface.name@,
                    annotations: interface_spec@.annotations,
                    elements: cs.map_values(|c: ClassSpecView| ElementSpecView::Class(c)),
                }),
                interface_spec@.annotations.len() == 0,
            decreases interface.sub_types.len() - i,
        {
            let sub_type = &interface.sub_types[i];
            let ghost t = subs.take(i + 1);
            assert(t.drop_last() =~= subs.take(i as int));
            assert(t.last() == *sub_type);
            let mut class = match self.sub_type_class(package, &interface_fields, sub_type) {
                Ok(c) => c,
                Err(e) => {
                    proof {
                        lemma_sub_classes_err(self.context(), *listeners, *interface, package@, ifs, subs, i + 1);
                    }
                    return Err(e);
                },
            };
            match listeners.class_added(&mut class) {
                Ok(()) => {},
                Err(e) => {
                    proof {
                        lemma_sub_classes_err(self.context(), *listeners, *interface, package@, ifs, subs, i + 1);
                    }
                    return Err(e);
                },
            }
            match listeners.sub_type_added(interface, sub_type, &mut class) {
                Ok(()) => {},
                Err(e) => {
                    proof {
                        lemma_sub_classes_err(self.context(), *listeners, *interface, package@, ifs, subs, i + 1);
                    }
                    return Err(e);
                },
            }
            interface_spec.push_class(&class);
            proof {
                cs = cs.push(class@);
            }
            assert(interface_spec@.elements =~= cs.map_values(|c: ClassSpecView| ElementSpecView::Class(c)));
            i += 1;
        }
        assert(subs.take(interface.sub_types.len() as int) =~= subs);
        let mut file_spec = self.new_file_spec(package);
        assert(interface_spec@.annotations =~= Seq::<AnnotationSpecView>::empty());
        listeners.interface_added(interface, &mut interface_spec)?;
        file_spec.push_interface(&interface_spec);
        assert(file_spec@.elements =~= seq![ElementSpecView::Interface(interface_spec@)]);
        Ok(file_spec)
    }

    /// The file of a declaration.
    fn process_decl<L: Listeners>(&self, package: &Package, decl: &Decl, listeners: &L) -> (r: Result<FileSpec, ProcessError>)
        requires
            self.wf(),
        ensures
            file_result(r) == decl_file_spec(self.context(), *listeners, package@, *decl),
    {
        match decl {
            Decl::Interface(interface) => self.process_interface(package, interface, listeners),
            Decl::Message(message) => self.process_message(package, message, listeners),
            Decl::Type(ty) => self.process_type(package, ty, listeners),
        }
    }

    /// The source files of the declarations of the environment, in the order
    /// the environment holds them, up to the first declaration that fails,
    /// and that failure.
    pub fn process<L: Listeners>(&self, listeners: &L) -> (r: (Vec<JavaFile>, Result<(), ProcessError>))
        requires
            self.wf(),
        ensures
            outputs_result(r) == outputs_spec(self.context(), *listeners, self.environment().types@),
    {
        let mut files: Vec<JavaFile> = Vec::new();
        let ghost entries = self.env.types@;
        let mut i: usize = 0;
        assert(files@.map_values(|f: JavaFile| f@) =~= Seq::<JavaFileView>::empty());
        while i < self.env.types.len()
            invariant
                self.wf(),
                0 <= i <= self.env.types.len(),
                entries == self.env.types@,
                entries == self.environment().types@,
                outputs_spec(self.context(), *listeners, entries.take(i as int)) == (files@.map_values(|f: JavaFile| f@), Ok::<(), ProcessErrorView>(())),
            decreases self.env.types.len() - i,
        {
            let (package, decl) = &self.env.types[i];
            assert(entries.take(i + 1).drop_last() =~= entries.take(i as int));
            assert(entries.take(i + 1).last() == (*package, *decl));
            let file_spec = match self.process_decl(package, decl, listeners) {
                Ok(f) => f,
                Err(e) => {
                    proof {
                        lemma_outputs_err(self.context(), *listeners, entries, i + 1);
                    }
                    return (files, Err(e));
                },
            };
            let content = file_spec.format();
            let dir = self.java_package(package);
            let name = concat_str(decl.name().as_str(), ".java");
            let ghost before = files@;
            files.push(JavaFile { dir: dir.parts, name, content });
            assert(files@.map_values(|f: JavaFile| f@) =~= before.map_values(|f: JavaFile| f@).push(files@.last()@));
            i += 1;
        }
        assert(entries.take(self.env.types.len() as int) =~= entries);
        (files, Ok(()))
    }
}

} // verus!
