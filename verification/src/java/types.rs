//! Java types: primitive types with their boxed forms, and class types with
//! generic arguments.

use vstd::prelude::*;
use crate::text::{join, strings_view, join_strings, push_char};

verus! {

/// A primitive type: its primitive name and the name of its boxed class.
#[derive(Debug, PartialEq, Eq, PartialOrd, Ord, Hash)]
pub struct PrimitiveType {
    pub primitive: String,
    pub boxed: String,
}

/// A complete class type, including generic arguments.
#[derive(Debug, PartialEq, Eq, PartialOrd, Ord, Hash)]
pub struct ClassType {
    pub package: String,
    pub name: String,
    pub arguments: Vec<Type>,
}

/// A raw (importable) type.
#[derive(Debug, PartialEq, Eq, PartialOrd, Ord, Hash)]
pub enum Type {
    Primitive(PrimitiveType),
    Class(ClassType),
}

/// The model of a primitive type.
pub struct PrimitiveTypeView {
    pub primitive: Seq<char>,
    pub boxed: Seq<char>,
}

/// The model of a class type.
pub struct ClassTypeView {
    pub package: Seq<char>,
    pub name: Seq<char>,
    pub arguments: Seq<TypeView>,
}

/// The model of a type.
pub enum TypeView {
    Primitive(PrimitiveTypeView),
    Class(ClassTypeView),
}

pub open spec fn primitive_type_view(p: PrimitiveType) -> PrimitiveTypeView {
    PrimitiveTypeView { primitive: p.primitive@, boxed: p.boxed@ }
}

pub open spec fn type_view(t: Type) -> TypeView
    decreases t,
{
    match t {
        Type::Primitive(p) => TypeView::Primitive(primitive_type_view(p)),
        Type::Class(c) => TypeView::Class(class_type_view(c)),
    }
}

pub open spec fn class_type_view(c: ClassType) -> ClassTypeView
    decreases c,
{
    ClassTypeView { package: c.package@, name: c.name@, arguments: types_view(c.arguments@) }
}

/// The models of a list of types.
pub open spec fn types_view(s: Seq<Type>) -> Seq<TypeView>
    decreases s,
{
    Seq::new(
        s.len(),
        |i: int|
            if 0 <= i < s.len() {
                type_view(s[i])
            } else {
                TypeView::Primitive(PrimitiveTypeView { primitive: Seq::empty(), boxed: Seq::empty() })
            },
    )
}

impl View for PrimitiveType {
    type V = PrimitiveTypeView;

    open spec fn view(&self) -> PrimitiveTypeView {
        primitive_type_view(*self)
    }
}

impl View for ClassType {
    type V = ClassTypeView;

    open spec fn view(&self) -> ClassTypeView {
        class_type_view(*self)
    }
}

impl View for Type {
    type V = TypeView;

    open spec fn view(&self) -> TypeView {
        type_view(*self)
    }
}

/// The text of a primitive type at a nesting level: the primitive name at
/// the top level, the boxed name inside generic arguments.
pub open spec fn primitive_text(p: PrimitiveTypeView, level: nat) -> Seq<char> {
    if level == 0 {
        p.primitive
    } else {
        p.boxed
    }
}

/// The text of a type at a nesting level.
pub open spec fn type_text(t: TypeView, level: nat) -> Seq<char>
    decreases t,
{
    match t {
        TypeView::Primitive(p) => primitive_text(p, level),
        TypeView::Class(c) => class_text(c, level),
    }
}

/// The text of a class type: its simple name, followed by its generic
/// arguments in angle brackets (formatted one level deeper) if it has any.
pub open spec fn class_text(c: ClassTypeView, level: nat) -> Seq<char>
    decreases c,
{
    if c.arguments.len() == 0 {
        c.name
    } else {
        c.name + seq!['<'] + join(type_texts(c.arguments, level + 1), ", "@) + seq!['>']
    }
}

/// The texts of a list of types at a nesting level.
pub open spec fn type_texts(ts: Seq<TypeView>, level: nat) -> Seq<Seq<char>>
    decreases ts,
{
    Seq::new(
        ts.len(),
        |i: int|
            if 0 <= i < ts.len() {
                type_text(ts[i], level)
            } else {
                Seq::empty()
            },
    )
}

/// Below the top level, the text of a type does not depend on the level.
pub proof fn lemma_type_text_nested_levels(t: TypeView, a: nat, b: nat)
    requires
        a > 0,
        b > 0,
    ensures
        type_text(t, a) == type_text(t, b),
    decreases t,
{
    match t {
        TypeView::Primitive(p) => {},
        TypeView::Class(c) => {
            assert forall|i: int| 0 <= i < c.arguments.len() implies type_text(c.arguments[i], a + 1)
                == type_text(c.arguments[i], b + 1) by {
                lemma_type_text_nested_levels(c.arguments[i], a + 1, b + 1);
            }
            assert(type_texts(c.arguments, a + 1) =~= type_texts(c.arguments, b + 1));
        },
    }
}

/// A primitive type is written by its keyword at the top level and by its
/// boxed class inside the generic arguments of a class, at any depth: a
/// class with one primitive argument reads `Name<Boxed>`, as in
/// `List<Integer>`.
pub proof fn law_primitive_boxed_inside_generics(p: PrimitiveTypeView, c: ClassTypeView, level: nat)
    requires
        c.arguments == seq![TypeView::Primitive(p)],
    ensures
        type_text(TypeView::Primitive(p), 0) == p.primitive,
        level > 0 ==> type_text(TypeView::Primitive(p), level) == p.boxed,
        class_text(c, level) == c.name + "<"@ + p.boxed + ">"@,
        type_text(TypeView::Class(c), 0) == c.name + "<"@ + p.boxed + ">"@,
{
    reveal_strlit("<");
    reveal_strlit(">");
    assert(type_texts(c.arguments, level + 1) =~= seq![p.boxed]);
    assert(type_texts(c.arguments, 1) =~= seq![p.boxed]);
    assert(join(seq![p.boxed], ", "@) == p.boxed);
}

/// Conversion into a `Type`.
pub trait AsType: Sized {
    /// The model of the type that the value converts to.
    spec fn type_of(&self) -> TypeView;

    fn as_type(self) -> (t: Type)
        ensures
            t@ == self.type_of(),
    ;
}

/// A copy of a primitive type.
pub fn clone_primitive_type(p: &PrimitiveType) -> (r: PrimitiveType)
    ensures
        r@ == p@,
{
    PrimitiveType { primitive: p.primitive.clone(), boxed: p.boxed.clone() }
}

/// A copy of a type.
pub fn clone_type(t: &Type) -> (r: Type)
    ensures
        r@ == t@,
    decreases t,
{
    match t {
        Type::Primitive(p) => Type::Primitive(clone_primitive_type(p)),
        Type::Class(c) => Type::Class(clone_class_type(c)),
    }
}

/// A copy of a class type.
pub fn clone_class_type(c: &ClassType) -> (r: ClassType)
    ensures
        r@ == c@,
    decreases c,
{
    let arguments = clone_types(&c.arguments);
    ClassType { package: c.package.clone(), name: c.name.clone(), arguments }
}

/// A copy of a list of types.
pub fn clone_types(v: &Vec<Type>) -> (r: Vec<Type>)
    ensures
        types_view(r@) == types_view(v@),
    decreases v,
{
    let mut r: Vec<Type> = Vec::new();
    let mut i: usize = 0;
    while i < v.len()
        invariant
            0 <= i <= v.len(),
            r@.len() == i,
            forall|j: int| 0 <= j < i ==> #[trigger] r@[j]@ == v@[j]@,
        decreases v.len() - i,
    {
        r.push(clone_type(&v[i]));
        i += 1;
    }
    assert forall|j: int| 0 <= j < v@.len() implies #[trigger] types_view(r@)[j] == types_view(v@)[j] by {
        assert(r@[j]@ == v@[j]@);
    }
    assert(types_view(r@) =~= types_view(v@));
    r
}

impl Clone for PrimitiveType {
    fn clone(&self) -> (r: Self)
        ensures
            r@ == self@,
    {
        clone_primitive_type(self)
    }
}

impl Clone for ClassType {
    fn clone(&self) -> (r: Self)
        ensures
            r@ == self@,
    {
        clone_class_type(self)
    }
}

impl Clone for Type {
    fn clone(&self) -> (r: Self)
        ensures
            r@ == self@,
    {
        clone_type(self)
    }
}

impl ClassType {
    pub fn new(package: &str, name: &str, arguments: Vec<Type>) -> (r: ClassType)
        ensures
            r@ == (ClassTypeView { package: package@, name: name@, arguments: types_view(arguments@) }),
    {
        ClassType { package: package.to_owned(), name: name.to_owned(), arguments: arguments }
    }

    /// The same class with the given generic arguments.
    pub fn with_arguments<A: AsType>(&self, arguments: Vec<A>) -> (r: ClassType)
        ensures
            r@ == (ClassTypeView {
                package: self@.package,
                name: self@.name,
                arguments: arguments@.map_values(|a: A| a.type_of()),
            }),
    {
        let ghost orig = arguments@;
        let mut rest = arguments;
        let mut converted: Vec<Type> = Vec::new();
        while rest.len() > 0
            invariant
                converted@.len() + rest@.len() == orig.len(),
                rest@ == orig.skip(converted@.len() as int),
                types_view(converted@) =~= orig.take(converted@.len() as int).map_values(
                    |a: A| a.type_of(),
                ),
            decreases rest.len(),
        {
            let ghost k = converted@.len() as int;
            let ghost prev = converted@;
            let a = rest.remove(0);
            assert(a == orig[k]);
            let t = a.as_type();
            converted.push(t);
            assert(rest@ =~= orig.skip(k + 1));
            assert(converted@[k] == t);
            assert forall|j: int| 0 <= j < k + 1 implies #[trigger] types_view(converted@)[j] == orig.take(k + 1).map_values(|a: A| a.type_of())[j] by {
                if j < k {
                    assert(converted@[j] == prev[j]);
                    assert(types_view(prev)[j] == orig.take(k).map_values(|a: A| a.type_of())[j]);
                }
            }
            assert(types_view(converted@) =~= orig.take(k + 1).map_values(|a: A| a.type_of()));
        }
        assert(orig.take(orig.len() as int) =~= orig);
        ClassType::new(self.package.as_str(), self.name.as_str(), converted)
    }

    /// The same class without generic arguments.
    pub fn to_raw(&self) -> (r: ClassType)
        ensures
            r@ == (ClassTypeView {
                package: self@.package,
                name: self@.name,
                arguments: Seq::empty(),
            }),
    {
        let r = ClassType::new(self.package.as_str(), self.name.as_str(), Vec::new());
        assert(types_view(Seq::<Type>::empty()) =~= Seq::<TypeView>::empty());
        r
    }

    /// The text of the class at a nesting level: its simple name, followed by
    /// its generic arguments in angle brackets if it has any.
    pub fn format(&self, level: usize) -> (r: String)
        ensures
            r@ == class_text(self@, level as nat),
        decreases self,
    {
        let mut out = String::new();
        out.append(self.name.as_str());
        if self.arguments.len() > 0 {
            let next: usize = if level < usize::MAX {
                level + 1
            } else {
                level
            };
            let mut arguments: Vec<String> = Vec::new();
            let mut i: usize = 0;
            while i < self.arguments.len()
                invariant
                    0 <= i <= self.arguments.len(),
                    next > 0,
                    arguments@.len() == i,
                    forall|j: int|
                        0 <= j < i ==> #[trigger] arguments@[j]@ == type_text(
                            self.arguments@[j]@,
                            level as nat + 1,
                        ),
                decreases self.arguments.len() - i,
            {
                let s = self.arguments[i].format(next);
                proof {
                    if next != level + 1 {
                        lemma_type_text_nested_levels(self.arguments@[i as int]@, next as nat, level as nat + 1);
                    }
                }
                arguments.push(s);
                i += 1;
            }
            let joined = join_strings(&arguments, ", ");
            assert(strings_view(arguments@) =~= type_texts(self@.arguments, level as nat + 1));
            push_char(&mut out, '<');
            out.append(joined.as_str());
            push_char(&mut out, '>');
        }
        out
    }
}

impl PrimitiveType {
    pub fn new(primitive: &str, boxed: &str) -> (r: PrimitiveType)
        ensures
            r@ == (PrimitiveTypeView { primitive: primitive@, boxed: boxed@ }),
    {
        PrimitiveType { primitive: primitive.to_owned(), boxed: boxed.to_owned() }
    }

    /// The primitive name at the top level, the boxed name below it.
    pub fn format(&self, level: usize) -> (r: String)
        ensures
            r@ == primitive_text(self@, level as nat),
    {
        if level <= 0 {
            self.primitive.clone()
        } else {
            self.boxed.clone()
        }
    }
}

impl Type {
    pub fn primitive(primitive: &str, boxed: &str) -> (r: PrimitiveType)
        ensures
            r@ == (PrimitiveTypeView { primitive: primitive@, boxed: boxed@ }),
    {
        PrimitiveType::new(primitive, boxed)
    }

    pub fn class(package: &str, name: &str) -> (r: ClassType)
        ensures
            r@ == (ClassTypeView { package: package@, name: name@, arguments: Seq::empty() }),
    {
        let r = ClassType::new(package, name, Vec::new());
        assert(types_view(Seq::<Type>::empty()) =~= Seq::<TypeView>::empty());
        r
    }

    pub fn format(&self, level: usize) -> (r: String)
        ensures
            r@ == type_text(self@, level as nat),
        decreases self,
    {
        match self {
            Type::Primitive(primitive) => primitive.format(level),
            Type::Class(class) => class.format(level),
        }
    }
}

impl AsType for Type {
    open spec fn type_of(&self) -> TypeView {
        self@
    }

    fn as_type(self) -> (t: Type) {
        self
    }
}

impl AsType for ClassType {
    open spec fn type_of(&self) -> TypeView {
        TypeView::Class(self@)
    }

    fn as_type(self) -> (t: Type) {
        Type::Class(self)
    }
}

impl AsType for PrimitiveType {
    open spec fn type_of(&self) -> TypeView {
        TypeView::Primitive(self@)
    }

    fn as_type(self) -> (t: Type) {
        Type::Primitive(self)
    }
}

impl<'a> AsType for &'a Type {
    open spec fn type_of(&self) -> TypeView {
        (**self)@
    }

    fn as_type(self) -> (t: Type) {
        self.clone()
    }
}

impl<'a> AsType for &'a ClassType {
    open spec fn type_of(&self) -> TypeView {
        TypeView::Class((**self)@)
    }

    fn as_type(self) -> (t: Type) {
        Type::Class(self.clone())
    }
}

impl<'a> AsType for &'a PrimitiveType {
    open spec fn type_of(&self) -> TypeView {
        TypeView::Primitive((**self)@)
    }

    fn as_type(self) -> (t: Type) {
        Type::Primitive(self.clone())
    }
}

} // verus!
