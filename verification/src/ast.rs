//! The syntax tree of reproto specifications.

use vstd::prelude::*;
use std::rc::Rc;
use crate::text::strings_view;

verus! {

/// A syntax node with the start and end offsets of its text.
#[derive(Debug, PartialEq)]
pub struct AstLoc<T> {
    pub inner: T,
    pub pos: (usize, usize),
}

impl<T> AstLoc<T> {
    pub fn new(inner: T, pos: (usize, usize)) -> (r: AstLoc<T>)
        ensures
            r.inner == inner,
            r.pos == pos,
    {
        AstLoc { inner, pos }
    }
}

/// Whether a field must be present.
#[derive(Debug, PartialEq, Eq, Structural, Clone, Copy)]
pub enum RpModifier {
    Required,
    Optional,
}

/// A possibly qualified type name: an optional `use` alias and the dotted parts.
#[derive(Debug, PartialEq)]
pub struct RpName {
    pub prefix: Option<String>,
    pub parts: Vec<String>,
}

/// A type of the specification language.
#[derive(Debug, PartialEq)]
pub enum RpType {
    Double,
    Float,
    Signed(Option<usize>),
    Unsigned(Option<usize>),
    Boolean,
    String,
    Bytes,
    Any,
    Array(Box<RpType>),
    Mapping(Box<RpType>, Box<RpType>),
    Name(RpName),
}

/// A value of the specification language. A number is kept as the text it
/// was written with.
#[derive(Debug, PartialEq)]
pub enum RpValue {
    String(String),
    Number(String),
    Boolean(bool),
    Identifier(String),
    Constant(AstLoc<RpName>),
    Instance(AstLoc<Instance>),
    Array(Vec<AstLoc<RpValue>>),
}

/// An instance of a type, with its field initializers.
#[derive(Debug, PartialEq)]
pub struct Instance {
    pub ty: RpName,
    pub arguments: AstLoc<Vec<AstLoc<FieldInit>>>,
}

/// `name: value` in an instance.
#[derive(Debug, PartialEq)]
pub struct FieldInit {
    pub name: AstLoc<String>,
    pub value: AstLoc<RpValue>,
}

/// An option: a name and its values.
#[derive(Debug, PartialEq)]
pub struct OptionDecl {
    pub name: String,
    pub values: Vec<AstLoc<RpValue>>,
}

/// `name: type` in a match condition.
#[derive(Debug, PartialEq)]
pub struct MatchVariable {
    pub name: String,
    pub ty: RpType,
}

/// What a match member matches: a value or a typed variable.
#[derive(Debug, PartialEq)]
pub enum MatchCondition {
    RpValue(AstLoc<RpValue>),
    Type(AstLoc<MatchVariable>),
}

/// `condition => value;` in a match declaration.
#[derive(Debug, PartialEq)]
pub struct MatchMember {
    pub condition: AstLoc<MatchCondition>,
    pub value: AstLoc<RpValue>,
}

/// A match declaration.
#[derive(Debug, PartialEq)]
pub struct MatchDecl {
    pub members: Vec<AstLoc<MatchMember>>,
}

/// The start and end offsets of a syntax node, as integers.
pub type Pos = (int, int);

/// The offsets of a syntax node as integers.
pub open spec fn pos_view(p: (usize, usize)) -> Pos {
    (p.0 as int, p.1 as int)
}

/// The model of a name.
pub struct RpNameView {
    pub prefix: Option<Seq<char>>,
    pub parts: Seq<Seq<char>>,
}

pub open spec fn name_view(n: RpName) -> RpNameView {
    RpNameView {
        prefix: match n.prefix {
            Some(p) => Some(p@),
            None => None,
        },
        parts: strings_view(n.parts@),
    }
}

/// The model of a type.
pub enum RpTypeView {
    Double,
    Float,
    Signed(Option<usize>),
    Unsigned(Option<usize>),
    Boolean,
    String,
    Bytes,
    Any,
    Array(Box<RpTypeView>),
    Mapping(Box<RpTypeView>, Box<RpTypeView>),
    Name(RpNameView),
}

pub open spec fn type_view(t: RpType) -> RpTypeView
    decreases t,
{
    match t {
        RpType::Double => RpTypeView::Double,
        RpType::Float => RpTypeView::Float,
        RpType::Signed(b) => RpTypeView::Signed(b),
        RpType::Unsigned(b) => RpTypeView::Unsigned(b),
        RpType::Boolean => RpTypeView::Boolean,
        RpType::String => RpTypeView::String,
        RpType::Bytes => RpTypeView::Bytes,
        RpType::Any => RpTypeView::Any,
        RpType::Array(inner) => RpTypeView::Array(Box::new(type_view(*inner))),
        RpType::Mapping(k, v) => RpTypeView::Mapping(Box::new(type_view(*k)), Box::new(type_view(*v))),
        RpType::Name(n) => RpTypeView::Name(name_view(n)),
    }
}

/// The model of a value: nested values carry their positions.
pub enum RpValueView {
    String(Seq<char>),
    Number(Seq<char>),
    Boolean(bool),
    Identifier(Seq<char>),
    Constant(RpNameView, Pos),
    Instance(InstanceView, Pos),
    Array(Seq<(RpValueView, Pos)>),
}

/// The model of an instance.
pub struct InstanceView {
    pub ty: RpNameView,
    pub arguments: Seq<(FieldInitView, Pos)>,
    pub arguments_pos: Pos,
}

/// The model of a field initializer.
pub struct FieldInitView {
    pub name: Seq<char>,
    pub name_pos: Pos,
    pub value: RpValueView,
    pub value_pos: Pos,
}

pub open spec fn value_view(v: RpValue) -> RpValueView
    decreases v,
{
    match v {
        RpValue::String(s) => RpValueView::String(s@),
        RpValue::Number(s) => RpValueView::Number(s@),
        RpValue::Boolean(b) => RpValueView::Boolean(b),
        RpValue::Identifier(s) => RpValueView::Identifier(s@),
        RpValue::Constant(n) => RpValueView::Constant(name_view(n.inner), pos_view(n.pos)),
        RpValue::Instance(i) => RpValueView::Instance(instance_view(i.inner), pos_view(i.pos)),
        RpValue::Array(items) => RpValueView::Array(
            Seq::new(
                items@.len(),
                |k: int|
                    if 0 <= k < items@.len() {
                        (value_view(items@[k].inner), pos_view(items@[k].pos))
                    } else {
                        (RpValueView::Boolean(false), (0, 0))
                    },
            ),
        ),
    }
}

pub open spec fn instance_view(i: Instance) -> InstanceView
    decreases i,
{
    InstanceView {
        ty: name_view(i.ty),
        arguments: Seq::new(
            i.arguments.inner@.len(),
            |k: int|
                if 0 <= k < i.arguments.inner@.len() {
                    (field_init_view(i.arguments.inner@[k].inner), pos_view(i.arguments.inner@[k].pos))
                } else {
                    (FieldInitView { name: Seq::empty(), name_pos: (0, 0), value: RpValueView::Boolean(false), value_pos: (0, 0) }, (0, 0))
                },
        ),
        arguments_pos: pos_view(i.arguments.pos),
    }
}

pub open spec fn field_init_view(f: FieldInit) -> FieldInitView
    decreases f,
{
    FieldInitView {
        name: f.name.inner@,
        name_pos: pos_view(f.name.pos),
        value: value_view(f.value.inner),
        value_pos: pos_view(f.value.pos),
    }
}

/// The models of located values.
pub open spec fn values_view(vs: Seq<AstLoc<RpValue>>) -> Seq<(RpValueView, Pos)> {
    vs.map_values(|v: AstLoc<RpValue>| (value_view(v.inner), pos_view(v.pos)))
}

/// The model of an option declaration.
pub struct OptionDeclView {
    pub name: Seq<char>,
    pub values: Seq<(RpValueView, Pos)>,
}

pub open spec fn option_decl_view(o: OptionDecl) -> OptionDeclView {
    OptionDeclView { name: o.name@, values: values_view(o.values@) }
}

/// A field of a declaration body.
#[derive(Debug, PartialEq)]
pub struct Field {
    pub modifier: RpModifier,
    pub name: String,
    pub ty: RpType,
    pub field_as: Option<AstLoc<RpValue>>,
}

/// A member of a declaration body.
#[derive(Debug, PartialEq)]
pub enum Member {
    Field(Field),
    /// Code for a back end: its context and its lines, without their common
    /// indentation.
    Code(String, Vec<String>),
    Option(AstLoc<OptionDecl>),
    Match(MatchDecl),
}

/// The model of a field.
pub struct FieldView {
    pub modifier: RpModifier,
    pub name: Seq<char>,
    pub ty: RpTypeView,
    pub field_as: Option<(RpValueView, Pos)>,
}

pub open spec fn field_view(f: Field) -> FieldView {
    FieldView {
        modifier: f.modifier,
        name: f.name@,
        ty: type_view(f.ty),
        field_as: match f.field_as {
            Some(v) => Some((value_view(v.inner), pos_view(v.pos))),
            None => None,
        },
    }
}

/// The model of a member (match declarations by the model of their members).
pub enum MemberView {
    Field(FieldView),
    Code(Seq<char>, Seq<Seq<char>>),
    Option(OptionDeclView, Pos),
    Match(MatchDeclView),
}

/// The model of a match variable.
pub struct MatchVariableView {
    pub name: Seq<char>,
    pub ty: RpTypeView,
}

/// The model of a match condition.
pub enum MatchConditionView {
    RpValue(RpValueView, Pos),
    Type(MatchVariableView, Pos),
}

/// The model of a match member.
pub struct MatchMemberView {
    pub condition: MatchConditionView,
    pub condition_pos: Pos,
    pub value: RpValueView,
    pub value_pos: Pos,
}

/// The model of a match declaration.
pub struct MatchDeclView {
    pub members: Seq<(MatchMemberView, Pos)>,
}

pub open spec fn match_condition_view(c: MatchCondition) -> MatchConditionView {
    match c {
        MatchCondition::RpValue(v) => MatchConditionView::RpValue(value_view(v.inner), pos_view(v.pos)),
        MatchCondition::Type(t) => MatchConditionView::Type(
            MatchVariableView { name: t.inner.name@, ty: type_view(t.inner.ty) },
            pos_view(t.pos),
        ),
    }
}

pub open spec fn match_member_view(m: MatchMember) -> MatchMemberView {
    MatchMemberView {
        condition: match_condition_view(m.condition.inner),
        condition_pos: pos_view(m.condition.pos),
        value: value_view(m.value.inner),
        value_pos: pos_view(m.value.pos),
    }
}

pub open spec fn match_decl_view(d: MatchDecl) -> MatchDeclView {
    MatchDeclView {
        members: d.members@.map_values(|m: AstLoc<MatchMember>| (match_member_view(m.inner), pos_view(m.pos))),
    }
}

pub open spec fn member_view(m: Member) -> MemberView {
    match m {
        Member::Field(f) => MemberView::Field(field_view(f)),
        Member::Code(c, lines) => MemberView::Code(c@, strings_view(lines@)),
        Member::Option(o) => MemberView::Option(option_decl_view(o.inner), pos_view(o.pos)),
        Member::Match(d) => MemberView::Match(match_decl_view(d)),
    }
}

/// A package: its dotted parts.
#[derive(Debug, PartialEq)]
pub struct RpPackage {
    pub parts: Vec<String>,
}

impl RpPackage {
    pub fn new(parts: Vec<String>) -> (r: RpPackage)
        ensures
            r.parts == parts,
    {
        RpPackage { parts }
    }
}

/// `use package as alias;`
#[derive(Debug, PartialEq)]
pub struct UseDecl {
    pub package: AstLoc<RpPackage>,
    pub alias: Option<String>,
}

/// The body of a type declaration.
#[derive(Debug, PartialEq)]
pub struct TypeBody {
    pub name: String,
    pub members: Vec<AstLoc<Member>>,
}

/// The body of a tuple declaration.
#[derive(Debug, PartialEq)]
pub struct TupleBody {
    pub name: String,
    pub members: Vec<AstLoc<Member>>,
}

/// A sub-type of an interface.
#[derive(Debug, PartialEq)]
pub struct SubType {
    pub name: String,
    pub members: Vec<AstLoc<Member>>,
}

/// The body of an interface declaration.
#[derive(Debug, PartialEq)]
pub struct InterfaceBody {
    pub name: String,
    pub members: Vec<AstLoc<Member>>,
    pub sub_types: Vec<AstLoc<SubType>>,
}

/// A value of an enum: its name, arguments and ordinal.
#[derive(Debug, PartialEq)]
pub struct EnumValue {
    pub name: AstLoc<String>,
    pub arguments: Vec<AstLoc<RpValue>>,
    pub ordinal: Option<AstLoc<RpValue>>,
}

/// The body of an enum declaration.
#[derive(Debug, PartialEq)]
pub struct EnumBody {
    pub name: String,
    pub values: Vec<AstLoc<EnumValue>>,
    pub members: Vec<AstLoc<Member>>,
}

/// A top-level declaration.
#[derive(Debug, PartialEq)]
pub enum Decl {
    Type(TypeBody),
    Tuple(TupleBody),
    Interface(InterfaceBody),
    Enum(EnumBody),
}

/// A specification file: its package, its `use` declarations and its
/// declarations.
#[derive(Debug, PartialEq)]
pub struct File {
    pub package: AstLoc<RpPackage>,
    pub uses: Vec<AstLoc<UseDecl>>,
    pub decls: Vec<AstLoc<Decl>>,
}

/// The models of located members.
pub open spec fn members_view(v: Seq<AstLoc<Member>>) -> Seq<(MemberView, Pos)> {
    v.map_values(|m: AstLoc<Member>| (member_view(m.inner), pos_view(m.pos)))
}

/// The model of a `use` declaration.
pub struct UseDeclView {
    pub package: Seq<Seq<char>>,
    pub package_pos: Pos,
    pub alias: Option<Seq<char>>,
}

pub open spec fn use_decl_view(u: UseDecl) -> UseDeclView {
    UseDeclView {
        package: strings_view(u.package.inner.parts@),
        package_pos: pos_view(u.package.pos),
        alias: match u.alias {
            Some(a) => Some(a@),
            None => None,
        },
    }
}

/// The model of a sub-type.
pub struct SubTypeView {
    pub name: Seq<char>,
    pub members: Seq<(MemberView, Pos)>,
}

pub open spec fn sub_type_view(t: SubType) -> SubTypeView {
    SubTypeView { name: t.name@, members: members_view(t.members@) }
}

/// The model of an enum value.
pub struct EnumValueView {
    pub name: Seq<char>,
    pub name_pos: Pos,
    pub arguments: Seq<(RpValueView, Pos)>,
    pub ordinal: Option<(RpValueView, Pos)>,
}

pub open spec fn enum_value_view(v: EnumValue) -> EnumValueView {
    EnumValueView {
        name: v.name.inner@,
        name_pos: pos_view(v.name.pos),
        arguments: values_view(v.arguments@),
        ordinal: match v.ordinal {
            Some(o) => Some((value_view(o.inner), pos_view(o.pos))),
            None => None,
        },
    }
}

/// The model of a declaration.
pub enum DeclView {
    Type(Seq<char>, Seq<(MemberView, Pos)>),
    Tuple(Seq<char>, Seq<(MemberView, Pos)>),
    Interface(Seq<char>, Seq<(MemberView, Pos)>, Seq<(SubTypeView, Pos)>),
    Enum(Seq<char>, Seq<(EnumValueView, Pos)>, Seq<(MemberView, Pos)>),
}

pub open spec fn decl_view(d: Decl) -> DeclView {
    match d {
        Decl::Type(b) => DeclView::Type(b.name@, members_view(b.members@)),
        Decl::Tuple(b) => DeclView::Tuple(b.name@, members_view(b.members@)),
        Decl::Interface(b) => DeclView::Interface(
            b.name@,
            members_view(b.members@),
            b.sub_types@.map_values(|t: AstLoc<SubType>| (sub_type_view(t.inner), pos_view(t.pos))),
        ),
        Decl::Enum(b) => DeclView::Enum(
            b.name@,
            b.values@.map_values(|v: AstLoc<EnumValue>| (enum_value_view(v.inner), pos_view(v.pos))),
            members_view(b.members@),
        ),
    }
}

/// The model of a file.
pub struct FileView {
    pub package: Seq<Seq<char>>,
    pub package_pos: Pos,
    pub uses: Seq<(UseDeclView, Pos)>,
    pub decls: Seq<(DeclView, Pos)>,
}

pub open spec fn file_view(f: File) -> FileView {
    FileView {
        package: strings_view(f.package.inner.parts@),
        package_pos: pos_view(f.package.pos),
        uses: f.uses@.map_values(|u: AstLoc<UseDecl>| (use_decl_view(u.inner), pos_view(u.pos))),
        decls: f.decls@.map_values(|d: AstLoc<Decl>| (decl_view(d.inner), pos_view(d.pos))),
    }
}

/// A nested declaration of a service.
#[derive(Debug, PartialEq)]
pub enum ServiceNested<'a> {
    Endpoint {
        url: AstLoc<String>,
        comment: Vec<&'a str>,
        options: Vec<AstLoc<OptionDecl>>,
        children: Vec<ServiceNested<'a>>,
    },
    Star {
        comment: Vec<&'a str>,
        options: Vec<AstLoc<OptionDecl>>,
        children: Vec<ServiceNested<'a>>,
    },
    Returns { comment: Vec<&'a str>, ty: AstLoc<RpType>, options: Vec<AstLoc<OptionDecl>> },
}

impl<'a> ServiceNested<'a> {
    /// Whether this is a `returns` declaration.
    pub fn is_returns(&self) -> (r: bool)
        ensures
            r == (self is Returns),
    {
        match *self {
            ServiceNested::Returns { .. } => true,
            _ => false,
        }
    }
}

/// A field as the Python back end sees it.
#[derive(Debug, Clone)]
pub struct PythonField<'a> {
    pub modifier: &'a RpModifier,
    pub ty: &'a RpType,
    pub name: &'a str,
    pub ident: Rc<String>,
}

impl<'a> PythonField<'a> {
    /// The same field with another identifier.
    pub fn with_ident(self, ident: String) -> (r: PythonField<'a>)
        ensures
            r.modifier == self.modifier,
            r.ty == self.ty,
            r.name == self.name,
            r.ident@ == ident@,
    {
        PythonField { modifier: self.modifier, ty: self.ty, name: self.name, ident: Rc::new(ident) }
    }
}

/// A location in a source file: the node and its start and end offsets.
#[derive(Debug, PartialEq)]
pub struct RpLoc<T> {
    pub inner: T,
    pub pos: (usize, usize),
}

/// Code for a back end, written in a specification.
#[derive(Debug, PartialEq)]
pub struct RpCode {
    pub context: String,
    pub lines: Vec<String>,
}

/// Why two declarations could not be merged.
#[derive(Debug, PartialEq, Eq, Structural, Clone, Copy)]
pub enum MergeError {
    Conflict,
}

/// Merging a later declaration of the same thing into an earlier one.
pub trait Merge: Sized {
    fn merge(&mut self, source: Self) -> Result<(), MergeError>;
}

impl Merge for Vec<RpLoc<RpCode>> {
    /// Code blocks merge by concatenation, the earlier ones first.
    fn merge(&mut self, source: Vec<RpLoc<RpCode>>) -> (r: Result<(), MergeError>)
        ensures
            r is Ok,
            final(self)@ == old(self)@ + source@,
    {
        let mut source = source;
        self.append(&mut source);
        Ok(())
    }
}

} // verus!
