//! Declarations inside a class: fields, annotations, method arguments,
//! constructors and methods, and the statements and blocks they become.

use vstd::prelude::*;
use crate::java::modifiers::{Modifier, Modifiers, modifiers_text};
use crate::java::types::{Type, TypeView, AsType, clone_type};
use crate::java::statement::{Variable, VariableView, Statement, StatementView, AsVariable, AsStatement, joined_statements, statements_view, clone_statements};
use crate::java::sections::{Sections, SectionsView, Block, BlockView, AsSection, clone_sections};

verus! {

/// The modifiers of a method argument.
#[derive(Debug, PartialEq, Eq, Structural, Clone, Copy)]
pub struct MethodArgument {
    pub modifiers: Modifiers,
}

/// A field declaration.
#[derive(Debug)]
pub struct FieldSpec {
    pub modifiers: Modifiers,
    pub ty: Type,
    pub name: String,
}

/// An annotation with its arguments.
#[derive(Debug)]
pub struct AnnotationSpec {
    pub ty: Type,
    pub arguments: Vec<Statement>,
}

/// A method or constructor argument.
#[derive(Debug)]
pub struct ArgumentSpec {
    pub modifiers: Modifiers,
    pub ty: Type,
    pub name: String,
    pub annotations: Vec<AnnotationSpec>,
}

/// A constructor declaration.
#[derive(Debug)]
pub struct ConstructorSpec {
    pub modifiers: Modifiers,
    pub annotations: Vec<AnnotationSpec>,
    pub arguments: Vec<ArgumentSpec>,
    pub sections: Sections,
}

/// A method declaration.
#[derive(Debug)]
pub struct MethodSpec {
    pub modifiers: Modifiers,
    pub name: String,
    pub annotations: Vec<AnnotationSpec>,
    pub arguments: Vec<ArgumentSpec>,
    pub returns: Option<Type>,
    pub sections: Sections,
}

/// The model of a field declaration.
pub struct FieldSpecView {
    pub modifiers: Set<Modifier>,
    pub ty: TypeView,
    pub name: Seq<char>,
}

/// The model of an annotation.
pub struct AnnotationSpecView {
    pub ty: TypeView,
    pub arguments: Seq<StatementView>,
}

/// The model of an argument.
pub struct ArgumentSpecView {
    pub modifiers: Set<Modifier>,
    pub ty: TypeView,
    pub name: Seq<char>,
    pub annotations: Seq<AnnotationSpecView>,
}

/// The model of a constructor.
pub struct ConstructorSpecView {
    pub modifiers: Set<Modifier>,
    pub annotations: Seq<AnnotationSpecView>,
    pub arguments: Seq<ArgumentSpecView>,
    pub sections: SectionsView,
}

/// The model of a method.
pub struct MethodSpecView {
    pub modifiers: Set<Modifier>,
    pub name: Seq<char>,
    pub annotations: Seq<AnnotationSpecView>,
    pub arguments: Seq<ArgumentSpecView>,
    pub returns: Option<TypeView>,
    pub sections: SectionsView,
}

impl View for FieldSpec {
    type V = FieldSpecView;

    open spec fn view(&self) -> FieldSpecView {
        FieldSpecView { modifiers: self.modifiers@, ty: self.ty@, name: self.name@ }
    }
}

impl View for AnnotationSpec {
    type V = AnnotationSpecView;

    open spec fn view(&self) -> AnnotationSpecView {
        AnnotationSpecView { ty: self.ty@, arguments: statements_view(self.arguments@) }
    }
}

/// The models of a list of annotations.
pub open spec fn annotations_view(s: Seq<AnnotationSpec>) -> Seq<AnnotationSpecView> {
    s.map_values(|a: AnnotationSpec| a@)
}

impl View for ArgumentSpec {
    type V = ArgumentSpecView;

    open spec fn view(&self) -> ArgumentSpecView {
        ArgumentSpecView {
            modifiers: self.modifiers@,
            ty: self.ty@,
            name: self.name@,
            annotations: annotations_view(self.annotations@),
        }
    }
}

/// The models of a list of arguments.
pub open spec fn arguments_view(s: Seq<ArgumentSpec>) -> Seq<ArgumentSpecView> {
    s.map_values(|a: ArgumentSpec| a@)
}

impl View for ConstructorSpec {
    type V = ConstructorSpecView;

    open spec fn view(&self) -> ConstructorSpecView {
        ConstructorSpecView {
            modifiers: self.modifiers@,
            annotations: annotations_view(self.annotations@),
            arguments: arguments_view(self.arguments@),
            sections: self.sections@,
        }
    }
}

impl View for MethodSpec {
    type V = MethodSpecView;

    open spec fn view(&self) -> MethodSpecView {
        MethodSpecView {
            modifiers: self.modifiers@,
            name: self.name@,
            annotations: annotations_view(self.annotations@),
            arguments: arguments_view(self.arguments@),
            returns: match self.returns {
                Some(t) => Some(t@),
                None => None,
            },
            sections: self.sections@,
        }
    }
}

/// The models of a list of fields.
pub open spec fn fields_view(s: Seq<FieldSpec>) -> Seq<FieldSpecView> {
    s.map_values(|f: FieldSpec| f@)
}

/// The models of a list of constructors.
pub open spec fn constructors_view(s: Seq<ConstructorSpec>) -> Seq<ConstructorSpecView> {
    s.map_values(|c: ConstructorSpec| c@)
}

/// The models of a list of methods.
pub open spec fn methods_view(s: Seq<MethodSpec>) -> Seq<MethodSpecView> {
    s.map_values(|m: MethodSpec| m@)
}

/// A statement of the given parts.
pub open spec fn stmt_of(parts: Seq<VariableView>) -> StatementView {
    StatementView { parts }
}

/// The part that writes the modifiers followed by a space, if there are any.
pub open spec fn modifiers_part(m: Set<Modifier>) -> Seq<VariableView> {
    if m == Set::<Modifier>::empty() {
        Seq::empty()
    } else {
        seq![
            VariableView::Statement(
                stmt_of(seq![VariableView::Literal(modifiers_text(m)), VariableView::Literal(" "@)]),
            ),
        ]
    }
}

/// The part that writes a type, a space and a name.
pub open spec fn typed_name_part(ty: TypeView, name: Seq<char>) -> VariableView {
    VariableView::Statement(
        stmt_of(seq![VariableView::Type(ty), VariableView::Literal(" "@), VariableView::Literal(name)]),
    )
}

/// The statement of a field: its modifiers, type and name.
pub open spec fn field_statement(f: FieldSpecView) -> StatementView {
    stmt_of(modifiers_part(f.modifiers) + seq![typed_name_part(f.ty, f.name)])
}

/// The statement of an annotation: `@` and its type, followed by its
/// arguments in parentheses, separated by commas, if it has any.
pub open spec fn annotation_statement(a: AnnotationSpecView) -> StatementView {
    let head = seq![
        VariableView::Statement(stmt_of(seq![VariableView::Literal("@"@), VariableView::Type(a.ty)])),
    ];
    if a.arguments.len() == 0 {
        stmt_of(head)
    } else {
        stmt_of(
            head + seq![
                VariableView::Literal("("@),
                VariableView::Statement(joined_statements(a.arguments, VariableView::Literal(", "@))),
                VariableView::Literal(")"@),
            ],
        )
    }
}

/// Each annotation's statement followed by a line break.
pub open spec fn annotations_part(anns: Seq<AnnotationSpecView>) -> Seq<VariableView>
    decreases anns.len(),
{
    if anns.len() == 0 {
        Seq::empty()
    } else {
        annotations_part(anns.drop_last()) + seq![
            VariableView::Statement(annotation_statement(anns.last())),
            VariableView::Spacing,
        ]
    }
}

/// The statement of an argument: its annotations (each on a line of its
/// own), modifiers, type and name.
pub open spec fn argument_statement(a: ArgumentSpecView) -> StatementView {
    stmt_of(annotations_part(a.annotations) + modifiers_part(a.modifiers) + seq![typed_name_part(a.ty, a.name)])
}

/// The part that writes a list of arguments separated by commas, if there are any.
pub open spec fn arguments_part(args: Seq<ArgumentSpecView>) -> Seq<VariableView> {
    if args.len() == 0 {
        Seq::empty()
    } else {
        seq![
            VariableView::Statement(
                joined_statements(
                    args.map_values(|a: ArgumentSpecView| argument_statement(a)),
                    VariableView::Literal(", "@),
                ),
            ),
        ]
    }
}

/// A statement holding one literal.
pub open spec fn literal_part(s: Seq<char>) -> VariableView {
    VariableView::Statement(stmt_of(seq![VariableView::Literal(s)]))
}

/// The block of a constructor of the class `enclosing`: its annotations,
/// modifiers, the class name and the arguments in parentheses, then its body.
pub open spec fn constructor_block(c: ConstructorSpecView, enclosing: Seq<char>) -> BlockView {
    BlockView {
        open: Some(
            stmt_of(
                annotations_part(c.annotations) + modifiers_part(c.modifiers) + seq![
                    VariableView::Statement(
                        stmt_of(seq![VariableView::Literal(enclosing), VariableView::Literal("("@)]),
                    ),
                ] + arguments_part(c.arguments) + seq![literal_part(")"@)],
            ),
        ),
        close: None,
        sections: c.sections,
    }
}

/// The part that writes the return type of a method and a space, or `void `.
pub open spec fn returns_part(return_type: Option<TypeView>) -> Seq<VariableView> {
    match return_type {
        None => seq![VariableView::Literal("void "@)],
        Some(t) => seq![
            VariableView::Statement(stmt_of(seq![VariableView::Type(t), VariableView::Literal(" "@)])),
        ],
    }
}

/// The block of a method: its annotations, modifiers, return type, name and
/// arguments in parentheses, then its body.
pub open spec fn method_block(m: MethodSpecView) -> BlockView {
    BlockView {
        open: Some(
            stmt_of(
                annotations_part(m.annotations) + modifiers_part(m.modifiers) + returns_part(m.returns)
                    + seq![
                    VariableView::Statement(
                        stmt_of(seq![VariableView::Literal(m.name), VariableView::Literal("("@)]),
                    ),
                ] + arguments_part(m.arguments) + seq![literal_part(")"@)],
            ),
        ),
        close: None,
        sections: m.sections,
    }
}

/// A copy of a field.
pub fn clone_field(f: &FieldSpec) -> (r: FieldSpec)
    ensures
        r@ == f@,
{
    FieldSpec { modifiers: f.modifiers, ty: clone_type(&f.ty), name: f.name.clone() }
}

/// A copy of an annotation.
pub fn clone_annotation(a: &AnnotationSpec) -> (r: AnnotationSpec)
    ensures
        r@ == a@,
{
    AnnotationSpec { ty: clone_type(&a.ty), arguments: clone_statements(&a.arguments) }
}

/// A copy of a list of annotations.
pub fn clone_annotations(v: &Vec<AnnotationSpec>) -> (r: Vec<AnnotationSpec>)
    ensures
        annotations_view(r@) == annotations_view(v@),
{
    let mut r: Vec<AnnotationSpec> = Vec::new();
    let mut i: usize = 0;
    while i < v.len()
        invariant
            0 <= i <= v.len(),
            r@.len() == i,
            forall|j: int| 0 <= j < i ==> #[trigger] r@[j]@ == v@[j]@,
        decreases v.len() - i,
    {
        r.push(clone_annotation(&v[i]));
        i += 1;
    }
    assert(annotations_view(r@) =~= annotations_view(v@));
    r
}

/// A copy of an argument.
pub fn clone_argument(a: &ArgumentSpec) -> (r: ArgumentSpec)
    ensures
        r@ == a@,
{
    ArgumentSpec {
        modifiers: a.modifiers,
        ty: clone_type(&a.ty),
        name: a.name.clone(),
        annotations: clone_annotations(&a.annotations),
    }
}

/// A copy of a list of arguments.
pub fn clone_arguments(v: &Vec<ArgumentSpec>) -> (r: Vec<ArgumentSpec>)
    ensures
        arguments_view(r@) == arguments_view(v@),
{
    let mut r: Vec<ArgumentSpec> = Vec::new();
    let mut i: usize = 0;
    while i < v.len()
        invariant
            0 <= i <= v.len(),
            r@.len() == i,
            forall|j: int| 0 <= j < i ==> #[trigger] r@[j]@ == v@[j]@,
        decreases v.len() - i,
    {
        r.push(clone_argument(&v[i]));
        i += 1;
    }
    assert(arguments_view(r@) =~= arguments_view(v@));
    r
}

/// A copy of a constructor.
pub fn clone_constructor(c: &ConstructorSpec) -> (r: ConstructorSpec)
    ensures
        r@ == c@,
{
    ConstructorSpec {
        modifiers: c.modifiers,
        annotations: clone_annotations(&c.annotations),
        arguments: clone_arguments(&c.arguments),
        sections: clone_sections(&c.sections),
    }
}

/// A copy of a method.
pub fn clone_method(m: &MethodSpec) -> (r: MethodSpec)
    ensures
        r@ == m@,
{
    let return_type = match &m.returns {
        Some(t) => Some(clone_type(t)),
        None => None,
    };
    MethodSpec {
        modifiers: m.modifiers,
        name: m.name.clone(),
        annotations: clone_annotations(&m.annotations),
        arguments: clone_arguments(&m.arguments),
        returns: return_type,
        sections: clone_sections(&m.sections),
    }
}

impl Clone for FieldSpec {
    fn clone(&self) -> (r: Self)
        ensures
            r@ == self@,
    {
        clone_field(self)
    }
}

impl Clone for AnnotationSpec {
    fn clone(&self) -> (r: Self)
        ensures
            r@ == self@,
    {
        clone_annotation(self)
    }
}

impl Clone for ArgumentSpec {
    fn clone(&self) -> (r: Self)
        ensures
            r@ == self@,
    {
        clone_argument(self)
    }
}

impl Clone for ConstructorSpec {
    fn clone(&self) -> (r: Self)
        ensures
            r@ == self@,
    {
        clone_constructor(self)
    }
}

impl Clone for MethodSpec {
    fn clone(&self) -> (r: Self)
        ensures
            r@ == self@,
    {
        clone_method(self)
    }
}

/// Appends to `s` the part that writes the modifiers followed by a space,
/// if there are any.
pub(crate) fn push_modifiers(s: &mut Statement, modifiers: &Modifiers)
    ensures
        final(s)@ == stmt_of(old(s)@.parts + modifiers_part(modifiers@)),
{
    if !modifiers.is_empty() {
        let mut m = Statement::new();
        m.push(modifiers.format());
        m.push(" ");
        assert(m@.parts =~= seq![VariableView::Literal(modifiers_text(modifiers@)), VariableView::Literal(" "@)]);
        s.push(m);
        assert(s@.parts =~= old(s)@.parts + modifiers_part(modifiers@));
    } else {
        assert(s@.parts =~= old(s)@.parts + modifiers_part(modifiers@));
    }
}

/// Appends to `s` each annotation's statement followed by a line break.
pub(crate) fn push_annotations(s: &mut Statement, annotations: &Vec<AnnotationSpec>)
    ensures
        final(s)@ == stmt_of(old(s)@.parts + annotations_part(annotations_view(annotations@))),
{
    let mut i: usize = 0;
    while i < annotations.len()
        invariant
            0 <= i <= annotations.len(),
            s@.parts == old(s)@.parts + annotations_part(annotations_view(annotations@).take(i as int)),
        decreases annotations.len() - i,
    {
        let ghost prev = s@.parts;
        s.push(annotations[i].to_statement());
        s.push(Variable::Spacing);
        assert(annotations_view(annotations@).take(i + 1).drop_last() =~= annotations_view(
            annotations@,
        ).take(i as int));
        assert(s@.parts =~= old(s)@.parts + annotations_part(annotations_view(annotations@).take(i + 1)));
        i += 1;
    }
    assert(annotations_view(annotations@).take(annotations.len() as int) =~= annotations_view(
        annotations@,
    ));
}

/// Appends to `s` the part that writes a type, a space and a name.
fn push_typed_name(s: &mut Statement, ty: &Type, name: &String)
    ensures
        final(s)@ == stmt_of(old(s)@.parts.push(typed_name_part(ty@, name@))),
{
    let mut t = Statement::new();
    t.push(ty);
    t.push(" ");
    t.push(name);
    assert(t@.parts =~= seq![VariableView::Type(ty@), VariableView::Literal(" "@), VariableView::Literal(name@)]);
    s.push(t);
    assert(s@.parts =~= old(s)@.parts.push(typed_name_part(ty@, name@)));
}

/// Appends to `s` the arguments separated by commas, if there are any.
fn push_argument_list(s: &mut Statement, arguments: &Vec<ArgumentSpec>)
    ensures
        final(s)@ == stmt_of(old(s)@.parts + arguments_part(arguments_view(arguments@))),
{
    s.push_arguments(arguments, ", ");
    assert(arguments@.map_values(|a: ArgumentSpec| a.statement_of()) =~= arguments_view(
        arguments@,
    ).map_values(|a: ArgumentSpecView| argument_statement(a)));
    assert(s@.parts =~= old(s)@.parts + arguments_part(arguments_view(arguments@)));
}

/// Appends to `s` a statement holding one literal.
fn push_literal_part(s: &mut Statement, text: &'static str)
    ensures
        final(s)@ == stmt_of(old(s)@.parts.push(literal_part(text@))),
{
    let mut t = Statement::new();
    t.push(text);
    assert(t@.parts =~= seq![VariableView::Literal(text@)]);
    s.push(t);
    assert(s@.parts =~= old(s)@.parts.push(literal_part(text@)));
}

impl FieldSpec {
    pub fn new<I: AsType>(modifiers: Modifiers, ty: I, name: &str) -> (r: FieldSpec)
        ensures
            r@ == (FieldSpecView { modifiers: modifiers@, ty: ty.type_of(), name: name@ }),
    {
        FieldSpec { modifiers: modifiers, ty: ty.as_type(), name: name.to_owned() }
    }
}

impl AnnotationSpec {
    pub fn new<I: AsType>(ty: I) -> (r: AnnotationSpec)
        ensures
            r@ == (AnnotationSpecView { ty: ty.type_of(), arguments: Seq::empty() }),
    {
        let r = AnnotationSpec { ty: ty.as_type(), arguments: Vec::new() };
        assert(statements_view(r.arguments@) =~= Seq::<StatementView>::empty());
        r
    }

    /// Appends one argument.
    pub fn push_argument<S: AsStatement>(&mut self, statement: S)
        ensures
            final(self)@ == (AnnotationSpecView {
                arguments: old(self)@.arguments.push(statement.statement_of()),
                ..old(self)@
            }),
    {
        let s = statement.as_statement();
        self.arguments.push(s);
        assert(statements_view(self.arguments@) =~= statements_view(old(self).arguments@).push(s@));
    }
}

impl ArgumentSpec {
    pub fn new<I: AsType>(modifiers: Modifiers, ty: I, name: &str) -> (r: ArgumentSpec)
        ensures
            r@ == (ArgumentSpecView {
                modifiers: modifiers@,
                ty: ty.type_of(),
                name: name@,
                annotations: Seq::empty(),
            }),
    {
        let r = ArgumentSpec {
            modifiers: modifiers,
            ty: ty.as_type(),
            name: name.to_owned(),
            annotations: Vec::new(),
        };
        assert(annotations_view(r.annotations@) =~= Seq::<AnnotationSpecView>::empty());
        r
    }

    /// Appends a copy of an annotation.
    pub fn push_annotation(&mut self, annotation: &AnnotationSpec)
        ensures
            final(self)@ == (ArgumentSpecView {
                annotations: old(self)@.annotations.push(annotation@),
                ..old(self)@
            }),
    {
        self.annotations.push(clone_annotation(annotation));
        assert(annotations_view(self.annotations@) =~= annotations_view(old(self).annotations@).push(
            annotation@,
        ));
    }
}

impl ConstructorSpec {
    pub fn new(modifiers: Modifiers) -> (r: ConstructorSpec)
        ensures
            r@ == (ConstructorSpecView {
                modifiers: modifiers@,
                annotations: Seq::empty(),
                arguments: Seq::empty(),
                sections: SectionsView { sections: Seq::empty() },
            }),
    {
        let r = ConstructorSpec {
            modifiers: modifiers,
            annotations: Vec::new(),
            arguments: Vec::new(),
            sections: Sections::new(),
        };
        assert(annotations_view(r.annotations@) =~= Seq::<AnnotationSpecView>::empty());
        assert(arguments_view(r.arguments@) =~= Seq::<ArgumentSpecView>::empty());
        r
    }

    /// Appends one annotation.
    pub fn push_annotation<A: AsAnnotationSpec>(&mut self, annotation: A)
        ensures
            final(self)@ == (ConstructorSpecView {
                annotations: old(self)@.annotations.push(annotation.annotation_of()),
                ..old(self)@
            }),
    {
        let a = annotation.as_annotation_spec();
        self.annotations.push(a);
        assert(annotations_view(self.annotations@) =~= annotations_view(old(self).annotations@).push(a@));
    }

    /// Appends one argument.
    pub fn push_argument<A: AsArgumentSpec>(&mut self, argument: A)
        ensures
            final(self)@ == (ConstructorSpecView {
                arguments: old(self)@.arguments.push(argument.argument_of()),
                ..old(self)@
            }),
    {
        let a = argument.as_argument_spec();
        self.arguments.push(a);
        assert(arguments_view(self.arguments@) =~= arguments_view(old(self).arguments@).push(a@));
    }

    /// Appends one section to the body.
    pub fn push<S: AsSection>(&mut self, section: S)
        ensures
            final(self)@ == (ConstructorSpecView {
                sections: SectionsView { sections: old(self)@.sections.sections.push(section.section_of()) },
                ..old(self)@
            }),
    {
        self.sections.push(section);
    }

    /// The block of the constructor inside the class `enclosing`.
    pub fn as_block(&self, enclosing: &str) -> (r: Block)
        ensures
            r@ == constructor_block(self@, enclosing@),
    {
        let mut open = Statement::new();
        push_annotations(&mut open, &self.annotations);
        push_modifiers(&mut open, &self.modifiers);
        let mut name = Statement::new();
        name.push(enclosing.to_owned());
        name.push("(");
        assert(name@.parts =~= seq![VariableView::Literal(enclosing@), VariableView::Literal("("@)]);
        open.push(name);
        push_argument_list(&mut open, &self.arguments);
        push_literal_part(&mut open, ")");
        let mut block = Block::new();
        block.open(open);
        block.extend(&self.sections);
        assert(block@.sections.sections =~= self@.sections.sections);
        assert(block@.open.unwrap().parts =~= constructor_block(self@, enclosing@).open.unwrap().parts);
        block
    }
}

impl MethodSpec {
    pub fn new(modifiers: Modifiers, name: &str) -> (r: MethodSpec)
        ensures
            r@ == (MethodSpecView {
                modifiers: modifiers@,
                name: name@,
                annotations: Seq::empty(),
                arguments: Seq::empty(),
                returns: None,
                sections: SectionsView { sections: Seq::empty() },
            }),
    {
        let r = MethodSpec {
            modifiers: modifiers,
            name: name.to_owned(),
            annotations: Vec::new(),
            arguments: Vec::new(),
            returns: None,
            sections: Sections::new(),
        };
        assert(annotations_view(r.annotations@) =~= Seq::<AnnotationSpecView>::empty());
        assert(arguments_view(r.arguments@) =~= Seq::<ArgumentSpecView>::empty());
        r
    }

    /// Appends a copy of an annotation.
    pub fn push_annotation(&mut self, annotation: &AnnotationSpec)
        ensures
            final(self)@ == (MethodSpecView {
                annotations: old(self)@.annotations.push(annotation@),
                ..old(self)@
            }),
    {
        self.annotations.push(clone_annotation(annotation));
        assert(annotations_view(self.annotations@) =~= annotations_view(old(self).annotations@).push(
            annotation@,
        ));
    }

    /// Appends one argument.
    pub fn push_argument<A: AsArgumentSpec>(&mut self, argument: A)
        ensures
            final(self)@ == (MethodSpecView {
                arguments: old(self)@.arguments.push(argument.argument_of()),
                ..old(self)@
            }),
    {
        let a = argument.as_argument_spec();
        self.arguments.push(a);
        assert(arguments_view(self.arguments@) =~= arguments_view(old(self).arguments@).push(a@));
    }

    /// Sets the return type.
    pub fn set_returns<I: AsType>(&mut self, return_type: I)
        ensures
            final(self)@ == (MethodSpecView { returns: Some(return_type.type_of()), ..old(self)@ }),
    {
        self.returns = Some(return_type.as_type());
    }

    /// Appends one section to the body.
    pub fn push<S: AsSection>(&mut self, section: S)
        ensures
            final(self)@ == (MethodSpecView {
                sections: SectionsView { sections: old(self)@.sections.sections.push(section.section_of()) },
                ..old(self)@
            }),
    {
        self.sections.push(section);
    }

    /// The block of the method.
    pub fn as_block(&self) -> (r: Block)
        ensures
            r@ == method_block(self@),
    {
        let mut open = Statement::new();
        push_annotations(&mut open, &self.annotations);
        push_modifiers(&mut open, &self.modifiers);
        match &self.returns {
            None => {
                open.push("void ");
            },
            Some(return_type) => {
                let mut r = Statement::new();
                r.push(return_type);
                r.push(" ");
                assert(r@.parts =~= seq![VariableView::Type(return_type@), VariableView::Literal(" "@)]);
                open.push(r);
            },
        }
        let mut name = Statement::new();
        name.push(&self.name);
        name.push("(");
        assert(name@.parts =~= seq![VariableView::Literal(self.name@), VariableView::Literal("("@)]);
        open.push(name);
        push_argument_list(&mut open, &self.arguments);
        push_literal_part(&mut open, ")");
        let mut block = Block::new();
        block.open(open);
        block.extend(&self.sections);
        assert(block@.sections.sections =~= self@.sections.sections);
        assert(block@.open.unwrap().parts =~= method_block(self@).open.unwrap().parts);
        block
    }
}

/// Conversion into an annotation.
pub trait AsAnnotationSpec: Sized {
    /// The model of the annotation that the value converts to.
    spec fn annotation_of(&self) -> AnnotationSpecView;

    fn as_annotation_spec(self) -> (a: AnnotationSpec)
        ensures
            a@ == self.annotation_of(),
    ;
}

impl AsAnnotationSpec for AnnotationSpec {
    open spec fn annotation_of(&self) -> AnnotationSpecView {
        self@
    }

    fn as_annotation_spec(self) -> (a: AnnotationSpec) {
        self
    }
}

impl<'a> AsAnnotationSpec for &'a AnnotationSpec {
    open spec fn annotation_of(&self) -> AnnotationSpecView {
        (**self)@
    }

    fn as_annotation_spec(self) -> (a: AnnotationSpec) {
        clone_annotation(self)
    }
}

/// Conversion into an argument.
pub trait AsArgumentSpec: Sized {
    /// The model of the argument that the value converts to.
    spec fn argument_of(&self) -> ArgumentSpecView;

    fn as_argument_spec(self) -> (a: ArgumentSpec)
        ensures
            a@ == self.argument_of(),
    ;
}

impl AsArgumentSpec for ArgumentSpec {
    open spec fn argument_of(&self) -> ArgumentSpecView {
        self@
    }

    fn as_argument_spec(self) -> (a: ArgumentSpec) {
        self
    }
}

impl<'a> AsArgumentSpec for &'a ArgumentSpec {
    open spec fn argument_of(&self) -> ArgumentSpecView {
        (**self)@
    }

    fn as_argument_spec(self) -> (a: ArgumentSpec) {
        clone_argument(self)
    }
}

impl AsVariable for FieldSpec {
    open spec fn variable_of(&self) -> VariableView {
        VariableView::Literal(self.name@)
    }

    fn as_variable(self) -> (v: Variable) {
        Variable::Literal(self.name)
    }
}

impl<'a> AsVariable for &'a FieldSpec {
    open spec fn variable_of(&self) -> VariableView {
        VariableView::Literal(self.name@)
    }

    fn as_variable(self) -> (v: Variable) {
        Variable::Literal(self.name.clone())
    }
}

impl AsVariable for ArgumentSpec {
    open spec fn variable_of(&self) -> VariableView {
        VariableView::Literal(self.name@)
    }

    fn as_variable(self) -> (v: Variable) {
        Variable::Literal(self.name)
    }
}

impl<'a> AsVariable for &'a ArgumentSpec {
    open spec fn variable_of(&self) -> VariableView {
        VariableView::Literal(self.name@)
    }

    fn as_variable(self) -> (v: Variable) {
        Variable::Literal(self.name.clone())
    }
}

/// The statement of a field.
fn field_to_statement(f: &FieldSpec) -> (s: Statement)
    ensures
        s@ == field_statement(f@),
{
    let mut s = Statement::new();
    push_modifiers(&mut s, &f.modifiers);
    push_typed_name(&mut s, &f.ty, &f.name);
    assert(s@.parts =~= field_statement(f@).parts);
    s
}

/// The statement of an annotation.
fn annotation_to_statement(a: &AnnotationSpec) -> (s: Statement)
    ensures
        s@ == annotation_statement(a@),
{
    let mut s = Statement::new();
    let mut head = Statement::new();
    head.push("@");
    head.push(&a.ty);
    assert(head@.parts =~= seq![VariableView::Literal("@"@), VariableView::Type(a@.ty)]);
    s.push(head);
    if a.arguments.len() > 0 {
        s.push("(");
        s.push_arguments(&a.arguments, ", ");
        s.push(")");
        assert(a.arguments@.map_values(|st: Statement| st.statement_of()) =~= a@.arguments);
    }
    assert(s@.parts =~= annotation_statement(a@).parts);
    s
}

/// The statement of an argument.
fn argument_to_statement(a: &ArgumentSpec) -> (s: Statement)
    ensures
        s@ == argument_statement(a@),
{
    let mut s = Statement::new();
    push_annotations(&mut s, &a.annotations);
    push_modifiers(&mut s, &a.modifiers);
    push_typed_name(&mut s, &a.ty, &a.name);
    assert(s@.parts =~= argument_statement(a@).parts);
    s
}

impl AsStatement for FieldSpec {
    open spec fn statement_of(&self) -> StatementView {
        field_statement(self@)
    }

    fn as_statement(self) -> (s: Statement) {
        field_to_statement(&self)
    }

    fn to_statement(&self) -> (s: Statement) {
        field_to_statement(self)
    }
}

impl<'a> AsStatement for &'a FieldSpec {
    open spec fn statement_of(&self) -> StatementView {
        field_statement((**self)@)
    }

    fn as_statement(self) -> (s: Statement) {
        field_to_statement(self)
    }

    fn to_statement(&self) -> (s: Statement) {
        field_to_statement(*self)
    }
}

impl AsStatement for AnnotationSpec {
    open spec fn statement_of(&self) -> StatementView {
        annotation_statement(self@)
    }

    fn as_statement(self) -> (s: Statement) {
        annotation_to_statement(&self)
    }

    fn to_statement(&self) -> (s: Statement) {
        annotation_to_statement(self)
    }
}

impl<'a> AsStatement for &'a AnnotationSpec {
    open spec fn statement_of(&self) -> StatementView {
        annotation_statement((**self)@)
    }

    fn as_statement(self) -> (s: Statement) {
        annotation_to_statement(self)
    }

    fn to_statement(&self) -> (s: Statement) {
        annotation_to_statement(*self)
    }
}

impl AsStatement for ArgumentSpec {
    open spec fn statement_of(&self) -> StatementView {
        argument_statement(self@)
    }

    fn as_statement(self) -> (s: Statement) {
        argument_to_statement(&self)
    }

    fn to_statement(&self) -> (s: Statement) {
        argument_to_statement(self)
    }
}

impl<'a> AsStatement for &'a ArgumentSpec {
    open spec fn statement_of(&self) -> StatementView {
        argument_statement((**self)@)
    }

    fn as_statement(self) -> (s: Statement) {
        argument_to_statement(self)
    }

    fn to_statement(&self) -> (s: Statement) {
        argument_to_statement(*self)
    }
}

} // verus!
