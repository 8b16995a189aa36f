//! Classes, interfaces and the elements nested inside them.

use vstd::prelude::*;
use crate::text::{strings_view, clone_strings};
use crate::java::modifiers::{Modifier, Modifiers};
use crate::java::statement::{VariableView, Statement, StatementView, AsStatement, clone_statement};
use crate::java::sections::{Section, Sections, SectionView, SectionsView, Block, BlockView};
use crate::java::specs::{FieldSpec, FieldSpecView, AnnotationSpec, AnnotationSpecView, ConstructorSpec, ConstructorSpecView, MethodSpec, MethodSpecView, annotations_view, fields_view, constructors_view, methods_view, annotations_part, modifiers_part, stmt_of, field_statement, constructor_block, method_block, clone_field, clone_annotation, clone_annotations, clone_constructor, clone_method};

verus! {

/// An interface declaration.
#[derive(Debug)]
pub struct InterfaceSpec {
    pub modifiers: Modifiers,
    pub name: String,
    pub annotations: Vec<AnnotationSpec>,
    pub elements: Vec<ElementSpec>,
}

/// A class declaration.
#[derive(Debug)]
pub struct ClassSpec {
    pub modifiers: Modifiers,
    pub name: String,
    pub annotations: Vec<AnnotationSpec>,
    pub fields: Vec<FieldSpec>,
    pub constructors: Vec<ConstructorSpec>,
    pub methods: Vec<MethodSpec>,
    pub elements: Vec<ElementSpec>,
}

/// An element nested in a class, an interface or a file.
#[derive(Debug)]
pub enum ElementSpec {
    Class(ClassSpec),
    Interface(InterfaceSpec),
    Statement(Statement),
    Literal(Vec<String>),
}

/// The model of an interface.
pub struct InterfaceSpecView {
    pub modifiers: Set<Modifier>,
    pub name: Seq<char>,
    pub annotations: Seq<AnnotationSpecView>,
    pub elements: Seq<ElementSpecView>,
}

/// The model of a class.
pub struct ClassSpecView {
    pub modifiers: Set<Modifier>,
    pub name: Seq<char>,
    pub annotations: Seq<AnnotationSpecView>,
    pub fields: Seq<FieldSpecView>,
    pub constructors: Seq<ConstructorSpecView>,
    pub methods: Seq<MethodSpecView>,
    pub elements: Seq<ElementSpecView>,
}

/// The model of an element.
pub enum ElementSpecView {
    Class(ClassSpecView),
    Interface(InterfaceSpecView),
    Statement(StatementView),
    Literal(Seq<Seq<char>>),
}

pub open spec fn element_view(e: ElementSpec) -> ElementSpecView
    decreases e,
{
    match e {
        ElementSpec::Class(c) => ElementSpecView::Class(class_spec_view(c)),
        ElementSpec::Interface(i) => ElementSpecView::Interface(interface_spec_view(i)),
        ElementSpec::Statement(s) => ElementSpecView::Statement(s@),
        ElementSpec::Literal(l) => ElementSpecView::Literal(strings_view(l@)),
    }
}

pub open spec fn class_spec_view(c: ClassSpec) -> ClassSpecView
    decreases c,
{
    ClassSpecView {
        modifiers: c.modifiers@,
        name: c.name@,
        annotations: annotations_view(c.annotations@),
        fields: fields_view(c.fields@),
        constructors: constructors_view(c.constructors@),
        methods: methods_view(c.methods@),
        elements: elements_view(c.elements@),
    }
}

pub open spec fn interface_spec_view(i: InterfaceSpec) -> InterfaceSpecView
    decreases i,
{
    InterfaceSpecView {
        modifiers: i.modifiers@,
        name: i.name@,
        annotations: annotations_view(i.annotations@),
        elements: elements_view(i.elements@),
    }
}

/// The models of a list of elements.
pub open spec fn elements_view(s: Seq<ElementSpec>) -> Seq<ElementSpecView>
    decreases s,
{
    Seq::new(
        s.len(),
        |i: int|
            if 0 <= i < s.len() {
                element_view(s[i])
            } else {
                ElementSpecView::Literal(Seq::empty())
            },
    )
}

impl View for ElementSpec {
    type V = ElementSpecView;

    open spec fn view(&self) -> ElementSpecView {
        element_view(*self)
    }
}

impl View for ClassSpec {
    type V = ClassSpecView;

    open spec fn view(&self) -> ClassSpecView {
        class_spec_view(*self)
    }
}

impl View for InterfaceSpec {
    type V = InterfaceSpecView;

    open spec fn view(&self) -> InterfaceSpecView {
        interface_spec_view(*self)
    }
}

/// `items` with an empty line before each item, except before the first
/// one when `leading` is false.
pub open spec fn spaced(items: Seq<SectionView>, leading: bool) -> Seq<SectionView>
    decreases items.len(),
{
    if items.len() == 0 {
        Seq::empty()
    } else if items.len() == 1 && !leading {
        items
    } else {
        spaced(items.drop_last(), leading) + seq![SectionView::Spacing, items.last()]
    }
}

/// The section that an element becomes: a block for a class or an
/// interface, the statement or lines themselves otherwise.
pub open spec fn element_section(e: ElementSpecView) -> SectionView
    decreases e,
{
    match e {
        ElementSpecView::Class(c) => SectionView::Block(class_block(c)),
        ElementSpecView::Interface(i) => SectionView::Block(interface_block(i)),
        ElementSpecView::Statement(s) => SectionView::Statement(s),
        ElementSpecView::Literal(l) => SectionView::Literal(l),
    }
}

/// The sections of a list of elements.
pub open spec fn element_sections(es: Seq<ElementSpecView>) -> Seq<SectionView>
    decreases es,
{
    Seq::new(
        es.len(),
        |i: int|
            if 0 <= i < es.len() {
                element_section(es[i])
            } else {
                SectionView::Spacing
            },
    )
}

/// The opening statement of a declaration: its annotations (each on a line
/// of its own), its modifiers, and the keyword with the name.
pub open spec fn declaration_open(
    annotations: Seq<AnnotationSpecView>,
    modifiers: Set<Modifier>,
    keyword: Seq<char>,
    name: Seq<char>,
) -> StatementView {
    stmt_of(
        annotations_part(annotations) + modifiers_part(modifiers) + seq![
            VariableView::Statement(stmt_of(seq![VariableView::Literal(keyword), VariableView::Literal(name)])),
        ],
    )
}

/// The block of an interface: its declaration, then its elements separated
/// by empty lines.
pub open spec fn interface_block(i: InterfaceSpecView) -> BlockView
    decreases i,
{
    BlockView {
        open: Some(declaration_open(i.annotations, i.modifiers, "interface "@, i.name)),
        close: None,
        sections: SectionsView { sections: spaced(element_sections(i.elements), false) },
    }
}

/// The sections of a class body that come after the fields: constructors,
/// methods, and the sections of the nested elements.
pub open spec fn class_members(c: ClassSpecView, nested: Seq<SectionView>) -> Seq<SectionView> {
    c.constructors.map_values(|k: ConstructorSpecView| SectionView::Block(constructor_block(k, c.name)))
        + c.methods.map_values(|m: MethodSpecView| SectionView::Block(method_block(m))) + nested
}

/// Adding one item to a spaced list adds it, after an empty line unless it
/// is the first item and no leading line is wanted.
pub proof fn lemma_spaced_push(items: Seq<SectionView>, leading: bool, x: SectionView)
    ensures
        spaced(items.push(x), leading) == spaced(items, leading) + (if items.len() == 0 && !leading {
            seq![x]
        } else {
            seq![SectionView::Spacing, x]
        }),
{
    assert(items.push(x).drop_last() =~= items);
    if items.len() == 0 {
        assert(spaced(items, leading) =~= Seq::<SectionView>::empty());
        if !leading {
            assert(items.push(x) =~= seq![x]);
        }
    }
}

/// The block of a class: its declaration, its fields (one statement each),
/// then its constructors, methods and nested elements, separated by empty
/// lines (and by one from the fields, if there are any).
pub open spec fn class_block(c: ClassSpecView) -> BlockView
    decreases c,
{
    BlockView {
        open: Some(declaration_open(c.annotations, c.modifiers, "class "@, c.name)),
        close: None,
        sections: SectionsView {
            sections: c.fields.map_values(
                |f: FieldSpecView| SectionView::Statement(field_statement(f)),
            ) + spaced(class_members(c, element_sections(c.elements)), c.fields.len() > 0),
        },
    }
}

/// A copy of an element.
pub fn clone_element(e: &ElementSpec) -> (r: ElementSpec)
    ensures
        r@ == e@,
    decreases e,
{
    match e {
        ElementSpec::Class(c) => ElementSpec::Class(clone_class(c)),
        ElementSpec::Interface(i) => ElementSpec::Interface(clone_interface(i)),
        ElementSpec::Statement(s) => ElementSpec::Statement(clone_statement(s)),
        ElementSpec::Literal(l) => ElementSpec::Literal(clone_strings(l)),
    }
}

/// A copy of a list of elements.
pub fn clone_elements(v: &Vec<ElementSpec>) -> (r: Vec<ElementSpec>)
    ensures
        elements_view(r@) == elements_view(v@),
    decreases v,
{
    let mut r: Vec<ElementSpec> = Vec::new();
    let mut i: usize = 0;
    while i < v.len()
        invariant
            0 <= i <= v.len(),
            r@.len() == i,
            forall|j: int| 0 <= j < i ==> #[trigger] r@[j]@ == v@[j]@,
        decreases v.len() - i,
    {
        r.push(clone_element(&v[i]));
        i += 1;
    }
    assert forall|j: int| 0 <= j < v@.len() implies #[trigger] elements_view(r@)[j]
        == elements_view(v@)[j] by {
        assert(r@[j]@ == v@[j]@);
    }
    assert(elements_view(r@) =~= elements_view(v@));
    r
}

/// A copy of a class.
pub fn clone_class(c: &ClassSpec) -> (r: ClassSpec)
    ensures
        r@ == c@,
    decreases c,
{
    let mut fields: Vec<FieldSpec> = Vec::new();
    let mut i: usize = 0;
    while i < c.fields.len()
        invariant
            0 <= i <= c.fields.len(),
            fields@.len() == i,
            forall|j: int| 0 <= j < i ==> #[trigger] fields@[j]@ == c.fields@[j]@,
        decreases c.fields.len() - i,
    {
        fields.push(clone_field(&c.fields[i]));
        i += 1;
    }
    assert(fields_view(fields@) =~= fields_view(c.fields@));
    let mut constructors: Vec<ConstructorSpec> = Vec::new();
    let mut i: usize = 0;
    while i < c.constructors.len()
        invariant
            0 <= i <= c.constructors.len(),
            constructors@.len() == i,
            forall|j: int| 0 <= j < i ==> #[trigger] constructors@[j]@ == c.constructors@[j]@,
        decreases c.constructors.len() - i,
    {
        constructors.push(clone_constructor(&c.constructors[i]));
        i += 1;
    }
    assert(constructors_view(constructors@) =~= constructors_view(c.constructors@));
    let mut methods: Vec<MethodSpec> = Vec::new();
    let mut i: usize = 0;
    while i < c.methods.len()
        invariant
            0 <= i <= c.methods.len(),
            methods@.len() == i,
            forall|j: int| 0 <= j < i ==> #[trigger] methods@[j]@ == c.methods@[j]@,
        decreases c.methods.len() - i,
    {
        methods.push(clone_method(&c.methods[i]));
        i += 1;
    }
    assert(methods_view(methods@) =~= methods_view(c.methods@));
    ClassSpec {
        modifiers: c.modifiers,
        name: c.name.clone(),
        annotations: clone_annotations(&c.annotations),
        fields,
        constructors,
        methods,
        elements: clone_elements(&c.elements),
    }
}

/// A copy of an interface.
pub fn clone_interface(i: &InterfaceSpec) -> (r: InterfaceSpec)
    ensures
        r@ == i@,
    decreases i,
{
    InterfaceSpec {
        modifiers: i.modifiers,
        name: i.name.clone(),
        annotations: clone_annotations(&i.annotations),
        elements: clone_elements(&i.elements),
    }
}

impl Clone for ElementSpec {
    fn clone(&self) -> (r: Self)
        ensures
            r@ == self@,
    {
        clone_element(self)
    }
}

impl Clone for ClassSpec {
    fn clone(&self) -> (r: Self)
        ensures
            r@ == self@,
    {
        clone_class(self)
    }
}

impl Clone for InterfaceSpec {
    fn clone(&self) -> (r: Self)
        ensures
            r@ == self@,
    {
        clone_interface(self)
    }
}

/// The opening statement of a declaration.
fn declaration_statement(
    annotations: &Vec<AnnotationSpec>,
    modifiers: &Modifiers,
    keyword: &'static str,
    name: &String,
) -> (s: Statement)
    ensures
        s@ == declaration_open(annotations_view(annotations@), modifiers@, keyword@, name@),
{
    let mut open = Statement::new();
    crate::java::specs::push_annotations(&mut open, annotations);
    crate::java::specs::push_modifiers(&mut open, modifiers);
    let mut head = Statement::new();
    head.push(keyword);
    head.push(name);
    assert(head@.parts =~= seq![VariableView::Literal(keyword@), VariableView::Literal(name@)]);
    open.push(head);
    assert(open@.parts =~= declaration_open(annotations_view(annotations@), modifiers@, keyword@, name@).parts);
    open
}

impl ElementSpec {
    /// Appends the section of the element to a block body.
    pub fn add_to_block(&self, target: &mut Block)
        ensures
            final(target)@ == (BlockView {
                sections: SectionsView {
                    sections: old(target)@.sections.sections.push(element_section(self@)),
                },
                ..old(target)@
            }),
        decreases self,
    {
        match self {
            ElementSpec::Class(class) => {
                target.push(class.as_block());
            },
            ElementSpec::Interface(interface) => {
                target.push(interface.as_block());
            },
            ElementSpec::Statement(statement) => {
                target.push(statement);
            },
            ElementSpec::Literal(content) => {
                target.push(content);
            },
        }
    }

    /// Appends the section of the element to a list of sections.
    pub fn add_to_sections(&self, target: &mut Sections)
        ensures
            final(target)@ == (SectionsView { sections: old(target)@.sections.push(element_section(self@)) }),
    {
        match self {
            ElementSpec::Class(class) => {
                target.push(class.as_block());
            },
            ElementSpec::Interface(interface) => {
                target.push(interface.as_block());
            },
            ElementSpec::Statement(statement) => {
                target.push(statement);
            },
            ElementSpec::Literal(content) => {
                target.push(content);
            },
        }
    }
}

impl InterfaceSpec {
    pub fn new(modifiers: Modifiers, name: &str) -> (r: InterfaceSpec)
        ensures
            r@ == (InterfaceSpecView {
                modifiers: modifiers@,
                name: name@,
                annotations: Seq::empty(),
                elements: Seq::empty(),
            }),
    {
        let r = InterfaceSpec {
            modifiers: modifiers,
            name: name.to_owned(),
            annotations: Vec::new(),
            elements: Vec::new(),
        };
        assert(annotations_view(r.annotations@) =~= Seq::<AnnotationSpecView>::empty());
        assert(elements_view(r.elements@) =~= Seq::<ElementSpecView>::empty());
        r
    }

    /// Appends a copy of an annotation.
    pub fn push_annotation(&mut self, annotation: &AnnotationSpec)
        ensures
            final(self)@ == (InterfaceSpecView {
                annotations: old(self)@.annotations.push(annotation@),
                ..old(self)@
            }),
    {
        self.annotations.push(clone_annotation(annotation));
        assert(annotations_view(self.annotations@) =~= annotations_view(old(self).annotations@).push(
            annotation@,
        ));
    }

    /// Appends a copy of a nested element.
    fn push_element(&mut self, element: ElementSpec)
        ensures
            final(self)@ == (InterfaceSpecView {
                elements: old(self)@.elements.push(element@),
                ..old(self)@
            }),
    {
        self.elements.push(element);
        assert(elements_view(self.elements@) =~= elements_view(old(self).elements@).push(element@));
    }

    /// Appends a copy of a nested class.
    pub fn push_class(&mut self, class: &ClassSpec)
        ensures
            final(self)@ == (InterfaceSpecView {
                elements: old(self)@.elements.push(ElementSpecView::Class(class@)),
                ..old(self)@
            }),
    {
        self.push_element(ElementSpec::Class(clone_class(class)))
    }

    /// Appends a copy of a nested interface.
    pub fn push_interface(&mut self, interface: &InterfaceSpec)
        ensures
            final(self)@ == (InterfaceSpecView {
                elements: old(self)@.elements.push(ElementSpecView::Interface(interface@)),
                ..old(self)@
            }),
    {
        self.push_element(ElementSpec::Interface(clone_interface(interface)))
    }

    /// Appends a copy of a statement.
    pub fn push_statement(&mut self, statement: &Statement)
        ensures
            final(self)@ == (InterfaceSpecView {
                elements: old(self)@.elements.push(ElementSpecView::Statement(statement@)),
                ..old(self)@
            }),
    {
        self.push_element(ElementSpec::Statement(clone_statement(statement)))
    }

    /// Appends a copy of literal lines.
    pub fn push_literal(&mut self, content: &Vec<String>)
        ensures
            final(self)@ == (InterfaceSpecView {
                elements: old(self)@.elements.push(ElementSpecView::Literal(strings_view(content@))),
                ..old(self)@
            }),
    {
        self.push_element(ElementSpec::Literal(clone_strings(content)))
    }

    /// The block of the interface.
    pub fn as_block(&self) -> (r: Block)
        ensures
            r@ == interface_block(self@),
        decreases self,
    {
        let open = declaration_statement(&self.annotations, &self.modifiers, "interface ", &self.name);
        let mut block = Block::new();
        block.open(open);
        let ghost items = element_sections(self@.elements);
        let mut first: bool = true;
        assert(block@.sections.sections =~= spaced(items.take(0), false));
        let mut i: usize = 0;
        while i < self.elements.len()
            invariant
                0 <= i <= self.elements.len(),
                items == element_sections(self@.elements),
                first == (i == 0),
                block@ == (BlockView {
                    open: Some(declaration_open(self@.annotations, self@.modifiers, "interface "@, self@.name)),
                    close: None,
                    sections: SectionsView { sections: spaced(items.take(i as int), false) },
                }),
            decreases self.elements.len() - i,
        {
            let ghost before = items.take(i as int);
            let ghost sec = element_section(self.elements@[i as int]@);
            assert(items[i as int] == sec);
            if first {
                first = false;
            } else {
                block.push(Section::Spacing);
            }
            self.elements[i].add_to_block(&mut block);
            proof {
                assert(items.take(i + 1) =~= before.push(sec));
                lemma_spaced_push(before, false, sec);
            }
            assert(block@.sections.sections =~= spaced(items.take(i + 1), false));
            i += 1;
        }
        assert(items.take(self.elements.len() as int) =~= items);
        block
    }
}

impl ClassSpec {
    pub fn new(modifiers: Modifiers, name: &str) -> (r: ClassSpec)
        ensures
            r@ == (ClassSpecView {
                modifiers: modifiers@,
                name: name@,
                annotations: Seq::empty(),
                fields: Seq::empty(),
                constructors: Seq::empty(),
                methods: Seq::empty(),
                elements: Seq::empty(),
            }),
    {
        let r = ClassSpec {
            modifiers: modifiers,
            name: name.to_owned(),
            annotations: Vec::new(),
            fields: Vec::new(),
            constructors: Vec::new(),
            methods: Vec::new(),
            elements: Vec::new(),
        };
        assert(annotations_view(r.annotations@) =~= Seq::<AnnotationSpecView>::empty());
        assert(fields_view(r.fields@) =~= Seq::<FieldSpecView>::empty());
        assert(constructors_view(r.constructors@) =~= Seq::<ConstructorSpecView>::empty());
        assert(methods_view(r.methods@) =~= Seq::<MethodSpecView>::empty());
        assert(elements_view(r.elements@) =~= Seq::<ElementSpecView>::empty());
        r
    }

    /// Appends a copy of an annotation.
    pub fn push_annotation(&mut self, annotation: &AnnotationSpec)
        ensures
            final(self)@ == (ClassSpecView {
                annotations: old(self)@.annotations.push(annotation@),
                ..old(self)@
            }),
    {
        self.annotations.push(clone_annotation(annotation));
        assert(annotations_view(self.annotations@) =~= annotations_view(old(self).annotations@).push(
            annotation@,
        ));
    }

    /// Appends a copy of a field.
    pub fn push_field(&mut self, field: &FieldSpec)
        ensures
            final(self)@ == (ClassSpecView { fields: old(self)@.fields.push(field@), ..old(self)@ }),
    {
        self.fields.push(clone_field(field));
        assert(fields_view(self.fields@) =~= fields_view(old(self).fields@).push(field@));
    }

    /// Appends a copy of a constructor.
    pub fn push_constructor(&mut self, constructor: &ConstructorSpec)
        ensures
            final(self)@ == (ClassSpecView {
                constructors: old(self)@.constructors.push(constructor@),
                ..old(self)@
            }),
    {
        self.constructors.push(clone_constructor(constructor));
        assert(constructors_view(self.constructors@) =~= constructors_view(old(self).constructors@).push(
            constructor@,
        ));
    }

    /// Appends a copy of a method.
    pub fn push_method(&mut self, method: &MethodSpec)
        ensures
            final(self)@ == (ClassSpecView { methods: old(self)@.methods.push(method@), ..old(self)@ }),
    {
        self.methods.push(clone_method(method));
        assert(methods_view(self.methods@) =~= methods_view(old(self).methods@).push(method@));
    }

    /// Appends a nested element.
    fn push_element(&mut self, element: ElementSpec)
        ensures
            final(self)@ == (ClassSpecView { elements: old(self)@.elements.push(element@), ..old(self)@ }),
    {
        self.elements.push(element);
        assert(elements_view(self.elements@) =~= elements_view(old(self).elements@).push(element@));
    }

    /// Appends a copy of a nested class.
    pub fn push_class(&mut self, class: &ClassSpec)
        ensures
            final(self)@ == (ClassSpecView {
                elements: old(self)@.elements.push(ElementSpecView::Class(class@)),
                ..old(self)@
            }),
    {
        self.push_element(ElementSpec::Class(clone_class(class)))
    }

    /// Appends a copy of a nested interface.
    pub fn push_interface(&mut self, interface: &InterfaceSpec)
        ensures
            final(self)@ == (ClassSpecView {
                elements: old(self)@.elements.push(ElementSpecView::Interface(interface@)),
                ..old(self)@
            }),
    {
        self.push_element(ElementSpec::Interface(clone_interface(interface)))
    }

    /// Appends a copy of a statement.
    pub fn push_statement(&mut self, statement: &Statement)
        ensures
            final(self)@ == (ClassSpecView {
                elements: old(self)@.elements.push(ElementSpecView::Statement(statement@)),
                ..old(self)@
            }),
    {
        self.push_element(ElementSpec::Statement(clone_statement(statement)))
    }

    /// Appends a copy of literal lines.
    pub fn push_literal(&mut self, content: &Vec<String>)
        ensures
            final(self)@ == (ClassSpecView {
                elements: old(self)@.elements.push(ElementSpecView::Literal(strings_view(content@))),
                ..old(self)@
            }),
    {
        self.push_element(ElementSpec::Literal(clone_strings(content)))
    }

    /// The block of the class.
    pub fn as_block(&self) -> (r: Block)
        ensures
            r@ == class_block(self@),
        decreases self,
    {
        let open = declaration_statement(&self.annotations, &self.modifiers, "class ", &self.name);
        let mut block = Block::new();
        block.open(open);
        let ghost head = Some(declaration_open(self@.annotations, self@.modifiers, "class "@, self@.name));
        let ghost field_sections = self@.fields.map_values(
            |f: FieldSpecView| SectionView::Statement(field_statement(f)),
        );
        assert(block@.sections.sections =~= field_sections.take(0));
        let mut i: usize = 0;
        while i < self.fields.len()
            invariant
                0 <= i <= self.fields.len(),
                field_sections == self@.fields.map_values(
                    |f: FieldSpecView| SectionView::Statement(field_statement(f)),
                ),
                block@ == (BlockView {
                    open: head,
                    close: None,
                    sections: SectionsView { sections: field_sections.take(i as int) },
                }),
            decreases self.fields.len() - i,
        {
            block.push(self.fields[i].to_statement());
            assert(field_sections.take(i + 1) =~= field_sections.take(i as int).push(
                field_sections[i as int],
            ));
            i += 1;
        }
        assert(field_sections.take(self.fields.len() as int) =~= field_sections);
        let ghost leading = self@.fields.len() > 0;
        let ghost items = class_members(self@, element_sections(self@.elements));
        let ghost nc = self@.constructors.len();
        let ghost nm = self@.methods.len();
        let mut first = self.fields.len() == 0;
        assert(field_sections + spaced(items.take(0), leading) =~= field_sections);
        let mut i: usize = 0;
        while i < self.constructors.len()
            invariant
                0 <= i <= self.constructors.len(),
                nc == self@.constructors.len(),
                items == class_members(self@, element_sections(self@.elements)),
                first == (!leading && i == 0),
                leading == (self@.fields.len() > 0),
                block@ == (BlockView {
                    open: head,
                    close: None,
                    sections: SectionsView {
                        sections: field_sections + spaced(items.take(i as int), leading),
                    },
                }),
            decreases self.constructors.len() - i,
        {
            let ghost before = items.take(i as int);
            let b = self.constructors[i].as_block(self.name.as_str());
            assert(items[i as int] == SectionView::Block(b@));
            push_spaced(&mut block, first, Section::Block(b));
            first = false;
            proof {
                assert(items.take(i + 1) =~= before.push(items[i as int]));
                lemma_spaced_push(before, leading, items[i as int]);
            }
            assert(block@.sections.sections =~= field_sections + spaced(items.take(i + 1), leading));
            i += 1;
        }
        let mut i: usize = 0;
        while i < self.methods.len()
            invariant
                0 <= i <= self.methods.len(),
                nc == self@.constructors.len(),
                items == class_members(self@, element_sections(self@.elements)),
                first == (!leading && nc + i == 0),
                leading == (self@.fields.len() > 0),
                block@ == (BlockView {
                    open: head,
                    close: None,
                    sections: SectionsView {
                        sections: field_sections + spaced(items.take(nc + i), leading),
                    },
                }),
            decreases self.methods.len() - i,
        {
            let ghost before = items.take(nc + i);
            let b = self.methods[i].as_block();
            assert(items[nc + i] == SectionView::Block(b@));
            push_spaced(&mut block, first, Section::Block(b));
            first = false;
            proof {
                assert(items.take(nc + i + 1) =~= before.push(items[nc + i]));
                lemma_spaced_push(before, leading, items[nc + i]);
            }
            assert(block@.sections.sections =~= field_sections + spaced(items.take(nc + i + 1), leading));
            i += 1;
        }
        let mut i: usize = 0;
        while i < self.elements.len()
            invariant
                0 <= i <= self.elements.len(),
                nc == self@.constructors.len(),
                nm == self@.methods.len(),
                items == class_members(self@, element_sections(self@.elements)),
                first == (!leading && nc + nm + i == 0),
                leading == (self@.fields.len() > 0),
                block@ == (BlockView {
                    open: head,
                    close: None,
                    sections: SectionsView {
                        sections: field_sections + spaced(items.take(nc + nm + i), leading),
                    },
                }),
            decreases self.elements.len() - i,
        {
            let ghost before = items.take(nc + nm + i);
            let ghost sec = element_section(self.elements@[i as int]@);
            assert(items[nc + nm + i] == sec);
            if first {
                first = false;
            } else {
                block.push(Section::Spacing);
            }
            self.elements[i].add_to_block(&mut block);
            proof {
                assert(items.take(nc + nm + i + 1) =~= before.push(sec));
                lemma_spaced_push(before, leading, sec);
            }
            assert(block@.sections.sections =~= field_sections + spaced(
                items.take(nc + nm + i + 1),
                leading,
            ));
            i += 1;
        }
        assert(items.take(nc + nm + self.elements.len()) =~= items);
        block
    }
}

/// Appends a section to a block body, after an empty line unless it is the first.
fn push_spaced(block: &mut Block, first: bool, section: Section)
    ensures
        final(block)@ == (BlockView {
            sections: SectionsView {
                sections: old(block)@.sections.sections + (if first {
                    seq![section@]
                } else {
                    seq![SectionView::Spacing, section@]
                }),
            },
            ..old(block)@
        }),
{
    let ghost s = section@;
    if !first {
        block.push(Section::Spacing);
    }
    block.push(section);
    if first {
        assert(block@.sections.sections =~= old(block)@.sections.sections + seq![s]);
    } else {
        assert(block@.sections.sections =~= old(block)@.sections.sections + seq![SectionView::Spacing, s]);
    }
}

} // verus!
