//! The classes that generated code refers to, and the sorted set of them
//! from which a file's imports are written.

use vstd::prelude::*;
use crate::order::{ClassKey, key_lt, strictly_sorted, str_less, lemma_key_lt_total};
use crate::java::types::{Type, TypeView, ClassType, ClassTypeView};
use crate::java::statement::{Statement, VariableView, StatementView, statements_view, collect_statement};
use crate::java::sections::{SectionView, BlockView, collect_sections};
use crate::java::specs::{FieldSpec, FieldSpecView, AnnotationSpec, AnnotationSpecView, ArgumentSpec, ArgumentSpecView, ConstructorSpec, ConstructorSpecView, MethodSpec, MethodSpecView, annotations_view, arguments_view, fields_view, constructors_view, methods_view};
use crate::java::elements::{ElementSpec, ElementSpecView, ClassSpec, ClassSpecView, InterfaceSpec, InterfaceSpecView, elements_view};

verus! {

/// The classes that a type refers to: the class itself and those of its
/// generic arguments, each by package and simple name.
pub open spec fn type_keys(t: TypeView) -> Set<ClassKey>
    decreases t,
{
    match t {
        TypeView::Primitive(_) => Set::empty(),
        TypeView::Class(c) => class_keys(c),
    }
}

/// The classes that a class type refers to.
pub open spec fn class_keys(c: ClassTypeView) -> Set<ClassKey>
    decreases c,
{
    Set::<ClassKey>::empty().insert((c.package, c.name)).union(types_keys(c.arguments))
}

/// The classes that a list of types refers to.
pub open spec fn types_keys(ts: Seq<TypeView>) -> Set<ClassKey>
    decreases ts,
{
    if ts.len() == 0 {
        Set::empty()
    } else {
        types_keys(ts.drop_last()).union(type_keys(ts.last()))
    }
}

/// The classes that a statement part refers to.
pub open spec fn variable_keys(v: VariableView) -> Set<ClassKey>
    decreases v,
{
    match v {
        VariableView::Type(t) => type_keys(t),
        VariableView::Statement(s) => statement_keys(s),
        _ => Set::empty(),
    }
}

/// The classes that a statement refers to.
pub open spec fn statement_keys(s: StatementView) -> Set<ClassKey>
    decreases s,
{
    variables_keys(s.parts)
}

/// The classes that a list of statement parts refers to.
pub open spec fn variables_keys(ps: Seq<VariableView>) -> Set<ClassKey>
    decreases ps,
{
    if ps.len() == 0 {
        Set::empty()
    } else {
        variables_keys(ps.drop_last()).union(variable_keys(ps.last()))
    }
}

/// The classes that a list of statements refers to.
pub open spec fn statements_keys(ss: Seq<StatementView>) -> Set<ClassKey>
    decreases ss.len(),
{
    if ss.len() == 0 {
        Set::empty()
    } else {
        statements_keys(ss.drop_last()).union(statement_keys(ss.last()))
    }
}

/// The classes that an optional statement refers to.
pub open spec fn option_statement_keys(s: Option<StatementView>) -> Set<ClassKey> {
    match s {
        Some(st) => statement_keys(st),
        None => Set::empty(),
    }
}

/// The classes that a section refers to.
pub open spec fn section_keys(s: SectionView) -> Set<ClassKey>
    decreases s,
{
    match s {
        SectionView::Block(b) => block_keys(b),
        SectionView::Statement(st) => statement_keys(st),
        _ => Set::empty(),
    }
}

/// The classes that a block refers to.
pub open spec fn block_keys(b: BlockView) -> Set<ClassKey>
    decreases b,
{
    option_statement_keys(b.open).union(option_statement_keys(b.close)).union(
        section_seq_keys(b.sections.sections),
    )
}

/// The classes that a list of sections refers to.
pub open spec fn section_seq_keys(ss: Seq<SectionView>) -> Set<ClassKey>
    decreases ss,
{
    if ss.len() == 0 {
        Set::empty()
    } else {
        section_seq_keys(ss.drop_last()).union(section_keys(ss.last()))
    }
}

/// The classes that a field refers to.
pub open spec fn field_keys(f: FieldSpecView) -> Set<ClassKey> {
    type_keys(f.ty)
}

/// The classes that a list of fields refers to.
pub open spec fn fields_keys(fs: Seq<FieldSpecView>) -> Set<ClassKey>
    decreases fs.len(),
{
    if fs.len() == 0 {
        Set::empty()
    } else {
        fields_keys(fs.drop_last()).union(field_keys(fs.last()))
    }
}

/// The classes that an annotation refers to.
pub open spec fn annotation_keys(a: AnnotationSpecView) -> Set<ClassKey> {
    type_keys(a.ty).union(statements_keys(a.arguments))
}

/// The classes that a list of annotations refers to.
pub open spec fn annotations_keys(anns: Seq<AnnotationSpecView>) -> Set<ClassKey>
    decreases anns.len(),
{
    if anns.len() == 0 {
        Set::empty()
    } else {
        annotations_keys(anns.drop_last()).union(annotation_keys(anns.last()))
    }
}

/// The classes that an argument refers to.
pub open spec fn argument_keys(a: ArgumentSpecView) -> Set<ClassKey> {
    annotations_keys(a.annotations).union(type_keys(a.ty))
}

/// The classes that a list of arguments refers to.
pub open spec fn arguments_keys(args: Seq<ArgumentSpecView>) -> Set<ClassKey>
    decreases args.len(),
{
    if args.len() == 0 {
        Set::empty()
    } else {
        arguments_keys(args.drop_last()).union(argument_keys(args.last()))
    }
}

/// The classes that a constructor refers to.
pub open spec fn constructor_keys(c: ConstructorSpecView) -> Set<ClassKey> {
    annotations_keys(c.annotations).union(arguments_keys(c.arguments)).union(
        section_seq_keys(c.sections.sections),
    )
}

/// The classes that a list of constructors refers to.
pub open spec fn constructors_keys(cs: Seq<ConstructorSpecView>) -> Set<ClassKey>
    decreases cs.len(),
{
    if cs.len() == 0 {
        Set::empty()
    } else {
        constructors_keys(cs.drop_last()).union(constructor_keys(cs.last()))
    }
}

/// The classes that an optional type refers to.
pub open spec fn option_type_keys(t: Option<TypeView>) -> Set<ClassKey> {
    match t {
        Some(t) => type_keys(t),
        None => Set::empty(),
    }
}

/// The classes that a method refers to.
pub open spec fn method_keys(m: MethodSpecView) -> Set<ClassKey> {
    annotations_keys(m.annotations).union(arguments_keys(m.arguments)).union(
        option_type_keys(m.returns),
    ).union(section_seq_keys(m.sections.sections))
}

/// The classes that a list of methods refers to.
pub open spec fn methods_keys(ms: Seq<MethodSpecView>) -> Set<ClassKey>
    decreases ms.len(),
{
    if ms.len() == 0 {
        Set::empty()
    } else {
        methods_keys(ms.drop_last()).union(method_keys(ms.last()))
    }
}

/// The classes that an element refers to.
pub open spec fn element_keys(e: ElementSpecView) -> Set<ClassKey>
    decreases e,
{
    match e {
        ElementSpecView::Class(c) => class_spec_keys(c),
        ElementSpecView::Interface(i) => interface_spec_keys(i),
        ElementSpecView::Statement(s) => statement_keys(s),
        ElementSpecView::Literal(_) => Set::empty(),
    }
}

/// The classes that a class declaration refers to.
pub open spec fn class_spec_keys(c: ClassSpecView) -> Set<ClassKey>
    decreases c,
{
    annotations_keys(c.annotations).union(fields_keys(c.fields)).union(
        constructors_keys(c.constructors),
    ).union(methods_keys(c.methods)).union(elements_keys(c.elements))
}

/// The classes that an interface declaration refers to.
pub open spec fn interface_spec_keys(i: InterfaceSpecView) -> Set<ClassKey>
    decreases i,
{
    annotations_keys(i.annotations).union(elements_keys(i.elements))
}

/// The classes that a list of elements refers to.
pub open spec fn elements_keys(es: Seq<ElementSpecView>) -> Set<ClassKey>
    decreases es,
{
    if es.len() == 0 {
        Set::empty()
    } else {
        elements_keys(es.drop_last()).union(element_keys(es.last()))
    }
}

/// A set of classes, kept as a list of (package, name) pairs in strictly
/// increasing order.
pub struct ImportSet {
    keys: Vec<(String, String)>,
}

impl ImportSet {
    /// The pairs, in order.
    pub closed spec fn sorted(&self) -> Seq<ClassKey> {
        self.keys@.map_values(|k: (String, String)| (k.0@, k.1@))
    }

    /// The pairs are in strictly increasing order.
    pub open spec fn wf(&self) -> bool {
        strictly_sorted(self.sorted())
    }
}

impl View for ImportSet {
    type V = Set<ClassKey>;

    open spec fn view(&self) -> Set<ClassKey> {
        self.sorted().to_set()
    }
}

impl ImportSet {
    /// The empty set.
    pub fn new() -> (r: ImportSet)
        ensures
            r.wf(),
            r@ == Set::<ClassKey>::empty(),
    {
        let r = ImportSet { keys: Vec::new() };
        assert(r.sorted() =~= Seq::<ClassKey>::empty());
        assert(r@ =~= Set::<ClassKey>::empty());
        r
    }

    /// The number of pairs.
    pub fn len(&self) -> (n: usize)
        ensures
            n == self.sorted().len(),
    {
        self.keys.len()
    }

    /// The package and name of the pair at position `i`.
    pub fn get(&self, i: usize) -> (r: (&String, &String))
        requires
            i < self.sorted().len(),
        ensures
            (r.0@, r.1@) == self.sorted()[i as int],
    {
        (&self.keys[i].0, &self.keys[i].1)
    }

    /// Adds the class of a class type (without its arguments).
    pub fn receive(&mut self, ty: &ClassType)
        requires
            old(self).wf(),
        ensures
            final(self).wf(),
            final(self)@ == old(self)@.insert((ty@.package, ty@.name)),
    {
        let ghost x: ClassKey = (ty@.package, ty@.name);
        let ghost s = self.sorted();
        let mut i: usize = 0;
        while i < self.keys.len()
            invariant
                0 <= i <= self.keys.len(),
                s == self.sorted(),
                strictly_sorted(s),
                x == (ty@.package, ty@.name),
                forall|j: int| 0 <= j < i ==> key_lt(#[trigger] s[j], x),
            ensures
                0 <= i <= self.keys.len(),
                s == self.sorted(),
                forall|j: int| 0 <= j < i ==> key_lt(#[trigger] s[j], x),
                i < self.keys.len() ==> !key_lt(s[i as int], x),
            decreases self.keys.len() - i,
        {
            let k = &self.keys[i];
            let less = str_less(k.0.as_str(), ty.package.as_str()) || (k.0 == ty.package && str_less(
                k.1.as_str(),
                ty.name.as_str(),
            ));
            assert(s[i as int] == (k.0@, k.1@));
            if !less {
                break;
            }
            i += 1;
        }
        if i < self.keys.len() && self.keys[i].0 == ty.package && self.keys[i].1 == ty.name {
            assert(s[i as int] == x);
            assert(self@ =~= old(self)@.insert(x));
            return ;
        }
        proof {
            if i < s.len() {
                assert(s[i as int] != x);
                assert(!key_lt(s[i as int], x));
                lemma_key_lt_total(s[i as int], x);
            }
        }
        let key = (ty.package.clone(), ty.name.clone());
        self.keys.insert(i, key);
        let ghost t = self.sorted();
        assert(t =~= s.insert(i as int, x));
        assert forall|a: int, b: int| 0 <= a < b < t.len() implies key_lt(#[trigger] t[a], #[trigger] t[b]) by {
            if b < i {
            } else if a < i && b == i {
            } else if a < i && b > i {
                assert(key_lt(s[a], s[b - 1]));
            } else if a == i {
                assert(key_lt(x, s[i as int]));
                if b - 1 > i {
                    assert(key_lt(s[i as int], s[b - 1]));
                    crate::order::lemma_key_lt_transitive(x, s[i as int], s[b - 1]);
                }
            } else {
                assert(key_lt(s[a - 1], s[b - 1]));
            }
        }
        assert forall|y: ClassKey| t.to_set().contains(y) <==> s.to_set().insert(x).contains(y) by {
            if t.to_set().contains(y) {
                let p = choose|p: int| 0 <= p < t.len() && t[p] == y;
                if p < i {
                    assert(s[p] == y);
                } else if p > i {
                    assert(s[p - 1] == y);
                }
            }
            if s.to_set().contains(y) {
                let p = choose|p: int| 0 <= p < s.len() && s[p] == y;
                if p < i {
                    assert(t[p] == y);
                } else {
                    assert(t[p + 1] == y);
                }
            }
            if y == x {
                assert(t[i as int] == y);
            }
        }
        assert(self@ =~= old(self)@.insert(x));
    }
}

/// Adds the classes that a type refers to.
pub fn collect_type(t: &Type, set: &mut ImportSet)
    requires
        old(set).wf(),
    ensures
        final(set).wf(),
        final(set)@ == old(set)@.union(type_keys(t@)),
    decreases t,
{
    match t {
        Type::Primitive(_) => {
            assert(set@ =~= old(set)@.union(type_keys(t@)));
        },
        Type::Class(c) => {
            collect_class_type(c, set);
        },
    }
}

/// Adds the classes that a class type refers to.
pub fn collect_class_type(c: &ClassType, set: &mut ImportSet)
    requires
        old(set).wf(),
    ensures
        final(set).wf(),
        final(set)@ == old(set)@.union(class_keys(c@)),
    decreases c,
{
    let ghost key: ClassKey = (c@.package, c@.name);
    set.receive(c);
    assert(set@ =~= old(set)@.insert(key).union(types_keys(c@.arguments.take(0))));
    let mut i: usize = 0;
    while i < c.arguments.len()
        invariant
            0 <= i <= c.arguments.len(),
            set.wf(),
            key == (c@.package, c@.name),
            set@ == old(set)@.insert(key).union(types_keys(c@.arguments.take(i as int))),
        decreases c.arguments.len() - i,
    {
        collect_type(&c.arguments[i], set);
        assert(c@.arguments.take(i + 1).drop_last() =~= c@.arguments.take(i as int));
        assert(set@ =~= old(set)@.insert(key).union(types_keys(c@.arguments.take(i + 1))));
        i += 1;
    }
    assert(c@.arguments.take(c.arguments.len() as int) =~= c@.arguments);
    assert(set@ =~= old(set)@.union(class_keys(c@)));
}

/// Adds the classes that a field refers to.
pub fn collect_field(f: &FieldSpec, set: &mut ImportSet)
    requires
        old(set).wf(),
    ensures
        final(set).wf(),
        final(set)@ == old(set)@.union(field_keys(f@)),
{
    collect_type(&f.ty, set);
}

/// Adds the classes that an annotation refers to.
pub fn collect_annotation(a: &AnnotationSpec, set: &mut ImportSet)
    requires
        old(set).wf(),
    ensures
        final(set).wf(),
        final(set)@ == old(set)@.union(annotation_keys(a@)),
{
    collect_type(&a.ty, set);
    let ghost mid = set@;
    collect_statements(&a.arguments, set);
    assert(set@ =~= old(set)@.union(annotation_keys(a@)));
}

/// Adds the classes that an argument refers to.
pub fn collect_argument(a: &ArgumentSpec, set: &mut ImportSet)
    requires
        old(set).wf(),
    ensures
        final(set).wf(),
        final(set)@ == old(set)@.union(argument_keys(a@)),
{
    collect_annotations(&a.annotations, set);
    collect_type(&a.ty, set);
    assert(set@ =~= old(set)@.union(argument_keys(a@)));
}

/// Adds the classes that a constructor refers to.
pub fn collect_constructor(c: &ConstructorSpec, set: &mut ImportSet)
    requires
        old(set).wf(),
    ensures
        final(set).wf(),
        final(set)@ == old(set)@.union(constructor_keys(c@)),
{
    collect_annotations(&c.annotations, set);
    collect_arguments(&c.arguments, set);
    collect_sections(&c.sections, set);
    assert(set@ =~= old(set)@.union(constructor_keys(c@)));
}

/// Adds the classes that a method refers to.
pub fn collect_method(m: &MethodSpec, set: &mut ImportSet)
    requires
        old(set).wf(),
    ensures
        final(set).wf(),
        final(set)@ == old(set)@.union(method_keys(m@)),
{
    collect_annotations(&m.annotations, set);
    collect_arguments(&m.arguments, set);
    let ghost mid = set@;
    match &m.returns {
        Some(t) => collect_type(t, set),
        None => {},
    }
    assert(set@ =~= mid.union(option_type_keys(m@.returns)));
    collect_sections(&m.sections, set);
    assert(set@ =~= old(set)@.union(method_keys(m@)));
}

/// Adds the classes that an element refers to.
pub fn collect_element(e: &ElementSpec, set: &mut ImportSet)
    requires
        old(set).wf(),
    ensures
        final(set).wf(),
        final(set)@ == old(set)@.union(element_keys(e@)),
    decreases e,
{
    match e {
        ElementSpec::Class(c) => collect_class_spec(c, set),
        ElementSpec::Interface(i) => collect_interface_spec(i, set),
        ElementSpec::Statement(st) => collect_statement(st, set),
        ElementSpec::Literal(_) => {
            assert(set@ =~= old(set)@.union(element_keys(e@)));
        },
    }
}

/// Adds the classes that a class declaration refers to.
pub fn collect_class_spec(c: &ClassSpec, set: &mut ImportSet)
    requires
        old(set).wf(),
    ensures
        final(set).wf(),
        final(set)@ == old(set)@.union(class_spec_keys(c@)),
    decreases c,
{
    collect_annotations(&c.annotations, set);
    collect_fields(&c.fields, set);
    collect_constructors(&c.constructors, set);
    collect_methods(&c.methods, set);
    collect_elements(&c.elements, set);
    assert(set@ =~= old(set)@.union(class_spec_keys(c@)));
}

/// Adds the classes that an interface declaration refers to.
pub fn collect_interface_spec(i: &InterfaceSpec, set: &mut ImportSet)
    requires
        old(set).wf(),
    ensures
        final(set).wf(),
        final(set)@ == old(set)@.union(interface_spec_keys(i@)),
    decreases i,
{
    collect_annotations(&i.annotations, set);
    collect_elements(&i.elements, set);
    assert(set@ =~= old(set)@.union(interface_spec_keys(i@)));
}

/// Adds the classes that a list of statements refers to.
pub fn collect_statements(v: &Vec<Statement>, set: &mut ImportSet)
    requires
        old(set).wf(),
    ensures
        final(set).wf(),
        final(set)@ == old(set)@.union(statements_keys(statements_view(v@))),
{
    let ghost vs = statements_view(v@);
    assert(set@ =~= old(set)@.union(statements_keys(vs.take(0))));
    let mut i: usize = 0;
    while i < v.len()
        invariant
            0 <= i <= v.len(),
            vs == statements_view(v@),
            set.wf(),
            set@ == old(set)@.union(statements_keys(vs.take(i as int))),
        decreases v.len() - i,
    {
        collect_statement(&v[i], set);
        assert(vs.take(i + 1).drop_last() =~= vs.take(i as int));
        assert(vs[i as int] == v@[i as int]@);
        assert(set@ =~= old(set)@.union(statements_keys(vs.take(i + 1))));
        i += 1;
    }
    assert(vs.take(v.len() as int) =~= vs);
}

/// Adds the classes that a list of annotations refers to.
pub fn collect_annotations(v: &Vec<AnnotationSpec>, set: &mut ImportSet)
    requires
        old(set).wf(),
    ensures
        final(set).wf(),
        final(set)@ == old(set)@.union(annotations_keys(annotations_view(v@))),
{
    let ghost vs = annotations_view(v@);
    assert(set@ =~= old(set)@.union(annotations_keys(vs.take(0))));
    let mut i: usize = 0;
    while i < v.len()
        invariant
            0 <= i <= v.len(),
            vs == annotations_view(v@),
            set.wf(),
            set@ == old(set)@.union(annotations_keys(vs.take(i as int))),
        decreases v.len() - i,
    {
        collect_annotation(&v[i], set);
        assert(vs.take(i + 1).drop_last() =~= vs.take(i as int));
        assert(vs[i as int] == v@[i as int]@);
        assert(set@ =~= old(set)@.union(annotations_keys(vs.take(i + 1))));
        i += 1;
    }
    assert(vs.take(v.len() as int) =~= vs);
}

/// Adds the classes that a list of arguments refers to.
pub fn collect_arguments(v: &Vec<ArgumentSpec>, set: &mut ImportSet)
    requires
        old(set).wf(),
    ensures
        final(set).wf(),
        final(set)@ == old(set)@.union(arguments_keys(arguments_view(v@))),
{
    let ghost vs = arguments_view(v@);
    assert(set@ =~= old(set)@.union(arguments_keys(vs.take(0))));
    let mut i: usize = 0;
    while i < v.len()
        invariant
            0 <= i <= v.len(),
            vs == arguments_view(v@),
            set.wf(),
            set@ == old(set)@.union(arguments_keys(vs.take(i as int))),
        decreases v.len() - i,
    {
        collect_argument(&v[i], set);
        assert(vs.take(i + 1).drop_last() =~= vs.take(i as int));
        assert(vs[i as int] == v@[i as int]@);
        assert(set@ =~= old(set)@.union(arguments_keys(vs.take(i + 1))));
        i += 1;
    }
    assert(vs.take(v.len() as int) =~= vs);
}

/// Adds the classes that a list of fields refers to.
pub fn collect_fields(v: &Vec<FieldSpec>, set: &mut ImportSet)
    requires
        old(set).wf(),
    ensures
        final(set).wf(),
        final(set)@ == old(set)@.union(fields_keys(fields_view(v@))),
{
    let ghost vs = fields_view(v@);
    assert(set@ =~= old(set)@.union(fields_keys(vs.take(0))));
    let mut i: usize = 0;
    while i < v.len()
        invariant
            0 <= i <= v.len(),
            vs == fields_view(v@),
            set.wf(),
            set@ == old(set)@.union(fields_keys(vs.take(i as int))),
        decreases v.len() - i,
    {
        collect_field(&v[i], set);
        assert(vs.take(i + 1).drop_last() =~= vs.take(i as int));
        assert(vs[i as int] == v@[i as int]@);
        assert(set@ =~= old(set)@.union(fields_keys(vs.take(i + 1))));
        i += 1;
    }
    assert(vs.take(v.len() as int) =~= vs);
}

/// Adds the classes that a list of constructors refers to.
pub fn collect_constructors(v: &Vec<ConstructorSpec>, set: &mut ImportSet)
    requires
        old(set).wf(),
    ensures
        final(set).wf(),
        final(set)@ == old(set)@.union(constructors_keys(constructors_view(v@))),
{
    let ghost vs = constructors_view(v@);
    assert(set@ =~= old(set)@.union(constructors_keys(vs.take(0))));
    let mut i: usize = 0;
    while i < v.len()
        invariant
            0 <= i <= v.len(),
            vs == constructors_view(v@),
            set.wf(),
            set@ == old(set)@.union(constructors_keys(vs.take(i as int))),
        decreases v.len() - i,
    {
        collect_constructor(&v[i], set);
        assert(vs.take(i + 1).drop_last() =~= vs.take(i as int));
        assert(vs[i as int] == v@[i as int]@);
        assert(set@ =~= old(set)@.union(constructors_keys(vs.take(i + 1))));
        i += 1;
    }
    assert(vs.take(v.len() as int) =~= vs);
}

/// Adds the classes that a list of methods refers to.
pub fn collect_methods(v: &Vec<MethodSpec>, set: &mut ImportSet)
    requires
        old(set).wf(),
    ensures
        final(set).wf(),
        final(set)@ == old(set)@.union(methods_keys(methods_view(v@))),
{
    let ghost vs = methods_view(v@);
    assert(set@ =~= old(set)@.union(methods_keys(vs.take(0))));
    let mut i: usize = 0;
    while i < v.len()
        invariant
            0 <= i <= v.len(),
            vs == methods_view(v@),
            set.wf(),
            set@ == old(set)@.union(methods_keys(vs.take(i as int))),
        decreases v.len() - i,
    {
        collect_method(&v[i], set);
        assert(vs.take(i + 1).drop_last() =~= vs.take(i as int));
        assert(vs[i as int] == v@[i as int]@);
        assert(set@ =~= old(set)@.union(methods_keys(vs.take(i + 1))));
        i += 1;
    }
    assert(vs.take(v.len() as int) =~= vs);
}

/// Adds the classes that a list of elements refers to.
pub fn collect_elements(v: &Vec<ElementSpec>, set: &mut ImportSet)
    requires
        old(set).wf(),
    ensures
        final(set).wf(),
        final(set)@ == old(set)@.union(elements_keys(elements_view(v@))),
    decreases v,
{
    let ghost vs = elements_view(v@);
    assert(set@ =~= old(set)@.union(elements_keys(vs.take(0))));
    let mut i: usize = 0;
    while i < v.len()
        invariant
            0 <= i <= v.len(),
            vs == elements_view(v@),
            set.wf(),
            set@ == old(set)@.union(elements_keys(vs.take(i as int))),
        decreases v.len() - i,
    {
        collect_element(&v[i], set);
        assert(vs.take(i + 1).drop_last() =~= vs.take(i as int));
        assert(vs[i as int] == v@[i as int]@);
        assert(set@ =~= old(set)@.union(elements_keys(vs.take(i + 1))));
        i += 1;
    }
    assert(vs.take(v.len() as int) =~= vs);
}

} // verus!
