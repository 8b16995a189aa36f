//! Source files: a package declaration, the imports the file needs, and its
//! top-level classes and interfaces.

use vstd::prelude::*;
use crate::text::{concat, strings_view, push_char, lemma_join_push};
use crate::order::{ClassKey, key_lt, strictly_sorted, sorted_elements, lemma_sorted_elements};
use crate::java::statement::{Statement, VariableView, StatementView};
use crate::java::sections::{Section, Sections, SectionView, SectionsView, sections_lines};
use crate::java::specs::stmt_of;
use crate::java::elements::{ElementSpec, ElementSpecView, ClassSpec, InterfaceSpec, elements_view, element_sections, clone_class, clone_interface};
use crate::java::imports::{ImportSet, elements_keys, collect_elements};

verus! {

/// A Java source file.
#[derive(Debug)]
pub struct FileSpec {
    pub package: String,
    pub elements: Vec<ElementSpec>,
}

/// The model of a source file.
pub struct FileSpecView {
    pub package: Seq<char>,
    pub elements: Seq<ElementSpecView>,
}

impl View for FileSpec {
    type V = FileSpecView;

    open spec fn view(&self) -> FileSpecView {
        FileSpecView { package: self.package@, elements: elements_view(self.elements@) }
    }
}

/// Whether a class must be imported into a file of package `package`:
/// classes of `java.lang` and of the file's own package need no import.
pub open spec fn needs_import(k: ClassKey, package: Seq<char>) -> bool {
    k.0 != "java.lang"@ && k.0 != package
}

/// The classes that a file imports: those its elements refer to, without
/// those of `java.lang` and of the file's own package.
pub open spec fn import_keys(f: FileSpecView) -> Set<ClassKey> {
    elements_keys(f.elements).filter(|k: ClassKey| needs_import(k, f.package))
}

/// The import statement of a class.
pub open spec fn import_statement(k: ClassKey) -> StatementView {
    stmt_of(
        seq![
            VariableView::Literal("import "@),
            VariableView::Literal(k.0),
            VariableView::Literal("."@),
            VariableView::Literal(k.1),
        ],
    )
}

/// The import sections of a sorted list of classes: one statement each,
/// then an empty line, if there are any.
pub open spec fn import_sections(imports: Seq<ClassKey>) -> Seq<SectionView> {
    if imports.len() == 0 {
        Seq::empty()
    } else {
        imports.map_values(|k: ClassKey| SectionView::Statement(import_statement(k))) + seq![
            SectionView::Spacing,
        ]
    }
}

/// The sections of a file: the package statement and an empty line, the
/// imports in sorted order, then the elements.
pub open spec fn file_sections(f: FileSpecView) -> SectionsView {
    SectionsView {
        sections: seq![
            SectionView::Statement(
                stmt_of(seq![VariableView::Literal("package "@), VariableView::Literal(f.package)]),
            ),
            SectionView::Spacing,
        ] + import_sections(sorted_elements(import_keys(f))) + element_sections(f.elements),
    }
}

/// The text of a file: the lines of its sections, indented by two spaces
/// per level, each ended by a line break.
pub open spec fn file_text(f: FileSpecView) -> Seq<char> {
    concat(sections_lines(file_sections(f), 0, ""@, "  "@).map_values(|l: Seq<char>| l + seq!['\n']))
}

impl FileSpec {
    /// An empty file of the given package.
    pub fn new(package: &str) -> (r: FileSpec)
        ensures
            r@ == (FileSpecView { package: package@, elements: Seq::empty() }),
    {
        let r = FileSpec { package: package.to_owned(), elements: Vec::new() };
        assert(elements_view(r.elements@) =~= Seq::<ElementSpecView>::empty());
        r
    }

    /// Appends a copy of a class.
    pub fn push_class(&mut self, class: &ClassSpec)
        ensures
            final(self)@ == (FileSpecView {
                elements: old(self)@.elements.push(ElementSpecView::Class(class@)),
                ..old(self)@
            }),
    {
        let e = ElementSpec::Class(clone_class(class));
        self.elements.push(e);
        assert(elements_view(self.elements@) =~= elements_view(old(self).elements@).push(e@));
    }

    /// Appends a copy of an interface.
    pub fn push_interface(&mut self, interface: &InterfaceSpec)
        ensures
            final(self)@ == (FileSpecView {
                elements: old(self)@.elements.push(ElementSpecView::Interface(interface@)),
                ..old(self)@
            }),
    {
        let e = ElementSpec::Interface(clone_interface(interface));
        self.elements.push(e);
        assert(elements_view(self.elements@) =~= elements_view(old(self).elements@).push(e@));
    }

    /// The source text of the file.
    pub fn format(&self) -> (r: String)
        ensures
            r@ == file_text(self@),
            strictly_sorted(sorted_elements(import_keys(self@))),
            sorted_elements(import_keys(self@)).to_set() == import_keys(self@),
    {
        let mut sections = Sections::new();
        let mut package = Statement::new();
        package.push("package ");
        package.push(&self.package);
        assert(package@.parts =~= seq![VariableView::Literal("package "@), VariableView::Literal(self.package@)]);
        sections.push(package);
        sections.push(Section::Spacing);
        let ghost head = sections@.sections;
        assert(head =~= seq![
            SectionView::Statement(
                stmt_of(seq![VariableView::Literal("package "@), VariableView::Literal(self@.package)]),
            ),
            SectionView::Spacing,
        ]);
        let mut receiver = ImportSet::new();
        collect_elements(&self.elements, &mut receiver);
        let ghost all = receiver.sorted();
        let ghost pred = |k: ClassKey| needs_import(k, self@.package);
        assert(receiver@ =~= elements_keys(self@.elements));
        let java_lang = "java.lang".to_owned();
        let ghost mut q: Seq<ClassKey> = Seq::empty();
        let mut i: usize = 0;
        assert(sections@.sections =~= head + q.map_values(
            |k: ClassKey| SectionView::Statement(import_statement(k)),
        ));
        while i < receiver.len()
            invariant
                0 <= i <= all.len(),
                all == receiver.sorted(),
                strictly_sorted(all),
                java_lang@ == "java.lang"@,
                pred == (|k: ClassKey| needs_import(k, self@.package)),
                strictly_sorted(q),
                forall|j: int| 0 <= j < q.len() ==> exists|m: int| 0 <= m < i && all[m] == #[trigger] q[j],
                q.to_set() == all.take(i as int).to_set().filter(pred),
                sections@.sections == head + q.map_values(
                    |k: ClassKey| SectionView::Statement(import_statement(k)),
                ),
            decreases all.len() - i,
        {
            let (p, n) = receiver.get(i);
            let ghost k = all[i as int];
            let ghost old_q = q;
            let ghost pre = all.take(i as int);
            let ghost post = all.take(i + 1);
            assert(post =~= pre.push(k));
            if !(*p == java_lang) && !(*p == self.package) {
                let mut s = Statement::new();
                s.push("import ");
                s.push(p);
                s.push(".");
                s.push(n);
                assert(s@.parts =~= import_statement(k).parts);
                sections.push(s);
                proof {
                    q = q.push(k);
                    assert forall|a: int, b: int| 0 <= a < b < q.len() implies key_lt(#[trigger] q[a], #[trigger] q[b]) by {
                        if b == q.len() - 1 {
                            let m = choose|m: int| 0 <= m < i && all[m] == old_q[a];
                            assert(key_lt(all[m], all[i as int]));
                        } else {
                            assert(key_lt(old_q[a], old_q[b]));
                        }
                    }
                    assert forall|j: int| 0 <= j < q.len() implies exists|m: int| 0 <= m < i + 1 && all[m] == #[trigger] q[j] by {
                        if j == q.len() - 1 {
                            assert(all[i as int] == q[j]);
                        } else {
                            let m = choose|m: int| 0 <= m < i && all[m] == old_q[j];
                            assert(all[m] == q[j]);
                        }
                    }
                    assert(q.to_set() =~= post.to_set().filter(pred)) by {
                        assert forall|x: ClassKey| q.to_set().contains(x) <==> post.to_set().filter(pred).contains(x) by {
                            if q.to_set().contains(x) {
                                let j = choose|j: int| 0 <= j < q.len() && q[j] == x;
                                if j < old_q.len() {
                                    assert(old_q.to_set().contains(x));
                                    let c = choose|c: int| 0 <= c < pre.len() && pre[c] == x;
                                    assert(post[c] == x);
                                } else {
                                    assert(post[i as int] == x);
                                }
                            }
                            if post.to_set().filter(pred).contains(x) {
                                let c = choose|c: int| 0 <= c < post.len() && post[c] == x;
                                if c < i {
                                    assert(pre[c] == x);
                                    assert(pre.to_set().filter(pred).contains(x));
                                    assert(old_q.to_set().contains(x));
                                    let j = choose|j: int| 0 <= j < old_q.len() && old_q[j] == x;
                                    assert(q[j] == x);
                                } else {
                                    assert(q[q.len() - 1] == x);
                                }
                            }
                        }
                    }
                }
                assert(sections@.sections =~= head + q.map_values(
                    |k: ClassKey| SectionView::Statement(import_statement(k)),
                ));
            } else {
                assert(!pred(k));
                assert(q.to_set() =~= post.to_set().filter(pred)) by {
                    assert forall|x: ClassKey| q.to_set().contains(x) <==> post.to_set().filter(pred).contains(x) by {
                        if q.to_set().contains(x) {
                            assert(pre.to_set().filter(pred).contains(x));
                            let c = choose|c: int| 0 <= c < pre.len() && pre[c] == x;
                            assert(post[c] == x);
                        }
                        if post.to_set().filter(pred).contains(x) {
                            let c = choose|c: int| 0 <= c < post.len() && post[c] == x;
                            if c < i {
                                assert(pre[c] == x);
                                assert(pre.to_set().filter(pred).contains(x));
                            }
                        }
                    }
                }
            }
            i += 1;
        }
        proof {
            assert(all.take(all.len() as int) =~= all);
            assert(q.to_set() =~= import_keys(self@));
            lemma_sorted_elements(q, import_keys(self@));
        }
        let ghost imports = q;
        if sections.sections_len() > 2 {
            sections.push(Section::Spacing);
        }
        assert(sections@.sections =~= head + import_sections(imports));
        let mut i: usize = 0;
        while i < self.elements.len()
            invariant
                0 <= i <= self.elements.len(),
                sections@.sections == head + import_sections(imports) + element_sections(
                    self@.elements,
                ).take(i as int),
            decreases self.elements.len() - i,
        {
            self.elements[i].add_to_sections(&mut sections);
            assert(element_sections(self@.elements).take(i + 1) =~= element_sections(self@.elements).take(
                i as int,
            ).push(element_sections(self@.elements)[i as int]));
            assert(sections@.sections =~= head + import_sections(imports) + element_sections(
                self@.elements,
            ).take(i + 1));
            i += 1;
        }
        assert(element_sections(self@.elements).take(self.elements.len() as int) =~= element_sections(
            self@.elements,
        ));
        assert(imports == sorted_elements(import_keys(self@)));
        assert(sections@.sections =~= file_sections(self@).sections);
        let lines = sections.format(0usize, "", "  ");
        let ghost ls = strings_view(lines@);
        let mut out = String::new();
        let mut i: usize = 0;
        proof {
            reveal_strlit("");
            assert(out@ =~= concat(ls.take(0).map_values(|l: Seq<char>| l + seq!['\n'])));
        }
        while i < lines.len()
            invariant
                0 <= i <= lines.len(),
                ls == strings_view(lines@),
                out@ == concat(ls.take(i as int).map_values(|l: Seq<char>| l + seq!['\n'])),
            decreases lines.len() - i,
        {
            out.append(lines[i].as_str());
            push_char(&mut out, '\n');
            proof {
                let before = ls.take(i as int).map_values(|l: Seq<char>| l + seq!['\n']);
                assert(ls.take(i + 1).map_values(|l: Seq<char>| l + seq!['\n']) =~= before.push(
                    ls[i as int] + seq!['\n'],
                ));
                lemma_join_push(before, Seq::empty(), ls[i as int] + seq!['\n']);
            }
            assert(out@ =~= concat(ls.take(i + 1).map_values(|l: Seq<char>| l + seq!['\n'])));
            i += 1;
        }
        assert(ls.take(lines.len() as int) =~= ls);
        out
    }
}

} // verus!
