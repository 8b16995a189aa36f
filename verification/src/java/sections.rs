//! Sections and blocks: the indented, line-oriented layout of Java source.

use vstd::prelude::*;
use crate::text::{join, strings_view, join_strings, clone_strings, concat_str};
use crate::java::statement::{
    Statement, StatementView, AsStatement, statement_lines, clone_statement, collect_statement,
};
use crate::java::imports::{ImportSet, section_keys, section_seq_keys, block_keys, option_statement_keys};

verus! {

/// One section of a block body.
#[derive(Debug)]
pub enum Section {
    /// A nested block.
    Block(Block),
    /// A statement, each of its lines ended by `;`.
    Statement(Statement),
    /// Lines written as they are.
    Literal(Vec<String>),
    /// An empty line.
    Spacing,
}

/// A list of sections.
#[derive(Debug)]
pub struct Sections {
    sections: Vec<Section>,
}

/// A block: an optional opening statement, a body of sections and an
/// optional closing statement.
#[derive(Debug)]
pub struct Block {
    open: Option<Statement>,
    close: Option<Statement>,
    sections: Sections,
}

/// The model of a section.
pub enum SectionView {
    Block(BlockView),
    Statement(StatementView),
    Literal(Seq<Seq<char>>),
    Spacing,
}

/// The model of a list of sections.
pub struct SectionsView {
    pub sections: Seq<SectionView>,
}

/// The model of a block.
pub struct BlockView {
    pub open: Option<StatementView>,
    pub close: Option<StatementView>,
    pub sections: SectionsView,
}

pub open spec fn section_view(s: Section) -> SectionView
    decreases s,
{
    match s {
        Section::Block(b) => SectionView::Block(block_view(b)),
        Section::Statement(st) => SectionView::Statement(st@),
        Section::Literal(lines) => SectionView::Literal(strings_view(lines@)),
        Section::Spacing => SectionView::Spacing,
    }
}

pub closed spec fn sections_view(s: Sections) -> SectionsView
    decreases s,
{
    SectionsView { sections: section_seq_view(s.sections@) }
}

pub closed spec fn block_view(b: Block) -> BlockView
    decreases b,
{
    BlockView {
        open: match b.open {
            Some(st) => Some(st@),
            None => None,
        },
        close: match b.close {
            Some(st) => Some(st@),
            None => None,
        },
        sections: sections_view(b.sections),
    }
}

/// The models of a list of sections.
pub open spec fn section_seq_view(s: Seq<Section>) -> Seq<SectionView>
    decreases s,
{
    Seq::new(
        s.len(),
        |i: int|
            if 0 <= i < s.len() {
                section_view(s[i])
            } else {
                SectionView::Spacing
            },
    )
}

impl View for Section {
    type V = SectionView;

    open spec fn view(&self) -> SectionView {
        section_view(*self)
    }
}

impl View for Sections {
    type V = SectionsView;

    open spec fn view(&self) -> SectionsView {
        sections_view(*self)
    }
}

impl View for Block {
    type V = BlockView;

    open spec fn view(&self) -> BlockView {
        block_view(*self)
    }
}

/// The lines of a section, indented by `current`.
pub open spec fn section_lines(s: SectionView, level: nat, current: Seq<char>, indent: Seq<char>) -> Seq<
    Seq<char>,
>
    decreases s,
{
    match s {
        SectionView::Statement(st) => statement_lines(st, level).map_values(
            |l: Seq<char>| current + l + ";"@,
        ),
        SectionView::Block(b) => block_lines(b, level, current, indent),
        SectionView::Spacing => seq![Seq::empty()],
        SectionView::Literal(content) => content.map_values(|l: Seq<char>| current + l),
    }
}

/// The lines of a list of sections, one section after another.
pub open spec fn section_seq_lines(
    secs: Seq<SectionView>,
    level: nat,
    current: Seq<char>,
    indent: Seq<char>,
) -> Seq<Seq<char>>
    decreases secs,
{
    if secs.len() == 0 {
        Seq::empty()
    } else {
        section_seq_lines(secs.drop_last(), level, current, indent) + section_lines(
            secs.last(),
            level,
            current,
            indent,
        )
    }
}

/// The lines of a list of sections.
pub open spec fn sections_lines(ss: SectionsView, level: nat, current: Seq<char>, indent: Seq<char>) -> Seq<
    Seq<char>,
>
    decreases ss,
{
    section_seq_lines(ss.sections, level, current, indent)
}

/// The opening lines of a block: the lines of its opening statement, the
/// last one ended by ` {`; without an opening statement, a lone `{`.
pub open spec fn open_lines(open: Option<StatementView>, level: nat, current: Seq<char>) -> Seq<
    Seq<char>,
> {
    match open {
        None => seq![current + "{"@],
        Some(st) => {
            let ls = statement_lines(st, level);
            Seq::new(
                ls.len(),
                |i: int|
                    if i + 1 == ls.len() {
                        current + ls[i] + " {"@
                    } else {
                        current + ls[i]
                    },
            )
        },
    }
}

/// The closing line of a block: `}`, followed by the closing statement on
/// one line and `;` if there is one.
pub open spec fn close_line(close: Option<StatementView>, level: nat, current: Seq<char>) -> Seq<
    char,
> {
    match close {
        None => current + "}"@,
        Some(st) => current + "} "@ + join(statement_lines(st, level), " "@) + ";"@,
    }
}

/// The lines of a block: the opening lines, the body indented one step
/// further, and the closing line.
pub open spec fn block_lines(b: BlockView, level: nat, current: Seq<char>, indent: Seq<char>) -> Seq<
    Seq<char>,
>
    decreases b,
{
    open_lines(b.open, level, current) + sections_lines(b.sections, level, current + indent, indent)
        + seq![close_line(b.close, level, current)]
}

/// A copy of a section.
pub fn clone_section(s: &Section) -> (r: Section)
    ensures
        r@ == s@,
    decreases s,
{
    match s {
        Section::Block(b) => Section::Block(clone_block(b)),
        Section::Statement(st) => Section::Statement(clone_statement(st)),
        Section::Literal(lines) => Section::Literal(clone_strings(lines)),
        Section::Spacing => Section::Spacing,
    }
}

/// A copy of a block.
pub fn clone_block(b: &Block) -> (r: Block)
    ensures
        r@ == b@,
    decreases b,
{
    let open = match &b.open {
        Some(st) => Some(clone_statement(st)),
        None => None,
    };
    let close = match &b.close {
        Some(st) => Some(clone_statement(st)),
        None => None,
    };
    Block { open, close, sections: clone_sections(&b.sections) }
}

/// A copy of a list of sections.
pub fn clone_sections(s: &Sections) -> (r: Sections)
    ensures
        r@ == s@,
    decreases s,
{
    let mut sections: Vec<Section> = Vec::new();
    let mut i: usize = 0;
    while i < s.sections.len()
        invariant
            0 <= i <= s.sections.len(),
            sections@.len() == i,
            forall|j: int| 0 <= j < i ==> #[trigger] sections@[j]@ == s.sections@[j]@,
        decreases s.sections.len() - i,
    {
        sections.push(clone_section(&s.sections[i]));
        i += 1;
    }
    assert forall|j: int| 0 <= j < s.sections@.len() implies #[trigger] section_seq_view(sections@)[j]
        == section_seq_view(s.sections@)[j] by {
        assert(sections@[j]@ == s.sections@[j]@);
    }
    assert(section_seq_view(sections@) =~= section_seq_view(s.sections@));
    Sections { sections }
}

impl Clone for Section {
    fn clone(&self) -> (r: Self)
        ensures
            r@ == self@,
    {
        clone_section(self)
    }
}

impl Clone for Sections {
    fn clone(&self) -> (r: Self)
        ensures
            r@ == self@,
    {
        clone_sections(self)
    }
}

impl Clone for Block {
    fn clone(&self) -> (r: Self)
        ensures
            r@ == self@,
    {
        clone_block(self)
    }
}

/// Adds the classes that a section refers to.
pub fn collect_section(s: &Section, set: &mut ImportSet)
    requires
        old(set).wf(),
    ensures
        final(set).wf(),
        final(set)@ == old(set)@.union(section_keys(s@)),
    decreases s,
{
    match s {
        Section::Block(b) => collect_block(b, set),
        Section::Statement(st) => collect_statement(st, set),
        _ => {
            assert(set@ =~= old(set)@.union(section_keys(s@)));
        },
    }
}

/// Adds the classes that a block refers to.
pub fn collect_block(b: &Block, set: &mut ImportSet)
    requires
        old(set).wf(),
    ensures
        final(set).wf(),
        final(set)@ == old(set)@.union(block_keys(b@)),
    decreases b,
{
    match &b.open {
        Some(st) => collect_statement(st, set),
        None => {},
    }
    let ghost after_open = set@;
    assert(after_open =~= old(set)@.union(option_statement_keys(b@.open)));
    match &b.close {
        Some(st) => collect_statement(st, set),
        None => {},
    }
    assert(set@ =~= after_open.union(option_statement_keys(b@.close)));
    collect_sections(&b.sections, set);
    assert(set@ =~= old(set)@.union(block_keys(b@)));
}

/// Adds the classes that a list of sections refers to.
pub fn collect_sections(s: &Sections, set: &mut ImportSet)
    requires
        old(set).wf(),
    ensures
        final(set).wf(),
        final(set)@ == old(set)@.union(section_seq_keys(s@.sections)),
    decreases s,
{
    let ghost ss = s@.sections;
    assert(set@ =~= old(set)@.union(section_seq_keys(ss.take(0))));
    let mut i: usize = 0;
    while i < s.sections.len()
        invariant
            0 <= i <= s.sections.len(),
            ss == s@.sections,
            set.wf(),
            set@ == old(set)@.union(section_seq_keys(ss.take(i as int))),
        decreases s.sections.len() - i,
    {
        collect_section(&s.sections[i], set);
        assert(ss.take(i + 1).drop_last() =~= ss.take(i as int));
        assert(set@ =~= old(set)@.union(section_seq_keys(ss.take(i + 1))));
        i += 1;
    }
    assert(ss.take(s.sections.len() as int) =~= ss);
}

/// Conversion into a section.
pub trait AsSection: Sized {
    /// The model of the section that the value converts to.
    spec fn section_of(&self) -> SectionView;

    fn as_section(self) -> (s: Section)
        ensures
            s@ == self.section_of(),
    ;
}

impl AsSection for Section {
    open spec fn section_of(&self) -> SectionView {
        self@
    }

    fn as_section(self) -> (s: Section) {
        self
    }
}

impl<'a> AsSection for &'a Section {
    open spec fn section_of(&self) -> SectionView {
        (**self)@
    }

    fn as_section(self) -> (s: Section) {
        clone_section(self)
    }
}

impl AsSection for Block {
    open spec fn section_of(&self) -> SectionView {
        SectionView::Block(self@)
    }

    fn as_section(self) -> (s: Section) {
        Section::Block(self)
    }
}

impl<'a> AsSection for &'a Block {
    open spec fn section_of(&self) -> SectionView {
        SectionView::Block((**self)@)
    }

    fn as_section(self) -> (s: Section) {
        Section::Block(clone_block(self))
    }
}

impl AsSection for Statement {
    open spec fn section_of(&self) -> SectionView {
        SectionView::Statement(self@)
    }

    fn as_section(self) -> (s: Section) {
        Section::Statement(self)
    }
}

impl<'a> AsSection for &'a Statement {
    open spec fn section_of(&self) -> SectionView {
        SectionView::Statement((**self)@)
    }

    fn as_section(self) -> (s: Section) {
        Section::Statement(clone_statement(self))
    }
}

impl AsSection for Vec<String> {
    open spec fn section_of(&self) -> SectionView {
        SectionView::Literal(strings_view(self@))
    }

    fn as_section(self) -> (s: Section) {
        Section::Literal(self)
    }
}

impl<'a> AsSection for &'a Vec<String> {
    open spec fn section_of(&self) -> SectionView {
        SectionView::Literal(strings_view((**self)@))
    }

    fn as_section(self) -> (s: Section) {
        Section::Literal(clone_strings(self))
    }
}

impl Sections {
    /// The empty list of sections.
    pub fn new() -> (r: Sections)
        ensures
            r@ == (SectionsView { sections: Seq::empty() }),
    {
        let r = Sections { sections: Vec::new() };
        assert(section_seq_view(r.sections@) =~= Seq::<SectionView>::empty());
        r
    }

    /// Appends one section.
    pub fn push<S: AsSection>(&mut self, section: S)
        ensures
            final(self)@ == (SectionsView { sections: old(self)@.sections.push(section.section_of()) }),
    {
        let s = section.as_section();
        self.sections.push(s);
        assert(section_seq_view(self.sections@) =~= section_seq_view(old(self).sections@).push(s@));
    }

    /// The number of sections.
    pub fn sections_len(&self) -> (n: usize)
        ensures
            n == self@.sections.len(),
    {
        self.sections.len()
    }

    /// Appends copies of all sections of `sections`.
    pub fn extend(&mut self, sections: &Sections)
        ensures
            final(self)@ == (SectionsView { sections: old(self)@.sections + sections@.sections }),
    {
        let mut i: usize = 0;
        while i < sections.sections.len()
            invariant
                0 <= i <= sections.sections.len(),
                self@.sections =~= old(self)@.sections + sections@.sections.take(i as int),
            decreases sections.sections.len() - i,
        {
            let ghost prev = self.sections@;
            let s = clone_section(&sections.sections[i]);
            self.sections.push(s);
            assert(section_seq_view(self.sections@) =~= section_seq_view(prev).push(s@));
            assert(sections@.sections.take(i + 1) =~= sections@.sections.take(i as int).push(s@));
            i += 1;
        }
        assert(sections@.sections.take(sections.sections.len() as int) =~= sections@.sections);
    }

    /// The lines of the sections, each indented by `current`; nested blocks
    /// indent their bodies by a further `indent`.
    pub fn format(&self, level: usize, current: &str, indent: &str) -> (r: Vec<String>)
        ensures
            strings_view(r@) == sections_lines(self@, level as nat, current@, indent@),
        decreases self,
    {
        let mut out: Vec<String> = Vec::new();
        let mut i: usize = 0;
        proof {
            reveal_strlit("");
        }
        while i < self.sections.len()
            invariant
                0 <= i <= self.sections.len(),
                ""@ == Seq::<char>::empty(),
                strings_view(out@) == section_seq_lines(
                    self@.sections.take(i as int),
                    level as nat,
                    current@,
                    indent@,
                ),
            decreases self.sections.len() - i,
        {
            let ghost prev = strings_view(out@);
            let ghost sec = self.sections@[i as int]@;
            assert(self@.sections.take(i + 1).drop_last() =~= self@.sections.take(i as int));
            assert(self@.sections.take(i + 1).last() == sec);
            match &self.sections[i] {
                Section::Statement(statement) => {
                    let lines = statement.format(level);
                    let mut j: usize = 0;
                    while j < lines.len()
                        invariant
                            0 <= j <= lines.len(),
                            out@.len() == prev.len() + j,
                            forall|k: int| 0 <= k < prev.len() ==> #[trigger] out@[k]@ == prev[k],
                            forall|k: int|
                                0 <= k < j ==> #[trigger] out@[prev.len() + k]@ == current@
                                    + lines@[k]@ + ";"@,
                        decreases lines.len() - j,
                    {
                        let mut line = concat_str(current, lines[j].as_str());
                        line.append(";");
                        out.push(line);
                        j += 1;
                    }
                    let ghost want = prev + strings_view(lines@).map_values(
                        |l: Seq<char>| current@ + l + ";"@,
                    );
                    assert forall|k: int| 0 <= k < out@.len() implies #[trigger] strings_view(out@)[k] == want[k] by {
                        if k >= prev.len() {
                            assert(out@[prev.len() + (k - prev.len())]@ == current@ + lines@[k - prev.len()]@ + ";"@);
                        }
                    }
                    assert(strings_view(out@) =~= want);
                    assert(sec == SectionView::Statement(statement@));
                },
                Section::Block(block) => {
                    let mut lines = block.format(level, current, indent);
                    out.append(&mut lines);
                    assert(sec == SectionView::Block(block@));
                },
                Section::Spacing => {
                    out.push("".to_owned());
                },
                Section::Literal(content) => {
                    let mut j: usize = 0;
                    while j < content.len()
                        invariant
                            0 <= j <= content.len(),
                            out@.len() == prev.len() + j,
                            forall|k: int| 0 <= k < prev.len() ==> #[trigger] out@[k]@ == prev[k],
                            forall|k: int|
                                0 <= k < j ==> #[trigger] out@[prev.len() + k]@ == current@
                                    + content@[k]@,
                        decreases content.len() - j,
                    {
                        let line = concat_str(current, content[j].as_str());
                        out.push(line);
                        j += 1;
                    }
                    let ghost want = prev + strings_view(content@).map_values(|l: Seq<char>| current@ + l);
                    assert forall|k: int| 0 <= k < out@.len() implies #[trigger] strings_view(out@)[k] == want[k] by {
                        if k >= prev.len() {
                            assert(out@[prev.len() + (k - prev.len())]@ == current@ + content@[k - prev.len()]@);
                        }
                    }
                    assert(strings_view(out@) =~= want);
                    assert(sec == SectionView::Literal(strings_view(content@)));
                },
            }
            assert(strings_view(out@) =~= prev + section_lines(sec, level as nat, current@, indent@));
            i += 1;
        }
        assert(self@.sections.take(self.sections.len() as int) =~= self@.sections);
        out
    }
}

impl Block {
    /// A block with no opening or closing statement and an empty body.
    pub fn new() -> (r: Block)
        ensures
            r@ == (BlockView { open: None, close: None, sections: SectionsView { sections: Seq::empty() } }),
    {
        Block { open: None, close: None, sections: Sections::new() }
    }

    /// Sets the opening statement.
    pub fn open<S: AsStatement>(&mut self, open: S)
        ensures
            final(self)@ == (BlockView { open: Some(open.statement_of()), ..old(self)@ }),
    {
        self.open = Some(open.as_statement());
    }

    /// Sets the closing statement.
    pub fn close<S: AsStatement>(&mut self, close: S)
        ensures
            final(self)@ == (BlockView { close: Some(close.statement_of()), ..old(self)@ }),
    {
        self.close = Some(close.as_statement());
    }

    /// Appends one section to the body.
    pub fn push<S: AsSection>(&mut self, section: S)
        ensures
            final(self)@ == (BlockView {
                sections: SectionsView { sections: old(self)@.sections.sections.push(section.section_of()) },
                ..old(self)@
            }),
    {
        self.sections.push(section);
    }

    /// Appends copies of all sections of `sections` to the body.
    pub fn extend(&mut self, sections: &Sections)
        ensures
            final(self)@ == (BlockView {
                sections: SectionsView { sections: old(self)@.sections.sections + sections@.sections },
                ..old(self)@
            }),
    {
        self.sections.extend(sections);
    }

    /// The lines of the block, indented by `current`: the opening lines, the
    /// body indented by a further `indent`, and the closing line.
    pub fn format(&self, level: usize, current: &str, indent: &str) -> (r: Vec<String>)
        ensures
            strings_view(r@) == block_lines(self@, level as nat, current@, indent@),
        decreases self,
    {
        let mut out: Vec<String> = Vec::new();
        match &self.open {
            Some(open) => {
                let lines = open.format(level);
                let ghost ls = strings_view(lines@);
                let mut j: usize = 0;
                while j < lines.len()
                    invariant
                        0 <= j <= lines.len(),
                        ls == strings_view(lines@),
                        ls == statement_lines(open@, level as nat),
                        out@.len() == j,
                        forall|k: int|
                            0 <= k < j ==> #[trigger] out@[k]@ == open_lines(
                                Some(open@),
                                level as nat,
                                current@,
                            )[k],
                    decreases lines.len() - j,
                {
                    let mut line = concat_str(current, lines[j].as_str());
                    if j + 1 == lines.len() {
                        line.append(" {");
                    }
                    out.push(line);
                    j += 1;
                }
                assert(strings_view(out@) =~= open_lines(Some(open@), level as nat, current@));
            },
            None => {
                out.push(concat_str(current, "{"));
            },
        }
        assert(strings_view(out@) =~= open_lines(self@.open, level as nat, current@));
        let inner = concat_str(current, indent);
        let mut body = self.sections.format(level, inner.as_str(), indent);
        out.append(&mut body);
        match &self.close {
            Some(close) => {
                let lines = close.format(level);
                let joined = join_strings(&lines, " ");
                let mut line = concat_str(current, "} ");
                line.append(joined.as_str());
                line.append(";");
                out.push(line);
            },
            None => {
                out.push(concat_str(current, "}"));
            },
        }
        assert(strings_view(out@) =~= block_lines(self@, level as nat, current@, indent@));
        out
    }
}

} // verus!
