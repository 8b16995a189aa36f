//! Statements: sequences of variables (literal text, types, quoted strings,
//! nested statements and line breaks) that format to lines of Java text.

use vstd::prelude::*;
use crate::text::{join, concat, strings_view, join_strings, push_char};
use crate::java::types::{Type, TypeView, ClassType, type_text, clone_type, clone_class_type};
use crate::java::imports::{ImportSet, variable_keys, variables_keys, statement_keys, collect_type};

verus! {

/// One part of a statement.
#[derive(Debug)]
pub enum Variable {
    /// Text written as it is.
    Literal(String),
    /// A type, written by its formatted name.
    Type(Type),
    /// A string, written as a quoted Java string literal.
    String(String),
    /// A nested statement, its lines joined by spaces.
    Statement(Statement),
    /// A line break.
    Spacing,
}

/// A statement: a sequence of variables.
#[derive(Debug)]
pub struct Statement {
    parts: Vec<Variable>,
}

/// The model of a variable.
pub enum VariableView {
    Literal(Seq<char>),
    Type(TypeView),
    String(Seq<char>),
    Statement(StatementView),
    Spacing,
}

/// The model of a statement.
pub struct StatementView {
    pub parts: Seq<VariableView>,
}

pub open spec fn variable_view(v: Variable) -> VariableView
    decreases v,
{
    match v {
        Variable::Literal(s) => VariableView::Literal(s@),
        Variable::Type(t) => VariableView::Type(t@),
        Variable::String(s) => VariableView::String(s@),
        Variable::Statement(st) => VariableView::Statement(statement_view(st)),
        Variable::Spacing => VariableView::Spacing,
    }
}

pub closed spec fn statement_view(s: Statement) -> StatementView
    decreases s,
{
    StatementView { parts: variables_view(s.parts@) }
}

/// The models of a list of variables.
pub open spec fn variables_view(s: Seq<Variable>) -> Seq<VariableView>
    decreases s,
{
    Seq::new(
        s.len(),
        |i: int|
            if 0 <= i < s.len() {
                variable_view(s[i])
            } else {
                VariableView::Spacing
            },
    )
}

impl View for Variable {
    type V = VariableView;

    open spec fn view(&self) -> VariableView {
        variable_view(*self)
    }
}

impl View for Statement {
    type V = StatementView;

    open spec fn view(&self) -> StatementView {
        statement_view(*self)
    }
}

/// The models of a list of statements.
pub open spec fn statements_view(s: Seq<Statement>) -> Seq<StatementView> {
    s.map_values(|st: Statement| st@)
}

/// The escape sequence that a Java string literal uses for a character
/// (the character itself where none is needed).
pub open spec fn escape_char(c: char) -> Seq<char> {
    if c == '\t' {
        "\\t"@
    } else if c == '\u{0007}' {
        "\\b"@
    } else if c == '\n' {
        "\\n"@
    } else if c == '\r' {
        "\\r"@
    } else if c == '\u{0014}' {
        "\\f"@
    } else if c == '\'' {
        "\\'"@
    } else if c == '"' {
        "\\\""@
    } else if c == '\\' {
        "\\\\"@
    } else {
        seq![c]
    }
}

/// The characters of `s`, each escaped.
pub open spec fn escaped(s: Seq<char>) -> Seq<char>
    decreases s.len(),
{
    if s.len() == 0 {
        Seq::empty()
    } else {
        escaped(s.drop_last()) + escape_char(s.last())
    }
}

/// `s` as a quoted Java string literal.
pub open spec fn java_quoted(s: Seq<char>) -> Seq<char> {
    seq!['"'] + escaped(s) + seq!['"']
}

/// The text of one variable of a statement (line breaks have none).
pub open spec fn variable_text(v: VariableView, level: nat) -> Seq<char>
    decreases v,
{
    match v {
        VariableView::Literal(s) => s,
        VariableView::Type(t) => type_text(t, level),
        VariableView::String(s) => java_quoted(s),
        VariableView::Statement(st) => join(statement_lines(st, level), " "@),
        VariableView::Spacing => Seq::empty(),
    }
}

/// Reading a list of parts from left to right: the lines completed so far
/// (each ended by a line break) and the texts of the line being built.
pub open spec fn fold_parts(parts: Seq<VariableView>, level: nat) -> (Seq<Seq<char>>, Seq<Seq<char>>)
    decreases parts,
{
    if parts.len() == 0 {
        (Seq::empty(), Seq::empty())
    } else {
        let (out, current) = fold_parts(parts.drop_last(), level);
        if parts.last() is Spacing {
            (out.push(concat(current)), Seq::empty())
        } else {
            (out, current.push(variable_text(parts.last(), level)))
        }
    }
}

/// The lines of a statement: the parts between line breaks, each written
/// one after another; the last line only if it has at least one part.
pub open spec fn statement_lines(s: StatementView, level: nat) -> Seq<Seq<char>>
    decreases s,
{
    let (out, current) = fold_parts(s.parts, level);
    if current.len() > 0 {
        out.push(concat(current))
    } else {
        out
    }
}

/// `parts` with `sep` between neighbours.
pub open spec fn interleave(parts: Seq<VariableView>, sep: VariableView) -> Seq<VariableView>
    decreases parts.len(),
{
    if parts.len() <= 1 {
        parts
    } else {
        interleave(parts.drop_last(), sep).push(sep).push(parts.last())
    }
}

/// The statement of a list of statements with a separator between
/// neighbours, each statement one nested part.
pub open spec fn joined_statements(stmts: Seq<StatementView>, sep: VariableView) -> StatementView {
    StatementView {
        parts: interleave(stmts.map_values(|s: StatementView| VariableView::Statement(s)), sep),
    }
}

/// A copy of a variable.
pub fn clone_variable(v: &Variable) -> (r: Variable)
    ensures
        r@ == v@,
    decreases v,
{
    match v {
        Variable::Literal(s) => Variable::Literal(s.clone()),
        Variable::Type(t) => Variable::Type(clone_type(t)),
        Variable::String(s) => Variable::String(s.clone()),
        Variable::Statement(st) => Variable::Statement(clone_statement(st)),
        Variable::Spacing => Variable::Spacing,
    }
}

/// A copy of a statement.
pub fn clone_statement(s: &Statement) -> (r: Statement)
    ensures
        r@ == s@,
    decreases s,
{
    let mut parts: Vec<Variable> = Vec::new();
    let mut i: usize = 0;
    while i < s.parts.len()
        invariant
            0 <= i <= s.parts.len(),
            parts@.len() == i,
            forall|j: int| 0 <= j < i ==> #[trigger] parts@[j]@ == s.parts@[j]@,
        decreases s.parts.len() - i,
    {
        parts.push(clone_variable(&s.parts[i]));
        i += 1;
    }
    assert forall|j: int| 0 <= j < s.parts@.len() implies #[trigger] variables_view(parts@)[j]
        == variables_view(s.parts@)[j] by {
        assert(parts@[j]@ == s.parts@[j]@);
    }
    assert(variables_view(parts@) =~= variables_view(s.parts@));
    Statement { parts }
}

impl Clone for Variable {
    fn clone(&self) -> (r: Self)
        ensures
            r@ == self@,
    {
        clone_variable(self)
    }
}

impl Clone for Statement {
    fn clone(&self) -> (r: Self)
        ensures
            r@ == self@,
    {
        clone_statement(self)
    }
}

/// A copy of a list of statements.
pub fn clone_statements(v: &Vec<Statement>) -> (r: Vec<Statement>)
    ensures
        statements_view(r@) == statements_view(v@),
{
    let mut r: Vec<Statement> = Vec::new();
    let mut i: usize = 0;
    while i < v.len()
        invariant
            0 <= i <= v.len(),
            r@.len() == i,
            forall|j: int| 0 <= j < i ==> #[trigger] r@[j]@ == v@[j]@,
        decreases v.len() - i,
    {
        r.push(clone_statement(&v[i]));
        i += 1;
    }
    assert(statements_view(r@) =~= statements_view(v@));
    r
}

/// Conversion into a statement part.
pub trait AsVariable: Sized {
    /// The model of the part that the value converts to.
    spec fn variable_of(&self) -> VariableView;

    fn as_variable(self) -> (v: Variable)
        ensures
            v@ == self.variable_of(),
    ;
}

/// Conversion into a statement.
pub trait AsStatement: Sized {
    /// The model of the statement that the value converts to.
    spec fn statement_of(&self) -> StatementView;

    fn as_statement(self) -> (s: Statement)
        ensures
            s@ == self.statement_of(),
    ;

    /// The statement of a borrowed value.
    fn to_statement(&self) -> (s: Statement)
        ensures
            s@ == self.statement_of(),
    ;
}

/// A string as a quoted Java string literal, with tabs, line breaks,
/// carriage returns, quotes and backslashes escaped (and the characters
/// U+0007 and U+0014 written as `\b` and `\f`).
pub fn java_quote_string(input: &str) -> (r: String)
    ensures
        r@ == java_quoted(input@),
{
    let mut out = String::new();
    push_char(&mut out, '"');
    let n = input.unicode_len();
    let mut i: usize = 0;
    while i < n
        invariant
            0 <= i <= n,
            n == input@.len(),
            out@ == seq!['"'] + escaped(input@.take(i as int)),
        decreases n - i,
    {
        let c = input.get_char(i);
        assert(input@.take(i + 1).drop_last() =~= input@.take(i as int));
        if c == '\t' {
            out.append("\\t");
        } else if c == '\u{0007}' {
            out.append("\\b");
        } else if c == '\n' {
            out.append("\\n");
        } else if c == '\r' {
            out.append("\\r");
        } else if c == '\u{0014}' {
            out.append("\\f");
        } else if c == '\'' {
            out.append("\\'");
        } else if c == '"' {
            out.append("\\\"");
        } else if c == '\\' {
            out.append("\\\\");
        } else {
            push_char(&mut out, c);
        }
        assert(out@ =~= seq!['"'] + escaped(input@.take(i + 1)));
        i += 1;
    }
    push_char(&mut out, '"');
    assert(input@.take(n as int) =~= input@);
    assert(out@ =~= java_quoted(input@));
    out
}

impl Statement {
    /// The empty statement.
    pub fn new() -> (r: Statement)
        ensures
            r@ == (StatementView { parts: Seq::empty() }),
    {
        let r = Statement { parts: Vec::new() };
        assert(variables_view(r.parts@) =~= Seq::<VariableView>::empty());
        r
    }

    /// Appends one part.
    pub fn push<V: AsVariable>(&mut self, variable: V)
        ensures
            final(self)@ == (StatementView { parts: old(self)@.parts.push(variable.variable_of()) }),
    {
        let v = variable.as_variable();
        self.parts.push(v);
        assert(variables_view(self.parts@) =~= variables_view(old(self).parts@).push(v@));
    }

    /// Appends, if there are any arguments, one part: the statements of the
    /// arguments with the separator between neighbours.
    pub fn push_arguments<S: AsStatement, A: AsVariable + Copy>(
        &mut self,
        arguments: &Vec<S>,
        separator: A,
    )
        ensures
            final(self)@ == (if arguments@.len() == 0 {
                old(self)@
            } else {
                StatementView {
                    parts: old(self)@.parts.push(
                        VariableView::Statement(
                            joined_statements(
                                arguments@.map_values(|a: S| a.statement_of()),
                                separator.variable_of(),
                            ),
                        ),
                    ),
                }
            }),
    {
        if arguments.len() == 0 {
            return ;
        }
        let mut out: Statement = Statement::new();
        let mut i: usize = 0;
        while i < arguments.len()
            invariant
                0 <= i <= arguments.len(),
                out@.parts =~= arguments@.take(i as int).map_values(
                    |a: S| VariableView::Statement(a.statement_of()),
                ),
            decreases arguments.len() - i,
        {
            out.push(arguments[i].to_statement());
            i += 1;
        }
        assert(arguments@.take(arguments@.len() as int) =~= arguments@);
        assert(arguments@.map_values(|a: S| VariableView::Statement(a.statement_of()))
            =~= arguments@.map_values(|a: S| a.statement_of()).map_values(
            |s: StatementView| VariableView::Statement(s),
        ));
        self.push(out.join(separator));
    }

    /// The parts with the separator between neighbours.
    pub fn join<A: AsVariable + Copy>(self, separator: A) -> (r: Statement)
        ensures
            r@ == (StatementView { parts: interleave(self@.parts, separator.variable_of()) }),
    {
        let ghost orig = self@.parts;
        let mut rest = self.parts;
        if rest.len() == 0 {
            assert(orig =~= Seq::<VariableView>::empty());
            return Statement::new();
        }
        let first = rest.remove(0);
        let mut parts: Vec<Variable> = Vec::new();
        parts.push(first);
        assert(variables_view(parts@) =~= interleave(orig.take(1), separator.variable_of()));
        let mut k: usize = 1;
        while rest.len() > 0
            invariant
                1 <= k <= orig.len(),
                orig.len() <= usize::MAX,
                k + rest@.len() == orig.len(),
                variables_view(rest@) == orig.skip(k as int),
                variables_view(parts@) == interleave(orig.take(k as int), separator.variable_of()),
            decreases rest.len(),
        {
            let ghost prev = parts@;
            let ghost old_rest = rest@;
            let part = rest.remove(0);
            assert(part@ == orig[k as int]) by {
                assert(variables_view(old_rest)[0] == orig.skip(k as int)[0]);
            }
            parts.push(separator.as_variable());
            parts.push(part);
            proof {
                assert(orig.take(k + 1).drop_last() =~= orig.take(k as int));
                assert(variables_view(parts@) =~= variables_view(prev).push(separator.variable_of()).push(
                    orig[k as int],
                ));
                assert(variables_view(rest@) =~= orig.skip(k + 1)) by {
                    assert forall|j: int| 0 <= j < rest@.len() implies #[trigger] variables_view(rest@)[j]
                        == orig.skip(k + 1)[j] by {
                        assert(rest@[j] == old_rest[j + 1]);
                        assert(variables_view(old_rest)[j + 1] == orig.skip(k as int)[j + 1]);
                    }
                }
            }
            k = k + 1;
        }
        assert(orig.take(orig.len() as int) =~= orig);
        Statement { parts }
    }

    /// The lines of the statement: the parts between line breaks, each
    /// written one after another.
    pub fn format(&self, level: usize) -> (r: Vec<String>)
        ensures
            strings_view(r@) == statement_lines(self@, level as nat),
        decreases self,
    {
        let mut out: Vec<String> = Vec::new();
        let mut current: Vec<String> = Vec::new();
        let mut i: usize = 0;
        proof {
            reveal_strlit("");
        }
        while i < self.parts.len()
            invariant
                0 <= i <= self.parts.len(),
                ""@ == Seq::<char>::empty(),
                fold_parts(self@.parts.take(i as int), level as nat) == (
                    strings_view(out@),
                    strings_view(current@),
                ),
            decreases self.parts.len() - i,
        {
            let ghost prev = self@.parts.take(i as int);
            assert(self@.parts.take(i + 1).drop_last() =~= prev);
            assert(self@.parts.take(i + 1).last() == self.parts@[i as int]@);
            let ghost part = self.parts@[i as int]@;
            let ghost before = strings_view(current@);
            match &self.parts[i] {
                Variable::Type(ty) => {
                    current.push(ty.format(level));
                    assert(part == VariableView::Type(ty@));
                    assert(strings_view(current@) =~= before.push(variable_text(part, level as nat)));
                },
                Variable::String(string) => {
                    current.push(java_quote_string(string.as_str()));
                },
                Variable::Statement(stmt) => {
                    let lines = stmt.format(level);
                    current.push(join_strings(&lines, " "));
                },
                Variable::Literal(content) => {
                    current.push(content.clone());
                },
                Variable::Spacing => {
                    let line = join_strings(&current, "");
                    out.push(line);
                    current = Vec::new();
                    assert(strings_view(current@) =~= Seq::<Seq<char>>::empty());
                },
            }
            assert(strings_view(out@) =~= fold_parts(self@.parts.take(i + 1), level as nat).0);
            assert(strings_view(current@) =~= fold_parts(self@.parts.take(i + 1), level as nat).1);
            i += 1;
        }
        assert(self@.parts.take(self.parts.len() as int) =~= self@.parts);
        if current.len() > 0 {
            let line = join_strings(&current, "");
            out.push(line);
        }
        assert(strings_view(out@) =~= statement_lines(self@, level as nat));
        out
    }
}

/// Adds the classes that a statement part refers to.
pub fn collect_variable(v: &Variable, set: &mut ImportSet)
    requires
        old(set).wf(),
    ensures
        final(set).wf(),
        final(set)@ == old(set)@.union(variable_keys(v@)),
    decreases v,
{
    match v {
        Variable::Type(t) => collect_type(t, set),
        Variable::Statement(st) => collect_statement(st, set),
        _ => {
            assert(set@ =~= old(set)@.union(variable_keys(v@)));
        },
    }
}

/// Adds the classes that a statement refers to.
pub fn collect_statement(s: &Statement, set: &mut ImportSet)
    requires
        old(set).wf(),
    ensures
        final(set).wf(),
        final(set)@ == old(set)@.union(statement_keys(s@)),
    decreases s,
{
    let ghost ps = s@.parts;
    assert(set@ =~= old(set)@.union(variables_keys(ps.take(0))));
    let mut i: usize = 0;
    while i < s.parts.len()
        invariant
            0 <= i <= s.parts.len(),
            ps == s@.parts,
            set.wf(),
            set@ == old(set)@.union(variables_keys(ps.take(i as int))),
        decreases s.parts.len() - i,
    {
        collect_variable(&s.parts[i], set);
        assert(ps.take(i + 1).drop_last() =~= ps.take(i as int));
        assert(set@ =~= old(set)@.union(variables_keys(ps.take(i + 1))));
        i += 1;
    }
    assert(ps.take(s.parts.len() as int) =~= ps);
}

impl AsVariable for Variable {
    open spec fn variable_of(&self) -> VariableView {
        self@
    }

    fn as_variable(self) -> (v: Variable) {
        self
    }
}

impl AsVariable for &'static str {
    open spec fn variable_of(&self) -> VariableView {
        VariableView::Literal((*self)@)
    }

    fn as_variable(self) -> (v: Variable) {
        Variable::Literal(self.to_owned())
    }
}

impl AsVariable for String {
    open spec fn variable_of(&self) -> VariableView {
        VariableView::Literal(self@)
    }

    fn as_variable(self) -> (v: Variable) {
        Variable::Literal(self)
    }
}

impl<'a> AsVariable for &'a String {
    open spec fn variable_of(&self) -> VariableView {
        VariableView::Literal((**self)@)
    }

    fn as_variable(self) -> (v: Variable) {
        Variable::Literal(self.clone())
    }
}

impl AsVariable for Type {
    open spec fn variable_of(&self) -> VariableView {
        VariableView::Type(self@)
    }

    fn as_variable(self) -> (v: Variable) {
        Variable::Type(self)
    }
}

impl<'a> AsVariable for &'a Type {
    open spec fn variable_of(&self) -> VariableView {
        VariableView::Type((**self)@)
    }

    fn as_variable(self) -> (v: Variable) {
        Variable::Type(clone_type(self))
    }
}

impl AsVariable for ClassType {
    open spec fn variable_of(&self) -> VariableView {
        VariableView::Type(TypeView::Class(self@))
    }

    fn as_variable(self) -> (v: Variable) {
        Variable::Type(Type::Class(self))
    }
}

impl<'a> AsVariable for &'a ClassType {
    open spec fn variable_of(&self) -> VariableView {
        VariableView::Type(TypeView::Class((**self)@))
    }

    fn as_variable(self) -> (v: Variable) {
        Variable::Type(Type::Class(clone_class_type(self)))
    }
}

impl AsVariable for Statement {
    open spec fn variable_of(&self) -> VariableView {
        VariableView::Statement(self@)
    }

    fn as_variable(self) -> (v: Variable) {
        Variable::Statement(self)
    }
}

impl<'a> AsVariable for &'a Statement {
    open spec fn variable_of(&self) -> VariableView {
        VariableView::Statement((**self)@)
    }

    fn as_variable(self) -> (v: Variable) {
        Variable::Statement(clone_statement(self))
    }
}

impl AsStatement for Statement {
    open spec fn statement_of(&self) -> StatementView {
        self@
    }

    fn as_statement(self) -> (s: Statement) {
        self
    }

    fn to_statement(&self) -> (s: Statement) {
        clone_statement(self)
    }
}

impl<'a> AsStatement for &'a Statement {
    open spec fn statement_of(&self) -> StatementView {
        (**self)@
    }

    fn as_statement(self) -> (s: Statement) {
        clone_statement(self)
    }

    fn to_statement(&self) -> (s: Statement) {
        clone_statement(*self)
    }
}

} // verus!
