//! Properties of the generator that hold across its operations.

use vstd::prelude::*;
use crate::text::{join, concat, lemma_join_push};
use crate::java::modifiers::{Modifier, modifiers_text};
use crate::java::statement::{VariableView, StatementView, variable_text, fold_parts, statement_lines, interleave};
use crate::java::sections::{SectionView, SectionsView, BlockView, section_lines, section_seq_lines, sections_lines, block_lines, open_lines, close_line};

verus! {

/// The formatted modifiers depend only on which modifiers were inserted,
/// not on the order of insertion or on repeated insertions.
pub proof fn law_modifiers_insertion_order(s: Set<Modifier>, a: Modifier, b: Modifier)
    ensures
        modifiers_text(s.insert(a).insert(b)) == modifiers_text(s.insert(b).insert(a)),
        modifiers_text(s.insert(a).insert(a)) == modifiers_text(s.insert(a)),
{
    assert(s.insert(a).insert(b) =~= s.insert(b).insert(a));
    assert(s.insert(a).insert(a) =~= s.insert(a));
}

/// None of the parts is a line break.
pub open spec fn no_spacing(parts: Seq<VariableView>) -> bool {
    forall|i: int| 0 <= i < parts.len() ==> !(#[trigger] parts[i] is Spacing)
}

/// The texts of the parts of a statement.
pub open spec fn part_texts(parts: Seq<VariableView>, level: nat) -> Seq<Seq<char>> {
    Seq::new(parts.len(), |i: int| variable_text(parts[i], level))
}

/// Writing one more part after the others appends its text.
pub proof fn lemma_concat_push(x: Seq<Seq<char>>, p: Seq<char>)
    ensures
        concat(x.push(p)) == concat(x) + p,
{
    lemma_join_push(x, Seq::empty(), p);
    if x.len() == 0 {
        assert(concat(x) =~= Seq::<char>::empty());
        assert(concat(x) + p =~= p);
    } else {
        assert(concat(x) + Seq::<char>::empty() + p =~= concat(x) + p);
    }
}

/// Without line breaks, all parts go to the line being built.
pub proof fn lemma_fold_no_spacing(parts: Seq<VariableView>, level: nat)
    requires
        no_spacing(parts),
    ensures
        fold_parts(parts, level) == (Seq::<Seq<char>>::empty(), part_texts(parts, level)),
    decreases parts.len(),
{
    if parts.len() > 0 {
        let p = parts.drop_last();
        assert(no_spacing(p)) by {
            assert forall|i: int| 0 <= i < p.len() implies !(#[trigger] p[i] is Spacing) by {
                assert(p[i] == parts[i]);
            }
        }
        lemma_fold_no_spacing(p, level);
        assert(!(parts[parts.len() - 1] is Spacing));
        assert(part_texts(parts, level) =~= part_texts(p, level).push(
            variable_text(parts.last(), level),
        ));
    } else {
        assert(part_texts(parts, level) =~= Seq::<Seq<char>>::empty());
    }
}

/// Interleaving with a separator that is no line break adds no line break,
/// and its texts are those of the parts with the separator's text between.
pub proof fn lemma_interleave_texts(parts: Seq<VariableView>, sep: VariableView, level: nat)
    requires
        parts.len() > 0,
        no_spacing(parts),
        !(sep is Spacing),
    ensures
        no_spacing(interleave(parts, sep)),
        concat(part_texts(interleave(parts, sep), level)) == join(
            part_texts(parts, level),
            variable_text(sep, level),
        ),
    decreases parts.len(),
{
    let t = variable_text(sep, level);
    if parts.len() == 1 {
        assert(part_texts(parts, level) =~= seq![variable_text(parts[0], level)]);
        assert(concat(part_texts(parts, level)) == variable_text(parts[0], level));
    } else {
        let p = parts.drop_last();
        assert(no_spacing(p)) by {
            assert forall|i: int| 0 <= i < p.len() implies !(#[trigger] p[i] is Spacing) by {
                assert(p[i] == parts[i]);
            }
        }
        lemma_interleave_texts(p, sep, level);
        let ip = interleave(p, sep);
        let last = parts.last();
        assert(interleave(parts, sep) == ip.push(sep).push(last));
        assert(!(parts[parts.len() - 1] is Spacing));
        assert forall|i: int| 0 <= i < ip.push(sep).push(last).len() implies !(
        #[trigger] ip.push(sep).push(last)[i] is Spacing) by {
            if i < ip.len() {
                assert(ip.push(sep).push(last)[i] == ip[i]);
            }
        }
        assert(part_texts(ip.push(sep).push(last), level) =~= part_texts(ip, level).push(t).push(
            variable_text(last, level),
        ));
        lemma_concat_push(part_texts(ip, level), t);
        lemma_concat_push(part_texts(ip, level).push(t), variable_text(last, level));
        assert(part_texts(parts, level) =~= part_texts(p, level).push(variable_text(last, level)));
        lemma_join_push(part_texts(p, level), t, variable_text(last, level));
    }
}

/// Joining parts that hold no line break with a separator that is none
/// gives a statement of one line: the texts of the parts with the
/// separator's text between neighbours.
pub proof fn law_join_format(parts: Seq<VariableView>, sep: VariableView, level: nat)
    requires
        parts.len() > 0,
        no_spacing(parts),
        !(sep is Spacing),
    ensures
        statement_lines(StatementView { parts: interleave(parts, sep) }, level) == seq![
            join(part_texts(parts, level), variable_text(sep, level)),
        ],
{
    lemma_interleave_texts(parts, sep, level);
    let ip = interleave(parts, sep);
    lemma_fold_no_spacing(ip, level);
    assert(ip.len() > 0) by {
        lemma_interleave_len(parts, sep);
    }
    assert(part_texts(ip, level).len() > 0);
}

/// Interleaving keeps at least as many parts.
pub proof fn lemma_interleave_len(parts: Seq<VariableView>, sep: VariableView)
    ensures
        interleave(parts, sep).len() >= parts.len(),
    decreases parts.len(),
{
    if parts.len() > 1 {
        lemma_interleave_len(parts.drop_last(), sep);
    }
}

/// `l` begins with `p`.
pub open spec fn starts_with(l: Seq<char>, p: Seq<char>) -> bool {
    p.len() <= l.len() && l.subrange(0, p.len() as int) == p
}

/// Every line is empty or begins with `current`.
pub open spec fn indented(ls: Seq<Seq<char>>, current: Seq<char>) -> bool {
    forall|i: int| 0 <= i < ls.len() ==> #[trigger] ls[i].len() == 0 || starts_with(ls[i], current)
}

/// A line that begins with `current` followed by something begins with `current`.
pub proof fn lemma_starts_with_concat(current: Seq<char>, rest: Seq<char>)
    ensures
        starts_with(current + rest, current),
{
    assert((current + rest).subrange(0, current.len() as int) =~= current);
}

/// A line that begins with `current + indent` begins with `current`.
pub proof fn lemma_starts_with_longer(l: Seq<char>, current: Seq<char>, indent: Seq<char>)
    requires
        starts_with(l, current + indent),
    ensures
        starts_with(l, current),
{
    assert(l.subrange(0, current.len() as int) =~= (current + indent).subrange(0, current.len() as int));
    assert((current + indent).subrange(0, current.len() as int) =~= current);
}

/// Every line of a section is empty (an empty line) or is indented by `current`.
pub proof fn law_section_lines_indented(s: SectionView, level: nat, current: Seq<char>, indent: Seq<char>)
    ensures
        indented(section_lines(s, level, current, indent), current),
    decreases s,
{
    let ls = section_lines(s, level, current, indent);
    match s {
        SectionView::Block(b) => {
            law_block_lines_indented(b, level, current, indent);
        },
        SectionView::Statement(st) => {
            assert forall|i: int| 0 <= i < ls.len() implies #[trigger] ls[i].len() == 0 || starts_with(
                ls[i],
                current,
            ) by {
                let l = statement_lines(st, level)[i];
                assert(ls[i] == current + l + ";"@);
                assert(ls[i] =~= current + (l + ";"@));
                lemma_starts_with_concat(current, l + ";"@);
            }
        },
        SectionView::Spacing => {},
        SectionView::Literal(content) => {
            assert forall|i: int| 0 <= i < ls.len() implies #[trigger] ls[i].len() == 0 || starts_with(
                ls[i],
                current,
            ) by {
                lemma_starts_with_concat(current, content[i]);
            }
        },
    }
}

/// Every line of a list of sections is empty or is indented by `current`.
pub proof fn law_section_seq_lines_indented(
    secs: Seq<SectionView>,
    level: nat,
    current: Seq<char>,
    indent: Seq<char>,
)
    ensures
        indented(section_seq_lines(secs, level, current, indent), current),
    decreases secs,
{
    if secs.len() > 0 {
        law_section_seq_lines_indented(secs.drop_last(), level, current, indent);
        law_section_lines_indented(secs.last(), level, current, indent);
        let a = section_seq_lines(secs.drop_last(), level, current, indent);
        let b = section_lines(secs.last(), level, current, indent);
        assert forall|i: int| 0 <= i < (a + b).len() implies #[trigger] (a + b)[i].len() == 0
            || starts_with((a + b)[i], current) by {
            if i < a.len() {
                assert((a + b)[i] == a[i]);
            } else {
                assert((a + b)[i] == b[i - a.len()]);
            }
        }
    }
}

/// Every line of a block is indented by `current`, except the empty lines
/// of its body.
pub proof fn law_block_lines_indented(b: BlockView, level: nat, current: Seq<char>, indent: Seq<char>)
    ensures
        indented(block_lines(b, level, current, indent), current),
    decreases b,
{
    let o = open_lines(b.open, level, current);
    let inner = current + indent;
    let body = sections_lines(b.sections, level, inner, indent);
    let c = close_line(b.close, level, current);
    law_section_seq_lines_indented(b.sections.sections, level, inner, indent);
    assert forall|i: int| 0 <= i < o.len() implies #[trigger] o[i].len() == 0 || starts_with(o[i], current) by {
        match b.open {
            None => {
                lemma_starts_with_concat(current, "{"@);
            },
            Some(st) => {
                let l = statement_lines(st, level)[i];
                if i + 1 == o.len() {
                    assert(o[i] =~= current + (l + " {"@));
                    lemma_starts_with_concat(current, l + " {"@);
                } else {
                    lemma_starts_with_concat(current, l);
                }
            },
        }
    }
    assert forall|i: int| 0 <= i < body.len() implies #[trigger] body[i].len() == 0 || starts_with(
        body[i],
        current,
    ) by {
        if body[i].len() != 0 {
            lemma_starts_with_longer(body[i], current, indent);
        }
    }
    assert(starts_with(c, current)) by {
        match b.close {
            None => {
                lemma_starts_with_concat(current, "}"@);
            },
            Some(st) => {
                let t = "} "@ + join(statement_lines(st, level), " "@) + ";"@;
                assert(c =~= current + t);
                lemma_starts_with_concat(current, t);
            },
        }
    }
    let all = o + body + seq![c];
    assert forall|i: int| 0 <= i < all.len() implies #[trigger] all[i].len() == 0 || starts_with(all[i], current) by {
        if i < o.len() {
            assert(all[i] == o[i]);
        } else if i < o.len() + body.len() {
            assert(all[i] == body[i - o.len()]);
        } else {
            assert(all[i] == c);
        }
    }
}


/// Pushing a section onto a list of sections appends exactly the lines of
/// that one section, formatted on its own, and leaves the earlier lines as
/// they were.
pub proof fn law_sections_push(ss: SectionsView, x: SectionView, level: nat, current: Seq<char>, indent: Seq<char>)
    ensures
        sections_lines(SectionsView { sections: ss.sections.push(x) }, level, current, indent) == sections_lines(
            ss,
            level,
            current,
            indent,
        ) + sections_lines(SectionsView { sections: seq![x] }, level, current, indent),
{
    assert(ss.sections.push(x).drop_last() =~= ss.sections);
    assert(seq![x].drop_last() =~= Seq::<SectionView>::empty());
    assert(section_seq_lines(Seq::<SectionView>::empty(), level, current, indent) =~= Seq::<Seq<char>>::empty());
    assert(sections_lines(SectionsView { sections: seq![x] }, level, current, indent) =~= section_lines(x, level, current, indent));
}

/// Pushing a section onto the body of a block inserts the lines of that one
/// section, formatted on its own one indentation step further in, just before
/// the closing line; the opening lines, the earlier body lines and the
/// closing line stay as they were.
pub proof fn law_block_push(b: BlockView, x: SectionView, level: nat, current: Seq<char>, indent: Seq<char>)
    ensures
        ({
            let before = block_lines(b, level, current, indent);
            let n = before.len();
            &&& n > 0
            &&& block_lines(BlockView { sections: SectionsView { sections: b.sections.sections.push(x) }, ..b }, level, current, indent)
                == before.take(n - 1) + sections_lines(SectionsView { sections: seq![x] }, level, current + indent, indent)
                + seq![before[n - 1]]
        }),
{
    law_sections_push(b.sections, x, level, current + indent, indent);
    let head = open_lines(b.open, level, current);
    let body = sections_lines(b.sections, level, current + indent, indent);
    let one = sections_lines(SectionsView { sections: seq![x] }, level, current + indent, indent);
    let last = close_line(b.close, level, current);
    let before = block_lines(b, level, current, indent);
    assert(before == head + body + seq![last]);
    assert(before.take(before.len() - 1) =~= head + body);
    assert(before[before.len() - 1] == last);
    assert(head + (body + one) + seq![last] =~= (head + body) + one + seq![last]);
}

} // verus!
