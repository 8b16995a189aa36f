//! Code blocks embedded in specifications: their lines, with the
//! indentation that all of them share removed.

use vstd::prelude::*;
use crate::text::{lines, strings_view, split_lines};

verus! {

/// An indentation character: a space or a tab.
pub open spec fn indent_char(c: char) -> bool {
    c == ' ' || c == '\t'
}

/// Whether a character is an indentation character.
pub fn is_indent(c: char) -> (r: bool)
    ensures
        r == indent_char(c),
{
    match c {
        ' ' | '\t' => true,
        _ => false,
    }
}

/// A line that holds only indentation characters (or nothing).
pub open spec fn is_blank(l: Seq<char>) -> bool {
    forall|i: int| 0 <= i < l.len() ==> indent_char(#[trigger] l[i])
}

/// `i` is the position of the first character of `l` that is not an
/// indentation character.
pub open spec fn is_indent_width(l: Seq<char>, i: int) -> bool {
    &&& 0 <= i < l.len()
    &&& !indent_char(l[i])
    &&& forall|j: int| 0 <= j < i ==> indent_char(#[trigger] l[j])
}

/// The number of indentation characters that a line starts with, where it
/// holds anything else.
pub open spec fn find_indent_spec(l: Seq<char>) -> Option<nat> {
    if is_blank(l) {
        None
    } else {
        Some((choose|i: int| is_indent_width(l, i)) as nat)
    }
}

/// The position of the first character that is not an indentation
/// character, if there is one.
pub fn find_indent(input: &str) -> (r: Option<usize>)
    ensures
        r == (match find_indent_spec(input@) {
            Some(i) => Some(i as usize),
            None => None,
        }),
        r matches Some(i) ==> find_indent_spec(input@) == Some(i as nat),
{
    let n = input.unicode_len();
    let mut i: usize = 0;
    while i < n
        invariant
            0 <= i <= n,
            n == input@.len(),
            forall|j: int| 0 <= j < i ==> indent_char(#[trigger] input@[j]),
        decreases n - i,
    {
        if !is_indent(input.get_char(i)) {
            proof {
                assert(is_indent_width(input@, i as int));
                let w = choose|w: int| is_indent_width(input@, w);
                if w < i {
                    assert(indent_char(input@[w]));
                } else if w > i {
                    assert(indent_char(input@[i as int]));
                }
            }
            return Some(i);
        }
        i += 1;
    }
    None
}

/// The layout of the lines of a code block with at least one non-blank
/// line: `indent` is the smallest indentation of its non-blank lines, the
/// first non-blank line is at `start` and the last one at `start + len - 1`.
pub open spec fn is_block_layout(ls: Seq<Seq<char>>, indent: nat, start: nat, len: nat) -> bool {
    &&& 1 <= len
    &&& start + len <= ls.len()
    &&& !is_blank(ls[start as int])
    &&& !is_blank(ls[start + len - 1])
    &&& forall|i: int| 0 <= i < start ==> is_blank(#[trigger] ls[i])
    &&& forall|i: int| start + len <= i < ls.len() ==> is_blank(#[trigger] ls[i])
    &&& exists|i: int| 0 <= i < ls.len() && !is_blank(ls[i]) && #[trigger] find_indent_spec(ls[i]) == Some(indent)
    &&& forall|i: int|
        0 <= i < ls.len() && !is_blank(ls[i]) ==> indent <= #[trigger] find_indent_spec(ls[i]).unwrap()
}

/// The layout of a code block's lines, if any of them is not blank.
pub open spec fn block_layout(ls: Seq<Seq<char>>) -> Option<(nat, nat, nat)> {
    if forall|i: int| 0 <= i < ls.len() ==> is_blank(#[trigger] ls[i]) {
        None
    } else {
        Some(choose|t: (nat, nat, nat)| is_block_layout(ls, t.0, t.1, t.2))
    }
}

/// A layout is determined by the lines.
pub proof fn lemma_block_layout_unique(ls: Seq<Seq<char>>, a: (nat, nat, nat), b: (nat, nat, nat))
    requires
        is_block_layout(ls, a.0, a.1, a.2),
        is_block_layout(ls, b.0, b.1, b.2),
    ensures
        a == b,
{
    let ia = choose|i: int| 0 <= i < ls.len() && !is_blank(ls[i]) && #[trigger] find_indent_spec(ls[i]) == Some(a.0);
    let ib = choose|i: int| 0 <= i < ls.len() && !is_blank(ls[i]) && #[trigger] find_indent_spec(ls[i]) == Some(b.0);
    assert(a.0 <= find_indent_spec(ls[ib]).unwrap());
    assert(b.0 <= find_indent_spec(ls[ia]).unwrap());
    if a.1 < b.1 {
        assert(is_blank(ls[a.1 as int]));
    }
    if b.1 < a.1 {
        assert(is_blank(ls[b.1 as int]));
    }
    if a.1 + a.2 < b.1 + b.2 {
        assert(is_blank(ls[b.1 + b.2 - 1]));
    }
    if b.1 + b.2 < a.1 + a.2 {
        assert(is_blank(ls[a.1 + a.2 - 1]));
    }
}

/// The lines of a code block whose indentation can be stripped: the number
/// of indentation characters the non-blank lines share, the number of
/// leading blank lines, and the number of lines from the first to the last
/// non-blank one.
pub fn code_block_indent(input: &str) -> (r: Option<(usize, usize, usize)>)
    ensures
        r == (match block_layout(lines(input@)) {
            Some(t) => Some((t.0 as usize, t.1 as usize, t.2 as usize)),
            None => None,
        }),
        r matches Some(t) ==> is_block_layout(lines(input@), t.0 as nat, t.1 as nat, t.2 as nat),
{
    let all = split_lines(input);
    let ghost ls = lines(input@);
    let mut indent: Option<usize> = None;
    let mut start: usize = 0;
    let mut end: usize = 0;
    let mut first_line = false;
    let mut line_no: usize = 0;
    while line_no < all.len()
        invariant
            0 <= line_no <= all.len(),
            ls == strings_view(all@),
            first_line == (exists|i: int| 0 <= i < line_no && !is_blank(#[trigger] ls[i])),
            !first_line ==> start == line_no && indent is None,
            first_line ==> {
                &&& start < end <= line_no
                &&& !is_blank(ls[start as int])
                &&& !is_blank(ls[end - 1])
                &&& forall|i: int| end <= i < line_no ==> is_blank(#[trigger] ls[i])
                &&& indent is Some
                &&& exists|i: int|
                    0 <= i < line_no && !is_blank(ls[i]) && #[trigger] find_indent_spec(ls[i]) == Some(
                        indent.unwrap() as nat,
                    )
                &&& forall|i: int|
                    0 <= i < line_no && !is_blank(ls[i]) ==> indent.unwrap() <= #[trigger] find_indent_spec(
                        ls[i],
                    ).unwrap()
            },
            forall|i: int| 0 <= i < start ==> is_blank(#[trigger] ls[i]),
        decreases all.len() - line_no,
    {
        assert(ls[line_no as int] == all@[line_no as int]@);
        let ghost old_indent = indent;
        let ghost old_first = first_line;
        match find_indent(all[line_no].as_str()) {
            Some(current) => {
                assert(!is_blank(ls[line_no as int]));
                assert(find_indent_spec(ls[line_no as int]) == Some(current as nat));
                end = line_no + 1;
                let smaller = match indent {
                    Some(i) => i > current,
                    None => true,
                };
                if smaller {
                    indent = Some(current);
                }
                if !first_line {
                    start = line_no;
                }
                first_line = true;
                proof {
                    if smaller {
                        assert(find_indent_spec(ls[line_no as int]) == Some(indent.unwrap() as nat));
                    } else {
                        let w = choose|i: int|
                            0 <= i < line_no && !is_blank(ls[i]) && #[trigger] find_indent_spec(ls[i]) == Some(
                                old_indent.unwrap() as nat,
                            );
                        assert(find_indent_spec(ls[w]) == Some(indent.unwrap() as nat));
                    }
                    assert forall|i: int|
                        0 <= i < line_no + 1 && !is_blank(ls[i]) implies indent.unwrap() <= #[trigger] find_indent_spec(
                        ls[i],
                    ).unwrap() by {
                        if i < line_no {
                            assert(old_first);
                        }
                    }
                }
            },
            None => {
                assert(is_blank(ls[line_no as int]));
                if !first_line {
                    start += 1;
                }
            },
        }
        line_no += 1;
    }
    match indent {
        Some(i) => {
            proof {
                let t: (nat, nat, nat) = (i as nat, start as nat, (end - start) as nat);
                assert(is_block_layout(ls, t.0, t.1, t.2));
                assert(!(forall|k: int| 0 <= k < ls.len() ==> is_blank(#[trigger] ls[k])));
                let c = choose|t: (nat, nat, nat)| is_block_layout(ls, t.0, t.1, t.2);
                lemma_block_layout_unique(ls, c, t);
            }
            Some((i, start, end - start))
        },
        None => {
            assert(forall|k: int| 0 <= k < ls.len() ==> is_blank(#[trigger] ls[k]));
            None
        },
    }
}

/// A line of a code block with `indent` characters removed from its start,
/// unless it is shorter than that.
pub open spec fn strip_line(l: Seq<char>, indent: nat) -> Seq<char> {
    if l.len() < indent {
        l
    } else {
        l.skip(indent as int)
    }
}

/// The lines of a code block from its first to its last non-blank line,
/// with the indentation they share removed; all lines where every one is blank.
pub open spec fn stripped_lines(s: Seq<char>) -> Seq<Seq<char>> {
    let ls = lines(s);
    match block_layout(ls) {
        Some((indent, start, len)) => ls.subrange(start as int, (start + len) as int).map_values(
            |l: Seq<char>| strip_line(l, indent),
        ),
        None => ls,
    }
}

/// The lines of a code block, with the indentation they share, and the blank
/// lines before the first and after the last non-blank line, removed.
pub fn strip_code_block(input: &str) -> (r: Vec<String>)
    ensures
        strings_view(r@) == stripped_lines(input@),
{
    let all = split_lines(input);
    let ghost ls = lines(input@);
    match code_block_indent(input) {
        Some((indent, empty_start, len)) => {
            proof {
                let t: (nat, nat, nat) = (indent as nat, empty_start as nat, len as nat);
                assert(!(forall|k: int| 0 <= k < ls.len() ==> is_blank(#[trigger] ls[k]))) by {
                    assert(!is_blank(ls[empty_start as int]));
                }
                let c = choose|t: (nat, nat, nat)| is_block_layout(ls, t.0, t.1, t.2);
                lemma_block_layout_unique(ls, c, t);
            }
            let mut out: Vec<String> = Vec::new();
            let mut k: usize = 0;
            while k < len
                invariant
                    0 <= k <= len,
                    ls == strings_view(all@),
                    all@.len() == ls.len(),
                    is_block_layout(ls, indent as nat, empty_start as nat, len as nat),
                    out@.len() == k,
                    forall|j: int|
                        0 <= j < k ==> #[trigger] out@[j]@ == strip_line(ls[empty_start + j], indent as nat),
                decreases len - k,
            {
                assert(empty_start as nat + len as nat <= ls.len());
                assert(empty_start + k < all.len());
                let line = &all[empty_start + k];
                let m = line.unicode_len();
                if m < indent {
                    out.push(line.clone());
                } else {
                    let t = line.as_str().substring_char(indent, m);
                    out.push(t.to_owned());
                }
                k += 1;
            }
            assert(strings_view(out@) =~= stripped_lines(input@));
            out
        },
        None => all,
    }
}

} // verus!

verus! {

/// A line that is not blank has a first character that is no indentation character.
pub proof fn lemma_indent_width_exists(l: Seq<char>)
    requires
        !is_blank(l),
    ensures
        exists|w: int| is_indent_width(l, w),
    decreases l.len(),
{
    if indent_char(l[0]) {
        let t = l.drop_first();
        assert(!is_blank(t)) by {
            let j = choose|j: int| 0 <= j < l.len() && !indent_char(#[trigger] l[j]);
            assert(t[j - 1] == l[j]);
        }
        lemma_indent_width_exists(t);
        let w = choose|w: int| is_indent_width(t, w);
        assert forall|j: int| 0 <= j < w + 1 implies indent_char(#[trigger] l[j]) by {
            if j > 0 {
                assert(l[j] == t[j - 1]);
            }
        }
        assert(is_indent_width(l, w + 1));
    } else {
        assert(is_indent_width(l, 0));
    }
}

/// Lines of which one is not blank have a layout.
pub proof fn lemma_layout_exists(ls: Seq<Seq<char>>) -> (t: (nat, nat, nat))
    requires
        exists|j: int| 0 <= j < ls.len() && !is_blank(#[trigger] ls[j]),
    ensures
        is_block_layout(ls, t.0, t.1, t.2),
    decreases ls.len(),
{
    let n = ls.len();
    let p = ls.drop_last();
    let last = ls[n - 1];
    if forall|j: int| 0 <= j < p.len() ==> is_blank(#[trigger] p[j]) {
        let j = choose|j: int| 0 <= j < ls.len() && !is_blank(#[trigger] ls[j]);
        if j < n - 1 {
            assert(is_blank(p[j]));
        }
        let w = find_indent_spec(last).unwrap();
        let t = (w, (n - 1) as nat, 1nat);
        assert forall|i: int| 0 <= i < n - 1 implies is_blank(#[trigger] ls[i]) by {
            assert(is_blank(p[i]));
        }
        assert forall|i: int| 0 <= i < ls.len() && !is_blank(ls[i]) implies t.0 <= #[trigger] find_indent_spec(
            ls[i],
        ).unwrap() by {
            if i < n - 1 {
                assert(is_blank(p[i]));
            }
        }
        assert(find_indent_spec(ls[n - 1]) == Some(w));
        t
    } else {
        let j = choose|j: int| 0 <= j < p.len() && !is_blank(#[trigger] p[j]);
        assert(p[j] == ls[j]);
        let tp = lemma_layout_exists(p);
        let (ind, st, len) = tp;
        assert forall|i: int| 0 <= i < p.len() implies #[trigger] p[i] == ls[i] by {}
        let ip = choose|i: int| 0 <= i < p.len() && !is_blank(p[i]) && #[trigger] find_indent_spec(p[i]) == Some(ind);
        assert(ls[ip] == p[ip]);
        if is_blank(last) {
            assert forall|i: int| st + len <= i < ls.len() implies is_blank(#[trigger] ls[i]) by {
                if i < n - 1 {
                    assert(is_blank(p[i]));
                }
            }
            assert forall|i: int| 0 <= i < ls.len() && !is_blank(ls[i]) implies ind <= #[trigger] find_indent_spec(
                ls[i],
            ).unwrap() by {
                assert(i < n - 1);
                assert(ls[i] == p[i]);
            }
            assert(!is_blank(ls[(st + len - 1) as int])) by {
                assert(ls[(st + len - 1) as int] == p[(st + len - 1) as int]);
            }
            assert(!is_blank(ls[st as int])) by {
                assert(ls[st as int] == p[st as int]);
            }
            assert forall|i: int| 0 <= i < st implies is_blank(#[trigger] ls[i]) by {
                assert(ls[i] == p[i]);
            }
            tp
        } else {
            let w = find_indent_spec(last).unwrap();
            let m = if w < ind {
                w
            } else {
                ind
            };
            let t = (m, st, (n - st) as nat);
            assert(!is_blank(ls[st as int])) by {
                assert(ls[st as int] == p[st as int]);
            }
            assert forall|i: int| 0 <= i < st implies is_blank(#[trigger] ls[i]) by {
                assert(ls[i] == p[i]);
            }
            assert forall|i: int| 0 <= i < ls.len() && !is_blank(ls[i]) implies m <= #[trigger] find_indent_spec(
                ls[i],
            ).unwrap() by {
                if i < n - 1 {
                    assert(ls[i] == p[i]);
                }
            }
            if w < ind {
                assert(find_indent_spec(ls[n - 1]) == Some(m));
            } else {
                assert(find_indent_spec(ls[ip]) == Some(m));
            }
            t
        }
    }
}

/// Stripping removes the indentation that the lines share: unless all lines
/// are blank, some line of the result is not blank and starts with no
/// indentation at all.
pub proof fn law_strip_removes_common_indent(s: Seq<char>)
    ensures
        block_layout(lines(s)) is Some ==> exists|i: int|
            0 <= i < stripped_lines(s).len() && !is_blank(stripped_lines(s)[i]) && #[trigger] find_indent_spec(
                stripped_lines(s)[i],
            ) == Some(0nat),
        block_layout(lines(s)) is None ==> stripped_lines(s) == lines(s),
{
    let ls = lines(s);
    if !(forall|i: int| 0 <= i < ls.len() ==> is_blank(#[trigger] ls[i])) {
        let t0 = lemma_layout_exists(ls);
        let t = choose|t: (nat, nat, nat)| is_block_layout(ls, t.0, t.1, t.2);
        let (indent, st, len) = t;
        let i0 = choose|i: int| 0 <= i < ls.len() && !is_blank(ls[i]) && #[trigger] find_indent_spec(ls[i]) == Some(indent);
        lemma_indent_width_exists(ls[i0]);
        let w = choose|w: int| is_indent_width(ls[i0], w);
        assert(w == indent);
        assert(st <= i0 < st + len) by {
            if i0 < st {
                assert(is_blank(ls[i0]));
            }
            if i0 >= st + len {
                assert(is_blank(ls[i0]));
            }
        }
        let r = stripped_lines(s);
        let k = i0 - st;
        assert(r[k] == strip_line(ls[i0], indent));
        let line = ls[i0].skip(indent as int);
        assert(r[k] == line);
        assert(line[0] == ls[i0][indent as int]);
        assert(is_indent_width(line, 0));
        assert(!is_blank(line));
        lemma_indent_width_exists(line);
        let w2 = choose|w: int| is_indent_width(line, w);
        assert(w2 == 0) by {
            if w2 > 0 {
                assert(indent_char(line[0]));
            }
        }
        assert(find_indent_spec(r[k]) == Some(0nat));
    }
}

} // verus!
