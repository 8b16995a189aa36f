//! The lexical layer of the grammar: whitespace and comments between
//! tokens, identifiers, literals and numbers.

use vstd::prelude::*;

verus! {

/// The characters of a string.
pub fn chars_of(input: &str) -> (r: Vec<char>)
    ensures
        r@ == input@,
{
    let n = input.unicode_len();
    let mut r: Vec<char> = Vec::new();
    let mut i: usize = 0;
    while i < n
        invariant
            0 <= i <= n,
            n == input@.len(),
            r@ == input@.take(i as int),
        decreases n - i,
    {
        r.push(input.get_char(i));
        assert(input@.take(i + 1) =~= input@.take(i as int).push(input@[i as int]));
        i += 1;
    }
    assert(input@.take(n as int) =~= input@);
    r
}

/// Whether `lit` occurs in `s` at `pos`.
pub open spec fn has_at(s: Seq<char>, pos: int, lit: Seq<char>) -> bool {
    0 <= pos && pos + lit.len() <= s.len() && s.subrange(pos, pos + lit.len()) == lit
}

/// Whether the literal occurs at `pos`.
pub fn lit_at(s: &Vec<char>, pos: usize, lit: &str) -> (r: bool)
    requires
        pos <= s@.len(),
    ensures
        r == has_at(s@, pos as int, lit@),
{
    let n = lit.unicode_len();
    if n > s.len() - pos {
        return false;
    }
    let mut i: usize = 0;
    while i < n
        invariant
            0 <= i <= n,
            n == lit@.len(),
            pos + n <= s.len(),
            s.len() == s@.len(),
            forall|j: int| 0 <= j < i ==> s@[pos + j] == #[trigger] lit@[j],
        decreases n - i,
    {
        if s[pos + i] != lit.get_char(i) {
            assert(s@.subrange(pos as int, pos + n)[i as int] != lit@[i as int]);
            return false;
        }
        i += 1;
    }
    assert(s@.subrange(pos as int, pos + n) =~= lit@);
    true
}

/// Whitespace between tokens: space, tab, carriage return, line feed.
pub open spec fn is_whitespace(c: char) -> bool {
    c == ' ' || c == '\t' || c == '\r' || c == '\n'
}

/// The end of the rest of a line from `p`: the first carriage return or
/// line feed at or after `p`, or the end of the input.
pub open spec fn line_end(s: Seq<char>, p: int) -> int
    decreases s.len() - p,
{
    if p < 0 || p >= s.len() || s[p] == '\r' || s[p] == '\n' {
        p
    } else {
        line_end(s, p + 1)
    }
}

/// The end of a block comment's body from `p`: just after the first `*/`.
pub open spec fn block_close(s: Seq<char>, p: int) -> Option<int>
    decreases s.len() - p,
{
    if p < 0 || p + 1 >= s.len() {
        None
    } else if s[p] == '*' && s[p + 1] == '/' {
        Some(p + 2)
    } else {
        block_close(s, p + 1)
    }
}

/// The end of a comment at `pos`, if one starts there: `//` to the end of
/// the line, with its line ending; or `/*` to the first `*/`.
pub open spec fn comment_end(s: Seq<char>, pos: int) -> Option<int> {
    if has_at(s, pos, "//"@) {
        let q = line_end(s, pos + 2);
        if q >= s.len() {
            Some(q)
        } else if s[q] == '\n' {
            Some(q + 1)
        } else if q + 1 < s.len() && s[q + 1] == '\n' {
            Some(q + 2)
        } else {
            Some(q + 1)
        }
    } else if has_at(s, pos, "/*"@) {
        block_close(s, pos + 2)
    } else {
        None
    }
}

pub proof fn lemma_line_end(s: Seq<char>, p: int)
    requires
        0 <= p,
    ensures
        p <= line_end(s, p),
        line_end(s, p) <= s.len() || line_end(s, p) == p,
    decreases s.len() - p,
{
    if p < s.len() && s[p] != '\r' && s[p] != '\n' {
        lemma_line_end(s, p + 1);
    }
}

pub proof fn lemma_block_close(s: Seq<char>, p: int)
    requires
        0 <= p,
    ensures
        block_close(s, p) matches Some(e) ==> p + 2 <= e <= s.len(),
    decreases s.len() - p,
{
    if p + 1 < s.len() && !(s[p] == '*' && s[p + 1] == '/') {
        lemma_block_close(s, p + 1);
    }
}

/// A comment ends after it starts, within the input.
pub proof fn lemma_comment_end(s: Seq<char>, pos: int)
    requires
        0 <= pos <= s.len(),
    ensures
        comment_end(s, pos) matches Some(e) ==> pos < e <= s.len(),
{
    reveal_strlit("//");
    reveal_strlit("/*");
    lemma_line_end(s, pos + 2);
    lemma_block_close(s, pos + 2);
}

/// The end of the whitespace and comments at `pos`: what the grammar skips
/// between the tokens of a rule.
pub open spec fn skip_end(s: Seq<char>, pos: int) -> int
    decreases s.len() - pos,
{
    if pos < 0 || pos >= s.len() {
        pos
    } else if is_whitespace(s[pos]) {
        skip_end(s, pos + 1)
    } else {
        match comment_end(s, pos) {
            Some(e) => if pos < e <= s.len() {
                skip_end(s, e)
            } else {
                pos
            },
            None => pos,
        }
    }
}

pub proof fn lemma_skip_end(s: Seq<char>, pos: int)
    requires
        0 <= pos <= s.len(),
    ensures
        pos <= skip_end(s, pos) <= s.len(),
    decreases s.len() - pos,
{
    if pos < s.len() {
        if is_whitespace(s[pos]) {
            lemma_skip_end(s, pos + 1);
        } else {
            lemma_comment_end(s, pos);
            if let Some(e) = comment_end(s, pos) {
                lemma_skip_end(s, e);
            }
        }
    }
}

/// The end of a comment at `pos`, if one starts there.
pub fn comment(s: &Vec<char>, pos: usize) -> (r: Option<usize>)
    requires
        pos <= s@.len(),
    ensures
        match r {
            Some(e) => comment_end(s@, pos as int) == Some(e as int),
            None => comment_end(s@, pos as int) is None,
        },
{
    proof {
        lemma_comment_end(s@, pos as int);
        reveal_strlit("//");
        reveal_strlit("/*");
    }
    let n = s.len();
    if lit_at(s, pos, "//") {
        let mut q = pos + 2;
        while q < s.len() && s[q] != '\r' && s[q] != '\n'
            invariant
                pos + 2 <= q <= s@.len(),
                line_end(s@, pos + 2) == line_end(s@, q as int),
            decreases s.len() - q,
        {
            q += 1;
        }
        if q >= s.len() {
            Some(q)
        } else if s[q] == '\n' {
            Some(q + 1)
        } else if q + 1 < s.len() && s[q + 1] == '\n' {
            Some(q + 2)
        } else {
            Some(q + 1)
        }
    } else if lit_at(s, pos, "/*") {
        let mut p = pos + 2;
        while p < n && p + 1 < n && !(s[p] == '*' && s[p + 1] == '/')
            invariant
                n == s@.len(),
                pos + 2 <= p <= s@.len(),
                block_close(s@, pos + 2) == block_close(s@, p as int),
            decreases s.len() - p,
        {
            p += 1;
        }
        if p < n && p + 1 < n {
            Some(p + 2)
        } else {
            None
        }
    } else {
        None
    }
}

/// The end of the whitespace and comments at `pos`.
pub fn skip(s: &Vec<char>, pos: usize) -> (r: usize)
    requires
        pos <= s@.len(),
    ensures
        r == skip_end(s@, pos as int),
        pos <= r <= s@.len(),
{
    let mut p = pos;
    proof {
        lemma_skip_end(s@, pos as int);
    }
    loop
        invariant
            pos <= p <= s@.len(),
            skip_end(s@, pos as int) == skip_end(s@, p as int),
        decreases s.len() - p,
    {
        if p >= s.len() {
            return p;
        }
        if s[p] == ' ' || s[p] == '\t' || s[p] == '\r' || s[p] == '\n' {
            p += 1;
        } else {
            proof {
                lemma_comment_end(s@, p as int);
            }
            match comment(s, p) {
                Some(e) => {
                    p = e;
                },
                None => {
                    return p;
                },
            }
        }
    }
}

/// A character that may follow the first letter of an identifier.
pub open spec fn is_ident_char(c: char) -> bool {
    ('0' <= c && c <= '9') || ('a' <= c && c <= 'z') || c == '_'
}

/// A character that may follow the first letter of a type identifier.
pub open spec fn is_type_ident_char(c: char) -> bool {
    ('A' <= c && c <= 'Z') || ('a' <= c && c <= 'z') || ('0' <= c && c <= '9')
}

/// The end of the run of identifier characters from `p`.
pub open spec fn ident_tail(s: Seq<char>, p: int) -> int
    decreases s.len() - p,
{
    if p < 0 || p >= s.len() || !is_ident_char(s[p]) {
        p
    } else {
        ident_tail(s, p + 1)
    }
}

/// The end of the run of type identifier characters from `p`.
pub open spec fn type_ident_tail(s: Seq<char>, p: int) -> int
    decreases s.len() - p,
{
    if p < 0 || p >= s.len() || !is_type_ident_char(s[p]) {
        p
    } else {
        type_ident_tail(s, p + 1)
    }
}

/// The end of an identifier at `pos`: a lower-case letter followed by
/// lower-case letters, digits and underscores.
pub open spec fn identifier_end(s: Seq<char>, pos: int) -> Option<int> {
    if 0 <= pos < s.len() && 'a' <= s[pos] && s[pos] <= 'z' {
        Some(ident_tail(s, pos + 1))
    } else {
        None
    }
}

/// The end of a type identifier at `pos`: an upper-case letter followed by
/// letters and digits.
pub open spec fn type_identifier_end(s: Seq<char>, pos: int) -> Option<int> {
    if 0 <= pos < s.len() && 'A' <= s[pos] && s[pos] <= 'Z' {
        Some(type_ident_tail(s, pos + 1))
    } else {
        None
    }
}

pub proof fn lemma_ident_tail(s: Seq<char>, p: int)
    requires
        0 <= p <= s.len(),
    ensures
        p <= ident_tail(s, p) <= s.len(),
        p <= type_ident_tail(s, p) <= s.len(),
    decreases s.len() - p,
{
    if p < s.len() {
        lemma_ident_tail(s, p + 1);
    }
}

/// The end of an identifier at `pos`, if one starts there.
pub fn identifier(s: &Vec<char>, pos: usize) -> (r: Option<usize>)
    requires
        pos <= s@.len(),
    ensures
        match r {
            Some(e) => identifier_end(s@, pos as int) == Some(e as int) && pos < e <= s@.len(),
            None => identifier_end(s@, pos as int) is None,
        },
{
    if pos < s.len() && 'a' <= s[pos] && s[pos] <= 'z' {
        let mut p = pos + 1;
        while p < s.len() && (('0' <= s[p] && s[p] <= '9') || ('a' <= s[p] && s[p] <= 'z') || s[p] == '_')
            invariant
                pos + 1 <= p <= s@.len(),
                ident_tail(s@, pos + 1) == ident_tail(s@, p as int),
            decreases s.len() - p,
        {
            p += 1;
        }
        Some(p)
    } else {
        None
    }
}

/// The end of a type identifier at `pos`, if one starts there.
pub fn type_identifier(s: &Vec<char>, pos: usize) -> (r: Option<usize>)
    requires
        pos <= s@.len(),
    ensures
        match r {
            Some(e) => type_identifier_end(s@, pos as int) == Some(e as int) && pos < e <= s@.len(),
            None => type_identifier_end(s@, pos as int) is None,
        },
{
    if pos < s.len() && 'A' <= s[pos] && s[pos] <= 'Z' {
        let mut p = pos + 1;
        while p < s.len() && (('A' <= s[p] && s[p] <= 'Z') || ('a' <= s[p] && s[p] <= 'z') || ('0' <= s[p] && s[p] <= '9'))
            invariant
                pos + 1 <= p <= s@.len(),
                type_ident_tail(s@, pos + 1) == type_ident_tail(s@, p as int),
            decreases s.len() - p,
        {
            p += 1;
        }
        Some(p)
    } else {
        None
    }
}

/// The text between two positions.
pub fn slice(s: &Vec<char>, start: usize, end: usize) -> (r: String)
    requires
        start <= end <= s@.len(),
    ensures
        r@ == s@.subrange(start as int, end as int),
{
    let mut r = String::new();
    let mut i = start;
    while i < end
        invariant
            start <= i <= end,
            end <= s@.len(),
            r@ == s@.subrange(start as int, i as int),
        decreases end - i,
    {
        crate::text::push_char(&mut r, s[i]);
        assert(s@.subrange(start as int, i + 1) =~= s@.subrange(start as int, i as int).push(s@[i as int]));
        i += 1;
    }
    r
}

} // verus!
