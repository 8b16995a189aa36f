//! Naming conventions: conversions of identifiers from one case style to
//! another.

use vstd::prelude::*;
use crate::text::push_char;

verus! {

/// A conversion of identifiers.
pub trait Naming {
    /// The converted form of a name.
    spec fn naming(&self, name: Seq<char>) -> Seq<char>;

    fn convert(&self, name: &str) -> (r: String)
        ensures
            r@ == self.naming(name@),
    ;
}

/// The upper-case form of an ASCII lower-case letter; other characters are
/// kept.
pub open spec fn ascii_upper(c: char) -> char {
    if 'a' <= c && c <= 'z' {
        ((c as u32) - 32) as char
    } else {
        c
    }
}

/// A lower camel case name in upper camel case: its first letter upper-cased.
pub open spec fn upper_camel(name: Seq<char>) -> Seq<char> {
    if name.len() == 0 {
        name
    } else {
        seq![ascii_upper(name[0])] + name.skip(1)
    }
}

/// Converts lower camel case to upper camel case.
#[derive(Debug, Clone, Copy)]
pub struct ToUpperCamel;

fn upper_char(c: char) -> (r: char)
    ensures
        r == ascii_upper(c),
{
    if 'a' <= c && c <= 'z' {
        let b: u8 = (c as u8) - 32;
        b as char
    } else {
        c
    }
}

impl Naming for ToUpperCamel {
    open spec fn naming(&self, name: Seq<char>) -> Seq<char> {
        upper_camel(name)
    }

    fn convert(&self, name: &str) -> (r: String) {
        let n = name.unicode_len();
        let mut out = String::new();
        let mut i: usize = 0;
        while i < n
            invariant
                0 <= i <= n,
                n == name@.len(),
                out@ == upper_camel(name@.take(i as int)),
            decreases n - i,
        {
            let c = name.get_char(i);
            if i == 0 {
                push_char(&mut out, upper_char(c));
            } else {
                push_char(&mut out, c);
            }
            assert(out@ =~= upper_camel(name@.take(i + 1)));
            i += 1;
        }
        assert(name@.take(n as int) =~= name@);
        out
    }
}

} // verus!
