//! The documentation back end's choice of stylesheet.

use vstd::prelude::*;
use crate::text::concat_str;

verus! {

/// A theme of the documentation: its name and its stylesheet.
pub struct Theme {
    pub name: String,
    pub stylesheet: Vec<u8>,
}

/// Why the documentation could not be written.
#[derive(Debug)]
pub enum DocError {
    /// No theme has the configured name.
    NoSuchTheme(String),
}

impl DocError {
    /// The message of the error: `no such theme: ` and the name.
    pub fn message(&self) -> (r: String)
        ensures
            match self {
                DocError::NoSuchTheme(name) => r@ == "no such theme: "@ + name@,
            },
    {
        match self {
            DocError::NoSuchTheme(name) => concat_str("no such theme: ", name.as_str()),
        }
    }
}

/// Whether `k` is the position of the first theme named `name`.
pub open spec fn is_first_theme(themes: Seq<Theme>, name: Seq<char>, k: int) -> bool {
    &&& 0 <= k < themes.len()
    &&& themes[k].name@ == name
    &&& forall|j: int| 0 <= j < k ==> (#[trigger] themes[j]).name@ != name
}

/// The stylesheet of the theme named `theme`, or the error that no theme
/// has that name.
pub fn stylesheet_of<'a>(themes: &'a Vec<Theme>, theme: &str) -> (r: Result<&'a Vec<u8>, DocError>)
    ensures
        match r {
            Ok(stylesheet) => exists|k: int| is_first_theme(themes@, theme@, k) && stylesheet@ == themes@[k].stylesheet@,
            Err(DocError::NoSuchTheme(name)) => name@ == theme@ && forall|k: int|
                0 <= k < themes@.len() ==> (#[trigger] themes@[k]).name@ != theme@,
        },
{
    let wanted = theme.to_owned();
    let mut i: usize = 0;
    while i < themes.len()
        invariant
            0 <= i <= themes.len(),
            wanted@ == theme@,
            forall|j: int| 0 <= j < i ==> (#[trigger] themes@[j]).name@ != theme@,
        decreases themes.len() - i,
    {
        if themes[i].name == wanted {
            assert(is_first_theme(themes@, theme@, i as int));
            return Ok(&themes[i].stylesheet);
        }
        i += 1;
    }
    Err(DocError::NoSuchTheme(wanted))
}

} // verus!
