//! Java modifiers and the sets of them that declarations carry.

use vstd::prelude::*;
use crate::text::{join, strings_view, join_strings};

verus! {

/// A Java modifier keyword.
#[derive(Debug, PartialEq, Eq, Structural, PartialOrd, Ord, Clone, Copy, Hash)]
pub enum Modifier {
    Public,
    Protected,
    Private,
    Static,
    Final,
}

/// The keyword of a modifier.
pub open spec fn modifier_name(m: Modifier) -> Seq<char> {
    match m {
        Modifier::Public => "public"@,
        Modifier::Protected => "protected"@,
        Modifier::Private => "private"@,
        Modifier::Static => "static"@,
        Modifier::Final => "final"@,
    }
}

/// The keyword of `m` if `s` holds it, as a list of zero or one words.
pub open spec fn pick(s: Set<Modifier>, m: Modifier) -> Seq<Seq<char>> {
    if s.contains(m) {
        seq![modifier_name(m)]
    } else {
        Seq::empty()
    }
}

/// The keywords of a set of modifiers, in declaration order of `Modifier`
/// (public, protected, private, static, final).
pub open spec fn modifier_words(s: Set<Modifier>) -> Seq<Seq<char>> {
    pick(s, Modifier::Public) + pick(s, Modifier::Protected) + pick(s, Modifier::Private) + pick(
        s,
        Modifier::Static,
    ) + pick(s, Modifier::Final)
}

/// The formatted text of a set of modifiers: the keywords separated by single spaces.
pub open spec fn modifiers_text(s: Set<Modifier>) -> Seq<char> {
    join(modifier_words(s), " "@)
}

/// A set of modifiers. Each of the five modifiers is either present or not.
#[derive(Debug, PartialEq, Eq, Structural, Clone, Copy)]
pub struct Modifiers {
    public: bool,
    protected: bool,
    private: bool,
    is_static: bool,
    is_final: bool,
}

impl Modifiers {
    /// Whether `m` is in the set.
    pub closed spec fn has(self, m: Modifier) -> bool {
        match m {
            Modifier::Public => self.public,
            Modifier::Protected => self.protected,
            Modifier::Private => self.private,
            Modifier::Static => self.is_static,
            Modifier::Final => self.is_final,
        }
    }
}

impl View for Modifiers {
    type V = Set<Modifier>;

    closed spec fn view(&self) -> Set<Modifier> {
        Set::new(|m: Modifier| self.has(m))
    }
}

impl Modifiers {
    /// The empty set of modifiers.
    pub fn new() -> (r: Modifiers)
        ensures
            r@ == Set::<Modifier>::empty(),
    {
        let r = Modifiers {
            public: false,
            protected: false,
            private: false,
            is_static: false,
            is_final: false,
        };
        assert(r@ =~= Set::<Modifier>::empty());
        r
    }

    /// Adds a modifier to the set.
    pub fn insert(&mut self, modifier: Modifier)
        ensures
            final(self)@ == old(self)@.insert(modifier),
    {
        match modifier {
            Modifier::Public => self.public = true,
            Modifier::Protected => self.protected = true,
            Modifier::Private => self.private = true,
            Modifier::Static => self.is_static = true,
            Modifier::Final => self.is_final = true,
        }
        assert(self@ =~= old(self)@.insert(modifier));
    }

    /// The keywords of the set separated by single spaces, in the order
    /// public, protected, private, static, final.
    pub fn format(&self) -> (r: String)
        ensures
            r@ == modifiers_text(self@),
    {
        let mut out: Vec<String> = Vec::new();
        if self.public {
            out.push("public".to_owned());
        }
        let ghost a = strings_view(out@);
        if self.protected {
            out.push("protected".to_owned());
        }
        let ghost b = strings_view(out@);
        if self.private {
            out.push("private".to_owned());
        }
        let ghost c = strings_view(out@);
        if self.is_static {
            out.push("static".to_owned());
        }
        let ghost d = strings_view(out@);
        if self.is_final {
            out.push("final".to_owned());
        }
        proof {
            let s = self@;
            assert(a =~= pick(s, Modifier::Public));
            assert(b =~= pick(s, Modifier::Public) + pick(s, Modifier::Protected));
            assert(c =~= pick(s, Modifier::Public) + pick(s, Modifier::Protected) + pick(
                s,
                Modifier::Private,
            ));
            assert(d =~= pick(s, Modifier::Public) + pick(s, Modifier::Protected) + pick(
                s,
                Modifier::Private,
            ) + pick(s, Modifier::Static));
            assert(strings_view(out@) =~= modifier_words(s));
        }
        join_strings(&out, " ")
    }

    /// Whether the set is empty.
    pub fn is_empty(&self) -> (r: bool)
        ensures
            r == (self@ == Set::<Modifier>::empty()),
    {
        let r = !(self.public || self.protected || self.private || self.is_static || self.is_final);
        if !r {
            let ghost m = if self.public {
                Modifier::Public
            } else if self.protected {
                Modifier::Protected
            } else if self.private {
                Modifier::Private
            } else if self.is_static {
                Modifier::Static
            } else {
                Modifier::Final
            };
            assert(self@.contains(m));
        } else {
            assert(self@ =~= Set::<Modifier>::empty());
        }
        r
    }
}

/// The set of the listed modifiers.
pub fn mods(modifiers: &[Modifier]) -> (r: Modifiers)
    ensures
        r@ == modifiers@.to_set(),
{
    let mut r = Modifiers::new();
    let mut i: usize = 0;
    while i < modifiers.len()
        invariant
            0 <= i <= modifiers.len(),
            r@ == modifiers@.take(i as int).to_set(),
        decreases modifiers.len() - i,
    {
        r.insert(modifiers[i]);
        assert(modifiers@.take(i + 1) =~= modifiers@.take(i as int).push(modifiers@[i as int]));
        proof {
            let a = modifiers@.take(i as int);
            let b = modifiers@.take(i + 1);
            assert forall|m: Modifier| b.contains(m) <==> a.contains(m) || m == modifiers@[i as int] by {
                if b.contains(m) {
                    let k = choose|k: int| 0 <= k < b.len() && b[k] == m;
                    if k < i {
                        assert(a[k] == m);
                    }
                }
                if a.contains(m) {
                    let k = choose|k: int| 0 <= k < a.len() && a[k] == m;
                    assert(b[k] == m);
                }
                if m == modifiers@[i as int] {
                    assert(b[i as int] == m);
                }
            }
            assert(b.to_set() =~= a.to_set().insert(modifiers@[i as int]));
        }
        i += 1;
    }
    assert(modifiers@.take(modifiers.len() as int) =~= modifiers@);
    r
}

} // verus!
