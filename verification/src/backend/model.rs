//! The declarations of a specification as the back ends read them, and the
//! environment that holds them.

use vstd::prelude::*;
use crate::text::{strings_view, clone_strings};
use crate::ast::{RpModifier, OptionDecl, MatchDecl};

verus! {

/// A package: its dotted parts.
#[derive(Debug)]
pub struct Package {
    pub parts: Vec<String>,
}

impl View for Package {
    type V = Seq<Seq<char>>;

    open spec fn view(&self) -> Seq<Seq<char>> {
        strings_view(self.parts@)
    }
}

impl Package {
    pub fn new(parts: Vec<String>) -> (r: Package)
        ensures
            r@ == strings_view(parts@),
    {
        Package { parts }
    }

    /// This package followed by the parts of `other`.
    pub fn join(&self, other: &Package) -> (r: Package)
        ensures
            r@ == self@ + other@,
    {
        let mut parts = clone_strings(&self.parts);
        let mut i: usize = 0;
        while i < other.parts.len()
            invariant
                0 <= i <= other.parts.len(),
                strings_view(parts@) == self@ + other@.take(i as int),
            decreases other.parts.len() - i,
        {
            let ghost before = parts@;
            parts.push(other.parts[i].clone());
            assert(strings_view(parts@) =~= strings_view(before).push(other@[i as int]));
            assert(other@.take(i + 1) =~= other@.take(i as int).push(other@[i as int]));
            assert(self@ + other@.take(i + 1) =~= (self@ + other@.take(i as int)).push(other@[i as int]));
            i += 1;
        }
        assert(other@.take(other.parts.len() as int) =~= other@);
        Package { parts }
    }
}

/// A copy of a package.
pub fn clone_package(p: &Package) -> (r: Package)
    ensures
        r@ == p@,
{
    Package { parts: clone_strings(&p.parts) }
}

/// A type of a declaration.
#[derive(Debug)]
pub enum Type {
    Double,
    Float,
    I32,
    U32,
    I64,
    U64,
    Boolean,
    String,
    Bytes,
    Any,
    Array(Box<Type>),
    Mapping(Box<Type>, Box<Type>),
    /// A type of the same package, by name.
    Custom(String),
    /// A type of a package imported under an alias: the alias and the name.
    UsedType(String, String),
    Tuple(Vec<Type>),
}

/// The model of a type: names as character sequences.
pub enum TypeModel {
    Double,
    Float,
    I32,
    U32,
    I64,
    U64,
    Boolean,
    String,
    Bytes,
    Any,
    Array(Box<TypeModel>),
    Mapping(Box<TypeModel>, Box<TypeModel>),
    Custom(Seq<char>),
    UsedType(Seq<char>, Seq<char>),
    Tuple(Seq<TypeModel>),
}

pub open spec fn type_model(t: Type) -> TypeModel
    decreases t,
{
    match t {
        Type::Double => TypeModel::Double,
        Type::Float => TypeModel::Float,
        Type::I32 => TypeModel::I32,
        Type::U32 => TypeModel::U32,
        Type::I64 => TypeModel::I64,
        Type::U64 => TypeModel::U64,
        Type::Boolean => TypeModel::Boolean,
        Type::String => TypeModel::String,
        Type::Bytes => TypeModel::Bytes,
        Type::Any => TypeModel::Any,
        Type::Array(inner) => TypeModel::Array(Box::new(type_model(*inner))),
        Type::Mapping(k, v) => TypeModel::Mapping(Box::new(type_model(*k)), Box::new(type_model(*v))),
        Type::Custom(name) => TypeModel::Custom(name@),
        Type::UsedType(alias, name) => TypeModel::UsedType(alias@, name@),
        Type::Tuple(items) => TypeModel::Tuple(
            Seq::new(
                items@.len(),
                |i: int|
                    if 0 <= i < items@.len() {
                        type_model(items@[i])
                    } else {
                        TypeModel::Any
                    },
            ),
        ),
    }
}

/// A field of a declaration.
#[derive(Debug)]
pub struct Field {
    pub modifier: RpModifier,
    pub name: String,
    pub ty: Type,
}

impl Field {
    /// Whether the field may be absent.
    pub fn is_optional(&self) -> (r: bool)
        ensures
            r == (self.modifier == RpModifier::Optional),
    {
        match self.modifier {
            RpModifier::Optional => true,
            RpModifier::Required => false,
        }
    }
}

/// A member of a declaration body.
#[derive(Debug)]
pub enum Member {
    Field(Field),
    /// Code for one back end: its context and its lines.
    Code(String, Vec<String>),
    Option(OptionDecl),
    Match(MatchDecl),
}

/// `type Name { .. }`: a named type, possibly a tuple.
#[derive(Debug)]
pub struct TypeDecl {
    pub name: String,
    pub value: Type,
}

/// A message: a named list of members.
#[derive(Debug)]
pub struct MessageDecl {
    pub name: String,
    pub members: Vec<Member>,
}

/// A sub-type of an interface.
#[derive(Debug)]
pub struct SubType {
    pub name: String,
    pub members: Vec<Member>,
}

/// An interface: its own members and its sub-types.
#[derive(Debug)]
pub struct InterfaceDecl {
    pub name: String,
    pub members: Vec<Member>,
    pub sub_types: Vec<SubType>,
}

/// A top-level declaration.
#[derive(Debug)]
pub enum Decl {
    Interface(InterfaceDecl),
    Message(MessageDecl),
    Type(TypeDecl),
}

/// The name of a declaration.
pub open spec fn decl_name(d: Decl) -> Seq<char> {
    match d {
        Decl::Interface(i) => i.name@,
        Decl::Message(m) => m.name@,
        Decl::Type(t) => t.name@,
    }
}

impl Decl {
    pub fn name(&self) -> (r: &String)
        ensures
            r@ == decl_name(*self),
    {
        match self {
            Decl::Interface(i) => &i.name,
            Decl::Message(m) => &m.name,
            Decl::Type(t) => &t.name,
        }
    }
}

/// A `use` in a file of `package`: the package it imports, under `alias`.
#[derive(Debug)]
pub struct UsedPackage {
    pub package: Package,
    pub alias: String,
    pub target: Package,
}

/// The declarations of all loaded files, each with its package, and the
/// `use` declarations of those files.
#[derive(Debug)]
pub struct Environment {
    pub types: Vec<(Package, Decl)>,
    pub uses: Vec<UsedPackage>,
}

/// The key of a declaration in an environment: its package and its name.
pub open spec fn decl_key(entry: (Package, Decl)) -> (Seq<Seq<char>>, Seq<char>) {
    (entry.0@, decl_name(entry.1))
}

impl Environment {
    /// Each package and name has at most one declaration.
    pub open spec fn wf(&self) -> bool {
        forall|i: int, j: int|
            0 <= i < j < self.types@.len() ==> decl_key(#[trigger] self.types@[i]) != decl_key(#[trigger] self.types@[j])
    }

    /// An environment without declarations or `use` declarations.
    pub fn new() -> (r: Environment)
        ensures
            r.wf(),
            r.types@.len() == 0,
            r.uses@.len() == 0,
    {
        Environment { types: Vec::new(), uses: Vec::new() }
    }

    /// Adds a declaration of a package: it replaces the one of the same
    /// package and name, if there is one, and is added last otherwise.
    pub fn insert_type(&mut self, package: Package, decl: Decl)
        requires
            old(self).wf(),
        ensures
            final(self).wf(),
            final(self).uses == old(self).uses,
            match find_key(old(self).types@, (package@, decl_name(decl))) {
                Some(k) => final(self).types@ == old(self).types@.update(k, (package, decl)),
                None => final(self).types@ == old(self).types@.push((package, decl)),
            },
    {
        let ghost key = (package@, decl_name(decl));
        let mut i: usize = 0;
        while i < self.types.len()
            invariant
                0 <= i <= self.types.len(),
                self.types@ == old(self).types@,
                self.uses == old(self).uses,
                old(self).wf(),
                key == (package@, decl_name(decl)),
                forall|j: int| 0 <= j < i ==> decl_key(#[trigger] self.types@[j]) != key,
            decreases self.types.len() - i,
        {
            let entry = &self.types[i];
            let same_package = package_eq(&entry.0, &package);
            let same_name = str_eq(entry.1.name(), decl.name());
            assert(decl_key(self.types@[i as int]) == (entry.0@, decl_name(entry.1)));
            if same_package && same_name {
                assert(decl_key(self.types@[i as int]) == key);
                proof {
                    lemma_find_key(old(self).types@, key, i as int);
                }
                self.types.set(i, (package, decl));
                assert forall|a: int| 0 <= a < self.types@.len() implies decl_key(#[trigger] self.types@[a]) == decl_key(old(self).types@[a]) by {}
                return;
            }
            i += 1;
        }
        proof {
            lemma_find_key_none(old(self).types@, key);
        }
        self.types.push((package, decl));
    }
}

/// The position of the declaration with the given key, if there is one.
pub open spec fn find_key(types: Seq<(Package, Decl)>, key: (Seq<Seq<char>>, Seq<char>)) -> Option<int> {
    if exists|k: int| 0 <= k < types.len() && decl_key(#[trigger] types[k]) == key {
        Some(choose|k: int| 0 <= k < types.len() && decl_key(#[trigger] types[k]) == key)
    } else {
        None
    }
}

proof fn lemma_find_key(types: Seq<(Package, Decl)>, key: (Seq<Seq<char>>, Seq<char>), i: int)
    requires
        0 <= i < types.len(),
        decl_key(types[i]) == key,
        forall|a: int, b: int| 0 <= a < b < types.len() ==> decl_key(#[trigger] types[a]) != decl_key(#[trigger] types[b]),
    ensures
        find_key(types, key) == Some(i),
{
    let k = choose|k: int| 0 <= k < types.len() && decl_key(#[trigger] types[k]) == key;
    if k < i {
        assert(decl_key(types[k]) != decl_key(types[i]));
    } else if k > i {
        assert(decl_key(types[i]) != decl_key(types[k]));
    }
}

proof fn lemma_find_key_none(types: Seq<(Package, Decl)>, key: (Seq<Seq<char>>, Seq<char>))
    requires
        forall|j: int| 0 <= j < types.len() ==> decl_key(#[trigger] types[j]) != key,
    ensures
        find_key(types, key) is None,
{
}

/// The package that `alias` names in the files of `package`: that of the
/// first matching `use`, if there is one.
pub open spec fn lookup_used_spec(uses: Seq<UsedPackage>, package: Seq<Seq<char>>, alias: Seq<char>) -> Option<Seq<Seq<char>>>
    decreases uses.len(),
{
    if uses.len() == 0 {
        None
    } else {
        match lookup_used_spec(uses.drop_last(), package, alias) {
            Some(p) => Some(p),
            None => {
                let u = uses.last();
                if u.package@ == package && u.alias@ == alias {
                    Some(u.target@)
                } else {
                    None
                }
            },
        }
    }
}

/// Once a prefix of the uses names the alias, more uses change nothing.
proof fn lemma_lookup_prefix(uses: Seq<UsedPackage>, k: int, package: Seq<Seq<char>>, alias: Seq<char>)
    requires
        0 <= k <= uses.len(),
        lookup_used_spec(uses.take(k), package, alias) is Some,
    ensures
        lookup_used_spec(uses, package, alias) == lookup_used_spec(uses.take(k), package, alias),
    decreases uses.len() - k,
{
    if k == uses.len() {
        assert(uses.take(k) =~= uses);
    } else {
        let t = uses.take(k + 1);
        assert(t.drop_last() =~= uses.take(k));
        lemma_lookup_prefix(uses, k + 1, package, alias);
    }
}

/// Strings equal as character sequences.
fn str_eq(a: &String, b: &String) -> (r: bool)
    ensures
        r == (a@ == b@),
{
    *a == *b
}

/// Packages equal part by part.
fn package_eq(a: &Package, b: &Package) -> (r: bool)
    ensures
        r == (a@ == b@),
{
    if a.parts.len() != b.parts.len() {
        assert(a@.len() != b@.len());
        return false;
    }
    let mut i: usize = 0;
    while i < a.parts.len()
        invariant
            0 <= i <= a.parts.len(),
            a.parts.len() == b.parts.len(),
            forall|j: int| 0 <= j < i ==> #[trigger] a@[j] == b@[j],
        decreases a.parts.len() - i,
    {
        if !str_eq(&a.parts[i], &b.parts[i]) {
            assert(a@[i as int] != b@[i as int]);
            return false;
        }
        i += 1;
    }
    assert(a@ =~= b@);
    true
}

impl Environment {
    /// The package imported under `alias` into the files of `package`.
    pub fn lookup_used(&self, package: &Package, alias: &String) -> (r: Option<&Package>)
        ensures
            match r {
                Some(p) => lookup_used_spec(self.uses@, package@, alias@) == Some(p@),
                None => lookup_used_spec(self.uses@, package@, alias@) is None,
            },
    {
        let mut i: usize = 0;
        while i < self.uses.len()
            invariant
                0 <= i <= self.uses.len(),
                lookup_used_spec(self.uses@.take(i as int), package@, alias@) is None,
            decreases self.uses.len() - i,
        {
            let u = &self.uses[i];
            assert(self.uses@.take(i + 1).drop_last() =~= self.uses@.take(i as int));
            if package_eq(&u.package, package) && str_eq(&u.alias, alias) {
                proof {
                    lemma_lookup_prefix(self.uses@, i + 1, package@, alias@);
                }
                return Some(&u.target);
            }
            i += 1;
        }
        assert(self.uses@.take(self.uses.len() as int) =~= self.uses@);
        None
    }
}

} // verus!
