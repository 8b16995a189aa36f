//! The module files of the Rust back end: for each directory of the package
//! tree, the `pub mod` declarations of its child modules.

use vstd::prelude::*;
use crate::text::{concat, strings_view, push_char};
use crate::order::{chars_lt, str_less, lemma_chars_lt_total, lemma_chars_lt_transitive};
use crate::java::laws::lemma_concat_push;

verus! {

/// Every string comes before every later one.
pub open spec fn strs_sorted(s: Seq<Seq<char>>) -> bool {
    forall|i: int, j: int| 0 <= i < j < s.len() ==> chars_lt(#[trigger] s[i], #[trigger] s[j])
}

/// A directory of the package tree (as the parts leading to it) and one of
/// its child modules.
pub type ModEdge = (Seq<Seq<char>>, Seq<char>);

/// The edges of one package: each of its parts, under the parts before it.
pub open spec fn package_edges(p: Seq<Seq<char>>, k: int) -> Set<ModEdge> {
    Set::new(|e: ModEdge| exists|j: int| 0 <= j < k && j < p.len() && e == (p.take(j), #[trigger] p[j]))
}

/// The edges of a package tree: for each package and each of its parts,
/// the directory of the parts before it and the part.
pub open spec fn mod_edges(packages: Seq<Seq<Seq<char>>>) -> Set<ModEdge> {
    Set::new(
        |e: ModEdge|
            exists|i: int| 0 <= i < packages.len() && #[trigger] package_edges(packages[i], packages[i].len() as int).contains(e),
    )
}

/// The directories that get a module file: the root (no parts) and every
/// directory with a child module.
pub open spec fn dirs_of(edges: Set<ModEdge>) -> Set<Seq<Seq<char>>> {
    Set::new(|d: Seq<Seq<char>>| d.len() == 0 || exists|c: Seq<char>| #[trigger] edges.contains((d, c)))
}

/// The child modules of a directory.
pub open spec fn children_of(edges: Set<ModEdge>, dir: Seq<Seq<char>>) -> Set<Seq<char>> {
    Set::new(|c: Seq<char>| edges.contains((dir, c)))
}

/// The text of a module file: one `pub mod` line per child.
pub open spec fn mod_file_text_spec(children: Seq<Seq<char>>) -> Seq<char> {
    concat(children.map_values(|c: Seq<char>| "pub mod "@ + c + ";"@ + seq!['\n']))
}

/// Whether a module file of directory `dir` lists `child`.
pub open spec fn declares(files: Seq<(Seq<Seq<char>>, Seq<Seq<char>>)>, dir: Seq<Seq<char>>, child: Seq<char>) -> bool {
    exists|k: int| 0 <= k < files.len() && (#[trigger] files[k]).0 == dir && files[k].1.contains(child)
}

/// Every module of the package tree is declared by its parent: for each
/// package and each of its parts, the module file of the directory of the
/// parts before it lists the part; and the root module file exists.
pub proof fn law_mod_files_declare_every_module(
    packages: Seq<Seq<Seq<char>>>,
    files: Seq<(Seq<Seq<char>>, Seq<Seq<char>>)>,
)
    requires
        files_describe(files, mod_edges(packages)),
    ensures
        forall|i: int, j: int|
            0 <= i < packages.len() && 0 <= j < packages[i].len() ==> declares(
                files,
                packages[i].take(j),
                #[trigger] packages[i][j],
            ),
        exists|k: int| 0 <= k < files.len() && (#[trigger] files[k]).0 == Seq::<Seq<char>>::empty(),
{
    let edges = mod_edges(packages);
    assert forall|i: int, j: int| 0 <= i < packages.len() && 0 <= j < packages[i].len() implies declares(
        files,
        packages[i].take(j),
        #[trigger] packages[i][j],
    ) by {
        let p = packages[i];
        let d = p.take(j);
        assert(package_edges(p, p.len() as int).contains((d, p[j])));
        assert(edges.contains((d, p[j])));
        assert(dirs_of(edges).contains(d));
        let k = choose|k: int| 0 <= k < files.len() && (#[trigger] files[k]).0 == d;
        assert(children_of(edges, d).contains(p[j]));
        assert(files[k].1.to_set().contains(p[j]));
        assert(files[k].1.contains(p[j]));
    }
    assert(dirs_of(edges).contains(Seq::<Seq<char>>::empty()));
}

/// A module file: the directory (as package parts from the output root)
/// and its child modules in sorted order.
pub struct ModFile {
    pub dir: Vec<String>,
    pub children: Vec<String>,
}

/// Whether two lists of strings are equal.
fn strings_eq(a: &Vec<String>, b: &Vec<String>) -> (r: bool)
    ensures
        r == (strings_view(a@) == strings_view(b@)),
{
    if a.len() != b.len() {
        assert(strings_view(a@).len() != strings_view(b@).len());
        return false;
    }
    let mut i: usize = 0;
    while i < a.len()
        invariant
            0 <= i <= a.len(),
            a.len() == b.len(),
            forall|j: int| 0 <= j < i ==> #[trigger] a@[j]@ == b@[j]@,
        decreases a.len() - i,
    {
        if !(a[i] == b[i]) {
            assert(strings_view(a@)[i as int] != strings_view(b@)[i as int]);
            return false;
        }
        i += 1;
    }
    assert(strings_view(a@) =~= strings_view(b@));
    true
}

/// Inserts a string into a strictly sorted list, unless it is there already.
fn insert_sorted(v: &mut Vec<String>, x: &String)
    requires
        strs_sorted(strings_view(old(v)@)),
    ensures
        strs_sorted(strings_view(final(v)@)),
        strings_view(final(v)@).to_set() == strings_view(old(v)@).to_set().insert(x@),
{
    let ghost s = strings_view(v@);
    let mut i: usize = 0;
    while i < v.len()
        invariant
            0 <= i <= v.len(),
            s == strings_view(v@),
            v@ == old(v)@,
            strs_sorted(s),
            forall|j: int| 0 <= j < i ==> chars_lt(#[trigger] s[j], x@),
        ensures
            0 <= i <= v.len(),
            s == strings_view(v@),
            v@ == old(v)@,
            forall|j: int| 0 <= j < i ==> chars_lt(#[trigger] s[j], x@),
            i < v.len() ==> !chars_lt(s[i as int], x@),
        decreases v.len() - i,
    {
        assert(s[i as int] == v@[i as int]@);
        if !str_less(v[i].as_str(), x.as_str()) {
            break;
        }
        i += 1;
    }
    if i < v.len() && v[i] == *x {
        assert(s[i as int] == x@);
        assert(strings_view(v@).to_set() =~= s.to_set().insert(x@));
        return ;
    }
    proof {
        if i < s.len() {
            assert(s[i as int] != x@);
            lemma_chars_lt_total(s[i as int], x@);
        }
    }
    v.insert(i, x.clone());
    let ghost t = strings_view(v@);
    assert(t =~= s.insert(i as int, x@));
    assert forall|a: int, b: int| 0 <= a < b < t.len() implies chars_lt(#[trigger] t[a], #[trigger] t[b]) by {
        if b < i {
        } else if a < i && b == i {
        } else if a < i && b > i {
            assert(chars_lt(s[a], s[b - 1]));
        } else if a == i {
            if b - 1 > i {
                lemma_chars_lt_transitive(x@, s[i as int], s[b - 1]);
            }
        } else {
            assert(chars_lt(s[a - 1], s[b - 1]));
        }
    }
    assert forall|y: Seq<char>| t.to_set().contains(y) <==> s.to_set().insert(x@).contains(y) by {
        if t.to_set().contains(y) {
            let p = choose|p: int| 0 <= p < t.len() && t[p] == y;
            if p < i {
                assert(s[p] == y);
            } else if p > i {
                assert(s[p - 1] == y);
            }
        }
        if s.to_set().contains(y) {
            let p = choose|p: int| 0 <= p < s.len() && s[p] == y;
            if p < i {
                assert(t[p] == y);
            } else {
                assert(t[p + 1] == y);
            }
        }
        if y == x@ {
            assert(t[i as int] == y);
        }
    }
    assert(t.to_set() =~= s.to_set().insert(x@));
}

/// The models of the module files.
pub open spec fn mod_files_view(files: Seq<ModFile>) -> Seq<(Seq<Seq<char>>, Seq<Seq<char>>)> {
    files.map_values(|f: ModFile| (strings_view(f.dir@), strings_view(f.children@)))
}

/// The module files describe the edges: one file per directory, with its
/// children in strictly increasing order.
pub open spec fn files_describe(fs: Seq<(Seq<Seq<char>>, Seq<Seq<char>>)>, edges: Set<ModEdge>) -> bool {
    &&& forall|i: int, j: int| 0 <= i < j < fs.len() ==> (#[trigger] fs[i]).0 != (#[trigger] fs[j]).0
    &&& forall|i: int| 0 <= i < fs.len() ==> dirs_of(edges).contains((#[trigger] fs[i]).0)
    &&& forall|d: Seq<Seq<char>>| #[trigger] dirs_of(edges).contains(d) ==> exists|i: int| 0 <= i < fs.len() && (#[trigger] fs[i]).0 == d
    &&& forall|i: int|
        0 <= i < fs.len() ==> strs_sorted((#[trigger] fs[i]).1) && fs[i].1.to_set() == children_of(edges, fs[i].0)
}

/// Adds one child module under a directory.
fn add_edge(files: &mut Vec<ModFile>, dir: &Vec<String>, child: &String, Ghost(edges): Ghost<Set<ModEdge>>)
    requires
        files_describe(mod_files_view(old(files)@), edges),
    ensures
        files_describe(mod_files_view(final(files)@), edges.insert((strings_view(dir@), child@))),
{
    let ghost e: ModEdge = (strings_view(dir@), child@);
    let ghost fs = mod_files_view(files@);
    let ghost ne = edges.insert(e);
    let mut j: usize = 0;
    while j < files.len()
        invariant
            0 <= j <= files.len(),
            files@ == old(files)@,
            fs == mod_files_view(files@),
            files_describe(fs, edges),
            e == (strings_view(dir@), child@),
            ne == edges.insert(e),
            forall|k: int| 0 <= k < j ==> (#[trigger] fs[k]).0 != e.0,
        decreases files.len() - j,
    {
        assert(fs[j as int].0 == strings_view(files@[j as int].dir@));
        if strings_eq(&files[j].dir, dir) {
            let mut entry = files.remove(j);
            assert(fs[j as int].1 == strings_view(entry.children@));
            assert(strs_sorted(fs[j as int].1));
            insert_sorted(&mut entry.children, child);
            files.insert(j, entry);
            let ghost gs = mod_files_view(files@);
            assert(gs =~= fs.update(j as int, (fs[j as int].0, strings_view(entry.children@))));
            assert(dirs_of(ne).contains(e.0)) by {
                assert((e.0, e.1) == e);
                assert(ne.contains((e.0, e.1)));
            }
            assert forall|d: Seq<Seq<char>>| #[trigger] dirs_of(ne).contains(d) implies exists|i: int| 0 <= i < gs.len() && (#[trigger] gs[i]).0 == d by {
                if d != e.0 && d.len() != 0 {
                    let c = choose|c: Seq<char>| #[trigger] ne.contains((d, c));
                    assert(edges.contains((d, c)));
                    assert(dirs_of(edges).contains(d));
                    let i = choose|i: int| 0 <= i < fs.len() && (#[trigger] fs[i]).0 == d;
                    assert(gs[i].0 == d);
                } else if d == e.0 {
                    assert(gs[j as int].0 == d);
                } else {
                    assert(dirs_of(edges).contains(d));
                    let i = choose|i: int| 0 <= i < fs.len() && (#[trigger] fs[i]).0 == d;
                    assert(gs[i].0 == d);
                }
            }
            assert forall|i: int| 0 <= i < gs.len() implies dirs_of(ne).contains((#[trigger] gs[i]).0) by {
                assert(dirs_of(edges).contains(fs[i].0));
                if fs[i].0.len() != 0 {
                    let c = choose|c: Seq<char>| #[trigger] edges.contains((fs[i].0, c));
                    assert(ne.contains((fs[i].0, c)));
                }
            }
            assert forall|i: int| 0 <= i < gs.len() implies strs_sorted((#[trigger] gs[i]).1) && gs[i].1.to_set() == children_of(ne, gs[i].0) by {
                if i == j {
                    assert(gs[i].1.to_set() =~= children_of(ne, gs[i].0));
                } else {
                    assert(gs[i] == fs[i]);
                    assert(fs[i].0 != e.0);
                    assert(gs[i].1.to_set() =~= children_of(ne, gs[i].0));
                }
            }
            assert forall|a: int, b: int| 0 <= a < b < gs.len() implies (#[trigger] gs[a]).0 != (#[trigger] gs[b]).0 by {
                assert(fs[a].0 != fs[b].0);
            }
            return ;
        }
        j += 1;
    }
    let mut children: Vec<String> = Vec::new();
    children.push(child.clone());
    let mut parts: Vec<String> = Vec::new();
    let mut k: usize = 0;
    while k < dir.len()
        invariant
            0 <= k <= dir.len(),
            parts@.len() == k,
            forall|m: int| 0 <= m < k ==> #[trigger] parts@[m]@ == dir@[m]@,
        decreases dir.len() - k,
    {
        parts.push(dir[k].clone());
        k += 1;
    }
    assert(strings_view(parts@) =~= strings_view(dir@));
    assert(strings_view(children@) =~= seq![e.1]);
    let ghost new_file = ModFile { dir: parts, children };
    files.push(ModFile { dir: parts, children });
    let ghost gs = mod_files_view(files@);
    assert(gs.len() == fs.len() + 1);
    assert(gs[fs.len() as int] == (e.0, seq![e.1]));
    assert(gs =~= fs.push((e.0, seq![e.1])));
    assert(strs_sorted(seq![e.1]));
    assert(dirs_of(ne).contains(e.0)) by {
        assert((e.0, e.1) == e);
        assert(ne.contains((e.0, e.1)));
    }
    assert forall|d: Seq<Seq<char>>| #[trigger] dirs_of(ne).contains(d) implies exists|i: int| 0 <= i < gs.len() && (#[trigger] gs[i]).0 == d by {
        if d == e.0 {
            assert(gs[fs.len() as int].0 == d);
        } else {
            if d.len() != 0 {
                let c = choose|c: Seq<char>| #[trigger] ne.contains((d, c));
                assert(edges.contains((d, c)));
            }
            assert(dirs_of(edges).contains(d));
            let i = choose|i: int| 0 <= i < fs.len() && (#[trigger] fs[i]).0 == d;
            assert(gs[i].0 == d);
        }
    }
    assert forall|i: int| 0 <= i < gs.len() implies dirs_of(ne).contains((#[trigger] gs[i]).0) by {
        if i < fs.len() {
            assert(gs[i] == fs[i]);
            assert(dirs_of(edges).contains(fs[i].0));
            if fs[i].0.len() != 0 {
                let c = choose|c: Seq<char>| #[trigger] edges.contains((fs[i].0, c));
                assert(ne.contains((fs[i].0, c)));
            }
        }
    }
    assert forall|i: int| 0 <= i < gs.len() implies strs_sorted((#[trigger] gs[i]).1) && gs[i].1.to_set() == children_of(ne, gs[i].0) by {
        if i == fs.len() {
            assert forall|c: Seq<char>| seq![e.1].to_set().contains(c) <==> children_of(ne, e.0).contains(c) by {
                if children_of(ne, e.0).contains(c) {
                    if c != e.1 {
                        assert(edges.contains((e.0, c)));
                        assert(dirs_of(edges).contains(e.0));
                        let m = choose|m: int| 0 <= m < fs.len() && (#[trigger] fs[m]).0 == e.0;
                        assert(fs[m].0 != e.0);
                    }
                    assert(seq![e.1][0] == c);
                }
            }
            assert(gs[i].1.to_set() =~= children_of(ne, gs[i].0));
        } else {
            assert(gs[i] == fs[i]);
            assert(fs[i].0 != e.0);
            assert(gs[i].1.to_set() =~= children_of(ne, gs[i].0));
        }
    }
    assert forall|a: int, b: int| 0 <= a < b < gs.len() implies (#[trigger] gs[a]).0 != (#[trigger] gs[b]).0 by {
        if b < fs.len() {
            assert(fs[a].0 != fs[b].0);
        } else {
            assert(gs[a] == fs[a]);
        }
    }
}

/// The module files of a package tree: one per directory (the output root
/// and every proper, non-empty prefix of a package), listing the child
/// modules of the directory in sorted order, each once.
pub fn mod_files(packages: &Vec<Vec<String>>) -> (r: Vec<ModFile>)
    ensures
        files_describe(
            mod_files_view(r@),
            mod_edges(packages@.map_values(|p: Vec<String>| strings_view(p@))),
        ),
{
    let ghost pkgs = packages@.map_values(|p: Vec<String>| strings_view(p@));
    let mut files: Vec<ModFile> = Vec::new();
    files.push(ModFile { dir: Vec::new(), children: Vec::new() });
    let ghost empty_edges = Set::<ModEdge>::empty();
    proof {
        let fs = mod_files_view(files@);
        assert(fs[0].0 =~= Seq::<Seq<char>>::empty());
        assert(fs[0].1 =~= Seq::<Seq<char>>::empty());
        assert(fs[0].1.to_set() =~= children_of(empty_edges, fs[0].0));
        assert forall|d: Seq<Seq<char>>| #[trigger] dirs_of(empty_edges).contains(d) implies exists|i: int| 0 <= i < fs.len() && (#[trigger] fs[i]).0 == d by {
            assert(d =~= fs[0].0);
        }
        assert(dirs_of(empty_edges).contains(fs[0].0));
    }
    let mut n: usize = 0;
    let ghost mut edges = empty_edges;
    assert(edges =~= mod_edges(pkgs.take(0)));
    while n < packages.len()
        invariant
            0 <= n <= packages.len(),
            pkgs == packages@.map_values(|p: Vec<String>| strings_view(p@)),
            edges == mod_edges(pkgs.take(n as int)),
            files_describe(mod_files_view(files@), edges),
        decreases packages.len() - n,
    {
        let p = &packages[n];
        let ghost pv = pkgs[n as int];
        assert(pv == strings_view(p@));
        let ghost base = edges;
        let mut prefix: Vec<String> = Vec::new();
        let mut k: usize = 0;
        assert(package_edges(pv, 0) =~= Set::<ModEdge>::empty());
        assert(edges =~= base.union(package_edges(pv, 0)));
        while k < p.len()
            invariant
                0 <= k <= p.len(),
                pv == strings_view(p@),
                strings_view(prefix@) == pv.take(k as int),
                edges == base.union(package_edges(pv, k as int)),
                files_describe(mod_files_view(files@), edges),
            decreases p.len() - k,
        {
            proof {
                assert(pv[k as int] == p@[k as int]@);
            }
            add_edge(&mut files, &prefix, &p[k], Ghost(edges));
            proof {
                let e: ModEdge = (pv.take(k as int), pv[k as int]);
                assert(package_edges(pv, k + 1) =~= package_edges(pv, k as int).insert(e)) by {
                    assert forall|x: ModEdge| package_edges(pv, k + 1).contains(x) implies package_edges(pv, k as int).insert(e).contains(x) by {
                        let j = choose|j: int| 0 <= j < k + 1 && j < pv.len() && x == (pv.take(j), #[trigger] pv[j]);
                    }
                    assert forall|x: ModEdge| package_edges(pv, k as int).insert(e).contains(x) implies package_edges(pv, k + 1).contains(x) by {
                        if x == e {
                            assert(x == (pv.take(k as int), pv[k as int]));
                        } else {
                            let j = choose|j: int| 0 <= j < k && j < pv.len() && x == (pv.take(j), #[trigger] pv[j]);
                        }
                    }
                }
                edges = edges.insert(e);
                assert(edges =~= base.union(package_edges(pv, k + 1)));
            }
            let ghost old_prefix = prefix@;
            let part = p[k].clone();
            prefix.push(part);
            assert(strings_view(prefix@) =~= strings_view(old_prefix).push(p@[k as int]@));
            assert(pv.take(k + 1) =~= pv.take(k as int).push(pv[k as int]));
            assert(strings_view(prefix@) =~= pv.take(k + 1));
            k += 1;
        }
        proof {
            assert(mod_edges(pkgs.take(n + 1)) =~= mod_edges(pkgs.take(n as int)).union(package_edges(pv, pv.len() as int))) by {
                let a = pkgs.take(n + 1);
                let b = pkgs.take(n as int);
                assert forall|x: ModEdge| mod_edges(a).contains(x) implies mod_edges(b).union(package_edges(pv, pv.len() as int)).contains(x) by {
                    let i = choose|i: int| 0 <= i < a.len() && #[trigger] package_edges(a[i], a[i].len() as int).contains(x);
                    if i < n {
                        assert(b[i] == a[i]);
                    }
                }
                assert forall|x: ModEdge| mod_edges(b).union(package_edges(pv, pv.len() as int)).contains(x) implies mod_edges(a).contains(x) by {
                    if mod_edges(b).contains(x) {
                        let i = choose|i: int| 0 <= i < b.len() && #[trigger] package_edges(b[i], b[i].len() as int).contains(x);
                        assert(a[i] == b[i]);
                    } else {
                        assert(a[n as int] == pv);
                    }
                }
            }
        }
        n += 1;
    }
    assert(pkgs.take(packages.len() as int) =~= pkgs);
    files
}

/// The text of a module file: a `pub mod` line for each child.
pub fn mod_file_text(children: &Vec<String>) -> (r: String)
    ensures
        r@ == mod_file_text_spec(strings_view(children@)),
{
    let mut out = String::new();
    let ghost cs = strings_view(children@);
    let mut i: usize = 0;
    proof {
        reveal_strlit("");
        assert(cs.take(0).map_values(|c: Seq<char>| "pub mod "@ + c + ";"@ + seq!['\n']) =~= Seq::<Seq<char>>::empty());
    }
    while i < children.len()
        invariant
            0 <= i <= children.len(),
            cs == strings_view(children@),
            out@ == concat(cs.take(i as int).map_values(|c: Seq<char>| "pub mod "@ + c + ";"@ + seq!['\n'])),
        decreases children.len() - i,
    {
        let ghost before = cs.take(i as int).map_values(|c: Seq<char>| "pub mod "@ + c + ";"@ + seq!['\n']);
        let ghost line = "pub mod "@ + cs[i as int] + ";"@ + seq!['\n'];
        out.append("pub mod ");
        out.append(children[i].as_str());
        out.append(";");
        push_char(&mut out, '\n');
        proof {
            assert(cs.take(i + 1).map_values(|c: Seq<char>| "pub mod "@ + c + ";"@ + seq!['\n']) =~= before.push(line));
            lemma_concat_push(before, line);
        }
        assert(out@ =~= concat(cs.take(i + 1).map_values(|c: Seq<char>| "pub mod "@ + c + ";"@ + seq!['\n'])));
        i += 1;
    }
    assert(cs.take(children.len() as int) =~= cs);
    out
}

} // verus!
