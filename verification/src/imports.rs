//! Import-path expansion and the import-item translator: a grouped use tree
//! expands to a flat list of fully qualified paths; each path then emits a
//! per-symbol alias, preceded by a once-per-module import declaration.

use vstd::prelude::*;

use crate::ast::{Error, UseTree, Visibility};
use crate::mapper::{vis_prefix, vis_text};
use crate::strutil::str_eq;

verus! {

pub open spec fn strs_view(v: Seq<String>) -> Seq<Seq<char>> {
    v.map_values(|s: String| s@)
}

pub open spec fn paths_view(v: Seq<Vec<String>>) -> Seq<Seq<Seq<char>>> {
    v.map_values(|p: Vec<String>| strs_view(p@))
}

/// The fully qualified paths a use tree denotes, given the segments
/// accumulated so far; `None` when the tree holds an unsupported shape.
pub open spec fn use_paths(t: UseTree, prefix: Seq<Seq<char>>) -> Option<Seq<Seq<Seq<char>>>>
    decreases t,
{
    match t {
        UseTree::Step { segment, rest } => use_paths(*rest, prefix.push(segment@)),
        UseTree::Leaf { ident } => Some(seq![prefix.push(ident@)]),
        UseTree::Group { items } => group_paths(items@, prefix),
        UseTree::Unsupported => None,
    }
}

/// The concatenated expansions of a group's alternatives.
pub open spec fn group_paths(items: Seq<UseTree>, prefix: Seq<Seq<char>>) -> Option<
    Seq<Seq<Seq<char>>>,
>
    decreases items,
{
    if items.len() == 0 {
        Some(Seq::empty())
    } else {
        match (use_paths(items[0], prefix), group_paths(items.drop_first(), prefix)) {
            (Some(h), Some(r)) => Some(h + r),
            _ => None,
        }
    }
}

/// Clone a vector of strings, contents preserved.
pub fn clone_strings(v: &Vec<String>) -> (r: Vec<String>)
    ensures
        r@.len() == v@.len(),
        forall|j: int| 0 <= j < v@.len() ==> r@[j]@ == v@[j]@,
{
    let mut r: Vec<String> = Vec::new();
    let mut i: usize = 0;
    while i < v.len()
        invariant
            i <= v@.len(),
            r@.len() == i,
            forall|j: int| 0 <= j < i ==> r@[j]@ == v@[j]@,
        decreases v@.len() - i,
    {
        r.push(v[i].clone());
        i = i + 1;
    }
    r
}

#[verifier::loop_isolation(false)]
fn expand_rec(t: &UseTree, prefix: &Vec<String>, b: &mut Vec<Vec<String>>) -> (r: Result<
    (),
    Error,
>)
    ensures
        match use_paths(*t, strs_view(prefix@)) {
            Some(ps) => r is Ok && paths_view(final(b)@) == paths_view(old(b)@) + ps,
            None => r is Err && r->Err_0 is UnsupportedSyntax,
        },
    decreases *t,
{
    match t {
        UseTree::Step { segment, rest } => {
            let mut p2 = clone_strings(prefix);
            p2.push(segment.clone());
            proof {
                assert(strs_view(p2@) =~= strs_view(prefix@).push(segment@));
            }
            expand_rec(rest, &p2, b)
        },
        UseTree::Leaf { ident } => {
            let mut p2 = clone_strings(prefix);
            p2.push(ident.clone());
            proof {
                assert(strs_view(p2@) =~= strs_view(prefix@).push(ident@));
            }
            b.push(p2);
            proof {
                assert(paths_view(b@) =~= paths_view(old(b)@) + seq![
                    strs_view(prefix@).push(ident@),
                ]);
            }
            Ok(())
        },
        UseTree::Group { items } => {
            let ghost pre = strs_view(prefix@);
            let ghost b0 = b@;
            proof {
                assert(items@.skip(0) =~= items@);
            }
            let mut i: usize = 0;
            while i < items.len()
                invariant
                    i <= items@.len(),
                    strs_view(prefix@) == pre,
                    group_paths(items@.skip(i as int), pre) matches Some(rest) ==> group_paths(
                        items@,
                        pre,
                    ) matches Some(all) && paths_view(b@) + rest == paths_view(b0) + all,
                    group_paths(items@.skip(i as int), pre) is None ==> group_paths(
                        items@,
                        pre,
                    ) is None,
                decreases items@.len() - i,
            {
                proof {
                    assert(items@.skip(i as int)[0] == items@[i as int]);
                    assert(items@.skip(i as int).drop_first() =~= items@.skip(i as int + 1));
                }
                let res = expand_rec(&items[i], prefix, b);
                match res {
                    Ok(()) => {},
                    Err(e) => {
                        return Err(e);
                    },
                }
                i = i + 1;
            }
            proof {
                assert(items@.skip(items@.len() as int) =~= Seq::<UseTree>::empty());
                assert(group_paths(items@.skip(items@.len() as int), pre) == Some(
                    Seq::<Seq<Seq<char>>>::empty(),
                ));
                let all = group_paths(items@, pre)->Some_0;
                assert(paths_view(b@) + Seq::<Seq<Seq<char>>>::empty() =~= paths_view(b@));
                assert(paths_view(b0) + all =~= paths_view(b@));
                assert(paths_view(b@) =~= paths_view(old(b)@) + all);
            }
            Ok(())
        },
        UseTree::Unsupported => Err(Error::UnsupportedSyntax),
    }
}

/// Expand a use tree into the flat list of paths it imports; fails exactly
/// on unsupported import syntax.
pub fn expand_use_tree(t: &UseTree) -> (r: Result<Vec<Vec<String>>, Error>)
    ensures
        match use_paths(*t, Seq::empty()) {
            Some(ps) => r is Ok && paths_view(r->Ok_0@) == ps,
            None => r is Err && r->Err_0 is UnsupportedSyntax,
        },
{
    let prefix: Vec<String> = Vec::new();
    let mut b: Vec<Vec<String>> = Vec::new();
    proof {
        assert(strs_view(prefix@) =~= Seq::<Seq<char>>::empty());
    }
    match expand_rec(t, &prefix, &mut b) {
        Ok(()) => {
            proof {
                let ps = use_paths(*t, Seq::empty())->Some_0;
                assert(paths_view(b@) =~= Seq::<Seq<Seq<char>>>::empty() + ps);
                assert(Seq::<Seq<Seq<char>>>::empty() + ps =~= ps);
            }
            Ok(b)
        },
        Err(e) => Err(e),
    }
}

/// The declaration importing a whole module, emitted once per module.
pub open spec fn module_import_line(m: Seq<char>) -> Seq<char> {
    "const "@ + m + " = @import(\""@ + m + ".zig\");"@
}

/// A path joined with `.` separators.
pub open spec fn join_dot(parts: Seq<Seq<char>>) -> Seq<char>
    decreases parts.len(),
{
    if parts.len() == 0 {
        Seq::empty()
    } else if parts.len() == 1 {
        parts[0]
    } else {
        join_dot(parts.drop_last()) + "."@ + parts.last()
    }
}

/// The alias declaration binding an imported leaf name to its
/// module-qualified reference.
pub open spec fn symbol_alias_line(vis: Visibility, path: Seq<Seq<char>>) -> Seq<char>
    recommends
        path.len() > 0,
{
    vis_text(vis) + "const "@ + path.last() + " = "@ + join_dot(path) + ";"@
}

/// The lines an import item emits for its expanded paths, and the module
/// set afterwards. A path whose first segment is the scalar-namespace
/// sentinel `ctypes` is skipped entirely; otherwise a module-import block
/// (a blank line and the module declaration) comes first for a module not
/// seen before, then the per-symbol alias.
pub open spec fn use_lines(paths: Seq<Seq<Seq<char>>>, vis: Visibility, mods: Seq<Seq<char>>) -> (
    Seq<Seq<char>>,
    Seq<Seq<char>>,
)
    decreases paths.len(),
{
    if paths.len() == 0 {
        (Seq::empty(), mods)
    } else {
        let p = paths[0];
        if p[0] == "ctypes"@ {
            use_lines(paths.drop_first(), vis, mods)
        } else {
            let head: Seq<Seq<char>> = if mods.contains(p[0]) {
                Seq::empty()
            } else {
                seq![Seq::<char>::empty(), module_import_line(p[0])]
            };
            let mods1 = if mods.contains(p[0]) {
                mods
            } else {
                mods.push(p[0])
            };
            let rest = use_lines(paths.drop_first(), vis, mods1);
            (head + seq![symbol_alias_line(vis, p)] + rest.0, rest.1)
        }
    }
}

/// Build the module-import declaration for one module name.
pub fn render_module_import(m: &str) -> (r: String)
    ensures
        r@ == module_import_line(m@),
{
    let mut s = "const ".to_owned();
    s.append(m);
    s.append(" = @import(\"");
    s.append(m);
    s.append(".zig\");");
    proof {
        assert(s@ =~= module_import_line(m@));
    }
    s
}

/// Join a path's segments with `.` separators.
#[verifier::loop_isolation(false)]
pub fn render_join_dot(parts: &Vec<String>) -> (r: String)
    ensures
        r@ == join_dot(strs_view(parts@)),
{
    let mut s = String::new();
    let mut i: usize = 0;
    proof {
        assert(strs_view(parts@).take(0) =~= Seq::<Seq<char>>::empty());
    }
    while i < parts.len()
        invariant
            i <= parts@.len(),
            s@ == join_dot(strs_view(parts@).take(i as int)),
        decreases parts@.len() - i,
    {
        proof {
            let sv = strs_view(parts@);
            assert(sv.take(i as int + 1).drop_last() =~= sv.take(i as int));
            assert(sv.take(i as int + 1).last() == parts@[i as int]@);
        }
        if i > 0 {
            s.append(".");
        } else {
            proof {
                assert(s@ + parts@[i as int]@ =~= parts@[i as int]@);
            }
        }
        s.append(parts[i].as_str());
        i = i + 1;
    }
    proof {
        assert(strs_view(parts@).take(parts@.len() as int) =~= strs_view(parts@));
    }
    s
}

/// Build the per-symbol alias declaration for one expanded path.
pub fn render_symbol_alias(vis: &Visibility, path: &Vec<String>) -> (r: String)
    requires
        path@.len() > 0,
    ensures
        r@ == symbol_alias_line(*vis, strs_view(path@)),
{
    let mut s = vis_prefix(vis).to_owned();
    s.append("const ");
    s.append(path[path.len() - 1].as_str());
    s.append(" = ");
    let joined = render_join_dot(path);
    s.append(joined.as_str());
    s.append(";");
    proof {
        assert(strs_view(path@).last() == path@[path@.len() - 1]@);
        assert(s@ =~= symbol_alias_line(*vis, strs_view(path@)));
    }
    s
}

/// Whether a module name is already recorded in the emitted-module list.
pub fn contains_mod(mods: &Vec<String>, m: &String) -> (r: bool)
    ensures
        r == strs_view(mods@).contains(m@),
{
    let mut i: usize = 0;
    while i < mods.len()
        invariant
            i <= mods@.len(),
            forall|j: int| 0 <= j < i ==> mods@[j]@ != m@,
        decreases mods@.len() - i,
    {
        if str_eq(mods[i].as_str(), m.as_str()) {
            proof {
                assert(strs_view(mods@)[i as int] == m@);
            }
            return true;
        }
        i = i + 1;
    }
    proof {
        assert(forall|j: int| 0 <= j < strs_view(mods@).len() ==> strs_view(mods@)[j] != m@);
    }
    false
}

/// Translate one import item: expand its tree, then emit, per path, the
/// once-per-module import block and the per-symbol alias; paths under the
/// `ctypes` sentinel are dropped. Fails exactly on unsupported import
/// syntax, and then leaves the module list unchanged and emits nothing.
#[verifier::loop_isolation(false)]
pub fn translate_use(vis: &Visibility, tree: &UseTree, mods: &mut Vec<String>) -> (r: Result<
    Vec<String>,
    Error,
>)
    ensures
        match use_paths(*tree, Seq::empty()) {
            Some(ps) => r is Ok && strs_view(r->Ok_0@) == use_lines(
                ps,
                *vis,
                strs_view(old(mods)@),
            ).0 && strs_view(final(mods)@) == use_lines(ps, *vis, strs_view(old(mods)@)).1,
            None => r is Err && r->Err_0 is UnsupportedSyntax && final(mods)@ == old(mods)@,
        },
{
    let paths = match expand_use_tree(tree) {
        Ok(ps) => ps,
        Err(e) => {
            return Err(e);
        },
    };
    let ghost psv = use_paths(*tree, Seq::empty())->Some_0;
    proof {
        lemma_paths_nonempty(*tree, Seq::empty());
        assert(psv.skip(0) =~= psv);
    }
    let ghost mods0 = strs_view(mods@);
    let mut out: Vec<String> = Vec::new();
    let mut i: usize = 0;
    while i < paths.len()
        invariant
            i <= paths@.len(),
            paths_view(paths@) == psv,
            use_lines(psv, *vis, mods0).0 == strs_view(out@) + use_lines(
                psv.skip(i as int),
                *vis,
                strs_view(mods@),
            ).0,
            use_lines(psv, *vis, mods0).1 == use_lines(
                psv.skip(i as int),
                *vis,
                strs_view(mods@),
            ).1,
        decreases paths@.len() - i,
    {
        proof {
            assert(psv[i as int] == strs_view(paths@[i as int]@));
            assert(psv[i as int].len() > 0);
            assert(paths@[i as int]@.len() > 0);
            assert(psv.skip(i as int)[0] == psv[i as int]);
            assert(psv.skip(i as int).drop_first() =~= psv.skip(i as int + 1));
        }
        let p = &paths[i];
        let top = &p[0];
        proof {
            assert(top@ == psv[i as int][0]);
        }
        if !str_eq(top.as_str(), "ctypes") {
            let ghost mods_before = strs_view(mods@);
            let ghost out_before = strs_view(out@);
            if !contains_mod(mods, top) {
                out.push(String::new());
                out.push(render_module_import(top.as_str()));
                mods.push(top.clone());
                proof {
                    assert(strs_view(mods@) =~= mods_before.push(top@));
                }
            }
            out.push(render_symbol_alias(vis, p));
            proof {
                let head: Seq<Seq<char>> = if mods_before.contains(top@) {
                    Seq::empty()
                } else {
                    seq![Seq::<char>::empty(), module_import_line(top@)]
                };
                assert(strs_view(out@) =~= out_before + (head + seq![
                    symbol_alias_line(*vis, psv[i as int]),
                ]));
                assert(strs_view(out@) + use_lines(psv.skip(i as int + 1), *vis, strs_view(mods@)).0
                    =~= out_before + use_lines(psv.skip(i as int), *vis, mods_before).0);
            }
        }
        i = i + 1;
    }
    proof {
        assert(psv.skip(psv.len() as int) =~= Seq::<Seq<Seq<char>>>::empty());
        assert(strs_view(out@) + Seq::<Seq<char>>::empty() =~= strs_view(out@));
    }
    Ok(out)
}

/// The number of leaf names in a use tree.
pub open spec fn leaf_count(t: UseTree) -> nat
    decreases t,
{
    match t {
        UseTree::Step { segment, rest } => leaf_count(*rest),
        UseTree::Leaf { ident } => 1,
        UseTree::Group { items } => group_leaf_count(items@),
        UseTree::Unsupported => 0,
    }
}

pub open spec fn group_leaf_count(items: Seq<UseTree>) -> nat
    decreases items,
{
    if items.len() == 0 {
        0
    } else {
        leaf_count(items[0]) + group_leaf_count(items.drop_first())
    }
}

/// The depth of each leaf in a use tree, in expansion order: the number of
/// path segments between the tree's root and that leaf, both included.
pub open spec fn leaf_depths(t: UseTree) -> Seq<int>
    decreases t,
{
    match t {
        UseTree::Step { segment, rest } => leaf_depths(*rest).map_values(|d: int| d + 1),
        UseTree::Leaf { ident } => seq![1int],
        UseTree::Group { items } => group_leaf_depths(items@),
        UseTree::Unsupported => Seq::empty(),
    }
}

pub open spec fn group_leaf_depths(items: Seq<UseTree>) -> Seq<int>
    decreases items,
{
    if items.len() == 0 {
        Seq::empty()
    } else {
        leaf_depths(items[0]) + group_leaf_depths(items.drop_first())
    }
}

/// Expansion is a pure tree-to-list function: a tree with N leaves expands
/// to exactly N paths, and each path's length is the prefix's length plus
/// the depth of its leaf in the tree.
pub proof fn lemma_expand_shape(t: UseTree, prefix: Seq<Seq<char>>)
    ensures
        use_paths(t, prefix) matches Some(ps) ==> {
            &&& ps.len() == leaf_count(t)
            &&& ps.len() == leaf_depths(t).len()
            &&& forall|k: int|
                0 <= k < ps.len() ==> (#[trigger] ps[k]).len() == prefix.len() + leaf_depths(t)[k]
        },
    decreases t,
{
    match t {
        UseTree::Step { segment, rest } => {
            lemma_expand_shape(*rest, prefix.push(segment@));
            if use_paths(t, prefix) is Some {
                let ps = use_paths(t, prefix)->Some_0;
                assert forall|k: int| 0 <= k < ps.len() implies (#[trigger] ps[k]).len()
                    == prefix.len() + leaf_depths(t)[k] by {
                    assert(leaf_depths(t)[k] == leaf_depths(*rest)[k] + 1);
                }
            }
        },
        UseTree::Leaf { ident } => {},
        UseTree::Group { items } => {
            lemma_group_shape(items@, prefix);
        },
        UseTree::Unsupported => {},
    }
}

proof fn lemma_group_shape(items: Seq<UseTree>, prefix: Seq<Seq<char>>)
    ensures
        group_paths(items, prefix) matches Some(ps) ==> {
            &&& ps.len() == group_leaf_count(items)
            &&& ps.len() == group_leaf_depths(items).len()
            &&& forall|k: int|
                0 <= k < ps.len() ==> (#[trigger] ps[k]).len() == prefix.len()
                    + group_leaf_depths(items)[k]
        },
    decreases items,
{
    if items.len() > 0 {
        lemma_expand_shape(items[0], prefix);
        lemma_group_shape(items.drop_first(), prefix);
        if group_paths(items, prefix) is Some {
            let h = use_paths(items[0], prefix)->Some_0;
            let r = group_paths(items.drop_first(), prefix)->Some_0;
            let ps = group_paths(items, prefix)->Some_0;
            assert forall|k: int| 0 <= k < ps.len() implies (#[trigger] ps[k]).len() == prefix.len()
                + group_leaf_depths(items)[k] by {
                if k < h.len() {
                    assert(ps[k] == h[k]);
                    assert(group_leaf_depths(items)[k] == leaf_depths(items[0])[k]);
                } else {
                    assert(ps[k] == r[k - h.len()]);
                    assert(group_leaf_depths(items)[k] == group_leaf_depths(items.drop_first())[k
                        - h.len()]);
                }
            }
        }
    }
}

/// Whether a use tree is a plain chain without groups or unsupported nodes.
pub open spec fn no_groups(t: UseTree) -> bool
    decreases t,
{
    match t {
        UseTree::Step { segment, rest } => no_groups(*rest),
        UseTree::Leaf { ident } => true,
        UseTree::Group { items } => false,
        UseTree::Unsupported => false,
    }
}

/// The segments of a groupless chain, in order.
pub open spec fn chain_segs(t: UseTree) -> Seq<Seq<char>>
    decreases t,
{
    match t {
        UseTree::Step { segment, rest } => seq![segment@] + chain_segs(*rest),
        UseTree::Leaf { ident } => seq![ident@],
        UseTree::Group { items } => Seq::empty(),
        UseTree::Unsupported => Seq::empty(),
    }
}

/// Flattening is idempotent on trees that are already flat: a groupless
/// chain expands to exactly the one path made of its own segments.
pub proof fn lemma_expand_chain(t: UseTree, prefix: Seq<Seq<char>>)
    requires
        no_groups(t),
    ensures
        use_paths(t, prefix) == Some(seq![prefix + chain_segs(t)]),
    decreases t,
{
    match t {
        UseTree::Step { segment, rest } => {
            lemma_expand_chain(*rest, prefix.push(segment@));
            assert(prefix.push(segment@) + chain_segs(*rest) =~= prefix + (seq![segment@]
                + chain_segs(*rest)));
            assert(seq![prefix.push(segment@) + chain_segs(*rest)] =~= seq![
                prefix + chain_segs(t),
            ]);
        },
        UseTree::Leaf { ident } => {
            assert(prefix.push(ident@) =~= prefix + seq![ident@]);
            assert(seq![prefix.push(ident@)] =~= seq![prefix + chain_segs(t)]);
        },
        UseTree::Group { items } => {},
        UseTree::Unsupported => {},
    }
}

/// How often a line occurs in a sequence of emitted lines.
pub open spec fn count_line(lines: Seq<Seq<char>>, target: Seq<char>) -> nat
    decreases lines.len(),
{
    if lines.len() == 0 {
        0
    } else {
        (if lines[0] == target {
            1nat
        } else {
            0nat
        }) + count_line(lines.drop_first(), target)
    }
}

pub proof fn lemma_count_app(a: Seq<Seq<char>>, b: Seq<Seq<char>>, t: Seq<char>)
    ensures
        count_line(a + b, t) == count_line(a, t) + count_line(b, t),
    decreases a.len(),
{
    if a.len() == 0 {
        assert(a + b =~= b);
    } else {
        assert((a + b).drop_first() =~= a.drop_first() + b);
        assert((a + b)[0] == a[0]);
        lemma_count_app(a.drop_first(), b, t);
    }
}

pub proof fn lemma_count_single(x: Seq<char>, t: Seq<char>)
    ensures
        count_line(seq![x], t) == (if x == t {
            1nat
        } else {
            0nat
        }),
{
    assert(seq![x].len() == 1);
    assert(seq![x][0] == x);
    assert(seq![x].drop_first() =~= Seq::<Seq<char>>::empty());
    assert(count_line(Seq::<Seq<char>>::empty(), t) == 0);
    assert(count_line(seq![x], t) == (if x == t {
        1nat
    } else {
        0nat
    }) + count_line(seq![x].drop_first(), t));
}

proof fn lemma_push_contains(s: Seq<Seq<char>>, x: Seq<char>, y: Seq<char>)
    ensures
        s.push(x).contains(y) <==> (s.contains(y) || y == x),
{
    if s.contains(y) {
        let i = choose|i: int| 0 <= i < s.len() && s[i] == y;
        assert(s.push(x)[i] == y);
    }
    if y == x {
        assert(s.push(x)[s.len() as int] == y);
    }
    if s.push(x).contains(y) {
        let i = choose|i: int| 0 <= i < s.push(x).len() && s.push(x)[i] == y;
        if i < s.len() {
            assert(s[i] == y);
        }
    }
}

/// A character that can occur in a source identifier.
pub open spec fn ident_char(c: char) -> bool {
    c == '_' || ('a' <= c && c <= 'z') || ('A' <= c && c <= 'Z') || ('0' <= c && c <= '9')
}

pub open spec fn ident_chars(s: Seq<char>) -> bool {
    forall|i: int| 0 <= i < s.len() ==> ident_char(#[trigger] s[i])
}

pub open spec fn no_quote(s: Seq<char>) -> bool {
    forall|i: int| 0 <= i < s.len() ==> (#[trigger] s[i]) != '"'
}

proof fn lemma_module_line_shape(m: Seq<char>)
    ensures
        module_import_line(m).len() == 25 + 2 * m.len(),
        module_import_line(m)[6 + m.len() as int + 11] == '"',
        forall|j: int| 0 <= j < m.len() ==> module_import_line(m)[6 + j] == m[j],
{
    reveal_strlit("const ");
    reveal_strlit(" = @import(\"");
    reveal_strlit(".zig\");");
    let line = module_import_line(m);
    assert("const "@.len() == 6);
    assert(" = @import(\""@.len() == 12);
    assert(".zig\");"@.len() == 7);
    assert(" = @import(\""@[11] == '"');
    assert(line[6 + m.len() as int + 11] == '"');
}

/// Two equal module-import declarations come from the same module name.
proof fn lemma_module_line_inj(m1: Seq<char>, m2: Seq<char>)
    requires
        module_import_line(m1) == module_import_line(m2),
    ensures
        m1 == m2,
{
    lemma_module_line_shape(m1);
    lemma_module_line_shape(m2);
    assert(m1.len() == m2.len());
    assert forall|j: int| 0 <= j < m1.len() implies m1[j] == m2[j] by {
        assert(module_import_line(m1)[6 + j] == m1[j]);
        assert(module_import_line(m2)[6 + j] == m2[j]);
    }
    assert(m1 =~= m2);
}

proof fn lemma_join_dot_no_quote(parts: Seq<Seq<char>>)
    requires
        forall|k: int| 0 <= k < parts.len() ==> ident_chars(#[trigger] parts[k]),
    ensures
        no_quote(join_dot(parts)),
    decreases parts.len(),
{
    reveal_strlit(".");
    if parts.len() > 1 {
        assert(forall|k: int|
            0 <= k < parts.drop_last().len() ==> ident_chars(#[trigger] parts.drop_last()[k]));
        lemma_join_dot_no_quote(parts.drop_last());
        assert(ident_chars(parts.last()));
    }
}

/// A per-symbol alias declaration over identifier-shaped segments never
/// contains a quote character, so it is never a module-import declaration.
proof fn lemma_alias_ne_module(vis: Visibility, path: Seq<Seq<char>>, m: Seq<char>)
    requires
        path.len() > 0,
        forall|k: int| 0 <= k < path.len() ==> ident_chars(#[trigger] path[k]),
    ensures
        symbol_alias_line(vis, path) != module_import_line(m),
{
    reveal_strlit("pub ");
    reveal_strlit("const ");
    reveal_strlit(" = ");
    reveal_strlit(";");
    lemma_join_dot_no_quote(path);
    assert(ident_chars(path.last()));
    let line = symbol_alias_line(vis, path);
    assert(no_quote(line)) by {
        assert(no_quote(vis_text(vis)));
        assert(no_quote("const "@));
        assert(no_quote(" = "@));
        assert(no_quote(";"@));
    }
    lemma_module_line_shape(m);
    if line == module_import_line(m) {
        assert(line[6 + m.len() as int + 11] == '"');
        assert(false);
    }
}

proof fn lemma_blank_ne_module(m: Seq<char>)
    ensures
        Seq::<char>::empty() != module_import_line(m),
{
    lemma_module_line_shape(m);
}

/// Module-import deduplication: over any list of expanded import paths,
/// the module-import declaration for a module is emitted exactly once if
/// some path imports from it and it was not already recorded, and never
/// otherwise, regardless of how many leaf symbols are imported from it;
/// and a module is recorded afterwards exactly when it was before or some
/// path imports from it.
pub proof fn lemma_module_dedup(
    paths: Seq<Seq<Seq<char>>>,
    vis: Visibility,
    mods: Seq<Seq<char>>,
    m: Seq<char>,
)
    requires
        forall|k: int| 0 <= k < paths.len() ==> (#[trigger] paths[k]).len() > 0,
        forall|k: int, j: int|
            0 <= k < paths.len() && 0 <= j < paths[k].len() ==> ident_chars(#[trigger] paths[k][j]),
    ensures
        ({
            let lines = use_lines(paths, vis, mods).0;
            let mods2 = use_lines(paths, vis, mods).1;
            let imported = exists|k: int|
                0 <= k < paths.len() && (#[trigger] paths[k])[0] == m && m != "ctypes"@;
            &&& mods.contains(m) ==> count_line(lines, module_import_line(m)) == 0
            &&& !mods.contains(m) ==> count_line(lines, module_import_line(m)) == (if imported {
                1nat
            } else {
                0nat
            })
            &&& mods2.contains(m) <==> (mods.contains(m) || imported)
        }),
    decreases paths.len(),
{
    let target = module_import_line(m);
    if paths.len() == 0 {
    } else {
        let p = paths[0];
        let rest = paths.drop_first();
        assert(forall|k: int| 0 <= k < rest.len() ==> rest[k] == paths[k + 1]);
        assert(forall|k: int| 0 <= k < rest.len() ==> (#[trigger] rest[k]).len() > 0);
        assert(forall|k: int, j: int|
            0 <= k < rest.len() && 0 <= j < rest[k].len() ==> ident_chars(#[trigger] rest[k][j]));
        if p[0] == "ctypes"@ {
            lemma_module_dedup(rest, vis, mods, m);
            let imported = exists|k: int|
                0 <= k < paths.len() && (#[trigger] paths[k])[0] == m && m != "ctypes"@;
            let imported_rest = exists|k: int|
                0 <= k < rest.len() && (#[trigger] rest[k])[0] == m && m != "ctypes"@;
            assert(imported == imported_rest) by {
                if imported {
                    let k = choose|k: int|
                        0 <= k < paths.len() && (#[trigger] paths[k])[0] == m && m != "ctypes"@;
                    assert(k != 0);
                    assert(rest[k - 1][0] == m);
                }
                if imported_rest {
                    let k = choose|k: int|
                        0 <= k < rest.len() && (#[trigger] rest[k])[0] == m && m != "ctypes"@;
                    assert(paths[k + 1][0] == m);
                }
            }
        } else {
            let seen = mods.contains(p[0]);
            let head: Seq<Seq<char>> = if seen {
                Seq::empty()
            } else {
                seq![Seq::<char>::empty(), module_import_line(p[0])]
            };
            let mods1 = if seen {
                mods
            } else {
                mods.push(p[0])
            };
            let alias = symbol_alias_line(vis, p);
            lemma_module_dedup(rest, vis, mods1, m);
            lemma_push_contains(mods, p[0], m);
            let rest_lines = use_lines(rest, vis, mods1).0;
            assert(use_lines(paths, vis, mods).0 == head + seq![alias] + rest_lines);
            lemma_count_app(head + seq![alias], rest_lines, target);
            lemma_count_app(head, seq![alias], target);
            lemma_count_single(alias, target);
            assert(0 <= 0 < paths.len() && 0 <= 0 < p.len());
            assert(ident_chars(p[0]));
            lemma_alias_ne_module(vis, p, m);
            let head_count = count_line(head, target);
            if seen {
                assert(head_count == 0);
            } else {
                assert(head =~= seq![Seq::<char>::empty()] + seq![module_import_line(p[0])]);
                lemma_count_app(seq![Seq::<char>::empty()], seq![module_import_line(p[0])], target);
                lemma_count_single(Seq::<char>::empty(), target);
                lemma_count_single(module_import_line(p[0]), target);
                lemma_blank_ne_module(m);
                if module_import_line(p[0]) == target {
                    lemma_module_line_inj(p[0], m);
                }
                assert(head_count == (if p[0] == m {
                    1nat
                } else {
                    0nat
                }));
            }
            let imported = exists|k: int|
                0 <= k < paths.len() && (#[trigger] paths[k])[0] == m && m != "ctypes"@;
            let imported_rest = exists|k: int|
                0 <= k < rest.len() && (#[trigger] rest[k])[0] == m && m != "ctypes"@;
            assert(imported == (p[0] == m || imported_rest)) by {
                if imported {
                    let k = choose|k: int|
                        0 <= k < paths.len() && (#[trigger] paths[k])[0] == m && m != "ctypes"@;
                    if k != 0 {
                        assert(rest[k - 1][0] == m);
                    }
                }
                if imported_rest {
                    let k = choose|k: int|
                        0 <= k < rest.len() && (#[trigger] rest[k])[0] == m && m != "ctypes"@;
                    assert(paths[k + 1][0] == m);
                }
                if p[0] == m {
                    assert(paths[0][0] == m && m != "ctypes"@);
                }
            }
        }
    }
}

/// Whether every segment in a use tree is identifier-shaped.
pub open spec fn tree_idents_ok(t: UseTree) -> bool
    decreases t,
{
    match t {
        UseTree::Step { segment, rest } => ident_chars(segment@) && tree_idents_ok(*rest),
        UseTree::Leaf { ident } => ident_chars(ident@),
        UseTree::Group { items } => group_idents_ok(items@),
        UseTree::Unsupported => true,
    }
}

pub open spec fn group_idents_ok(items: Seq<UseTree>) -> bool
    decreases items,
{
    if items.len() == 0 {
        true
    } else {
        tree_idents_ok(items[0]) && group_idents_ok(items.drop_first())
    }
}

/// Expansion preserves identifier shape: every segment of every expanded
/// path is identifier-shaped when the tree's segments and the prefix are.
pub proof fn lemma_paths_idents(t: UseTree, prefix: Seq<Seq<char>>)
    requires
        tree_idents_ok(t),
        forall|j: int| 0 <= j < prefix.len() ==> ident_chars(#[trigger] prefix[j]),
    ensures
        use_paths(t, prefix) matches Some(ps) ==> forall|k: int, j: int|
            0 <= k < ps.len() && 0 <= j < ps[k].len() ==> ident_chars(#[trigger] ps[k][j]),
    decreases t,
{
    match t {
        UseTree::Step { segment, rest } => {
            assert(forall|j: int|
                0 <= j < prefix.push(segment@).len() ==> ident_chars(
                    #[trigger] prefix.push(segment@)[j],
                ));
            lemma_paths_idents(*rest, prefix.push(segment@));
        },
        UseTree::Leaf { ident } => {
            let ps = use_paths(t, prefix)->Some_0;
            assert(forall|j: int|
                0 <= j < ps[0].len() ==> ident_chars(#[trigger] prefix.push(ident@)[j]));
        },
        UseTree::Group { items } => {
            lemma_group_paths_idents(items@, prefix);
        },
        UseTree::Unsupported => {},
    }
}

proof fn lemma_group_paths_idents(items: Seq<UseTree>, prefix: Seq<Seq<char>>)
    requires
        group_idents_ok(items),
        forall|j: int| 0 <= j < prefix.len() ==> ident_chars(#[trigger] prefix[j]),
    ensures
        group_paths(items, prefix) matches Some(ps) ==> forall|k: int, j: int|
            0 <= k < ps.len() && 0 <= j < ps[k].len() ==> ident_chars(#[trigger] ps[k][j]),
    decreases items,
{
    if items.len() > 0 {
        lemma_paths_idents(items[0], prefix);
        lemma_group_paths_idents(items.drop_first(), prefix);
        if group_paths(items, prefix) is Some {
            let h = use_paths(items[0], prefix)->Some_0;
            let r = group_paths(items.drop_first(), prefix)->Some_0;
            let ps = group_paths(items, prefix)->Some_0;
            assert forall|k: int, j: int|
                0 <= k < ps.len() && 0 <= j < ps[k].len() implies ident_chars(
                #[trigger] ps[k][j],
            ) by {
                if k < h.len() {
                    assert(ps[k] == h[k]);
                } else {
                    assert(ps[k] == r[k - h.len()]);
                }
            }
        }
    }
}

/// Every expanded path is longer than the prefix it grew from; in
/// particular, paths expanded from an empty prefix are never empty.
pub proof fn lemma_paths_nonempty(t: UseTree, prefix: Seq<Seq<char>>)
    ensures
        use_paths(t, prefix) matches Some(ps) ==> forall|k: int|
            0 <= k < ps.len() ==> (#[trigger] ps[k]).len() > prefix.len(),
    decreases t,
{
    match t {
        UseTree::Step { segment, rest } => {
            lemma_paths_nonempty(*rest, prefix.push(segment@));
        },
        UseTree::Leaf { ident } => {},
        UseTree::Group { items } => {
            lemma_group_paths_nonempty(items@, prefix);
        },
        UseTree::Unsupported => {},
    }
}

proof fn lemma_group_paths_nonempty(items: Seq<UseTree>, prefix: Seq<Seq<char>>)
    ensures
        group_paths(items, prefix) matches Some(ps) ==> forall|k: int|
            0 <= k < ps.len() ==> (#[trigger] ps[k]).len() > prefix.len(),
    decreases items,
{
    if items.len() > 0 {
        lemma_paths_nonempty(items[0], prefix);
        lemma_group_paths_nonempty(items.drop_first(), prefix);
    }
}

} // verus!
