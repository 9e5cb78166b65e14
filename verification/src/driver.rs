//! The translation driver: a single pass over the parsed program's items,
//! dispatching each to its translator, with the two-tier failure policy —
//! soft failures become placeholder comments and the run goes on, hard
//! failures abort the run. Output is best-effort and is never rolled back:
//! the lines emitted for prior items, and the lines the failing item had
//! already rendered, stay in the output beside the error.

use vstd::prelude::*;

use crate::ast::{Error, Item, Outcome, Visibility};
use crate::foreign::{append_lines, foreign_items_out, translate_foreign_mod};
use crate::imports::{strs_view, translate_use, use_lines, use_paths};
use crate::mapper::{expr_text, translate_expr, translate_type, type_text, vis_prefix, vis_text};
use crate::macros::{macro_out, translate_macro};

verus! {

/// A `const` declaration line: the common shape of emitted constants and
/// type aliases.
pub open spec fn decl_line(vis: Visibility, ident: Seq<char>, rhs: Seq<char>) -> Seq<char> {
    vis_text(vis) + "const "@ + ident + " = "@ + rhs + ";"@
}

/// Build one `const` declaration line.
pub fn render_decl_line(vis: &Visibility, ident: &str, rhs: &str) -> (r: String)
    ensures
        r@ == decl_line(*vis, ident@, rhs@),
{
    let mut s = vis_prefix(vis).to_owned();
    s.append("const ");
    s.append(ident);
    s.append(" = ");
    s.append(rhs);
    s.append(";");
    proof {
        assert(s@ =~= decl_line(*vis, ident@, rhs@));
    }
    s
}

/// The mutable state of one translation run: the link name every foreign
/// declaration is tagged with, and the set of module names whose import
/// declaration was already emitted.
pub struct Cx {
    pub link_name: String,
    pub toplevel_imports: Vec<String>,
}

impl Cx {
    /// The module names already recorded, as a sequence of contents.
    pub open spec fn mods(self) -> Seq<Seq<char>> {
        strs_view(self.toplevel_imports@)
    }

    /// A fresh context with the given link name and no recorded modules.
    pub fn new(link_name: String) -> (r: Cx)
        ensures
            r.link_name@ == link_name@,
            r.mods() == Seq::<Seq<char>>::empty(),
    {
        let c = Cx { link_name, toplevel_imports: Vec::new() };
        proof {
            assert(c.mods() =~= Seq::<Seq<char>>::empty());
        }
        c
    }
}

/// The outcome of one item and the module set afterwards. Only an import
/// item changes the module set. A type failure carries the lines the item
/// had already rendered.
pub open spec fn item_out(item: Item, link: Seq<char>, mods: Seq<Seq<char>>) -> (
    Outcome,
    Seq<Seq<char>>,
) {
    match item {
        Item::Use { vis, tree } => match use_paths(tree, Seq::empty()) {
            Some(ps) => (Outcome::Lines(use_lines(ps, vis, mods).0), use_lines(ps, vis, mods).1),
            None => (Outcome::SyntaxErr, mods),
        },
        Item::TypeAlias { vis, ident, ty } => match type_text(ty) {
            Some(t) => (Outcome::Lines(seq![decl_line(vis, ident@, t)]), mods),
            None => (Outcome::TypeErr(Seq::empty()), mods),
        },
        Item::Const { vis, ident, value } => (
            Outcome::Lines(seq![decl_line(vis, ident@, expr_text(value))]),
            mods,
        ),
        Item::ForeignMod { items } => {
            let fo = foreign_items_out(items@, link);
            if fo.1 {
                (Outcome::Lines(fo.0), mods)
            } else {
                (Outcome::TypeErr(fo.0), mods)
            }
        },
        Item::MacroCall { path, tokens } => (macro_out(path, tokens@), mods),
        Item::Function { ident } => (Outcome::Unhandled(ident@), mods),
        Item::Other { dump } => (Outcome::Lines(seq![dump@]), mods),
    }
}

/// Translate one item, dispatching on its kind. On a hard failure the
/// item's already-rendered lines come back beside the error.
pub fn translate_item(item: &Item, cx: &mut Cx) -> (r: (Vec<String>, Option<Error>))
    ensures
        final(cx).link_name == old(cx).link_name,
        ({
            let (o, m2) = item_out(*item, old(cx).link_name@, old(cx).mods());
            match o {
                Outcome::Lines(ls) => r.1 is None && strs_view(r.0@) == ls && final(cx).mods()
                    == m2,
                Outcome::TypeErr(pl) => (r.1 matches Some(e) && e is UnsupportedType) && strs_view(
                    r.0@,
                ) == pl && final(cx).mods() == old(cx).mods(),
                Outcome::SyntaxErr => (r.1 matches Some(e) && e is UnsupportedSyntax) && r.0@.len()
                    == 0 && final(cx).mods() == old(cx).mods(),
                Outcome::Unhandled(n) => (r.1 matches Some(e) && (e matches Error::Unhandled {
                    name,
                } && name@ == n)) && r.0@.len() == 0 && final(cx).mods() == old(cx).mods(),
                Outcome::Nyi => (r.1 matches Some(e) && e is NotYetImplemented) && r.0@.len() == 0
                    && final(cx).mods() == old(cx).mods(),
            }
        }),
{
    match item {
        Item::Use { vis, tree } => match translate_use(vis, tree, &mut cx.toplevel_imports) {
            Ok(ls) => (ls, None),
            Err(e) => (Vec::new(), Some(e)),
        },
        Item::TypeAlias { vis, ident, ty } => match translate_type(ty) {
            Ok(t) => {
                let line = render_decl_line(vis, ident.as_str(), t.as_str());
                let mut out: Vec<String> = Vec::new();
                out.push(line);
                proof {
                    assert(strs_view(out@) =~= seq![
                        decl_line(*vis, ident@, type_text(*ty)->Some_0),
                    ]);
                }
                (out, None)
            },
            Err(e) => (Vec::new(), Some(e)),
        },
        Item::Const { vis, ident, value } => {
            let rhs = translate_expr(value);
            let line = render_decl_line(vis, ident.as_str(), rhs.as_str());
            let mut out: Vec<String> = Vec::new();
            out.push(line);
            proof {
                assert(strs_view(out@) =~= seq![decl_line(*vis, ident@, expr_text(*value))]);
            }
            (out, None)
        },
        Item::ForeignMod { items } => translate_foreign_mod(items, cx.link_name.as_str()),
        Item::MacroCall { path, tokens } => translate_macro(path, tokens),
        Item::Function { ident } => (Vec::new(), Some(Error::Unhandled { name: ident.clone() })),
        Item::Other { dump } => {
            let mut out: Vec<String> = Vec::new();
            out.push(dump.clone());
            proof {
                assert(strs_view(out@) =~= seq![dump@]);
            }
            (out, None)
        },
    }
}

pub open spec fn unhandled_comment(name: Seq<char>) -> Seq<char> {
    "// Unhandled item: "@ + name
}

pub open spec fn nyi_comment() -> Seq<char> {
    "// Item not yet implemented"@
}

/// The outcome of one item under the soft-failure policy: a soft skip
/// becomes a single placeholder comment line; hard failures stay failures.
pub open spec fn wrap_out(item: Item, link: Seq<char>, mods: Seq<Seq<char>>) -> (
    Outcome,
    Seq<Seq<char>>,
) {
    let (o, m2) = item_out(item, link, mods);
    match o {
        Outcome::Unhandled(n) => (Outcome::Lines(seq![unhandled_comment(n)]), m2),
        Outcome::Nyi => (Outcome::Lines(seq![nyi_comment()]), m2),
        _ => (o, m2),
    }
}

/// Translate one item under the soft-failure policy: an unhandled item or a
/// not-yet-implemented gap emits exactly one placeholder comment line and
/// succeeds; a hard failure is returned unchanged, beside the lines the
/// item had already rendered.
pub fn translate_item_soft(item: &Item, cx: &mut Cx) -> (r: (Vec<String>, Option<Error>))
    ensures
        final(cx).link_name == old(cx).link_name,
        ({
            let (o, m2) = wrap_out(*item, old(cx).link_name@, old(cx).mods());
            match o {
                Outcome::Lines(ls) => r.1 is None && strs_view(r.0@) == ls && final(cx).mods()
                    == m2,
                Outcome::TypeErr(pl) => (r.1 matches Some(e) && e is UnsupportedType) && strs_view(
                    r.0@,
                ) == pl && final(cx).mods() == old(cx).mods(),
                Outcome::SyntaxErr => (r.1 matches Some(e) && e is UnsupportedSyntax) && r.0@.len()
                    == 0 && final(cx).mods() == old(cx).mods(),
                _ => false,
            }
        }),
{
    let (ls, err) = translate_item(item, cx);
    match err {
        None => (ls, None),
        Some(e) => match e {
            Error::Unhandled { name } => {
                let mut s = "// Unhandled item: ".to_owned();
                s.append(name.as_str());
                let mut out: Vec<String> = Vec::new();
                out.push(s);
                proof {
                    let (o, m2) = item_out(*item, old(cx).link_name@, old(cx).mods());
                    assert(strs_view(out@) =~= seq![unhandled_comment(o->Unhandled_0)]);
                }
                (out, None)
            },
            Error::NotYetImplemented => {
                let mut out: Vec<String> = Vec::new();
                out.push("// Item not yet implemented".to_owned());
                proof {
                    assert(strs_view(out@) =~= seq![nyi_comment()]);
                }
                (out, None)
            },
            other => (ls, Some(other)),
        },
    }
}

/// The lines a whole program emits, the module set afterwards, and the hard
/// failure that stopped the run, if any. Lines emitted for items before the
/// failing one, and the failing item's own partial lines, are kept.
pub open spec fn run_out(items: Seq<Item>, link: Seq<char>, mods: Seq<Seq<char>>) -> (
    Seq<Seq<char>>,
    Seq<Seq<char>>,
    Option<Outcome>,
)
    decreases items.len(),
{
    if items.len() == 0 {
        (Seq::empty(), mods, None::<Outcome>)
    } else {
        let (o, m1) = wrap_out(items[0], link, mods);
        match o {
            Outcome::Lines(ls) => {
                let rest = run_out(items.drop_first(), link, m1);
                (ls + rest.0, rest.1, rest.2)
            },
            Outcome::TypeErr(pl) => (pl, mods, Some(o)),
            _ => (Seq::empty(), mods, Some(o)),
        }
    }
}

/// Whether an item is an import whose segments are identifier-shaped.
pub open spec fn is_ident_use(item: Item) -> bool {
    match item {
        Item::Use { vis, tree } => crate::imports::tree_idents_ok(tree),
        _ => false,
    }
}

/// Module-import deduplication over a whole run: for any sequence of import
/// items, the module-import declaration for a module is emitted at most
/// once — exactly once when the module was not yet recorded and is recorded
/// by the run's end, and never when it was already recorded — regardless of
/// how many symbols the items import from it.
pub proof fn lemma_run_module_dedup(
    items: Seq<Item>,
    link: Seq<char>,
    mods: Seq<Seq<char>>,
    m: Seq<char>,
)
    requires
        forall|k: int| 0 <= k < items.len() ==> is_ident_use(#[trigger] items[k]),
    ensures
        ({
            let lines = run_out(items, link, mods).0;
            let mods2 = run_out(items, link, mods).1;
            let target = crate::imports::module_import_line(m);
            &&& mods.contains(m) ==> crate::imports::count_line(lines, target) == 0
                && mods2.contains(m)
            &&& !mods.contains(m) ==> crate::imports::count_line(lines, target) == (
            if mods2.contains(m) {
                1nat
            } else {
                0nat
            })
        }),
    decreases items.len(),
{
    let target = crate::imports::module_import_line(m);
    if items.len() > 0 {
        assert(is_ident_use(items[0]));
        let rest_items = items.drop_first();
        assert(forall|k: int|
            0 <= k < rest_items.len() ==> is_ident_use(#[trigger] rest_items[k]));
        match items[0] {
            Item::Use { vis, tree } => {
                match use_paths(tree, Seq::empty()) {
                    Some(ps) => {
                        crate::imports::lemma_paths_nonempty(tree, Seq::empty());
                        crate::imports::lemma_paths_idents(tree, Seq::empty());
                        crate::imports::lemma_module_dedup(ps, vis, mods, m);
                        let ls = use_lines(ps, vis, mods).0;
                        let m1 = use_lines(ps, vis, mods).1;
                        lemma_run_module_dedup(rest_items, link, m1, m);
                        let rest_lines = run_out(rest_items, link, m1).0;
                        crate::imports::lemma_count_app(ls, rest_lines, target);
                    },
                    None => {},
                }
            },
            _ => {},
        }
    }
}

/// Run the driver over a program's items in order: soft failures emit their
/// placeholder comment and the pass goes on; the first hard failure stops
/// the pass, and the lines emitted so far — the failing item's partial
/// lines included — are returned beside the error.
#[verifier::loop_isolation(false)]
pub fn translate_items(items: &Vec<Item>, cx: &mut Cx) -> (r: (Vec<String>, Option<Error>))
    ensures
        final(cx).link_name == old(cx).link_name,
        ({
            let run = run_out(items@, old(cx).link_name@, old(cx).mods());
            &&& strs_view(r.0@) == run.0
            &&& final(cx).mods() == run.1
            &&& match run.2 {
                None => r.1 is None,
                Some(o) => r.1 is Some && match o {
                    Outcome::TypeErr(pl) => r.1->Some_0 is UnsupportedType,
                    Outcome::SyntaxErr => r.1->Some_0 is UnsupportedSyntax,
                    _ => false,
                },
            }
        }),
{
    let ghost link0 = old(cx).link_name@;
    let ghost mods0 = old(cx).mods();
    let ghost full = run_out(items@, link0, mods0);
    let mut out: Vec<String> = Vec::new();
    let mut i: usize = 0;
    proof {
        assert(items@.skip(0) =~= items@);
        assert(strs_view(out@) + full.0 =~= full.0);
    }
    while i < items.len()
        invariant
            i <= items@.len(),
            cx.link_name == old(cx).link_name,
            full == run_out(items@, link0, mods0),
            ({
                let rest = run_out(items@.skip(i as int), link0, cx.mods());
                full.0 == strs_view(out@) + rest.0 && full.1 == rest.1 && full.2 == rest.2
            }),
        decreases items@.len() - i,
    {
        proof {
            assert(items@.skip(i as int)[0] == items@[i as int]);
            assert(items@.skip(i as int).drop_first() =~= items@.skip(i as int + 1));
        }
        let ghost mods_before = cx.mods();
        let ghost out_before = strs_view(out@);
        let (ls, err) = translate_item_soft(&items[i], cx);
        append_lines(&mut out, &ls);
        match err {
            None => {
                proof {
                    let rest = run_out(items@.skip(i as int), link0, mods_before);
                    let rest2 = run_out(items@.skip(i as int + 1), link0, cx.mods());
                    assert(rest.0 == strs_view(ls@) + rest2.0);
                    assert(out_before + (strs_view(ls@) + rest2.0) =~= strs_view(out@) + rest2.0);
                }
            },
            Some(e) => {
                proof {
                    let rest = run_out(items@.skip(i as int), link0, mods_before);
                    assert(rest.0 == strs_view(ls@));
                    assert(out_before + strs_view(ls@) =~= strs_view(out@));
                }
                return (out, Some(e));
            },
        }
        i = i + 1;
    }
    proof {
        assert(items@.skip(items@.len() as int) =~= Seq::<Item>::empty());
        assert(strs_view(out@) + Seq::<Seq<char>>::empty() =~= strs_view(out@));
    }
    (out, None)
}

/// Translate a whole program with the fixed default link name and an empty
/// module set.
pub fn translate_program(items: &Vec<Item>) -> (r: (Vec<String>, Option<Error>))
    ensures
        ({
            let run = run_out(items@, "user32"@, Seq::empty());
            &&& strs_view(r.0@) == run.0
            &&& match run.2 {
                None => r.1 is None,
                Some(o) => r.1 is Some && match o {
                    Outcome::TypeErr(pl) => r.1->Some_0 is UnsupportedType,
                    Outcome::SyntaxErr => r.1->Some_0 is UnsupportedSyntax,
                    _ => false,
                },
            }
        }),
{
    let mut cx = Cx::new("user32".to_owned());
    translate_items(items, &mut cx)
}

} // verus!
