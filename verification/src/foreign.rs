//! The foreign-block translator: every function declared in a foreign block
//! becomes an external-linkage function declaration tagged with the run's
//! configured link name; any other foreign item is emitted verbatim as its
//! debug dump. Output is best-effort: on an untranslatable parameter or
//! return type the lines already rendered for the block stay emitted and
//! the failure is reported beside them.

use vstd::prelude::*;

use crate::ast::{ArgName, Error, ForeignArg, ForeignFn, ForeignItem, TypeDesc, Visibility};
use crate::mapper::{ret_text, translate_ret_type, translate_type, type_text, vis_prefix, vis_text};

verus! {

pub open spec fn arg_name_text(n: ArgName) -> Seq<char> {
    match n {
        ArgName::Named { ident } => ident@,
        ArgName::Wild => "_"@,
        ArgName::Missing => Seq::empty(),
    }
}

/// The formal-parameter line for one typed argument; `None` when its type
/// has no translation.
pub open spec fn arg_line(name: ArgName, ty: TypeDesc) -> Option<Seq<char>> {
    match type_text(ty) {
        Some(t) => Some("    "@ + arg_name_text(name) + ": "@ + t + ","@),
        None => None,
    }
}

/// The parameter lines of a signature up to the first untranslatable
/// parameter, and whether all parameters translated. Receiver parameters
/// emit nothing; a failing parameter contributes no line, and the lines of
/// the parameters before it are kept.
pub open spec fn args_out(args: Seq<ForeignArg>) -> (Seq<Seq<char>>, bool)
    decreases args.len(),
{
    if args.len() == 0 {
        (Seq::empty(), true)
    } else {
        match args[0] {
            ForeignArg::Typed { name, ty } => match arg_line(name, ty) {
                Some(l) => {
                    let rest = args_out(args.drop_first());
                    (seq![l] + rest.0, rest.1)
                },
                None => (Seq::empty(), false),
            },
            ForeignArg::Receiver => args_out(args.drop_first()),
        }
    }
}

pub open spec fn foreign_fn_header(vis: Visibility, link: Seq<char>, ident: Seq<char>) -> Seq<
    char,
> {
    vis_text(vis) + "extern \""@ + link + "\" fn "@ + ident + " ("@
}

pub open spec fn foreign_fn_footer(ret: Seq<char>) -> Seq<char> {
    ") callconv(.Stdcall) "@ + ret + ";"@
}

/// The declaration lines for one foreign function and whether it
/// translated completely: the header always comes first; on a parameter or
/// return-type failure the header and the parameter lines already rendered
/// remain, without the closing line.
pub open spec fn foreign_fn_out(f: ForeignFn, link: Seq<char>) -> (Seq<Seq<char>>, bool) {
    let a = args_out(f.args@);
    let header = seq![foreign_fn_header(f.vis, link, f.ident@)];
    if !a.1 {
        (header + a.0, false)
    } else {
        match ret_text(f.ret) {
            Some(rt) => (header + a.0 + seq![foreign_fn_footer(rt)], true),
            None => (header + a.0, false),
        }
    }
}

/// The lines a whole foreign block emits, in declaration order, up to and
/// including the partially rendered lines of the first failing
/// declaration, and whether the block translated completely.
pub open spec fn foreign_items_out(items: Seq<ForeignItem>, link: Seq<char>) -> (
    Seq<Seq<char>>,
    bool,
)
    decreases items.len(),
{
    if items.len() == 0 {
        (Seq::empty(), true)
    } else {
        match items[0] {
            ForeignItem::Func { func } => {
                let h = foreign_fn_out(func, link);
                if !h.1 {
                    (h.0, false)
                } else {
                    let rest = foreign_items_out(items.drop_first(), link);
                    (h.0 + rest.0, rest.1)
                }
            },
            ForeignItem::Other { dump } => {
                let rest = foreign_items_out(items.drop_first(), link);
                (seq![dump@] + rest.0, rest.1)
            },
        }
    }
}

/// Build the parameter line for one typed argument.
fn render_arg(name: &ArgName, ty: &TypeDesc) -> (r: Result<String, Error>)
    ensures
        (r is Ok) == (arg_line(*name, *ty) is Some),
        r is Ok ==> Some(r->Ok_0@) == arg_line(*name, *ty),
        r is Err ==> r->Err_0 is UnsupportedType,
{
    let t = match translate_type(ty) {
        Ok(t) => t,
        Err(e) => {
            return Err(e);
        },
    };
    let mut s = "    ".to_owned();
    match name {
        ArgName::Named { ident } => s.append(ident.as_str()),
        ArgName::Wild => s.append("_"),
        ArgName::Missing => {
            proof {
                assert(s@ + Seq::<char>::empty() =~= s@);
            }
        },
    }
    s.append(": ");
    s.append(t.as_str());
    s.append(",");
    proof {
        assert(s@ =~= arg_line(*name, *ty)->Some_0);
    }
    Ok(s)
}

/// Append the declaration lines for one foreign function; on failure the
/// header and the parameter lines already rendered stay appended.
#[verifier::loop_isolation(false)]
fn render_foreign_fn(f: &ForeignFn, link: &str, out: &mut Vec<String>) -> (r: Option<Error>)
    ensures
        crate::imports::strs_view(final(out)@) == crate::imports::strs_view(old(out)@)
            + foreign_fn_out(*f, link@).0,
        (r is None) == foreign_fn_out(*f, link@).1,
        r is Some ==> r->Some_0 is UnsupportedType,
{
    let ghost out0 = crate::imports::strs_view(out@);
    let ghost header = foreign_fn_header(f.vis, link@, f.ident@);
    let mut s = vis_prefix(&f.vis).to_owned();
    s.append("extern \"");
    s.append(link);
    s.append("\" fn ");
    s.append(f.ident.as_str());
    s.append(" (");
    proof {
        assert(s@ =~= header);
    }
    out.push(s);
    proof {
        assert(crate::imports::strs_view(out@) =~= out0 + seq![header]);
        assert(f.args@.skip(0) =~= f.args@);
    }
    let ghost mut ap: Seq<Seq<char>> = Seq::empty();
    proof {
        assert(crate::imports::strs_view(out@) =~= out0 + seq![header] + ap);
    }
    let mut i: usize = 0;
    while i < f.args.len()
        invariant
            i <= f.args@.len(),
            crate::imports::strs_view(out@) == out0 + seq![header] + ap,
            args_out(f.args@).0 == ap + args_out(f.args@.skip(i as int)).0,
            args_out(f.args@).1 == args_out(f.args@.skip(i as int)).1,
        decreases f.args@.len() - i,
    {
        proof {
            assert(f.args@.skip(i as int)[0] == f.args@[i as int]);
            assert(f.args@.skip(i as int).drop_first() =~= f.args@.skip(i as int + 1));
        }
        match &f.args[i] {
            ForeignArg::Typed { name, ty } => {
                let l = match render_arg(name, ty) {
                    Ok(l) => l,
                    Err(e) => {
                        proof {
                            assert(args_out(f.args@.skip(i as int)).0
                                =~= Seq::<Seq<char>>::empty());
                            assert(ap + Seq::<Seq<char>>::empty() =~= ap);
                        }
                        return Some(e);
                    },
                };
                let ghost lv = l@;
                let ghost o_pre = crate::imports::strs_view(out@);
                out.push(l);
                proof {
                    assert(crate::imports::strs_view(out@) =~= o_pre.push(lv));
                    assert(o_pre.push(lv) =~= out0 + seq![header] + (ap + seq![lv]));
                    assert(ap + (seq![lv] + args_out(f.args@.skip(i as int + 1)).0) =~= (ap + seq![
                        lv,
                    ]) + args_out(f.args@.skip(i as int + 1)).0);
                    ap = ap + seq![lv];
                }
            },
            ForeignArg::Receiver => {},
        }
        i = i + 1;
    }
    proof {
        assert(f.args@.skip(f.args@.len() as int) =~= Seq::<ForeignArg>::empty());
        assert(ap + Seq::<Seq<char>>::empty() =~= ap);
    }
    let rt = match translate_ret_type(&f.ret) {
        Ok(rt) => rt,
        Err(e) => {
            return Some(e);
        },
    };
    let mut tail = ") callconv(.Stdcall) ".to_owned();
    tail.append(rt.as_str());
    tail.append(";");
    proof {
        assert(tail@ =~= foreign_fn_footer(rt@));
    }
    let ghost tailv = tail@;
    let ghost o_pre = crate::imports::strs_view(out@);
    out.push(tail);
    proof {
        assert(crate::imports::strs_view(out@) =~= o_pre.push(tailv));
        assert(o_pre.push(tailv) =~= out0 + (seq![header] + ap + seq![tailv]));
    }
    None
}

/// Append all lines of `ls` to `out`, contents preserved.
pub fn append_lines(out: &mut Vec<String>, ls: &Vec<String>)
    ensures
        crate::imports::strs_view(final(out)@) == crate::imports::strs_view(old(out)@)
            + crate::imports::strs_view(ls@),
{
    let mut k: usize = 0;
    proof {
        assert(crate::imports::strs_view(out@) =~= crate::imports::strs_view(old(out)@)
            + crate::imports::strs_view(ls@).take(0));
    }
    while k < ls.len()
        invariant
            k <= ls@.len(),
            crate::imports::strs_view(out@) == crate::imports::strs_view(old(out)@)
                + crate::imports::strs_view(ls@).take(k as int),
        decreases ls@.len() - k,
    {
        let ghost o_pre = out@;
        out.push(ls[k].clone());
        proof {
            assert(crate::imports::strs_view(out@) =~= crate::imports::strs_view(o_pre).push(
                ls@[k as int]@,
            ));
            assert(crate::imports::strs_view(ls@).take(k as int + 1) =~= crate::imports::strs_view(
                ls@,
            ).take(k as int).push(ls@[k as int]@));
            assert(crate::imports::strs_view(old(out)@) + crate::imports::strs_view(ls@).take(
                k as int,
            ).push(ls@[k as int]@) =~= crate::imports::strs_view(old(out)@)
                + crate::imports::strs_view(ls@).take(k as int + 1));
            assert(crate::imports::strs_view(out@) =~= crate::imports::strs_view(old(out)@)
                + crate::imports::strs_view(ls@).take(k as int + 1));
        }
        k = k + 1;
    }
    proof {
        assert(crate::imports::strs_view(ls@).take(ls@.len() as int) =~= crate::imports::strs_view(
            ls@,
        ));
    }
}

/// Translate a whole foreign block under the given link name. The first
/// untranslatable parameter or return type reports the failure, and the
/// lines rendered up to that point — earlier declarations, and the failing
/// declaration's header and earlier parameters — stay in the output.
#[verifier::loop_isolation(false)]
pub fn translate_foreign_mod(items: &Vec<ForeignItem>, link: &str) -> (r: (
    Vec<String>,
    Option<Error>,
))
    ensures
        crate::imports::strs_view(r.0@) == foreign_items_out(items@, link@).0,
        (r.1 is None) == foreign_items_out(items@, link@).1,
        r.1 is Some ==> r.1->Some_0 is UnsupportedType,
{
    let mut out: Vec<String> = Vec::new();
    let ghost mut ap: Seq<Seq<char>> = Seq::empty();
    let mut i: usize = 0;
    proof {
        assert(items@.skip(0) =~= items@);
        assert(crate::imports::strs_view(out@) =~= ap);
    }
    while i < items.len()
        invariant
            i <= items@.len(),
            crate::imports::strs_view(out@) == ap,
            foreign_items_out(items@, link@).0 == ap + foreign_items_out(
                items@.skip(i as int),
                link@,
            ).0,
            foreign_items_out(items@, link@).1 == foreign_items_out(
                items@.skip(i as int),
                link@,
            ).1,
        decreases items@.len() - i,
    {
        proof {
            assert(items@.skip(i as int)[0] == items@[i as int]);
            assert(items@.skip(i as int).drop_first() =~= items@.skip(i as int + 1));
        }
        match &items[i] {
            ForeignItem::Func { func } => {
                let ghost h = foreign_fn_out(*func, link@);
                match render_foreign_fn(func, link, &mut out) {
                    None => {
                        proof {
                            assert(ap + (h.0 + foreign_items_out(
                                items@.skip(i as int + 1),
                                link@,
                            ).0) =~= (ap + h.0) + foreign_items_out(
                                items@.skip(i as int + 1),
                                link@,
                            ).0);
                            ap = ap + h.0;
                        }
                    },
                    Some(e) => {
                        proof {
                            assert(foreign_items_out(items@.skip(i as int), link@).0 == h.0);
                        }
                        return (out, Some(e));
                    },
                }
            },
            ForeignItem::Other { dump } => {
                let ghost dv = dump@;
                out.push(dump.clone());
                proof {
                    assert(crate::imports::strs_view(out@) =~= ap + seq![dv]);
                    assert(ap + (seq![dv] + foreign_items_out(items@.skip(i as int + 1), link@).0)
                        =~= (ap + seq![dv]) + foreign_items_out(items@.skip(i as int + 1), link@).0);
                    ap = ap + seq![dv];
                }
            },
        }
        i = i + 1;
    }
    proof {
        assert(items@.skip(items@.len() as int) =~= Seq::<ForeignItem>::empty());
        assert(ap + Seq::<Seq<char>>::empty() =~= ap);
    }
    (out, None)
}

} // verus!
