//! The type, expression and visibility mappers: pure translations from the
//! source model to target-syntax text fragments.

use vstd::prelude::*;

use crate::ast::{ConstExpr, Error, TypeDesc, Visibility};
use crate::strutil::str_eq;

verus! {

pub open spec fn vis_text(v: Visibility) -> Seq<char> {
    if v is Public {
        "pub "@
    } else {
        Seq::<char>::empty()
    }
}

/// The emitted visibility keyword prefix.
pub fn vis_prefix(v: &Visibility) -> (r: &'static str)
    ensures
        r@ == vis_text(*v),
{
    match v {
        Visibility::Public => "pub ",
        Visibility::Private => {
            let r = "";
            proof {
                reveal_strlit("");
                assert(r@ =~= Seq::<char>::empty());
            }
            r
        },
    }
}

/// The fixed rename table for platform scalar aliases; names absent from
/// the table pass through unchanged.
pub open spec fn rename_spec(name: Seq<char>) -> Seq<char> {
    if name == "c_uchar"@ {
        "u8"@
    } else if name == "c_char"@ || name == "c_schar"@ {
        "i8"@
    } else if name == "__uint64"@ {
        "u64"@
    } else if name == "__int64"@ {
        "i64"@
    } else {
        name
    }
}

/// Apply the scalar rename table to one type name.
pub fn rename_ident(name: String) -> (r: String)
    ensures
        r@ == rename_spec(name@),
{
    if str_eq(name.as_str(), "c_uchar") {
        "u8".to_owned()
    } else if str_eq(name.as_str(), "c_char") {
        "i8".to_owned()
    } else if str_eq(name.as_str(), "c_schar") {
        "i8".to_owned()
    } else if str_eq(name.as_str(), "__uint64") {
        "u64".to_owned()
    } else if str_eq(name.as_str(), "__int64") {
        "i64".to_owned()
    } else {
        name
    }
}

/// The text a type translates to, or `None` when it has no translation.
/// Every pointer becomes a nullable pointer (`?*`), with a `const `
/// qualifier exactly when the source pointer was immutable.
pub open spec fn type_text(t: TypeDesc) -> Option<Seq<char>>
    decreases t,
{
    match t {
        TypeDesc::Named { name } => Some(rename_spec(name@)),
        TypeDesc::Ptr { is_const, pointee } => match type_text(*pointee) {
            Some(inner) => Some(
                "?*"@ + (if is_const {
                    "const "@
                } else {
                    Seq::<char>::empty()
                }) + inner,
            ),
            None => None,
        },
        TypeDesc::Unsupported => None,
    }
}

/// Translate a type to target text; fails exactly on the shapes that have
/// no translation.
pub fn translate_type(t: &TypeDesc) -> (r: Result<String, Error>)
    ensures
        (r is Ok) == (type_text(*t) is Some),
        r is Ok ==> Some(r->Ok_0@) == type_text(*t),
        r is Err ==> r->Err_0 is UnsupportedType,
    decreases *t,
{
    match t {
        TypeDesc::Named { name } => Ok(rename_ident(name.clone())),
        TypeDesc::Ptr { is_const, pointee } => match translate_type(pointee) {
            Ok(inner) => {
                let mut s = "?*".to_owned();
                if *is_const {
                    s.append("const ");
                }
                s.append(inner.as_str());
                proof {
                    if !*is_const {
                        assert(s@ =~= "?*"@ + Seq::<char>::empty() + inner@);
                    }
                }
                Ok(s)
            },
            Err(e) => Err(e),
        },
        TypeDesc::Unsupported => Err(Error::UnsupportedType),
    }
}

/// The text for a declared return type; a missing return type emits empty
/// (void) text.
pub open spec fn ret_text(r: Option<TypeDesc>) -> Option<Seq<char>> {
    match r {
        Some(t) => type_text(t),
        None => Some(Seq::<char>::empty()),
    }
}

/// Translate a foreign function's return type.
pub fn translate_ret_type(r: &Option<TypeDesc>) -> (res: Result<String, Error>)
    ensures
        (res is Ok) == (ret_text(*r) is Some),
        res is Ok ==> Some(res->Ok_0@) == ret_text(*r),
        res is Err ==> res->Err_0 is UnsupportedType,
{
    match r {
        Some(t) => translate_type(t),
        None => {
            let s = "".to_owned();
            proof {
                reveal_strlit("");
                assert(s@ =~= Seq::<char>::empty());
            }
            Ok(s)
        },
    }
}

/// The text a constant initializer translates to: the literal itself for an
/// integer literal, the fixed placeholder for every other expression.
pub open spec fn expr_text(e: ConstExpr) -> Seq<char> {
    match e {
        ConstExpr::IntLit { text } => text@,
        ConstExpr::Other => "???"@,
    }
}

/// Translate a constant initializer; total, never fails.
pub fn translate_expr(e: &ConstExpr) -> (r: String)
    ensures
        r@ == expr_text(*e),
{
    match e {
        ConstExpr::IntLit { text } => text.clone(),
        ConstExpr::Other => "???".to_owned(),
    }
}

/// The rename table maps each platform scalar alias to its documented
/// fixed-width replacement, and leaves every other name unchanged.
pub proof fn lemma_rename_table(name: Seq<char>)
    ensures
        rename_spec("c_uchar"@) == "u8"@,
        rename_spec("c_char"@) == "i8"@,
        rename_spec("c_schar"@) == "i8"@,
        rename_spec("__uint64"@) == "u64"@,
        rename_spec("__int64"@) == "i64"@,
        name != "c_uchar"@ && name != "c_char"@ && name != "c_schar"@ && name != "__uint64"@
            && name != "__int64"@ ==> rename_spec(name) == name,
{
    reveal_strlit("c_uchar");
    reveal_strlit("c_char");
    reveal_strlit("c_schar");
    reveal_strlit("__uint64");
    reveal_strlit("__int64");
    assert("c_uchar"@.len() == 7);
    assert("c_char"@.len() == 6);
    assert("c_schar"@.len() == 7);
    assert("__uint64"@.len() == 8);
    assert("__int64"@.len() == 7);
    assert("c_uchar"@[0] == 'c' && "c_schar"@[2] == 's' && "c_uchar"@[2] == 'u');
    assert("__int64"@[2] == 'i' && "c_uchar"@[2] == 'u' && "c_schar"@[2] == 's');
}

/// Every translated pointer begins with the nullable-pointer marker `?*`,
/// carries the `const ` qualifier text exactly when the source pointer was
/// immutable, and translates exactly when its pointee does.
pub proof fn lemma_pointer_text(is_const: bool, pointee: TypeDesc)
    ensures
        type_text(TypeDesc::Ptr { is_const, pointee: Box::new(pointee) }) is Some <==> type_text(
            pointee,
        ) is Some,
        type_text(pointee) matches Some(inner) ==> {
            let r = type_text(TypeDesc::Ptr { is_const, pointee: Box::new(pointee) })->Some_0;
            &&& r == "?*"@ + (if is_const {
                "const "@
            } else {
                Seq::<char>::empty()
            }) + inner
            &&& r.len() >= 2 && r.take(2) == "?*"@
            &&& is_const ==> r.len() >= 8 && r.take(8) == "?*const "@
            &&& !is_const ==> r == "?*"@ + inner
        },
{
    reveal_strlit("?*");
    reveal_strlit("const ");
    reveal_strlit("?*const ");
    if type_text(pointee) is Some {
        let inner = type_text(pointee)->Some_0;
        let r = type_text(TypeDesc::Ptr { is_const, pointee: Box::new(pointee) })->Some_0;
        if is_const {
            assert(r.take(2) =~= "?*"@);
            assert(r.take(8) =~= "?*const "@);
        } else {
            assert(r =~= "?*"@ + inner);
            assert(r.take(2) =~= "?*"@);
        }
    }
}

/// The translated pointer text carries the `?*const ` prefix if and only
/// if the source pointer was immutable, whenever the pointee's own text
/// does not itself begin with `const ` (as no renamed or identifier-shaped
/// scalar's does).
pub proof fn lemma_pointer_const_marker(is_const: bool, pointee: TypeDesc)
    requires
        type_text(pointee) is Some,
        !(type_text(pointee)->Some_0.len() >= 6 && type_text(pointee)->Some_0.take(6)
            == "const "@),
    ensures
        ({
            let r = type_text(TypeDesc::Ptr { is_const, pointee: Box::new(pointee) })->Some_0;
            is_const <==> (r.len() >= 8 && r.take(8) == "?*const "@)
        }),
{
    reveal_strlit("?*");
    reveal_strlit("const ");
    reveal_strlit("?*const ");
    lemma_pointer_text(is_const, pointee);
    let inner = type_text(pointee)->Some_0;
    let r = type_text(TypeDesc::Ptr { is_const, pointee: Box::new(pointee) })->Some_0;
    if !is_const {
        assert(r == "?*"@ + inner);
        if r.len() >= 8 && r.take(8) == "?*const "@ {
            assert(inner.len() >= 6);
            assert forall|j: int| 0 <= j < 6 implies inner.take(6)[j] == "const "@[j] by {
                assert(r[2 + j] == inner[j]);
                assert(r.take(8)[2 + j] == "?*const "@[2 + j]);
            }
            assert(inner.take(6) =~= "const "@);
            assert(false);
        }
    }
}

} // verus!
