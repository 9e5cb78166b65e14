//! The two declaration-generating macro handlers. A `STRUCT` call's token
//! payload is re-parsed as a field-bearing record definition and emitted as
//! an external-layout record; a `DECLARE_HANDLE` call emits an opaque type
//! and a nullable pointer to it. Any other macro name is an unhandled item.
//!
//! Record parsing is two-phase, like a front-end parser followed by
//! translation: the payload's shape is checked whole before any line is
//! emitted, so a malformed payload emits nothing; an untranslatable field
//! type is then a best-effort failure that keeps the record header and the
//! field lines already rendered.

use vstd::prelude::*;

use crate::ast::{Delim, Error, MacroPath, Outcome, Token};
use crate::imports::strs_view;
use crate::mapper::rename_spec;
use crate::mapper::rename_ident;
use crate::strutil::str_eq;

verus! {

/// The macro path's single unqualified identifier, when it has one.
pub open spec fn single_ident(p: MacroPath) -> Option<Seq<char>> {
    if p.segments@.len() == 1 && !p.segments@[0].has_args {
        Some(p.segments@[0].ident@)
    } else {
        None
    }
}

/// The name a macro was invoked by, when its path is a single unqualified
/// identifier.
pub fn path_as_single_ident(p: &MacroPath) -> (r: Option<String>)
    ensures
        (r is Some) == (single_ident(*p) is Some),
        r is Some ==> r->Some_0@ == single_ident(*p)->Some_0,
{
    if p.segments.len() == 1 && !p.segments[0].has_args {
        Some(p.segments[0].ident.clone())
    } else {
        None
    }
}

/// The target text of a type written as a token extent: a single
/// identifier, or `*const`/`*mut` followed by a type; `None` for every
/// other shape.
pub open spec fn token_type_text(toks: Seq<Token>) -> Option<Seq<char>>
    decreases toks.len(),
{
    if toks.len() == 1 {
        match toks[0] {
            Token::Ident { text } => Some(rename_spec(text@)),
            _ => None,
        }
    } else if toks.len() >= 2 {
        match (toks[0], toks[1]) {
            (Token::Punct { ch }, Token::Ident { text }) => {
                if ch == '*' && (text@ == "const"@ || text@ == "mut"@) {
                    match token_type_text(toks.skip(2)) {
                        Some(inner) => Some(
                            "?*"@ + (if text@ == "const"@ {
                                "const "@
                            } else {
                                Seq::<char>::empty()
                            }) + inner,
                        ),
                        None => None,
                    }
                } else {
                    None
                }
            },
            _ => None,
        }
    } else {
        None
    }
}

/// Translate the type written in `toks[start..end]`; fails exactly when the
/// extent is not in the whitelisted type subset.
fn type_from_tokens(toks: &Vec<Token>, start: usize, end: usize) -> (r: Result<String, Error>)
    requires
        start <= end <= toks@.len(),
    ensures
        match token_type_text(toks@.subrange(start as int, end as int)) {
            Some(t) => r is Ok && r->Ok_0@ == t,
            None => r is Err && r->Err_0 is UnsupportedType,
        },
    decreases end - start,
{
    let ghost ext = toks@.subrange(start as int, end as int);
    if end - start == 1 {
        if let Token::Ident { text } = &toks[start] {
            proof {
                assert(ext[0] == toks@[start as int]);
            }
            return Ok(rename_ident(text.clone()));
        }
        return Err(Error::UnsupportedType);
    }
    if end - start >= 2 {
        proof {
            assert(ext[0] == toks@[start as int]);
            assert(ext[1] == toks@[start as int + 1]);
        }
        if let Token::Punct { ch } = &toks[start] {
            if *ch == '*' {
                if let Token::Ident { text } = &toks[start + 1] {
                    let is_const = str_eq(text.as_str(), "const");
                    let is_mut = str_eq(text.as_str(), "mut");
                    if is_const || is_mut {
                        proof {
                            assert(ext.skip(2) =~= toks@.subrange(start as int + 2, end as int));
                        }
                        match type_from_tokens(toks, start + 2, end) {
                            Ok(inner) => {
                                let mut s = "?*".to_owned();
                                if is_const {
                                    s.append("const ");
                                }
                                s.append(inner.as_str());
                                proof {
                                    if !is_const {
                                        assert(s@ =~= "?*"@ + Seq::<char>::empty() + inner@);
                                    }
                                }
                                return Ok(s);
                            },
                            Err(e) => {
                                return Err(e);
                            },
                        }
                    }
                }
            }
        }
        return Err(Error::UnsupportedType);
    }
    Err(Error::UnsupportedType)
}

pub open spec fn is_comma(t: Token) -> bool {
    t matches Token::Punct { ch: ',' }
}

/// The position of the first comma token at or after `i`, or the length
/// when there is none.
pub open spec fn first_comma(toks: Seq<Token>, i: int) -> int
    decreases toks.len() - i when 0 <= i <= toks.len()
{
    if i >= toks.len() {
        toks.len() as int
    } else if is_comma(toks[i]) {
        i
    } else {
        first_comma(toks, i + 1)
    }
}

proof fn lemma_first_comma_at(toks: Seq<Token>, i: int, q: int)
    requires
        0 <= i <= q <= toks.len(),
        forall|j: int| i <= j < q ==> !is_comma(#[trigger] toks[j]),
        q < toks.len() ==> is_comma(toks[q]),
    ensures
        first_comma(toks, i) == q,
    decreases q - i,
{
    if i < q {
        lemma_first_comma_at(toks, i + 1, q);
    }
}

proof fn lemma_first_comma_bounds(toks: Seq<Token>, i: int)
    requires
        0 <= i <= toks.len(),
    ensures
        i <= first_comma(toks, i) <= toks.len(),
    decreases toks.len() - i,
{
    if i < toks.len() && !is_comma(toks[i]) {
        lemma_first_comma_bounds(toks, i + 1);
    }
}

/// Skip an optional visibility prefix: a `pub` identifier, optionally
/// followed by a parenthesized restriction.
pub open spec fn strip_vis(toks: Seq<Token>) -> Seq<Token> {
    if toks.len() >= 1 && (toks[0] matches Token::Ident { text } && text@ == "pub"@) {
        if toks.len() >= 2 && (toks[1] matches Token::Group { delim: Delim::Paren, .. }) {
            toks.skip(2)
        } else {
            toks.skip(1)
        }
    } else {
        toks
    }
}

/// Whether a record body's tokens are a well-formed field list: fields of
/// the shape `[vis] name : type-extent`, separated by commas, every type
/// extent non-empty. The emitted field carries no visibility of its own.
pub open spec fn fields_wf(toks: Seq<Token>) -> bool
    decreases toks.len() via fields_wf_decreases
{
    if toks.len() == 0 {
        true
    } else {
        let t = strip_vis(toks);
        if t.len() >= 2 && (t[0] matches Token::Ident { .. }) && (t[1] matches Token::Punct {
            ch: ':',
        }) {
            let q = first_comma(t, 2);
            if q == 2 {
                false
            } else {
                let rest_start = if q < t.len() {
                    q + 1
                } else {
                    q
                };
                fields_wf(t.skip(rest_start))
            }
        } else {
            false
        }
    }
}

#[via_fn]
proof fn fields_wf_decreases(toks: Seq<Token>) {
    if toks.len() > 0 {
        let t = strip_vis(toks);
        if t.len() >= 2 {
            lemma_first_comma_bounds(t, 2);
        }
    }
}

/// The field lines of a well-formed record body up to the first field
/// whose type extent is outside the whitelisted subset, and whether every
/// field translated. The failing field contributes no line; the lines of
/// the fields before it are kept.
pub open spec fn fields_out(toks: Seq<Token>) -> (Seq<Seq<char>>, bool)
    decreases toks.len() via fields_out_decreases
{
    if toks.len() == 0 {
        (Seq::empty(), true)
    } else {
        let t = strip_vis(toks);
        if t.len() >= 2 && (t[0] matches Token::Ident { .. }) && (t[1] matches Token::Punct {
            ch: ':',
        }) {
            let q = first_comma(t, 2);
            if q == 2 {
                (Seq::empty(), false)
            } else {
                let rest_start = if q < t.len() {
                    q + 1
                } else {
                    q
                };
                match (t[0], token_type_text(t.subrange(2, q))) {
                    (Token::Ident { text }, Some(ty)) => {
                        let rest = fields_out(t.skip(rest_start));
                        (seq!["    "@ + text@ + ": "@ + ty + ","@] + rest.0, rest.1)
                    },
                    _ => (Seq::empty(), false),
                }
            }
        } else {
            (Seq::empty(), false)
        }
    }
}

#[via_fn]
proof fn fields_out_decreases(toks: Seq<Token>) {
    if toks.len() > 0 {
        let t = strip_vis(toks);
        if t.len() >= 2 {
            lemma_first_comma_bounds(t, 2);
        }
    }
}

pub open spec fn record_header(name: Seq<char>) -> Seq<char> {
    "pub const "@ + name + " = extern struct {"@
}

/// An optional generic-parameter list between the record name and its
/// body: empty, or bracketed by `<` and `>`. Its contents are skipped.
pub open spec fn generics_ok(mid: Seq<Token>) -> bool {
    mid.len() == 0 || (mid.len() >= 2 && (mid[0] matches Token::Punct { ch: '<' }) && (
    mid.last() matches Token::Punct { ch: '>' }))
}

/// What a `STRUCT` macro call's payload emits. The payload must be
/// `[vis] struct <name> [<generics>] { <fields> }`; a malformed payload is
/// a syntax failure that emits nothing, an untranslatable field type is a
/// type failure that keeps the record header and the earlier field lines.
/// The emitted record is always public, whatever the source's visibility.
pub open spec fn struct_macro_out(toks: Seq<Token>) -> Outcome {
    let body = strip_vis(toks);
    if body.len() >= 3 && (body[0] matches Token::Ident { text } && text@ == "struct"@) && (
    body[1] matches Token::Ident { .. }) && (body.last() matches Token::Group {
        delim: Delim::Brace,
        ..
    }) && generics_ok(body.subrange(2, body.len() - 1)) {
        match (body[1], body.last()) {
            (Token::Ident { text: name }, Token::Group { delim, tokens }) => {
                if !fields_wf(tokens@) {
                    Outcome::SyntaxErr
                } else {
                    let fo = fields_out(tokens@);
                    if fo.1 {
                        Outcome::Lines(seq![record_header(name@)] + fo.0 + seq!["};"@])
                    } else {
                        Outcome::TypeErr(seq![record_header(name@)] + fo.0)
                    }
                }
            },
            _ => Outcome::SyntaxErr,
        }
    } else {
        Outcome::SyntaxErr
    }
}

fn is_comma_tok(t: &Token) -> (r: bool)
    ensures
        r == is_comma(*t),
{
    match t {
        Token::Punct { ch } => *ch == ',',
        _ => false,
    }
}

/// Skip an optional field visibility prefix at `pos`; returns the position
/// after it.
fn skip_vis_tokens(ftoks: &Vec<Token>, pos: usize) -> (p: usize)
    requires
        pos < ftoks@.len(),
    ensures
        pos <= p <= ftoks@.len(),
        strip_vis(ftoks@.skip(pos as int)) == ftoks@.skip(p as int),
{
    let ghost suf = ftoks@.skip(pos as int);
    proof {
        assert(suf[0] == ftoks@[pos as int]);
        if suf.len() >= 2 {
            assert(suf[1] == ftoks@[pos as int + 1]);
        }
    }
    let is_pub = match &ftoks[pos] {
        Token::Ident { text } => str_eq(text.as_str(), "pub"),
        _ => false,
    };
    if !is_pub {
        return pos;
    }
    if ftoks.len() - pos > 1 {
        let paren = match &ftoks[pos + 1] {
            Token::Group { delim, .. } => matches!(delim, Delim::Paren),
            _ => false,
        };
        if paren {
            proof {
                assert(suf.skip(2) =~= ftoks@.skip(pos as int + 2));
            }
            return pos + 2;
        }
    }
    proof {
        assert(suf.skip(1) =~= ftoks@.skip(pos as int + 1));
    }
    pos + 1
}

/// Find the first comma at or after `from`; returns its position, or the
/// length when there is none.
#[verifier::loop_isolation(false)]
fn scan_comma(ftoks: &Vec<Token>, from: usize) -> (q: usize)
    requires
        from <= ftoks@.len(),
    ensures
        from <= q <= ftoks@.len(),
        forall|j: int| from <= j < q ==> !is_comma(#[trigger] ftoks@[j]),
        q < ftoks@.len() ==> is_comma(ftoks@[q as int]),
{
    let mut q: usize = from;
    let mut found = false;
    while !found && q < ftoks.len()
        invariant
            from <= q <= ftoks@.len(),
            forall|j: int| from <= j < q ==> !is_comma(#[trigger] ftoks@[j]),
            found ==> q < ftoks@.len() && is_comma(ftoks@[q as int]),
        decreases ftoks@.len() - q + (if found {
            0int
        } else {
            1int
        }),
    {
        if is_comma_tok(&ftoks[q]) {
            found = true;
        } else {
            q = q + 1;
        }
    }
    q
}

/// Whether a record body's tokens are a well-formed field list; checked
/// whole, before anything is emitted.
#[verifier::loop_isolation(false)]
fn fields_structure_ok(ftoks: &Vec<Token>) -> (r: bool)
    ensures
        r == fields_wf(ftoks@),
{
    let mut pos: usize = 0;
    proof {
        assert(ftoks@.skip(0) =~= ftoks@);
    }
    while pos < ftoks.len()
        invariant
            pos <= ftoks@.len(),
            fields_wf(ftoks@) == fields_wf(ftoks@.skip(pos as int)),
        decreases ftoks@.len() - pos,
    {
        let ghost suf = ftoks@.skip(pos as int);
        let p = skip_vis_tokens(ftoks, pos);
        let ghost t = strip_vis(suf);
        proof {
            assert(t == ftoks@.skip(p as int));
            assert(t.len() == ftoks@.len() - p);
            assert forall|j: int| 0 <= j < t.len() implies t[j] == ftoks@[p + j] by {}
        }
        if ftoks.len() - p < 2 {
            return false;
        }
        let name_ok = match &ftoks[p] {
            Token::Ident { .. } => true,
            _ => false,
        };
        let colon_ok = match &ftoks[p + 1] {
            Token::Punct { ch } => *ch == ':',
            _ => false,
        };
        if !name_ok || !colon_ok {
            return false;
        }
        let q = scan_comma(ftoks, p + 2);
        proof {
            assert forall|j: int| 2 <= j < q - p implies !is_comma(#[trigger] t[j]) by {
                assert(t[j] == ftoks@[p + j]);
            }
            if q < ftoks@.len() {
                assert(is_comma(t[q - p]));
            }
            lemma_first_comma_at(t, 2, q - p);
        }
        if q == p + 2 {
            return false;
        }
        let next_pos = if q < ftoks.len() {
            q + 1
        } else {
            q
        };
        proof {
            assert(ftoks@.skip(next_pos as int) =~= t.skip(
                if q - p < t.len() {
                    q - p + 1
                } else {
                    q - p
                },
            ));
        }
        pos = next_pos;
    }
    true
}

/// Append the field lines of a well-formed record body; on the first
/// untranslatable field type the lines already appended stay and the
/// failure is reported.
#[verifier::loop_isolation(false)]
#[verifier::rlimit(60)]
fn render_fields(ftoks: &Vec<Token>, out: &mut Vec<String>) -> (r: Option<Error>)
    requires
        fields_wf(ftoks@),
    ensures
        strs_view(final(out)@) == strs_view(old(out)@) + fields_out(ftoks@).0,
        (r is None) == fields_out(ftoks@).1,
        r is Some ==> r->Some_0 is UnsupportedType,
{
    let ghost out0 = strs_view(out@);
    let ghost mut ap: Seq<Seq<char>> = Seq::empty();
    let mut pos: usize = 0;
    proof {
        assert(ftoks@.skip(0) =~= ftoks@);
        assert(strs_view(out@) =~= out0 + ap);
    }
    while pos < ftoks.len()
        invariant
            pos <= ftoks@.len(),
            strs_view(out@) == out0 + ap,
            fields_wf(ftoks@.skip(pos as int)),
            fields_out(ftoks@).0 == ap + fields_out(ftoks@.skip(pos as int)).0,
            fields_out(ftoks@).1 == fields_out(ftoks@.skip(pos as int)).1,
        decreases ftoks@.len() - pos,
    {
        let ghost suf = ftoks@.skip(pos as int);
        let p = skip_vis_tokens(ftoks, pos);
        let ghost t = strip_vis(suf);
        proof {
            assert(t == ftoks@.skip(p as int));
            assert(t.len() == ftoks@.len() - p);
            assert forall|j: int| 0 <= j < t.len() implies t[j] == ftoks@[p + j] by {}
        }
        let name = match &ftoks[p] {
            Token::Ident { text } => text.clone(),
            _ => {
                proof {
                    assert(false);
                }
                return Some(Error::UnsupportedType);
            },
        };
        let q = scan_comma(ftoks, p + 2);
        proof {
            assert forall|j: int| 2 <= j < q - p implies !is_comma(#[trigger] t[j]) by {
                assert(t[j] == ftoks@[p + j]);
            }
            if q < ftoks@.len() {
                assert(is_comma(t[q - p]));
            }
            lemma_first_comma_at(t, 2, q - p);
            assert(t.subrange(2, q - p) =~= ftoks@.subrange(p as int + 2, q as int));
        }
        let ty = match type_from_tokens(ftoks, p + 2, q) {
            Ok(ty) => ty,
            Err(e) => {
                proof {
                    assert(fields_out(suf).0 =~= Seq::<Seq<char>>::empty());
                    assert(ap + Seq::<Seq<char>>::empty() =~= ap);
                }
                return Some(e);
            },
        };
        let mut line = "    ".to_owned();
        line.append(name.as_str());
        line.append(": ");
        line.append(ty.as_str());
        line.append(",");
        let ghost lv = line@;
        proof {
            assert(lv =~= "    "@ + name@ + ": "@ + ty@ + ","@);
        }
        let ghost o_pre = strs_view(out@);
        out.push(line);
        let next_pos = if q < ftoks.len() {
            q + 1
        } else {
            q
        };
        proof {
            assert(ftoks@.skip(next_pos as int) =~= t.skip(
                if q - p < t.len() {
                    q - p + 1
                } else {
                    q - p
                },
            ));
            assert(strs_view(out@) =~= o_pre.push(lv));
            assert(o_pre.push(lv) =~= out0 + (ap + seq![lv]));
            assert(fields_out(suf).0 == seq![lv] + fields_out(ftoks@.skip(next_pos as int)).0);
            assert(ap + (seq![lv] + fields_out(ftoks@.skip(next_pos as int)).0) =~= (ap + seq![lv])
                + fields_out(ftoks@.skip(next_pos as int)).0);
            ap = ap + seq![lv];
        }
        pos = next_pos;
    }
    proof {
        assert(ap + Seq::<Seq<char>>::empty() =~= ap);
    }
    None
}

/// Translate a `STRUCT` macro call's payload into an external-layout
/// record declaration. A payload that is not a record emits nothing; an
/// untranslatable field type keeps the header and earlier field lines
/// beside the failure.
pub fn translate_struct_macro(toks: &Vec<Token>) -> (r: (Vec<String>, Option<Error>))
    ensures
        match struct_macro_out(toks@) {
            Outcome::Lines(ls) => r.1 is None && strs_view(r.0@) == ls,
            Outcome::TypeErr(pl) => (r.1 matches Some(e) && e is UnsupportedType) && strs_view(
                r.0@,
            ) == pl,
            Outcome::SyntaxErr => (r.1 matches Some(e) && e is UnsupportedSyntax) && r.0@.len()
                == 0,
            _ => false,
        },
{
    if toks.len() == 0 {
        return (Vec::new(), Some(Error::UnsupportedSyntax));
    }
    let start = skip_vis_tokens(toks, 0);
    let ghost body = strip_vis(toks@);
    proof {
        assert(toks@.skip(0) =~= toks@);
        assert(body == toks@.skip(start as int));
        assert(body.len() == toks@.len() - start);
        assert forall|j: int| 0 <= j < body.len() implies body[j] == toks@[start + j] by {}
    }
    if toks.len() - start < 3 {
        return (Vec::new(), Some(Error::UnsupportedSyntax));
    }
    let kw_ok = match &toks[start] {
        Token::Ident { text } => str_eq(text.as_str(), "struct"),
        _ => false,
    };
    if !kw_ok {
        return (Vec::new(), Some(Error::UnsupportedSyntax));
    }
    let name = match &toks[start + 1] {
        Token::Ident { text } => text.clone(),
        _ => {
            return (Vec::new(), Some(Error::UnsupportedSyntax));
        },
    };
    // an optional generic-parameter list before the body is skipped
    let mid_len = toks.len() - 1 - (start + 2);
    proof {
        assert(body.subrange(2, body.len() - 1).len() == mid_len);
        if mid_len > 0 {
            assert(body.subrange(2, body.len() - 1)[0] == toks@[start as int + 2]);
            assert(body.subrange(2, body.len() - 1).last() == toks@[toks@.len() - 2]);
        }
    }
    if mid_len > 0 {
        let open_ok = match &toks[start + 2] {
            Token::Punct { ch } => *ch == '<',
            _ => false,
        };
        let close_ok = match &toks[toks.len() - 2] {
            Token::Punct { ch } => *ch == '>',
            _ => false,
        };
        if mid_len < 2 || !open_ok || !close_ok {
            return (Vec::new(), Some(Error::UnsupportedSyntax));
        }
    }
    proof {
        assert(body.last() == toks@[toks@.len() - 1]);
    }
    match &toks[toks.len() - 1] {
        Token::Group { delim, tokens } => {
            if !matches!(delim, Delim::Brace) {
                return (Vec::new(), Some(Error::UnsupportedSyntax));
            }
            if !fields_structure_ok(tokens) {
                return (Vec::new(), Some(Error::UnsupportedSyntax));
            }
            let mut out: Vec<String> = Vec::new();
            let mut header = "pub const ".to_owned();
            header.append(name.as_str());
            header.append(" = extern struct {");
            let ghost h = header@;
            proof {
                assert(h =~= record_header(name@));
            }
            out.push(header);
            proof {
                assert(strs_view(out@) =~= seq![record_header(name@)]);
            }
            match render_fields(tokens, &mut out) {
                None => {},
                Some(e) => {
                    proof {
                        assert(strs_view(out@) =~= seq![record_header(name@)] + fields_out(
                            tokens@,
                        ).0);
                    }
                    return (out, Some(e));
                },
            }
            let ghost mid = strs_view(out@);
            out.push("};".to_owned());
            proof {
                assert(mid == seq![record_header(name@)] + fields_out(tokens@).0);
                assert(strs_view(out@) =~= mid.push("};"@));
                assert(mid.push("};"@) =~= seq![record_header(name@)] + fields_out(tokens@).0
                    + seq!["};"@]);
            }
            (out, None)
        },
        _ => (Vec::new(), Some(Error::UnsupportedSyntax)),
    }
}

/// What a `DECLARE_HANDLE` macro call emits: an opaque type bound to the
/// second identifier and a nullable pointer to it bound to the first; the
/// token between them is consumed unchecked. `None` when the two tokens are
/// missing or are not plain identifiers.
pub open spec fn declare_handle_out(toks: Seq<Token>) -> Option<Seq<Seq<char>>> {
    if toks.len() >= 3 {
        match (toks[0], toks[2]) {
            (Token::Ident { text: h }, Token::Ident { text: o }) => Some(
                seq![
                    "pub const "@ + o@ + " = @Type(.Opaque);"@,
                    "pub const "@ + h@ + " = ?*"@ + o@ + ";"@,
                ],
            ),
            _ => None,
        }
    } else {
        None
    }
}

/// Translate a `DECLARE_HANDLE` macro call's payload.
pub fn translate_declare_handle(toks: &Vec<Token>) -> (r: Result<Vec<String>, Error>)
    ensures
        match declare_handle_out(toks@) {
            Some(ls) => r is Ok && strs_view(r->Ok_0@) == ls,
            None => r is Err && r->Err_0 is NotYetImplemented,
        },
{
    if toks.len() >= 3 {
        if let Token::Ident { text: handle } = &toks[0] {
            if let Token::Ident { text: opaque } = &toks[2] {
                let mut l1 = "pub const ".to_owned();
                l1.append(opaque.as_str());
                l1.append(" = @Type(.Opaque);");
                let mut l2 = "pub const ".to_owned();
                l2.append(handle.as_str());
                l2.append(" = ?*");
                l2.append(opaque.as_str());
                l2.append(";");
                let mut out: Vec<String> = Vec::new();
                out.push(l1);
                out.push(l2);
                proof {
                    assert(strs_view(out@) =~= declare_handle_out(toks@)->Some_0);
                }
                return Ok(out);
            }
        }
    }
    Err(Error::NotYetImplemented)
}

/// The outcome of a macro-call item: the two recognized names translate,
/// every other single-identifier name is an unhandled item carrying that
/// name, and a qualified macro path is a soft not-yet-implemented skip.
pub open spec fn macro_out(path: MacroPath, toks: Seq<Token>) -> Outcome {
    match single_ident(path) {
        Some(id) => if id == "STRUCT"@ {
            struct_macro_out(toks)
        } else if id == "DECLARE_HANDLE"@ {
            match declare_handle_out(toks) {
                Some(ls) => Outcome::Lines(ls),
                None => Outcome::Nyi,
            }
        } else {
            Outcome::Unhandled(id)
        },
        None => Outcome::Nyi,
    }
}

/// Translate a macro-call item; on a type failure the lines the call had
/// already rendered come back beside the error.
pub fn translate_macro(path: &MacroPath, toks: &Vec<Token>) -> (r: (Vec<String>, Option<Error>))
    ensures
        match macro_out(*path, toks@) {
            Outcome::Lines(ls) => r.1 is None && strs_view(r.0@) == ls,
            Outcome::TypeErr(pl) => (r.1 matches Some(e) && e is UnsupportedType) && strs_view(
                r.0@,
            ) == pl,
            Outcome::SyntaxErr => (r.1 matches Some(e) && e is UnsupportedSyntax) && r.0@.len()
                == 0,
            Outcome::Unhandled(n) => (r.1 matches Some(e) && (e matches Error::Unhandled { name }
                && name@ == n)) && r.0@.len() == 0,
            Outcome::Nyi => (r.1 matches Some(e) && e is NotYetImplemented) && r.0@.len() == 0,
        },
{
    match path_as_single_ident(path) {
        Some(id) => {
            if str_eq(id.as_str(), "STRUCT") {
                translate_struct_macro(toks)
            } else if str_eq(id.as_str(), "DECLARE_HANDLE") {
                match translate_declare_handle(toks) {
                    Ok(ls) => (ls, None),
                    Err(e) => (Vec::new(), Some(e)),
                }
            } else {
                proof {
                    reveal_strlit("STRUCT");
                    reveal_strlit("DECLARE_HANDLE");
                }
                (Vec::new(), Some(Error::Unhandled { name: id }))
            }
        },
        None => (Vec::new(), Some(Error::NotYetImplemented)),
    }
}

} // verus!
