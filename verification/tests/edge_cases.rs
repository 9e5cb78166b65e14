use zigbind::ast::{
    ArgName, ConstExpr, Delim, Error, ForeignArg, ForeignFn, ForeignItem, Item, MacroPath,
    PathSeg, Token, TypeDesc, UseTree, Visibility,
};
use zigbind::driver::{translate_items, translate_program, Cx};
use zigbind::macros::translate_struct_macro;
use zigbind::mapper::translate_type;

fn named(n: &str) -> TypeDesc {
    TypeDesc::Named { name: n.to_string() }
}

fn ptr(is_const: bool, pointee: TypeDesc) -> TypeDesc {
    TypeDesc::Ptr { is_const, pointee: Box::new(pointee) }
}

fn ident_tok(n: &str) -> Token {
    Token::Ident { text: n.to_string() }
}

fn punct(c: char) -> Token {
    Token::Punct { ch: c }
}

#[test]
fn pointer_deep_nesting() {
    let mut t = named("c_schar");
    for _ in 0..5 {
        t = ptr(true, t);
    }
    assert_eq!(
        translate_type(&t).unwrap(),
        "?*const ?*const ?*const ?*const ?*const i8"
    );
}

#[test]
fn ctypes_then_real_module() {
    // use ctypes::{c_int, c_uchar}; use winuser::MSG;
    let items = vec![
        Item::Use {
            vis: Visibility::Private,
            tree: UseTree::Step {
                segment: "ctypes".to_string(),
                rest: Box::new(UseTree::Group {
                    items: vec![
                        UseTree::Leaf { ident: "c_int".to_string() },
                        UseTree::Leaf { ident: "c_uchar".to_string() },
                    ],
                }),
            },
        },
        Item::Use {
            vis: Visibility::Private,
            tree: UseTree::Step {
                segment: "winuser".to_string(),
                rest: Box::new(UseTree::Leaf { ident: "MSG".to_string() }),
            },
        },
    ];
    let (lines, err) = translate_program(&items);
    assert!(err.is_none());
    assert_eq!(
        lines,
        vec![
            "".to_string(),
            "const winuser = @import(\"winuser.zig\");".to_string(),
            "const MSG = winuser.MSG;".to_string(),
        ]
    );
}

#[test]
fn alias_joins_full_path() {
    let items = vec![Item::Use {
        vis: Visibility::Public,
        tree: UseTree::Step {
            segment: "a".to_string(),
            rest: Box::new(UseTree::Step {
                segment: "b".to_string(),
                rest: Box::new(UseTree::Leaf { ident: "c".to_string() }),
            }),
        },
    }];
    let (lines, err) = translate_program(&items);
    assert!(err.is_none());
    assert_eq!(lines[2], "pub const c = a.b.c;");
}

#[test]
fn struct_macro_empty_record() {
    let toks = vec![
        ident_tok("struct"),
        ident_tok("EMPTY"),
        Token::Group { delim: Delim::Brace, tokens: vec![] },
    ];
    let (lines, err) = translate_struct_macro(&toks);
    assert!(err.is_none());
    assert_eq!(lines, vec!["pub const EMPTY = extern struct {".to_string(), "};".to_string()]);
}

#[test]
fn struct_macro_with_pub_prefix() {
    let toks = vec![
        ident_tok("pub"),
        ident_tok("struct"),
        ident_tok("P"),
        Token::Group {
            delim: Delim::Brace,
            tokens: vec![ident_tok("x"), punct(':'), ident_tok("__int64")],
        },
    ];
    let (lines, err) = translate_struct_macro(&toks);
    assert!(err.is_none());
    assert_eq!(
        lines,
        vec![
            "pub const P = extern struct {".to_string(),
            "    x: i64,".to_string(),
            "};".to_string(),
        ]
    );
}

#[test]
fn struct_macro_bad_field_type_aborts_run() {
    // a field whose type is a bracketed group is outside the whitelisted
    // subset: a hard type failure that stops the whole run, keeping the
    // record header and the field lines already rendered
    let toks = vec![
        ident_tok("struct"),
        ident_tok("BAD"),
        Token::Group {
            delim: Delim::Brace,
            tokens: vec![
                ident_tok("ok"),
                punct(':'),
                ident_tok("c_uchar"),
                punct(','),
                ident_tok("buf"),
                punct(':'),
                Token::Group { delim: Delim::Bracket, tokens: vec![ident_tok("u8")] },
            ],
        },
    ];
    let items = vec![
        Item::MacroCall {
            path: MacroPath {
                segments: vec![PathSeg { ident: "STRUCT".to_string(), has_args: false }],
            },
            tokens: toks,
        },
        Item::Const {
            vis: Visibility::Private,
            ident: "AFTER".to_string(),
            value: ConstExpr::IntLit { text: "1".to_string() },
        },
    ];
    let (lines, err) = translate_program(&items);
    assert!(matches!(err, Some(Error::UnsupportedType)));
    assert_eq!(
        lines,
        vec![
            "pub const BAD = extern struct {".to_string(),
            "    ok: u8,".to_string(),
        ]
    );
}

#[test]
fn struct_macro_field_visibility_is_accepted() {
    // STRUCT! { struct V { pub x: c_uchar, pub(crate) y: c_char } }
    let toks = vec![
        ident_tok("struct"),
        ident_tok("V"),
        Token::Group {
            delim: Delim::Brace,
            tokens: vec![
                ident_tok("pub"),
                ident_tok("x"),
                punct(':'),
                ident_tok("c_uchar"),
                punct(','),
                ident_tok("pub"),
                Token::Group { delim: Delim::Paren, tokens: vec![ident_tok("crate")] },
                ident_tok("y"),
                punct(':'),
                ident_tok("c_char"),
            ],
        },
    ];
    let (lines, err) = translate_struct_macro(&toks);
    assert!(err.is_none());
    assert_eq!(
        lines,
        vec![
            "pub const V = extern struct {".to_string(),
            "    x: u8,".to_string(),
            "    y: i8,".to_string(),
            "};".to_string(),
        ]
    );
}

#[test]
fn struct_macro_generic_parameters_are_skipped() {
    // STRUCT! { struct G<T> { x: T } }
    let toks = vec![
        ident_tok("struct"),
        ident_tok("G"),
        punct('<'),
        ident_tok("T"),
        punct('>'),
        Token::Group {
            delim: Delim::Brace,
            tokens: vec![ident_tok("x"), punct(':'), ident_tok("T")],
        },
    ];
    let (lines, err) = translate_struct_macro(&toks);
    assert!(err.is_none());
    assert_eq!(
        lines,
        vec![
            "pub const G = extern struct {".to_string(),
            "    x: T,".to_string(),
            "};".to_string(),
        ]
    );
}

#[test]
fn struct_macro_malformed_payload_emits_nothing() {
    // the shape is checked whole before emission: a good first field
    // followed by a malformed one yields a syntax failure with no lines
    let toks = vec![
        ident_tok("struct"),
        ident_tok("HALF"),
        Token::Group {
            delim: Delim::Brace,
            tokens: vec![
                ident_tok("ok"),
                punct(':'),
                ident_tok("c_uchar"),
                punct(','),
                ident_tok("oops"),
                ident_tok("no_colon"),
            ],
        },
    ];
    let (lines, err) = translate_struct_macro(&toks);
    assert!(matches!(err, Some(Error::UnsupportedSyntax)));
    assert!(lines.is_empty());
}

#[test]
fn declare_handle_ignores_extra_tokens() {
    let toks = vec![
        ident_tok("HDC"),
        punct(','),
        ident_tok("HDC__"),
        punct(','),
        ident_tok("IGNORED"),
    ];
    let items = vec![Item::MacroCall {
        path: MacroPath {
            segments: vec![PathSeg { ident: "DECLARE_HANDLE".to_string(), has_args: false }],
        },
        tokens: toks,
    }];
    let (lines, err) = translate_program(&items);
    assert!(err.is_none());
    assert_eq!(
        lines,
        vec![
            "pub const HDC__ = @Type(.Opaque);".to_string(),
            "pub const HDC = ?*HDC__;".to_string(),
        ]
    );
}

#[test]
fn receiver_argument_emits_no_line() {
    let items = vec![Item::ForeignMod {
        items: vec![ForeignItem::Func {
            func: ForeignFn {
                vis: Visibility::Private,
                ident: "Odd".to_string(),
                args: vec![
                    ForeignArg::Receiver,
                    ForeignArg::Typed {
                        name: ArgName::Missing,
                        ty: named("c_int"),
                    },
                ],
                ret: None,
            },
        }],
    }];
    let (lines, err) = translate_program(&items);
    assert!(err.is_none());
    assert_eq!(
        lines,
        vec![
            "extern \"user32\" fn Odd (".to_string(),
            "    : c_int,".to_string(),
            ") callconv(.Stdcall) ;".to_string(),
        ]
    );
}

#[test]
fn custom_link_name_is_used() {
    let mut cx = Cx::new("gdi32".to_string());
    let items = vec![Item::ForeignMod {
        items: vec![ForeignItem::Func {
            func: ForeignFn {
                vis: Visibility::Public,
                ident: "DeleteDC".to_string(),
                args: vec![],
                ret: Some(named("BOOL")),
            },
        }],
    }];
    let (lines, err) = translate_items(&items, &mut cx);
    assert!(err.is_none());
    assert_eq!(lines[0], "pub extern \"gdi32\" fn DeleteDC (");
}

#[test]
fn foreign_bad_argument_type_aborts_run() {
    // the declaration header and the parameter lines already rendered
    // stay in the output beside the failure
    let items = vec![Item::ForeignMod {
        items: vec![ForeignItem::Func {
            func: ForeignFn {
                vis: Visibility::Private,
                ident: "Bad".to_string(),
                args: vec![
                    ForeignArg::Typed {
                        name: ArgName::Named { ident: "good".to_string() },
                        ty: named("c_int"),
                    },
                    ForeignArg::Typed {
                        name: ArgName::Wild,
                        ty: TypeDesc::Unsupported,
                    },
                ],
                ret: None,
            },
        }],
    }];
    let (lines, err) = translate_program(&items);
    assert!(matches!(err, Some(Error::UnsupportedType)));
    assert_eq!(
        lines,
        vec![
            "extern \"user32\" fn Bad (".to_string(),
            "    good: c_int,".to_string(),
        ]
    );
}

#[test]
fn foreign_bad_return_type_keeps_header_and_args() {
    let items = vec![Item::ForeignMod {
        items: vec![ForeignItem::Func {
            func: ForeignFn {
                vis: Visibility::Private,
                ident: "Ret".to_string(),
                args: vec![ForeignArg::Typed {
                    name: ArgName::Named { ident: "a".to_string() },
                    ty: named("c_int"),
                }],
                ret: Some(TypeDesc::Unsupported),
            },
        }],
    }];
    let (lines, err) = translate_program(&items);
    assert!(matches!(err, Some(Error::UnsupportedType)));
    assert_eq!(
        lines,
        vec![
            "extern \"user32\" fn Ret (".to_string(),
            "    a: c_int,".to_string(),
        ]
    );
}

#[test]
fn wildcard_import_aborts_run() {
    let items = vec![
        Item::Use {
            vis: Visibility::Private,
            tree: UseTree::Step {
                segment: "winuser".to_string(),
                rest: Box::new(UseTree::Unsupported),
            },
        },
        Item::Const {
            vis: Visibility::Private,
            ident: "AFTER".to_string(),
            value: ConstExpr::IntLit { text: "2".to_string() },
        },
    ];
    let (lines, err) = translate_program(&items);
    assert!(matches!(err, Some(Error::UnsupportedSyntax)));
    assert!(lines.is_empty());
}
