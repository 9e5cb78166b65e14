use zigbind::ast::{
    ArgName, ConstExpr, Delim, Error, ForeignArg, ForeignFn, ForeignItem, Item, MacroPath,
    PathSeg, Token, TypeDesc, UseTree, Visibility,
};
use zigbind::driver::translate_program;
use zigbind::imports::expand_use_tree;
use zigbind::macros::{path_as_single_ident, translate_declare_handle, translate_struct_macro};
use zigbind::mapper::{translate_expr, translate_type};

fn named(n: &str) -> TypeDesc {
    TypeDesc::Named { name: n.to_string() }
}

fn ptr(is_const: bool, pointee: TypeDesc) -> TypeDesc {
    TypeDesc::Ptr { is_const, pointee: Box::new(pointee) }
}

fn ident_tok(n: &str) -> Token {
    Token::Ident { text: n.to_string() }
}

fn punct(c: char) -> Token {
    Token::Punct { ch: c }
}

fn single_path(n: &str) -> MacroPath {
    MacroPath { segments: vec![PathSeg { ident: n.to_string(), has_args: false }] }
}

fn chain(segs: &[&str]) -> UseTree {
    let mut t = UseTree::Leaf { ident: segs[segs.len() - 1].to_string() };
    for s in segs[..segs.len() - 1].iter().rev() {
        t = UseTree::Step { segment: s.to_string(), rest: Box::new(t) };
    }
    t
}

fn ok_text(r: Result<String, Error>) -> String {
    match r {
        Ok(s) => s,
        Err(_) => panic!("expected a translated type"),
    }
}

#[test]
fn scalar_rename_table() {
    assert_eq!(ok_text(translate_type(&named("c_uchar"))), "u8");
    assert_eq!(ok_text(translate_type(&named("c_char"))), "i8");
    assert_eq!(ok_text(translate_type(&named("c_schar"))), "i8");
    assert_eq!(ok_text(translate_type(&named("__uint64"))), "u64");
    assert_eq!(ok_text(translate_type(&named("__int64"))), "i64");
}

#[test]
fn scalar_passthrough() {
    assert_eq!(ok_text(translate_type(&named("HWND"))), "HWND");
    assert_eq!(ok_text(translate_type(&named("c_int"))), "c_int");
    assert_eq!(ok_text(translate_type(&named("u8"))), "u8");
}

#[test]
fn pointer_nullable_and_const() {
    assert_eq!(ok_text(translate_type(&ptr(true, named("c_char")))), "?*const i8");
    assert_eq!(ok_text(translate_type(&ptr(false, named("c_uchar")))), "?*u8");
}

#[test]
fn pointer_nested() {
    let t = ptr(true, ptr(false, named("c_uchar")));
    assert_eq!(ok_text(translate_type(&t)), "?*const ?*u8");
}

#[test]
fn unsupported_type_is_hard_error() {
    assert!(matches!(translate_type(&TypeDesc::Unsupported), Err(Error::UnsupportedType)));
    let t = ptr(false, TypeDesc::Unsupported);
    assert!(matches!(translate_type(&t), Err(Error::UnsupportedType)));
}

#[test]
fn expr_int_literal_and_placeholder() {
    assert_eq!(translate_expr(&ConstExpr::IntLit { text: "42".to_string() }), "42");
    assert_eq!(translate_expr(&ConstExpr::Other), "???");
}

#[test]
fn expand_plain_chain() {
    let t = chain(&["a", "b", "c"]);
    let paths = expand_use_tree(&t).unwrap();
    assert_eq!(paths, vec![vec!["a".to_string(), "b".to_string(), "c".to_string()]]);
}

#[test]
fn expand_group_cross_product() {
    // use w::{x, y::z};
    let t = UseTree::Step {
        segment: "w".to_string(),
        rest: Box::new(UseTree::Group {
            items: vec![UseTree::Leaf { ident: "x".to_string() }, chain(&["y", "z"])],
        }),
    };
    let paths = expand_use_tree(&t).unwrap();
    assert_eq!(paths.len(), 2);
    assert_eq!(paths[0], vec!["w".to_string(), "x".to_string()]);
    assert_eq!(paths[1], vec!["w".to_string(), "y".to_string(), "z".to_string()]);
}

#[test]
fn expand_wildcard_fails() {
    let t = UseTree::Step {
        segment: "w".to_string(),
        rest: Box::new(UseTree::Unsupported),
    };
    assert!(matches!(expand_use_tree(&t), Err(Error::UnsupportedSyntax)));
}

#[test]
fn import_emits_module_once() {
    let items = vec![
        Item::Use { vis: Visibility::Private, tree: chain(&["shared32", "FARPROC"]) },
        Item::Use { vis: Visibility::Public, tree: chain(&["shared32", "HANDLE"]) },
    ];
    let (lines, err) = translate_program(&items);
    assert!(err.is_none());
    assert_eq!(
        lines,
        vec![
            "".to_string(),
            "const shared32 = @import(\"shared32.zig\");".to_string(),
            "const FARPROC = shared32.FARPROC;".to_string(),
            "pub const HANDLE = shared32.HANDLE;".to_string(),
        ]
    );
}

#[test]
fn import_group_one_module_line_many_symbols() {
    let items = vec![Item::Use {
        vis: Visibility::Private,
        tree: UseTree::Step {
            segment: "windef".to_string(),
            rest: Box::new(UseTree::Group {
                items: vec![
                    UseTree::Leaf { ident: "HWND".to_string() },
                    UseTree::Leaf { ident: "RECT".to_string() },
                    UseTree::Leaf { ident: "POINT".to_string() },
                ],
            }),
        },
    }];
    let (lines, err) = translate_program(&items);
    assert!(err.is_none());
    let module_line = "const windef = @import(\"windef.zig\");";
    assert_eq!(lines.iter().filter(|l| l.as_str() == module_line).count(), 1);
    assert_eq!(lines.len(), 5);
    assert_eq!(lines[4], "const POINT = windef.POINT;");
}

#[test]
fn ctypes_import_is_skipped() {
    let items = vec![Item::Use { vis: Visibility::Private, tree: chain(&["ctypes", "c_int"]) }];
    let (lines, err) = translate_program(&items);
    assert!(err.is_none());
    assert!(lines.is_empty());
}

#[test]
fn const_int_literal() {
    let items = vec![Item::Const {
        vis: Visibility::Public,
        ident: "WM_QUIT".to_string(),
        value: ConstExpr::IntLit { text: "18".to_string() },
    }];
    let (lines, err) = translate_program(&items);
    assert!(err.is_none());
    assert_eq!(lines, vec!["pub const WM_QUIT = 18;".to_string()]);
}

#[test]
fn const_other_expression_emits_placeholder() {
    let items = vec![
        Item::Const {
            vis: Visibility::Private,
            ident: "COMBINED".to_string(),
            value: ConstExpr::Other,
        },
        Item::Const {
            vis: Visibility::Private,
            ident: "AFTER".to_string(),
            value: ConstExpr::IntLit { text: "1".to_string() },
        },
    ];
    let (lines, err) = translate_program(&items);
    assert!(err.is_none(), "a placeholder constant must not abort the run");
    assert_eq!(lines[0], "const COMBINED = ???;");
    assert_eq!(lines[1], "const AFTER = 1;");
}

#[test]
fn type_alias_translates() {
    let items = vec![Item::TypeAlias {
        vis: Visibility::Public,
        ident: "LPSTR".to_string(),
        ty: ptr(false, named("c_char")),
    }];
    let (lines, err) = translate_program(&items);
    assert!(err.is_none());
    assert_eq!(lines, vec!["pub const LPSTR = ?*i8;".to_string()]);
}

#[test]
fn type_alias_unsupported_aborts_run() {
    let items = vec![
        Item::Const {
            vis: Visibility::Private,
            ident: "BEFORE".to_string(),
            value: ConstExpr::IntLit { text: "7".to_string() },
        },
        Item::TypeAlias {
            vis: Visibility::Private,
            ident: "BAD".to_string(),
            ty: TypeDesc::Unsupported,
        },
        Item::Const {
            vis: Visibility::Private,
            ident: "AFTER".to_string(),
            value: ConstExpr::IntLit { text: "8".to_string() },
        },
    ];
    let (lines, err) = translate_program(&items);
    assert!(matches!(err, Some(Error::UnsupportedType)));
    // lines already emitted for prior items are kept; nothing after the failure
    assert_eq!(lines, vec!["const BEFORE = 7;".to_string()]);
}

#[test]
fn foreign_block_declaration() {
    let items = vec![Item::ForeignMod {
        items: vec![ForeignItem::Func {
            func: ForeignFn {
                vis: Visibility::Public,
                ident: "GetDC".to_string(),
                args: vec![
                    ForeignArg::Typed {
                        name: ArgName::Named { ident: "hWnd".to_string() },
                        ty: named("HWND"),
                    },
                    ForeignArg::Typed {
                        name: ArgName::Wild,
                        ty: ptr(true, named("c_char")),
                    },
                ],
                ret: Some(named("HDC")),
            },
        }],
    }];
    let (lines, err) = translate_program(&items);
    assert!(err.is_none());
    assert_eq!(
        lines,
        vec![
            "pub extern \"user32\" fn GetDC (".to_string(),
            "    hWnd: HWND,".to_string(),
            "    _: ?*const i8,".to_string(),
            ") callconv(.Stdcall) HDC;".to_string(),
        ]
    );
}

#[test]
fn foreign_block_void_return() {
    let items = vec![Item::ForeignMod {
        items: vec![ForeignItem::Func {
            func: ForeignFn {
                vis: Visibility::Private,
                ident: "PostQuitMessage".to_string(),
                args: vec![],
                ret: None,
            },
        }],
    }];
    let (lines, err) = translate_program(&items);
    assert!(err.is_none());
    assert_eq!(
        lines,
        vec![
            "extern \"user32\" fn PostQuitMessage (".to_string(),
            ") callconv(.Stdcall) ;".to_string(),
        ]
    );
}

#[test]
fn foreign_non_function_is_dumped() {
    let items = vec![Item::ForeignMod {
        items: vec![ForeignItem::Other { dump: "Static(ForeignItemStatic)".to_string() }],
    }];
    let (lines, err) = translate_program(&items);
    assert!(err.is_none());
    assert_eq!(lines, vec!["Static(ForeignItemStatic)".to_string()]);
}

#[test]
fn struct_macro_two_fields() {
    // STRUCT! { struct DEMO { a: c_uchar, b: *const c_char } }
    let toks = vec![
        ident_tok("struct"),
        ident_tok("DEMO"),
        Token::Group {
            delim: Delim::Brace,
            tokens: vec![
                ident_tok("a"),
                punct(':'),
                ident_tok("c_uchar"),
                punct(','),
                ident_tok("b"),
                punct(':'),
                punct('*'),
                ident_tok("const"),
                ident_tok("c_char"),
            ],
        },
    ];
    let (lines, err) = translate_struct_macro(&toks);
    assert!(err.is_none());
    assert_eq!(
        lines,
        vec![
            "pub const DEMO = extern struct {".to_string(),
            "    a: u8,".to_string(),
            "    b: ?*const i8,".to_string(),
            "};".to_string(),
        ]
    );
}

#[test]
fn struct_macro_bad_shape_is_syntax_error() {
    let toks = vec![ident_tok("struct"), ident_tok("DEMO")];
    let (lines, err) = translate_struct_macro(&toks);
    assert!(matches!(err, Some(Error::UnsupportedSyntax)));
    assert!(lines.is_empty());
}

#[test]
fn declare_handle_pair() {
    let toks = vec![ident_tok("HWND"), punct(','), ident_tok("HWND__")];
    let lines = translate_declare_handle(&toks).unwrap();
    assert_eq!(
        lines,
        vec![
            "pub const HWND__ = @Type(.Opaque);".to_string(),
            "pub const HWND = ?*HWND__;".to_string(),
        ]
    );
}

#[test]
fn declare_handle_missing_tokens_is_soft() {
    let toks = vec![ident_tok("HWND")];
    assert!(matches!(translate_declare_handle(&toks), Err(Error::NotYetImplemented)));
}

#[test]
fn unknown_macro_yields_one_comment() {
    let items = vec![Item::MacroCall { path: single_path("ENUM"), tokens: vec![] }];
    let (lines, err) = translate_program(&items);
    assert!(err.is_none(), "an unrecognized macro must not abort the run");
    assert_eq!(lines, vec!["// Unhandled item: ENUM".to_string()]);
}

#[test]
fn bare_function_yields_one_comment() {
    let items = vec![
        Item::Function { ident: "main".to_string() },
        Item::Const {
            vis: Visibility::Private,
            ident: "AFTER".to_string(),
            value: ConstExpr::IntLit { text: "3".to_string() },
        },
    ];
    let (lines, err) = translate_program(&items);
    assert!(err.is_none(), "a bare function must not abort the run");
    assert_eq!(lines[0], "// Unhandled item: main");
    assert_eq!(lines[1], "const AFTER = 3;");
    assert_eq!(lines.len(), 2);
}

#[test]
fn qualified_macro_path_is_soft_skip() {
    let path = MacroPath {
        segments: vec![
            PathSeg { ident: "winapi".to_string(), has_args: false },
            PathSeg { ident: "STRUCT".to_string(), has_args: false },
        ],
    };
    assert!(path_as_single_ident(&path).is_none());
    let items = vec![Item::MacroCall { path, tokens: vec![] }];
    let (lines, err) = translate_program(&items);
    assert!(err.is_none());
    assert_eq!(lines, vec!["// Item not yet implemented".to_string()]);
}

#[test]
fn other_item_is_dumped() {
    let items = vec![Item::Other { dump: "Enum(ItemEnum)".to_string() }];
    let (lines, err) = translate_program(&items);
    assert!(err.is_none());
    assert_eq!(lines, vec!["Enum(ItemEnum)".to_string()]);
}

#[test]
fn error_messages() {
    assert_eq!(Error::UnsupportedType.message(), "Unsupported type");
    assert_eq!(Error::UnsupportedSyntax.message(), "Unsupported syntax");
    assert_eq!(
        Error::Unhandled { name: "IMPL".to_string() }.message(),
        "Unhandled item IMPL"
    );
    assert_eq!(Error::NotYetImplemented.message(), "Not yet implemented");
}
