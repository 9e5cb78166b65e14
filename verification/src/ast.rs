//! The abstract syntax model the translator consumes: a plain-data mirror of
//! the source language's top-level declarations, restricted to the shapes the
//! translation rules inspect. A front end builds these values; the translator
//! never sees source text.

use vstd::prelude::*;

verus! {

/// Whether an emitted declaration carries the `pub` keyword.
#[derive(Clone, Copy, PartialEq, Eq, Structural, Debug)]
pub enum Visibility {
    Public,
    Private,
}

/// A source type in the restricted shape the translator accepts: a bare
/// scalar name, a (possibly nested) raw pointer, or anything else
/// (arrays, slices, generics, function pointers, ...), which never
/// translates.
pub enum TypeDesc {
    Named { name: String },
    Ptr { is_const: bool, pointee: Box<TypeDesc> },
    Unsupported,
}

/// A constant initializer: an integer literal (carried as its exact source
/// text) or any other expression shape.
pub enum ConstExpr {
    IntLit { text: String },
    Other,
}

/// An import clause: a chain of path segments ending in a leaf name, with
/// brace groups of alternative continuations allowed at any point.
/// `Unsupported` stands for wildcard imports and any other unrecognized
/// shape.
pub enum UseTree {
    Step { segment: String, rest: Box<UseTree> },
    Leaf { ident: String },
    Group { items: Vec<UseTree> },
    Unsupported,
}

/// One segment of a macro invocation path; `has_args` records whether the
/// segment carried generic arguments.
pub struct PathSeg {
    pub ident: String,
    pub has_args: bool,
}

/// The path a macro was invoked by.
pub struct MacroPath {
    pub segments: Vec<PathSeg>,
}

/// The delimiter of a token group.
#[derive(Clone, Copy, PartialEq, Eq, Structural, Debug)]
pub enum Delim {
    Brace,
    Paren,
    Bracket,
    Bare,
}

/// One token of a macro's argument payload.
pub enum Token {
    Ident { text: String },
    Punct { ch: char },
    Group { delim: Delim, tokens: Vec<Token> },
    Lit { text: String },
}

/// How a foreign function's formal parameter is named in the source.
pub enum ArgName {
    Named { ident: String },
    Wild,
    Missing,
}

/// A formal parameter of a foreign function: a typed binding, or a
/// receiver (`self`) parameter, which the translator skips.
pub enum ForeignArg {
    Typed { name: ArgName, ty: TypeDesc },
    Receiver,
}

/// A function signature declared inside a foreign block.
pub struct ForeignFn {
    pub vis: Visibility,
    pub ident: String,
    pub args: Vec<ForeignArg>,
    pub ret: Option<TypeDesc>,
}

/// One declaration inside a foreign block: a function signature, or any
/// other foreign item, carried as its pre-rendered debug text.
pub enum ForeignItem {
    Func { func: ForeignFn },
    Other { dump: String },
}

/// A top-level source item. `Other` covers every item kind without a
/// dedicated translation rule and carries its pre-rendered debug text.
pub enum Item {
    Use { vis: Visibility, tree: UseTree },
    TypeAlias { vis: Visibility, ident: String, ty: TypeDesc },
    Const { vis: Visibility, ident: String, value: ConstExpr },
    ForeignMod { items: Vec<ForeignItem> },
    MacroCall { path: MacroPath, tokens: Vec<Token> },
    Function { ident: String },
    Other { dump: String },
}

/// A translation error. `Unhandled` and `NotYetImplemented` are soft: the
/// driver replaces the item with a placeholder comment and goes on.
/// `UnsupportedType` and `UnsupportedSyntax` are hard: they abort the run.
#[derive(Debug)]
pub enum Error {
    UnsupportedType,
    UnsupportedSyntax,
    Unhandled { name: String },
    NotYetImplemented,
}

/// The outcome of translating one item: emitted lines, one of the two hard
/// errors, or one of the two soft skips. A type failure carries the lines
/// the failing item had already rendered: output is best-effort and is not
/// rolled back.
pub ghost enum Outcome {
    Lines(Seq<Seq<char>>),
    TypeErr(Seq<Seq<char>>),
    SyntaxErr,
    Unhandled(Seq<char>),
    Nyi,
}

pub open spec fn error_message(e: Error) -> Seq<char> {
    match e {
        Error::UnsupportedType => "Unsupported type"@,
        Error::UnsupportedSyntax => "Unsupported syntax"@,
        Error::Unhandled { name } => "Unhandled item "@ + name@,
        Error::NotYetImplemented => "Not yet implemented"@,
    }
}

impl Error {
    /// The human-readable report for this error.
    pub fn message(&self) -> (r: String)
        ensures
            r@ == error_message(*self),
    {
        match self {
            Error::UnsupportedType => "Unsupported type".to_owned(),
            Error::UnsupportedSyntax => "Unsupported syntax".to_owned(),
            Error::Unhandled { name } => {
                let mut s = "Unhandled item ".to_owned();
                s.append(name.as_str());
                s
            },
            Error::NotYetImplemented => "Not yet implemented".to_owned(),
        }
    }
}

} // verus!
