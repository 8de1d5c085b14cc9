//! The syntax tree that the detectors read: the items of one source file,
//! with the line on which each construct of interest starts. Constructs that
//! no detector looks into are kept as opaque leaves.

use crate::text::text_is;
use vstd::prelude::*;

verus! {

/// A path such as `a::b::c`, by the names of its segments.
#[derive(Debug, Clone, PartialEq, Eq)]
pub struct Path {
    pub segments: Vec<String>,
}

impl Path {
    /// This path is the single name `name`.
    pub open spec fn names(&self, name: Seq<char>) -> bool {
        self.segments@.len() == 1 && self.segments@[0]@ == name
    }

    /// The name of the last segment, if the path has any segment.
    pub open spec fn last_name(&self) -> Option<Seq<char>> {
        if self.segments@.len() == 0 {
            None
        } else {
            Some(self.segments@.last()@)
        }
    }

    /// Whether this path is the single name `name`.
    pub fn is_ident(&self, name: &str) -> (b: bool)
        ensures
            b == self.names(name@),
    {
        self.segments.len() == 1 && text_is(&self.segments[0], name)
    }

    /// The last segment, if there is one.
    pub fn last_ident(&self) -> (r: Option<&String>)
        ensures
            match r {
                Some(s) => self.last_name() == Some(s@) && self.segments@.len() > 0 && *s
                    == self.segments@.last(),
                None => self.last_name() is None,
            },
    {
        if self.segments.len() == 0 {
            None
        } else {
            Some(&self.segments[self.segments.len() - 1])
        }
    }
}

/// An attribute `#[path(metas...)]`.
#[derive(Debug, Clone, PartialEq, Eq)]
pub struct Attribute {
    /// The attribute's own path, such as `derive` or `account`.
    pub path: Path,
    /// The paths that open the comma-separated entries between the
    /// attribute's parentheses, in order.
    pub metas: Vec<Path>,
    /// The text between the attribute's parentheses; empty if it has none.
    pub tokens: String,
    /// The line on which the attribute starts.
    pub line: usize,
}

impl Attribute {
    /// One of the entries between the parentheses is the single name `word`.
    pub open spec fn lists(&self, word: Seq<char>) -> bool {
        exists|i: int| 0 <= i < self.metas@.len() && (#[trigger] self.metas@[i]).names(word)
    }

    /// Whether one of the entries between the parentheses is the single name
    /// `word`.
    pub fn has_meta(&self, word: &str) -> (b: bool)
        ensures
            b == self.lists(word@),
    {
        let mut i: usize = 0;
        while i < self.metas.len()
            invariant
                i <= self.metas.len(),
                forall|k: int| 0 <= k < i ==> !(#[trigger] self.metas@[k]).names(word@),
            decreases self.metas.len() - i,
        {
            if self.metas[i].is_ident(word) {
                return true;
            }
            i += 1;
        }
        false
    }
}

/// One segment of a type path, with the arguments between its angle brackets.
#[derive(Debug, PartialEq, Eq)]
pub struct TypeSegment {
    pub ident: String,
    /// Empty where the segment has no angle brackets.
    pub generics: Vec<GenericArg>,
}

/// An argument between angle brackets.
#[derive(Debug, PartialEq, Eq)]
pub enum GenericArg {
    Type(Type),
    /// A lifetime, a constant or a binding.
    Other,
}

/// A type as it is written.
#[derive(Debug, PartialEq, Eq)]
pub enum Type {
    Path(Vec<TypeSegment>),
    Reference(Box<Type>),
    Paren(Box<Type>),
    Group(Box<Type>),
    Slice(Box<Type>),
    Array(Box<Type>),
    Other,
}

/// A named field of a struct.
#[derive(Debug, PartialEq, Eq)]
pub struct Field {
    pub name: String,
    /// The line of the field's name.
    pub line: usize,
    pub ty: Type,
    pub attrs: Vec<Attribute>,
}

/// The fields of a struct.
#[derive(Debug, PartialEq, Eq)]
pub enum Fields {
    Named(Vec<Field>),
    /// A tuple struct or a unit struct.
    Other,
}

/// A struct item.
#[derive(Debug, PartialEq, Eq)]
pub struct StructItem {
    pub name: String,
    /// The line of the struct's name.
    pub line: usize,
    pub attrs: Vec<Attribute>,
    pub fields: Fields,
}

/// The member that a field access names.
#[derive(Debug, Clone, PartialEq, Eq)]
pub enum Member {
    Named(String),
    /// A position in a tuple.
    Unnamed,
}

/// A binary operator, as far as the detectors tell them apart.
#[derive(Debug, Clone, Copy, PartialEq, Eq, Structural)]
pub enum BinOp {
    AddAssign,
    SubAssign,
    MulAssign,
    DivAssign,
    RemAssign,
    BitXorAssign,
    BitAndAssign,
    BitOrAssign,
    ShlAssign,
    ShrAssign,
    /// Any operator that does not assign.
    Other,
}

impl BinOp {
    /// The operator writes to its left operand.
    pub open spec fn assigns(&self) -> bool {
        !(self is Other)
    }

    /// Whether the operator writes to its left operand.
    pub fn is_assignment(&self) -> (b: bool)
        ensures
            b == self.assigns(),
    {
        match self {
            BinOp::Other => false,
            _ => true,
        }
    }
}

/// An expression, with the line on which it starts.
#[derive(Debug, PartialEq, Eq)]
pub struct Expr {
    pub line: usize,
    pub kind: ExprKind,
}

/// The forms of expression that the detectors look into.
#[derive(Debug, PartialEq, Eq)]
pub enum ExprKind {
    /// `a::b`; `name_line` is the line of the last segment.
    Path { path: Path, name_line: usize },
    /// `base.member`; `member_line` is the line of the member.
    Field { base: Box<Expr>, member: Member, member_line: usize },
    /// `base[index]`
    Index { base: Box<Expr>, index: Box<Expr> },
    /// `func(args)`
    Call { func: Box<Expr>, args: Vec<Expr> },
    /// `receiver.method(args)`; `method_line` is the line of the method name.
    MethodCall { receiver: Box<Expr>, method: String, method_line: usize, args: Vec<Expr> },
    /// `&target` or `&mut target`
    Reference { mutable: bool, target: Box<Expr> },
    /// `left = right`
    Assign { left: Box<Expr>, right: Box<Expr> },
    /// `left op right`, compound assignments included.
    Binary { left: Box<Expr>, op: BinOp, right: Box<Expr> },
    /// `[elems]`
    Array { elems: Vec<Expr> },
    /// `inner?`
    Try { inner: Box<Expr> },
    /// `try { stmts }`
    TryBlock { stmts: Vec<Stmt> },
    /// `{ stmts }`
    Block { stmts: Vec<Stmt> },
    /// `if cond { then_branch } else otherwise`
    If { cond: Box<Expr>, then_branch: Vec<Stmt>, otherwise: Option<Box<Expr>> },
    /// `match scrutinee { .. => arms, .. }`, by the bodies of the arms.
    Match { scrutinee: Box<Expr>, arms: Vec<Expr> },
    /// `while cond { body }`
    While { cond: Box<Expr>, body: Vec<Stmt> },
    /// `for .. in iter { body }`
    ForLoop { iter: Box<Expr>, body: Vec<Stmt> },
    /// `loop { body }`
    Loop { body: Vec<Stmt> },
    /// Any other expression.
    Other,
}

/// A statement.
#[derive(Debug, PartialEq, Eq)]
pub enum Stmt {
    /// An expression, with or without a semicolon.
    Expr(Expr),
    /// A `let` binding, with its initializer if it has one.
    Local(Option<Expr>),
    /// An item declared inside a body.
    Item,
    /// A macro invocation in statement position.
    Macro,
}

/// A parameter of a function.
#[derive(Debug, PartialEq, Eq)]
pub enum Param {
    /// `self` in any form.
    Receiver,
    /// `pattern: ty`
    Typed(Type),
}

/// A function item.
#[derive(Debug, PartialEq, Eq)]
pub struct FnItem {
    pub name: String,
    /// The line of the function's name.
    pub line: usize,
    pub params: Vec<Param>,
    pub body: Vec<Stmt>,
}

/// A module item.
#[derive(Debug, PartialEq, Eq)]
pub struct ModItem {
    pub name: String,
    /// The line of the module's name.
    pub line: usize,
    pub attrs: Vec<Attribute>,
    /// The functions declared directly inside the module, in order.
    pub functions: Vec<FnItem>,
}

/// A top-level item of a source file.
#[derive(Debug, PartialEq, Eq)]
pub enum Item {
    Struct(StructItem),
    Mod(ModItem),
    Other,
}

/// A parsed source file.
#[derive(Debug, PartialEq, Eq)]
pub struct SourceFile {
    pub items: Vec<Item>,
}

} // verus!
