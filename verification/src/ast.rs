//! The syntax tree, and its mathematical views.
//!
//! Every node owns its children: the tree has no sharing and no cycles.  The
//! parser builds literals, references, groups and binary nodes, and `let`
//! declarations around them; the other shapes are part of the vocabulary and
//! are not produced yet.

use vstd::prelude::*;

verus! {

/// The operation of a binary node.
#[derive(Debug, PartialEq, Eq, Clone, Copy)]
pub enum BinaryOp {
    Add,
    Subtract,
    Multiply,
    Divide,
    Pipe,
}

/// An expression.
#[derive(Debug, PartialEq)]
pub struct Expr {
    pub kind: ExprKind,
}

/// What an expression is.
#[derive(Debug, PartialEq)]
pub enum ExprKind {
    Binary(BinaryOp, Box<Expr>, Box<Expr>),
    FnInvoke(Box<Expr>, Vec<Expr>),
    Typedef(Vec<TypedefField>),
    While(Block),
    /// A number, as the digits that were written.
    NumLit(String),
    StrLit(String),
    Group(Box<Expr>),
    Reference(String),
    Term(Box<Expr>),
    Factor(Box<Expr>),
}

/// A field of a type declaration: its name and the name of its type.
#[derive(Debug, PartialEq)]
pub struct TypedefField {
    pub name: String,
    pub ty: String,
}

/// A sequence of statements.
#[derive(Debug, PartialEq)]
pub struct Block {
    pub stmts: Vec<Stmt>,
}

/// A statement.
#[derive(Debug, PartialEq)]
pub struct Stmt {
    pub kind: StmtKind,
}

/// What a statement is.
#[derive(Debug, PartialEq)]
pub enum StmtKind {
    LetDecl(Box<LetDecl>),
    BlockDecl(Box<BlockDecl>),
}

/// `let name = value;`
#[derive(Debug, PartialEq)]
pub struct LetDecl {
    pub name: String,
    pub value: Box<Expr>,
}

/// A block that stands as a statement.
#[derive(Debug, PartialEq)]
pub struct BlockDecl {
    pub block: Block,
}

/// A parsed source text: its statements in the order in which they stand.
#[derive(Debug, PartialEq)]
pub struct SourceFile {
    pub stmts: Vec<Stmt>,
}

/// A field of a type declaration as a mathematical value.
pub ghost struct FieldView {
    pub name: Seq<char>,
    pub ty: Seq<char>,
}

/// An expression as a mathematical value.
pub ghost enum ExprView {
    Binary(BinaryOp, Box<ExprView>, Box<ExprView>),
    FnInvoke(Box<ExprView>, Seq<ExprView>),
    Typedef(Seq<FieldView>),
    While(Seq<StmtView>),
    NumLit(Seq<char>),
    StrLit(Seq<char>),
    Group(Box<ExprView>),
    Reference(Seq<char>),
    Term(Box<ExprView>),
    Factor(Box<ExprView>),
}

/// A statement as a mathematical value.
pub ghost enum StmtView {
    LetDecl { name: Seq<char>, value: ExprView },
    BlockDecl(Seq<StmtView>),
}

/// The view of an expression.
pub open spec fn expr_view(expr: Expr) -> ExprView
    decreases expr,
{
    match expr.kind {
        ExprKind::Binary(op, left, right) => ExprView::Binary(
            op,
            Box::new(expr_view(*left)),
            Box::new(expr_view(*right)),
        ),
        ExprKind::FnInvoke(callee, args) => ExprView::FnInvoke(
            Box::new(expr_view(*callee)),
            Seq::new(
                args@.len(),
                |i: int|
                    if 0 <= i < args@.len() {
                        expr_view(args@[i])
                    } else {
                        arbitrary()
                    },
            ),
        ),
        ExprKind::Typedef(fields) => ExprView::Typedef(
            Seq::new(fields@.len(), |i: int| fields@[i]@),
        ),
        ExprKind::While(body) => ExprView::While(stmts_view(body.stmts)),
        ExprKind::NumLit(digits) => ExprView::NumLit(digits@),
        ExprKind::StrLit(text) => ExprView::StrLit(text@),
        ExprKind::Group(inner) => ExprView::Group(Box::new(expr_view(*inner))),
        ExprKind::Reference(name) => ExprView::Reference(name@),
        ExprKind::Term(inner) => ExprView::Term(Box::new(expr_view(*inner))),
        ExprKind::Factor(inner) => ExprView::Factor(Box::new(expr_view(*inner))),
    }
}

/// The view of a statement.
pub open spec fn stmt_view(stmt: Stmt) -> StmtView
    decreases stmt,
{
    match stmt.kind {
        StmtKind::LetDecl(decl) => StmtView::LetDecl {
            name: decl.name@,
            value: expr_view(*decl.value),
        },
        StmtKind::BlockDecl(decl) => StmtView::BlockDecl(stmts_view(decl.block.stmts)),
    }
}

/// The views of the statements of a vector, in its order.
pub open spec fn stmts_view(stmts: Vec<Stmt>) -> Seq<StmtView>
    decreases stmts,
{
    Seq::new(
        stmts@.len(),
        |i: int|
            if 0 <= i < stmts@.len() {
                stmt_view(stmts@[i])
            } else {
                arbitrary()
            },
    )
}

impl View for TypedefField {
    type V = FieldView;

    open spec fn view(&self) -> FieldView {
        FieldView { name: self.name@, ty: self.ty@ }
    }
}

impl View for Expr {
    type V = ExprView;

    open spec fn view(&self) -> ExprView {
        expr_view(*self)
    }
}

impl View for Stmt {
    type V = StmtView;

    open spec fn view(&self) -> StmtView {
        stmt_view(*self)
    }
}

impl View for Block {
    type V = Seq<StmtView>;

    open spec fn view(&self) -> Seq<StmtView> {
        stmts_view(self.stmts)
    }
}

impl View for SourceFile {
    type V = Seq<StmtView>;

    open spec fn view(&self) -> Seq<StmtView> {
        stmts_view(self.stmts)
    }
}

} // verus!
