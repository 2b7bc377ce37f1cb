//! The parsed syntax tree, reduced to the parts that decide a feature flag.
//!
//! Each node keeps its own sub-trees and the few facts (an `async` keyword, a
//! return annotation, an operator) that the visitor reads; everything else a
//! parser produces is left out.
use vstd::prelude::*;

verus! {

/// A whole file: the statements at its top level.
pub struct Module {
    pub body: Vec<Statement>,
}

pub enum Statement {
    /// A line of small statements separated by `;`.
    Simple(Vec<SmallStatement>),
    Compound(CompoundStatement),
}

/// The body of a compound statement.
pub enum Suite {
    IndentedBlock(Vec<Statement>),
    SimpleStatementSuite(Vec<SmallStatement>),
}

pub enum CompoundStatement {
    FunctionDef { is_async: bool, has_returns: bool, body: Suite },
    If(If),
    For { is_async: bool, iter: Expression, body: Suite, orelse: Option<Suite> },
    While { test: Expression, body: Suite, orelse: Option<Suite> },
    ClassDef { body: Suite },
    Try { body: Suite, handlers: Vec<Suite>, orelse: Option<Suite>, finalbody: Option<Suite> },
    /// The exception-group form, `try: ... except* E: ...`.
    TryStar { body: Suite, handlers: Vec<Suite>, orelse: Option<Suite>, finalbody: Option<Suite> },
    With { is_async: bool, items: Vec<Expression>, body: Suite },
    /// A `match` statement: its subject and the body of each `case`.
    Match { subject: Expression, cases: Vec<Suite> },
}

pub struct If {
    pub test: Expression,
    pub body: Suite,
    pub orelse: Option<Box<OrElse>>,
}

pub enum OrElse {
    Elif(If),
    Else(Suite),
}

pub enum SmallStatement {
    Return(Option<Expression>),
    Expr(Expression),
    Assert(Expression),
    /// A plain assignment; only its value is kept.
    Assign(Expression),
    /// An annotated assignment, with its value where it has one.
    AnnAssign(Option<Expression>),
    AugAssign(Expression),
    Import(Vec<NameOrAttribute>),
    /// `from m import ...`, with the module where one is named.
    ImportFrom(Option<NameOrAttribute>),
    /// `pass`, `break`, `continue`, `del`, `raise`, `global`, `nonlocal`, a
    /// bare `return`, ...
    Other,
}

/// A dotted module name: a simple name, or an attribute chain.
pub enum NameOrAttribute {
    Name(String),
    Attribute,
}

pub enum BinaryOp {
    Modulo,
    MatrixMultiply,
    Other,
}

pub enum Expression {
    Comparison { left: Box<Expression>, comparators: Vec<Expression> },
    UnaryOperation(Box<Expression>),
    BinaryOperation { left: Box<Expression>, operator: BinaryOp, right: Box<Expression> },
    BooleanOperation { left: Box<Expression>, right: Box<Expression> },
    /// `value.attr`: the value.
    Attribute(Box<Expression>),
    Tuple(Vec<Element>),
    Call { func: Box<Expression>, args: Vec<Expression> },
    GeneratorExp { elt: Box<Expression>, for_in: Box<CompFor> },
    ListComp { elt: Box<Expression>, for_in: Box<CompFor> },
    SetComp { elt: Box<Expression>, for_in: Box<CompFor> },
    DictComp { key: Box<Expression>, value: Box<Expression>, for_in: Box<CompFor> },
    List(Vec<Element>),
    /// A set display, `{a, b}`.
    SetDisplay(Vec<Element>),
    Dict(Vec<DictElement>),
    /// `value[...]`: the value, and the expressions of the slice (indexes
    /// and slice bounds, in order).
    Subscript { value: Box<Expression>, slices: Vec<Expression> },
    StarredElement(Box<Expression>),
    IfExp { test: Box<Expression>, body: Box<Expression>, orelse: Box<Expression> },
    /// `lambda ...: body`: the body.
    Lambda(Box<Expression>),
    Yield(Option<Box<YieldValue>>),
    Await(Box<Expression>),
    /// An f-string: the expressions of its replacement fields, those of
    /// nested format specs included, in order.
    FormattedString(Vec<Expression>),
    NamedExpr { target: Box<Expression>, value: Box<Expression> },
    SimpleString,
    /// Names, numbers, ellipsis and the other leaves.
    Other,
}

pub enum Element {
    Simple(Expression),
    Starred(Expression),
}

pub enum DictElement {
    Simple { key: Expression, value: Expression },
    Starred(Expression),
}

pub enum YieldValue {
    Expression(Expression),
    From(Expression),
}

/// One `for ... in ...` clause of a comprehension, with its guards and the
/// clause that follows it.
pub struct CompFor {
    pub is_async: bool,
    pub target: AssignTargetExpression,
    pub iter: Expression,
    pub ifs: Vec<Expression>,
    pub inner_for_in: Option<Box<CompFor>>,
}

pub enum AssignTargetExpression {
    Attribute(Expression),
    StarredElement(Expression),
    List(Vec<Element>),
    Tuple(Vec<Element>),
    Subscript(Expression),
    /// A plain name.
    Name,
}

} // verus!
