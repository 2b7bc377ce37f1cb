//! The tree visitor: which flags a parsed file sets.
//!
//! Each `*_flags` spec function says which flags a node and everything below
//! it set; each `handle_*` function walks the node and adds exactly those flags
//! to the vector it is given.
use vstd::prelude::*;
use crate::stats::{
    flag_if, flag_stats, group_join, join, no_flags, Flag, Stats,
};
use crate::tree::{
    AssignTargetExpression, BinaryOp, CompFor, CompoundStatement, DictElement, Element, Expression,
    If, Module, NameOrAttribute, OrElse, SmallStatement, Statement, Suite, YieldValue,
};

verus! {

broadcast use group_join;

/// The flags that a binary operator sets by itself: `%` with a plain string
/// on its left, and `@`.
pub open spec fn binop_own_flags(left: Expression, operator: BinaryOp) -> Stats {
    join(
        flag_if(left is SimpleString && operator is Modulo, Flag::ModuloFormatting),
        flag_if(operator is MatrixMultiply, Flag::MatrixMultiply),
    )
}

/// The flags that an expression and everything below it set.
pub open spec fn expr_flags(e: Expression) -> Stats
    decreases e,
{
    match e {
        Expression::Comparison { left, comparators } => join(
            expr_flags(*left),
            exprs_flags(comparators@),
        ),
        Expression::UnaryOperation(x) => expr_flags(*x),
        Expression::BinaryOperation { left, operator, right } => join(
            binop_own_flags(*left, operator),
            join(expr_flags(*left), expr_flags(*right)),
        ),
        Expression::BooleanOperation { left, right } => join(expr_flags(*left), expr_flags(*right)),
        Expression::Attribute(x) => expr_flags(*x),
        Expression::Tuple(els) => elements_flags(els@),
        Expression::Call { func, args } => join(expr_flags(*func), exprs_flags(args@)),
        Expression::GeneratorExp { elt, for_in } => join(
            flag_stats(Flag::GeneratorExpression),
            join(expr_flags(*elt), comp_for_flags(*for_in)),
        ),
        Expression::ListComp { elt, for_in } => join(
            flag_stats(Flag::ListComp),
            join(expr_flags(*elt), comp_for_flags(*for_in)),
        ),
        Expression::SetComp { elt, for_in } => join(
            flag_stats(Flag::SetComp),
            join(expr_flags(*elt), comp_for_flags(*for_in)),
        ),
        Expression::DictComp { key, value, for_in } => join(
            flag_stats(Flag::DictComp),
            join(join(expr_flags(*key), expr_flags(*value)), comp_for_flags(*for_in)),
        ),
        Expression::List(els) => elements_flags(els@),
        Expression::SetDisplay(els) => elements_flags(els@),
        Expression::Dict(els) => dict_elements_flags(els@),
        Expression::Subscript { value, slices } => join(expr_flags(*value), exprs_flags(slices@)),
        Expression::StarredElement(x) => expr_flags(*x),
        Expression::IfExp { test, body, orelse } => join(
            expr_flags(*test),
            join(expr_flags(*body), expr_flags(*orelse)),
        ),
        Expression::Lambda(x) => expr_flags(*x),
        Expression::Yield(v) => match v {
            Some(v) => yield_value_flags(*v),
            None => no_flags(),
        },
        Expression::Await(x) => join(flag_stats(Flag::Async), expr_flags(*x)),
        Expression::FormattedString(parts) => join(flag_stats(Flag::Fstring), exprs_flags(parts@)),
        Expression::NamedExpr { target, value } => join(
            flag_stats(Flag::Walrus),
            join(expr_flags(*target), expr_flags(*value)),
        ),
        Expression::SimpleString => no_flags(),
        Expression::Other => no_flags(),
    }
}

/// The flags that a sequence of expressions sets.
pub open spec fn exprs_flags(s: Seq<Expression>) -> Stats
    decreases s,
{
    if s.len() == 0 {
        no_flags()
    } else {
        join(exprs_flags(s.drop_last()), expr_flags(s.last()))
    }
}

pub open spec fn yield_value_flags(v: YieldValue) -> Stats
    decreases v,
{
    match v {
        YieldValue::Expression(x) => expr_flags(x),
        YieldValue::From(x) => expr_flags(x),
    }
}

pub open spec fn element_flags(el: Element) -> Stats
    decreases el,
{
    match el {
        Element::Simple(x) => expr_flags(x),
        Element::Starred(x) => expr_flags(x),
    }
}

pub open spec fn elements_flags(s: Seq<Element>) -> Stats
    decreases s,
{
    if s.len() == 0 {
        no_flags()
    } else {
        join(elements_flags(s.drop_last()), element_flags(s.last()))
    }
}

pub open spec fn dict_element_flags(el: DictElement) -> Stats
    decreases el,
{
    match el {
        DictElement::Simple { key, value } => join(expr_flags(key), expr_flags(value)),
        DictElement::Starred(x) => expr_flags(x),
    }
}

pub open spec fn dict_elements_flags(s: Seq<DictElement>) -> Stats
    decreases s,
{
    if s.len() == 0 {
        no_flags()
    } else {
        join(dict_elements_flags(s.drop_last()), dict_element_flags(s.last()))
    }
}

pub open spec fn target_flags(t: AssignTargetExpression) -> Stats
    decreases t,
{
    match t {
        AssignTargetExpression::Attribute(x) => expr_flags(x),
        AssignTargetExpression::StarredElement(x) => expr_flags(x),
        AssignTargetExpression::List(els) => elements_flags(els@),
        AssignTargetExpression::Tuple(els) => elements_flags(els@),
        AssignTargetExpression::Subscript(x) => expr_flags(x),
        AssignTargetExpression::Name => no_flags(),
    }
}

/// The flags that a comprehension's `for` clause, its guards and the clauses
/// nested in it set.
pub open spec fn comp_for_flags(c: CompFor) -> Stats
    decreases c,
{
    join(
        flag_if(c.is_async, Flag::AsyncComp),
        join(
            target_flags(c.target),
            join(
                expr_flags(c.iter),
                join(
                    exprs_flags(c.ifs@),
                    match c.inner_for_in {
                        Some(inner) => comp_for_flags(*inner),
                        None => no_flags(),
                    },
                ),
            ),
        ),
    )
}

/// The flags that a module sets: those of its statements.
pub open spec fn module_flags(m: Module) -> Stats {
    stmts_flags(m.body@)
}

pub open spec fn stmt_flags(s: Statement) -> Stats
    decreases s,
{
    match s {
        Statement::Simple(body) => smalls_flags(body@),
        Statement::Compound(c) => compound_flags(c),
    }
}

pub open spec fn stmts_flags(s: Seq<Statement>) -> Stats
    decreases s,
{
    if s.len() == 0 {
        no_flags()
    } else {
        join(stmts_flags(s.drop_last()), stmt_flags(s.last()))
    }
}

pub open spec fn suite_flags(s: Suite) -> Stats
    decreases s,
{
    match s {
        Suite::IndentedBlock(body) => stmts_flags(body@),
        Suite::SimpleStatementSuite(body) => smalls_flags(body@),
    }
}

pub open spec fn suites_flags(s: Seq<Suite>) -> Stats
    decreases s,
{
    if s.len() == 0 {
        no_flags()
    } else {
        join(suites_flags(s.drop_last()), suite_flags(s.last()))
    }
}

pub open spec fn compound_flags(c: CompoundStatement) -> Stats
    decreases c,
{
    match c {
        CompoundStatement::FunctionDef { is_async, has_returns, body } => join(
            flag_if(is_async, Flag::Async),
            join(flag_if(has_returns, Flag::Annotations), suite_flags(body)),
        ),
        CompoundStatement::If(i) => if_flags(i),
        CompoundStatement::For { is_async, iter, body, orelse } => join(
            flag_if(is_async, Flag::Async),
            join(
                expr_flags(iter),
                join(
                    suite_flags(body),
                    match orelse {
                        Some(s) => suite_flags(s),
                        None => no_flags(),
                    },
                ),
            ),
        ),
        CompoundStatement::While { test, body, orelse } => join(
            expr_flags(test),
            join(
                suite_flags(body),
                match orelse {
                    Some(s) => suite_flags(s),
                    None => no_flags(),
                },
            ),
        ),
        CompoundStatement::ClassDef { body } => suite_flags(body),
        CompoundStatement::Try { body, handlers, orelse, finalbody } => join(
            suite_flags(body),
            join(
                suites_flags(handlers@),
                join(
                    match orelse {
                        Some(s) => suite_flags(s),
                        None => no_flags(),
                    },
                    match finalbody {
                        Some(s) => suite_flags(s),
                        None => no_flags(),
                    },
                ),
            ),
        ),
        CompoundStatement::TryStar { body, handlers, orelse, finalbody } => join(
            flag_stats(Flag::TryStar),
            join(
                suite_flags(body),
                join(
                    suites_flags(handlers@),
                    join(
                        match orelse {
                            Some(s) => suite_flags(s),
                            None => no_flags(),
                        },
                        match finalbody {
                            Some(s) => suite_flags(s),
                            None => no_flags(),
                        },
                    ),
                ),
            ),
        ),
        CompoundStatement::With { is_async, items, body } => join(
            flag_if(is_async, Flag::Async),
            join(exprs_flags(items@), suite_flags(body)),
        ),
        CompoundStatement::Match { subject, cases } => join(
            flag_stats(Flag::Match),
            join(expr_flags(subject), suites_flags(cases@)),
        ),
    }
}

/// The flags of an `if` statement, its `elif` chain and its `else` block.
pub open spec fn if_flags(i: If) -> Stats
    decreases i,
{
    join(
        expr_flags(i.test),
        join(
            suite_flags(i.body),
            match i.orelse {
                Some(orelse) => match *orelse {
                    OrElse::Elif(e) => if_flags(e),
                    OrElse::Else(s) => suite_flags(s),
                },
                None => no_flags(),
            },
        ),
    )
}

pub open spec fn small_flags(s: SmallStatement) -> Stats {
    match s {
        SmallStatement::Return(Some(x)) => expr_flags(x),
        SmallStatement::Expr(x) => expr_flags(x),
        SmallStatement::Assert(x) => expr_flags(x),
        SmallStatement::Assign(x) => expr_flags(x),
        SmallStatement::AnnAssign(Some(x)) => join(flag_stats(Flag::Annotations), expr_flags(x)),
        SmallStatement::AugAssign(x) => expr_flags(x),
        SmallStatement::Import(names) => imports_flags(names@),
        SmallStatement::ImportFrom(Some(module)) => import_flags(module),
        _ => no_flags(),
    }
}

pub open spec fn smalls_flags(s: Seq<SmallStatement>) -> Stats
    decreases s,
{
    if s.len() == 0 {
        no_flags()
    } else {
        join(smalls_flags(s.drop_last()), small_flags(s.last()))
    }
}

/// An import of the module named exactly `dataclasses` sets its flag.
pub open spec fn import_flags(name: NameOrAttribute) -> Stats {
    match name {
        NameOrAttribute::Name(n) => flag_if(n@ == dataclasses_name(), Flag::Dataclasses),
        NameOrAttribute::Attribute => no_flags(),
    }
}

pub open spec fn dataclasses_name() -> Seq<char> {
    seq!['d', 'a', 't', 'a', 'c', 'l', 'a', 's', 's', 'e', 's']
}

pub open spec fn imports_flags(s: Seq<NameOrAttribute>) -> Stats
    decreases s,
{
    if s.len() == 0 {
        no_flags()
    } else {
        join(imports_flags(s.drop_last()), import_flags(s.last()))
    }
}

proof fn lemma_exprs_flags_step(s: Seq<Expression>, i: int)
    requires
        0 <= i < s.len(),
    ensures
        exprs_flags(s.subrange(0, i + 1)) == join(exprs_flags(s.subrange(0, i)), expr_flags(s[i])),
{
    assert(s.subrange(0, i + 1).drop_last() =~= s.subrange(0, i));
}

proof fn lemma_elements_flags_step(s: Seq<Element>, i: int)
    requires
        0 <= i < s.len(),
    ensures
        elements_flags(s.subrange(0, i + 1)) == join(elements_flags(s.subrange(0, i)), element_flags(s[i])),
{
    assert(s.subrange(0, i + 1).drop_last() =~= s.subrange(0, i));
}

proof fn lemma_dict_elements_flags_step(s: Seq<DictElement>, i: int)
    requires
        0 <= i < s.len(),
    ensures
        dict_elements_flags(s.subrange(0, i + 1)) == join(dict_elements_flags(s.subrange(0, i)), dict_element_flags(s[i])),
{
    assert(s.subrange(0, i + 1).drop_last() =~= s.subrange(0, i));
}

proof fn lemma_stmts_flags_step(s: Seq<Statement>, i: int)
    requires
        0 <= i < s.len(),
    ensures
        stmts_flags(s.subrange(0, i + 1)) == join(stmts_flags(s.subrange(0, i)), stmt_flags(s[i])),
{
    assert(s.subrange(0, i + 1).drop_last() =~= s.subrange(0, i));
}

proof fn lemma_suites_flags_step(s: Seq<Suite>, i: int)
    requires
        0 <= i < s.len(),
    ensures
        suites_flags(s.subrange(0, i + 1)) == join(suites_flags(s.subrange(0, i)), suite_flags(s[i])),
{
    assert(s.subrange(0, i + 1).drop_last() =~= s.subrange(0, i));
}

proof fn lemma_smalls_flags_step(s: Seq<SmallStatement>, i: int)
    requires
        0 <= i < s.len(),
    ensures
        smalls_flags(s.subrange(0, i + 1)) == join(smalls_flags(s.subrange(0, i)), small_flags(s[i])),
{
    assert(s.subrange(0, i + 1).drop_last() =~= s.subrange(0, i));
}

proof fn lemma_imports_flags_step(s: Seq<NameOrAttribute>, i: int)
    requires
        0 <= i < s.len(),
    ensures
        imports_flags(s.subrange(0, i + 1)) == join(imports_flags(s.subrange(0, i)), import_flags(s[i])),
{
    assert(s.subrange(0, i + 1).drop_last() =~= s.subrange(0, i));
}

fn handle_expressions(v: &Vec<Expression>, stats: &mut Stats)
    ensures
        *final(stats) == join(*old(stats), exprs_flags(v@)),
    decreases v,
{
    let ghost s0 = *stats;
    let mut i: usize = 0;
    while i < v.len()
        invariant
            i <= v.len(),
            *stats == join(s0, exprs_flags(v@.subrange(0, i as int))),
        decreases v.len() - i,
    {
        proof {
            lemma_exprs_flags_step(v@, i as int);
        }
        handle_expression(&v[i], stats);
        i += 1;
    }
    proof {
        assert(v@.subrange(0, v.len() as int) =~= v@);
    }
}

fn handle_elements(v: &Vec<Element>, stats: &mut Stats)
    ensures
        *final(stats) == join(*old(stats), elements_flags(v@)),
    decreases v,
{
    let ghost s0 = *stats;
    let mut i: usize = 0;
    while i < v.len()
        invariant
            i <= v.len(),
            *stats == join(s0, elements_flags(v@.subrange(0, i as int))),
        decreases v.len() - i,
    {
        proof {
            lemma_elements_flags_step(v@, i as int);
        }
        handle_element(&v[i], stats);
        i += 1;
    }
    proof {
        assert(v@.subrange(0, v.len() as int) =~= v@);
    }
}

fn handle_dict_elements(v: &Vec<DictElement>, stats: &mut Stats)
    ensures
        *final(stats) == join(*old(stats), dict_elements_flags(v@)),
    decreases v,
{
    let ghost s0 = *stats;
    let mut i: usize = 0;
    while i < v.len()
        invariant
            i <= v.len(),
            *stats == join(s0, dict_elements_flags(v@.subrange(0, i as int))),
        decreases v.len() - i,
    {
        proof {
            lemma_dict_elements_flags_step(v@, i as int);
        }
        handle_dict_element(&v[i], stats);
        i += 1;
    }
    proof {
        assert(v@.subrange(0, v.len() as int) =~= v@);
    }
}

/// Adds the flags of `expression` and of everything below it.
fn handle_expression(expression: &Expression, stats: &mut Stats)
    ensures
        *final(stats) == join(*old(stats), expr_flags(*expression)),
    decreases expression,
{
    match expression {
        Expression::Comparison { left, comparators } => {
            handle_expression(left, stats);
            handle_expressions(comparators, stats);
        },
        Expression::UnaryOperation(x) => {
            handle_expression(x, stats);
        },
        Expression::BinaryOperation { left, operator, right } => {
            if let (Expression::SimpleString, BinaryOp::Modulo) = (&**left, operator) {
                stats.set(Flag::ModuloFormatting);
            }
            if let BinaryOp::MatrixMultiply = operator {
                stats.set(Flag::MatrixMultiply);
            }
            handle_expression(left, stats);
            handle_expression(right, stats);
        },
        Expression::BooleanOperation { left, right } => {
            handle_expression(left, stats);
            handle_expression(right, stats);
        },
        Expression::Attribute(x) => {
            handle_expression(x, stats);
        },
        Expression::Tuple(elements) => {
            handle_elements(elements, stats);
        },
        Expression::Call { func, args } => {
            handle_expression(func, stats);
            handle_expressions(args, stats);
        },
        Expression::GeneratorExp { elt, for_in } => {
            stats.set(Flag::GeneratorExpression);
            handle_expression(elt, stats);
            handle_comp_for(for_in, stats);
        },
        Expression::ListComp { elt, for_in } => {
            stats.set(Flag::ListComp);
            handle_expression(elt, stats);
            handle_comp_for(for_in, stats);
        },
        Expression::SetComp { elt, for_in } => {
            stats.set(Flag::SetComp);
            handle_expression(elt, stats);
            handle_comp_for(for_in, stats);
        },
        Expression::DictComp { key, value, for_in } => {
            stats.set(Flag::DictComp);
            handle_expression(key, stats);
            handle_expression(value, stats);
            handle_comp_for(for_in, stats);
        },
        Expression::List(elements) => {
            handle_elements(elements, stats);
        },
        Expression::SetDisplay(elements) => {
            handle_elements(elements, stats);
        },
        Expression::Dict(elements) => {
            handle_dict_elements(elements, stats);
        },
        Expression::Subscript { value, slices } => {
            handle_expression(value, stats);
            handle_expressions(slices, stats);
        },
        Expression::StarredElement(x) => {
            handle_expression(x, stats);
        },
        Expression::IfExp { test, body, orelse } => {
            handle_expression(test, stats);
            handle_expression(body, stats);
            handle_expression(orelse, stats);
        },
        Expression::Lambda(x) => {
            handle_expression(x, stats);
        },
        Expression::Yield(value) => {
            if let Some(value) = value {
                handle_yield_value(value, stats);
            }
        },
        Expression::Await(x) => {
            stats.set(Flag::Async);
            handle_expression(x, stats);
        },
        Expression::FormattedString(parts) => {
            stats.set(Flag::Fstring);
            handle_expressions(parts, stats);
        },
        Expression::NamedExpr { target, value } => {
            stats.set(Flag::Walrus);
            handle_expression(target, stats);
            handle_expression(value, stats);
        },
        Expression::SimpleString => {},
        Expression::Other => {},
    }
}

fn handle_yield_value(value: &YieldValue, stats: &mut Stats)
    ensures
        *final(stats) == join(*old(stats), yield_value_flags(*value)),
    decreases value,
{
    match value {
        YieldValue::Expression(x) => handle_expression(x, stats),
        YieldValue::From(x) => handle_expression(x, stats),
    }
}

fn handle_element(element: &Element, stats: &mut Stats)
    ensures
        *final(stats) == join(*old(stats), element_flags(*element)),
    decreases element,
{
    match element {
        Element::Simple(value) => handle_expression(value, stats),
        Element::Starred(value) => handle_expression(value, stats),
    }
}

fn handle_dict_element(element: &DictElement, stats: &mut Stats)
    ensures
        *final(stats) == join(*old(stats), dict_element_flags(*element)),
    decreases element,
{
    match element {
        DictElement::Simple { key, value } => {
            handle_expression(key, stats);
            handle_expression(value, stats);
        },
        DictElement::Starred(value) => handle_expression(value, stats),
    }
}

fn handle_assignable_target_expression(expr: &AssignTargetExpression, stats: &mut Stats)
    ensures
        *final(stats) == join(*old(stats), target_flags(*expr)),
    decreases expr,
{
    match expr {
        AssignTargetExpression::Attribute(value) => handle_expression(value, stats),
        AssignTargetExpression::StarredElement(value) => handle_expression(value, stats),
        AssignTargetExpression::List(elements) => handle_elements(elements, stats),
        AssignTargetExpression::Tuple(elements) => handle_elements(elements, stats),
        AssignTargetExpression::Subscript(value) => handle_expression(value, stats),
        AssignTargetExpression::Name => {},
    }
}

fn handle_comp_for(for_in: &CompFor, stats: &mut Stats)
    ensures
        *final(stats) == join(*old(stats), comp_for_flags(*for_in)),
    decreases for_in,
{
    if for_in.is_async {
        stats.set(Flag::AsyncComp);
    }
    handle_assignable_target_expression(&for_in.target, stats);
    handle_expression(&for_in.iter, stats);
    handle_expressions(&for_in.ifs, stats);
    if let Some(inner) = &for_in.inner_for_in {
        handle_comp_for(inner, stats);
    }
}

/// The feature vector of a parsed module.
pub fn walk_cst(module: Module) -> (r: Stats)
    ensures
        r == module_flags(module),
{
    let mut stats = Stats::new();
    handle_statements(&module.body, &mut stats);
    stats
}

fn handle_statements(v: &Vec<Statement>, stats: &mut Stats)
    ensures
        *final(stats) == join(*old(stats), stmts_flags(v@)),
    decreases v,
{
    let ghost s0 = *stats;
    let mut i: usize = 0;
    while i < v.len()
        invariant
            i <= v.len(),
            *stats == join(s0, stmts_flags(v@.subrange(0, i as int))),
        decreases v.len() - i,
    {
        proof {
            lemma_stmts_flags_step(v@, i as int);
        }
        handle_statement(&v[i], stats);
        i += 1;
    }
    proof {
        assert(v@.subrange(0, v.len() as int) =~= v@);
    }
}

fn handle_statement(statement: &Statement, stats: &mut Stats)
    ensures
        *final(stats) == join(*old(stats), stmt_flags(*statement)),
    decreases statement,
{
    match statement {
        Statement::Simple(simple) => handle_small_statements(simple, stats),
        Statement::Compound(compound) => handle_compound_statement(compound, stats),
    }
}

fn handle_optional_suite(suite: &Option<Suite>, stats: &mut Stats)
    ensures
        *final(stats) == join(
            *old(stats),
            match *suite {
                Some(s) => suite_flags(s),
                None => no_flags(),
            },
        ),
    decreases suite,
{
    if let Some(s) = suite {
        handle_suite(s, stats);
    }
}

#[verifier::rlimit(100)]
fn handle_compound_statement(statement: &CompoundStatement, stats: &mut Stats)
    ensures
        *final(stats) == join(*old(stats), compound_flags(*statement)),
    decreases statement,
{
    match statement {
        CompoundStatement::FunctionDef { is_async, has_returns, body } => {
            if *is_async {
                stats.set(Flag::Async);
            }
            if *has_returns {
                stats.set(Flag::Annotations);
            }
            handle_suite(body, stats);
        },
        CompoundStatement::If(if_statement) => handle_if(if_statement, stats),
        CompoundStatement::For { is_async, iter, body, orelse } => {
            if *is_async {
                stats.set(Flag::Async);
            }
            handle_expression(iter, stats);
            handle_suite(body, stats);
            handle_optional_suite(orelse, stats);
        },
        CompoundStatement::While { test, body, orelse } => {
            handle_expression(test, stats);
            handle_suite(body, stats);
            handle_optional_suite(orelse, stats);
        },
        CompoundStatement::ClassDef { body } => handle_suite(body, stats),
        CompoundStatement::Try { body, handlers, orelse, finalbody } => {
            handle_suite(body, stats);
            handle_suites(handlers, stats);
            handle_optional_suite(orelse, stats);
            handle_optional_suite(finalbody, stats);
        },
        CompoundStatement::TryStar { body, handlers, orelse, finalbody } => {
            stats.set(Flag::TryStar);
            handle_suite(body, stats);
            handle_suites(handlers, stats);
            handle_optional_suite(orelse, stats);
            handle_optional_suite(finalbody, stats);
        },
        CompoundStatement::With { is_async, items, body } => {
            if *is_async {
                stats.set(Flag::Async);
            }
            handle_expressions(items, stats);
            handle_suite(body, stats);
        },
        CompoundStatement::Match { subject, cases } => {
            stats.set(Flag::Match);
            handle_expression(subject, stats);
            handle_suites(cases, stats);
        },
    }
}

fn handle_if(if_statement: &If, stats: &mut Stats)
    ensures
        *final(stats) == join(*old(stats), if_flags(*if_statement)),
    decreases if_statement,
{
    handle_expression(&if_statement.test, stats);
    handle_suite(&if_statement.body, stats);
    if let Some(orelse) = &if_statement.orelse {
        match &**orelse {
            OrElse::Else(body) => handle_suite(body, stats),
            OrElse::Elif(e) => handle_if(e, stats),
        }
    }
}

fn handle_suite(suite: &Suite, stats: &mut Stats)
    ensures
        *final(stats) == join(*old(stats), suite_flags(*suite)),
    decreases suite,
{
    match suite {
        Suite::IndentedBlock(body) => handle_statements(body, stats),
        Suite::SimpleStatementSuite(body) => handle_small_statements(body, stats),
    }
}

fn handle_suites(v: &Vec<Suite>, stats: &mut Stats)
    ensures
        *final(stats) == join(*old(stats), suites_flags(v@)),
    decreases v,
{
    let ghost s0 = *stats;
    let mut i: usize = 0;
    while i < v.len()
        invariant
            i <= v.len(),
            *stats == join(s0, suites_flags(v@.subrange(0, i as int))),
        decreases v.len() - i,
    {
        proof {
            lemma_suites_flags_step(v@, i as int);
        }
        handle_suite(&v[i], stats);
        i += 1;
    }
    proof {
        assert(v@.subrange(0, v.len() as int) =~= v@);
    }
}

fn handle_small_statements(v: &Vec<SmallStatement>, stats: &mut Stats)
    ensures
        *final(stats) == join(*old(stats), smalls_flags(v@)),
    decreases v,
{
    let ghost s0 = *stats;
    let mut i: usize = 0;
    while i < v.len()
        invariant
            i <= v.len(),
            *stats == join(s0, smalls_flags(v@.subrange(0, i as int))),
        decreases v.len() - i,
    {
        proof {
            lemma_smalls_flags_step(v@, i as int);
        }
        handle_small_statement(&v[i], stats);
        i += 1;
    }
    proof {
        assert(v@.subrange(0, v.len() as int) =~= v@);
    }
}

fn handle_small_statement(statement: &SmallStatement, stats: &mut Stats)
    ensures
        *final(stats) == join(*old(stats), small_flags(*statement)),
{
    match statement {
        SmallStatement::Return(Some(x)) => handle_expression(x, stats),
        SmallStatement::Expr(x) => handle_expression(x, stats),
        SmallStatement::Assert(x) => handle_expression(x, stats),
        SmallStatement::Assign(x) => handle_expression(x, stats),
        SmallStatement::AnnAssign(Some(x)) => {
            stats.set(Flag::Annotations);
            handle_expression(x, stats);
        },
        SmallStatement::AugAssign(x) => handle_expression(x, stats),
        SmallStatement::Import(names) => handle_imports(names, stats),
        SmallStatement::ImportFrom(Some(module)) => handle_import_names(module, stats),
        _ => {},
    }
}

fn handle_imports(v: &Vec<NameOrAttribute>, stats: &mut Stats)
    ensures
        *final(stats) == join(*old(stats), imports_flags(v@)),
    decreases v,
{
    let ghost s0 = *stats;
    let mut i: usize = 0;
    while i < v.len()
        invariant
            i <= v.len(),
            *stats == join(s0, imports_flags(v@.subrange(0, i as int))),
        decreases v.len() - i,
    {
        proof {
            lemma_imports_flags_step(v@, i as int);
        }
        handle_import_names(&v[i], stats);
        i += 1;
    }
    proof {
        assert(v@.subrange(0, v.len() as int) =~= v@);
    }
}

fn handle_import_names(name: &NameOrAttribute, stats: &mut Stats)
    ensures
        *final(stats) == join(*old(stats), import_flags(*name)),
{
    match name {
        NameOrAttribute::Name(n) => {
            let target = String::from_str("dataclasses");
            proof {
                reveal_strlit("dataclasses");
                assert(target@ =~= dataclasses_name());
            }
            if n.eq(&target) {
                stats.set(Flag::Dataclasses);
            }
        },
        NameOrAttribute::Attribute => {},
    }
}

} // verus!
