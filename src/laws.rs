//! Properties of the visitor that hold of every tree.
use vstd::prelude::*;
use crate::stats::{flag_if, flag_stats, flags_le, join, no_flags, Flag, Stats};
use crate::tree::{
    CompFor, CompoundStatement, Element, Expression, If, Module, OrElse, SmallStatement, Statement,
    Suite, YieldValue,
};
use crate::visitor::{
    binop_own_flags, comp_for_flags, compound_flags, element_flags, elements_flags, expr_flags, exprs_flags, if_flags,
    module_flags, small_flags, suites_flags, target_flags, yield_value_flags, smalls_flags, stmt_flags, stmts_flags, suite_flags,
};

verus! {

/// `flags_le` is transitive: a flag that reaches `b` from `a` reaches every
/// vector that holds `b`.
pub proof fn lemma_flags_le_trans(a: Stats, b: Stats, c: Stats)
    requires
        flags_le(a, b),
        flags_le(b, c),
    ensures
        flags_le(a, c),
{
    reveal(join);
}

proof fn lemma_exprs_member(s: Seq<Expression>, i: int)
    requires
        0 <= i < s.len(),
    ensures
        flags_le(expr_flags(s[i]), exprs_flags(s)),
    decreases s.len(),
{
    reveal(join);
    if i < s.len() - 1 {
        lemma_exprs_member(s.drop_last(), i);
    }
}

proof fn lemma_elements_member(s: Seq<Element>, i: int)
    requires
        0 <= i < s.len(),
    ensures
        flags_le(element_flags(s[i]), elements_flags(s)),
    decreases s.len(),
{
    reveal(join);
    if i < s.len() - 1 {
        lemma_elements_member(s.drop_last(), i);
    }
}

proof fn lemma_stmts_member(s: Seq<Statement>, i: int)
    requires
        0 <= i < s.len(),
    ensures
        flags_le(stmt_flags(s[i]), stmts_flags(s)),
    decreases s.len(),
{
    reveal(join);
    if i < s.len() - 1 {
        lemma_stmts_member(s.drop_last(), i);
    }
}

proof fn lemma_smalls_member(s: Seq<SmallStatement>, i: int)
    requires
        0 <= i < s.len(),
    ensures
        flags_le(small_flags(s[i]), smalls_flags(s)),
    decreases s.len(),
{
    reveal(join);
    if i < s.len() - 1 {
        lemma_smalls_member(s.drop_last(), i);
    }
}

/// The expression inside a tuple, list or set element.
pub open spec fn element_value(el: Element) -> Expression {
    match el {
        Element::Simple(x) => x,
        Element::Starred(x) => x,
    }
}

/// The sub-expressions that an expression holds directly: its operands,
/// arguments, elements, slices, f-string fields and bodies. Dict entries and
/// the `for` clauses of comprehensions are not listed.
pub open spec fn operands(e: Expression) -> Seq<Expression> {
    match e {
        Expression::Comparison { left, comparators } => seq![*left] + comparators@,
        Expression::UnaryOperation(x) => seq![*x],
        Expression::BinaryOperation { left, operator, right } => seq![*left, *right],
        Expression::BooleanOperation { left, right } => seq![*left, *right],
        Expression::Attribute(x) => seq![*x],
        Expression::Tuple(els) => els@.map_values(|el: Element| element_value(el)),
        Expression::Call { func, args } => seq![*func] + args@,
        Expression::GeneratorExp { elt, for_in } => seq![*elt],
        Expression::ListComp { elt, for_in } => seq![*elt],
        Expression::SetComp { elt, for_in } => seq![*elt],
        Expression::DictComp { key, value, for_in } => seq![*key, *value],
        Expression::List(els) => els@.map_values(|el: Element| element_value(el)),
        Expression::SetDisplay(els) => els@.map_values(|el: Element| element_value(el)),
        Expression::Subscript { value, slices } => seq![*value] + slices@,
        Expression::FormattedString(parts) => parts@,
        Expression::StarredElement(x) => seq![*x],
        Expression::IfExp { test, body, orelse } => seq![*test, *body, *orelse],
        Expression::Lambda(x) => seq![*x],
        Expression::Yield(Some(v)) => match *v {
            YieldValue::Expression(x) => seq![x],
            YieldValue::From(x) => seq![x],
        },
        Expression::Await(x) => seq![*x],
        Expression::NamedExpr { target, value } => seq![*target, *value],
        _ => seq![],
    }
}

proof fn lemma_le_refl(a: Stats)
    ensures
        flags_le(a, a),
{
    reveal(join);
}

proof fn lemma_le_join_left(a: Stats, b: Stats, c: Stats)
    requires
        flags_le(a, b),
    ensures
        flags_le(a, join(b, c)),
{
    reveal(join);
}

proof fn lemma_le_join_right(a: Stats, b: Stats, c: Stats)
    requires
        flags_le(a, c),
    ensures
        flags_le(a, join(b, c)),
{
    reveal(join);
}

proof fn lemma_le_in_join2(x: Stats, a: Stats, b: Stats)
    requires
        x == a || x == b,
    ensures
        flags_le(x, join(a, b)),
{
    reveal(join);
}

proof fn lemma_le_in_join3(x: Stats, a: Stats, b: Stats, c: Stats)
    requires
        x == a || x == b || x == c,
    ensures
        flags_le(x, join(a, join(b, c))),
{
    reveal(join);
}

/// A flag that an operand sets is set in the expression that holds it.
pub proof fn lemma_operand_flags_propagate(e: Expression, i: int)
    requires
        0 <= i < operands(e).len(),
    ensures
        flags_le(expr_flags(operands(e)[i]), expr_flags(e)),
{
    let x = expr_flags(operands(e)[i]);
    match e {
        Expression::Comparison { left, comparators } => {
            if i == 0 {
                lemma_le_in_join2(x, expr_flags(*left), exprs_flags(comparators@));
            } else {
                assert(operands(e)[i] == comparators@[i - 1]);
                lemma_exprs_member(comparators@, i - 1);
                lemma_le_join_right(x, expr_flags(*left), exprs_flags(comparators@));
            }
        },
        Expression::Subscript { value, slices } => {
            if i == 0 {
                lemma_le_in_join2(x, expr_flags(*value), exprs_flags(slices@));
            } else {
                assert(operands(e)[i] == slices@[i - 1]);
                lemma_exprs_member(slices@, i - 1);
                lemma_le_join_right(x, expr_flags(*value), exprs_flags(slices@));
            }
        },
        Expression::FormattedString(parts) => {
            lemma_exprs_member(parts@, i);
            lemma_le_join_right(x, flag_stats(Flag::Fstring), exprs_flags(parts@));
        },
        Expression::Call { func, args } => {
            if i == 0 {
                lemma_le_in_join2(x, expr_flags(*func), exprs_flags(args@));
            } else {
                assert(operands(e)[i] == args@[i - 1]);
                lemma_exprs_member(args@, i - 1);
                lemma_le_join_right(x, expr_flags(*func), exprs_flags(args@));
            }
        },
        Expression::Tuple(els) => {
            assert(operands(e)[i] == element_value(els@[i]));
            assert(element_flags(els@[i]) == x);
            lemma_elements_member(els@, i);
        },
        Expression::List(els) => {
            assert(operands(e)[i] == element_value(els@[i]));
            assert(element_flags(els@[i]) == x);
            lemma_elements_member(els@, i);
        },
        Expression::SetDisplay(els) => {
            assert(operands(e)[i] == element_value(els@[i]));
            assert(element_flags(els@[i]) == x);
            lemma_elements_member(els@, i);
        },
        Expression::BinaryOperation { left, operator, right } => {
            lemma_le_in_join3(
                x,
                binop_own_flags(*left, operator),
                expr_flags(*left),
                expr_flags(*right),
            );
        },
        Expression::BooleanOperation { left, right } => {
            lemma_le_in_join2(x, expr_flags(*left), expr_flags(*right));
        },
        Expression::GeneratorExp { elt, for_in } => {
            lemma_le_in_join3(
                x,
                flag_stats(Flag::GeneratorExpression),
                expr_flags(*elt),
                comp_for_flags(*for_in),
            );
        },
        Expression::ListComp { elt, for_in } => {
            lemma_le_in_join3(x, flag_stats(Flag::ListComp), expr_flags(*elt), comp_for_flags(*for_in));
        },
        Expression::SetComp { elt, for_in } => {
            lemma_le_in_join3(x, flag_stats(Flag::SetComp), expr_flags(*elt), comp_for_flags(*for_in));
        },
        Expression::DictComp { key, value, for_in } => {
            let kv = join(expr_flags(*key), expr_flags(*value));
            lemma_le_in_join2(x, expr_flags(*key), expr_flags(*value));
            lemma_le_join_left(x, kv, comp_for_flags(*for_in));
            lemma_le_join_right(x, flag_stats(Flag::DictComp), join(kv, comp_for_flags(*for_in)));
        },
        Expression::IfExp { test, body, orelse } => {
            lemma_le_in_join3(x, expr_flags(*test), expr_flags(*body), expr_flags(*orelse));
        },
        Expression::Yield(Some(v)) => {
            assert(expr_flags(e) == yield_value_flags(*v));
            assert(yield_value_flags(*v) == x);
            lemma_le_refl(x);
        },
        Expression::Await(inner) => {
            lemma_le_in_join2(x, flag_stats(Flag::Async), expr_flags(*inner));
        },
        Expression::NamedExpr { target, value } => {
            lemma_le_in_join3(x, flag_stats(Flag::Walrus), expr_flags(*target), expr_flags(*value));
        },
        _ => {
            lemma_le_refl(x);
        },
    }
}

/// A flag that a top-level statement sets is set in the module's vector.
pub proof fn lemma_statement_flags_propagate(m: Module, i: int)
    requires
        0 <= i < m.body.len(),
    ensures
        flags_le(stmt_flags(m.body@[i]), module_flags(m)),
{
    lemma_stmts_member(m.body@, i);
}

/// A flag that a statement of a block sets is set in the block's vector.
pub proof fn lemma_suite_statement_flags_propagate(s: Suite, i: int)
    requires
        s is IndentedBlock,
        0 <= i < s->IndentedBlock_0.len(),
    ensures
        flags_le(stmt_flags(s->IndentedBlock_0@[i]), suite_flags(s)),
{
    lemma_stmts_member(s->IndentedBlock_0@, i);
}

/// A flag that a small statement of a line sets is set in the line's vector.
pub proof fn lemma_small_statement_flags_propagate(s: Statement, i: int)
    requires
        s is Simple,
        0 <= i < s->Simple_0.len(),
    ensures
        flags_le(small_flags(s->Simple_0@[i]), stmt_flags(s)),
{
    lemma_smalls_member(s->Simple_0@, i);
}

/// The expression that a small statement holds, where it holds one.
pub open spec fn small_expression(s: SmallStatement) -> Option<Expression> {
    match s {
        SmallStatement::Return(x) => x,
        SmallStatement::Expr(x) => Some(x),
        SmallStatement::Assert(x) => Some(x),
        SmallStatement::Assign(x) => Some(x),
        SmallStatement::AnnAssign(x) => x,
        SmallStatement::AugAssign(x) => Some(x),
        _ => None,
    }
}

/// A flag that the expression of a small statement sets is set in the
/// statement's vector.
pub proof fn lemma_small_expression_flags_propagate(s: SmallStatement)
    requires
        small_expression(s) is Some,
    ensures
        flags_le(expr_flags(small_expression(s)->Some_0), small_flags(s)),
{
    reveal(join);
}

/// The main block of a compound statement; a `match` has none, only cases.
pub open spec fn compound_body(c: CompoundStatement) -> Option<Suite> {
    match c {
        CompoundStatement::FunctionDef { body, .. } => Some(body),
        CompoundStatement::If(i) => Some(i.body),
        CompoundStatement::For { body, .. } => Some(body),
        CompoundStatement::While { body, .. } => Some(body),
        CompoundStatement::ClassDef { body } => Some(body),
        CompoundStatement::Try { body, .. } => Some(body),
        CompoundStatement::TryStar { body, .. } => Some(body),
        CompoundStatement::With { body, .. } => Some(body),
        CompoundStatement::Match { .. } => None,
    }
}

/// A flag that the main block of a compound statement sets is set in the
/// statement's vector.
pub proof fn lemma_compound_body_flags_propagate(c: CompoundStatement)
    requires
        compound_body(c) is Some,
    ensures
        flags_le(suite_flags(compound_body(c)->Some_0), compound_flags(c)),
{
    reveal(join);
    if let CompoundStatement::If(i) = c {
        assert(compound_flags(c) == if_flags(i));
    }
}

/// The visitor is a function of the tree: equal trees give equal vectors.
pub proof fn lemma_visitor_deterministic(m1: Module, m2: Module)
    requires
        m1 == m2,
    ensures
        module_flags(m1) == module_flags(m2),
{
}

proof fn lemma_suites_member(s: Seq<Suite>, i: int)
    requires
        0 <= i < s.len(),
    ensures
        flags_le(suite_flags(s[i]), suites_flags(s)),
    decreases s.len(),
{
    reveal(join);
    if i < s.len() - 1 {
        lemma_suites_member(s.drop_last(), i);
    }
}

pub open spec fn optional_suite(o: Option<Suite>) -> Seq<Suite> {
    match o {
        Some(s) => seq![s],
        None => seq![],
    }
}

/// Every block of a compound statement: its body, handler and case bodies,
/// and `else` and `finally` blocks (an `if`'s `elif`/`else` chain is covered
/// by `lemma_if_branch_flags_propagate`).
pub open spec fn compound_suites(c: CompoundStatement) -> Seq<Suite> {
    match c {
        CompoundStatement::FunctionDef { body, .. } => seq![body],
        CompoundStatement::If(i) => seq![i.body],
        CompoundStatement::For { body, orelse, .. } => seq![body] + optional_suite(orelse),
        CompoundStatement::While { body, orelse, .. } => seq![body] + optional_suite(orelse),
        CompoundStatement::ClassDef { body } => seq![body],
        CompoundStatement::Try { body, handlers, orelse, finalbody } => seq![body] + handlers@
            + optional_suite(orelse) + optional_suite(finalbody),
        CompoundStatement::TryStar { body, handlers, orelse, finalbody } => seq![body] + handlers@
            + optional_suite(orelse) + optional_suite(finalbody),
        CompoundStatement::With { body, .. } => seq![body],
        CompoundStatement::Match { cases, .. } => cases@,
    }
}

/// The expressions a compound statement holds directly: an `if` or `while`
/// test, a `for` iterable, `with` items, a `match` subject.
pub open spec fn compound_exprs(c: CompoundStatement) -> Seq<Expression> {
    match c {
        CompoundStatement::If(i) => seq![i.test],
        CompoundStatement::For { iter, .. } => seq![iter],
        CompoundStatement::While { test, .. } => seq![test],
        CompoundStatement::With { items, .. } => items@,
        CompoundStatement::Match { subject, .. } => seq![subject],
        _ => seq![],
    }
}

pub open spec fn optional_flags(o: Option<Suite>) -> Stats {
    match o {
        Some(s) => suite_flags(s),
        None => no_flags(),
    }
}

proof fn lemma_try_suite(
    body: Suite,
    handlers: Seq<Suite>,
    orelse: Option<Suite>,
    finalbody: Option<Suite>,
    i: int,
)
    requires
        0 <= i < (seq![body] + handlers + optional_suite(orelse) + optional_suite(finalbody)).len(),
    ensures
        flags_le(
            suite_flags((seq![body] + handlers + optional_suite(orelse) + optional_suite(finalbody))[i]),
            join(
                suite_flags(body),
                join(suites_flags(handlers), join(optional_flags(orelse), optional_flags(finalbody))),
            ),
        ),
{
    let all = seq![body] + handlers + optional_suite(orelse) + optional_suite(finalbody);
    let n = handlers.len();
    let m = optional_suite(orelse).len();
    let sb = suite_flags(body);
    let sh = suites_flags(handlers);
    let so = optional_flags(orelse);
    let sf = optional_flags(finalbody);
    let x = suite_flags(all[i]);
    if i == 0 {
        assert(all[0] == body);
        lemma_le_in_join2(x, sb, join(sh, join(so, sf)));
    } else if i < 1 + n {
        assert(all[i] == handlers[i - 1]);
        lemma_suites_member(handlers, i - 1);
        lemma_le_join_left(x, sh, join(so, sf));
        lemma_le_join_right(x, sb, join(sh, join(so, sf)));
    } else {
        if i < 1 + n + m {
            assert(all[i] == orelse->Some_0);
        } else {
            assert(all[i] == finalbody->Some_0);
        }
        lemma_le_in_join2(x, so, sf);
        lemma_le_join_right(x, sh, join(so, sf));
        lemma_le_join_right(x, sb, join(sh, join(so, sf)));
    }
}

proof fn lemma_loop_suite(body: Suite, orelse: Option<Suite>, i: int)
    requires
        0 <= i < (seq![body] + optional_suite(orelse)).len(),
    ensures
        flags_le(
            suite_flags((seq![body] + optional_suite(orelse))[i]),
            join(suite_flags(body), optional_flags(orelse)),
        ),
{
    let all = seq![body] + optional_suite(orelse);
    if i == 0 {
        assert(all[0] == body);
    } else {
        assert(all[1] == orelse->Some_0);
    }
    lemma_le_in_join2(suite_flags(all[i]), suite_flags(body), optional_flags(orelse));
}

/// A flag that any block of a compound statement sets is set in the
/// statement's vector.
pub proof fn lemma_compound_suite_flags_propagate(c: CompoundStatement, i: int)
    requires
        0 <= i < compound_suites(c).len(),
    ensures
        flags_le(suite_flags(compound_suites(c)[i]), compound_flags(c)),
{
    let x = suite_flags(compound_suites(c)[i]);
    match c {
        CompoundStatement::FunctionDef { is_async, has_returns, body } => {
            let fr = flag_if(has_returns, Flag::Annotations);
            lemma_le_in_join2(x, fr, suite_flags(body));
            lemma_le_join_right(x, flag_if(is_async, Flag::Async), join(fr, suite_flags(body)));
        },
        CompoundStatement::If(s) => {
            assert(compound_flags(c) == if_flags(s));
            let oe = match s.orelse {
                Some(orelse) => match *orelse {
                    OrElse::Elif(e) => if_flags(e),
                    OrElse::Else(b) => suite_flags(b),
                },
                None => no_flags(),
            };
            assert(if_flags(s) == join(expr_flags(s.test), join(suite_flags(s.body), oe)));
            lemma_le_in_join2(x, suite_flags(s.body), oe);
            lemma_le_join_right(x, expr_flags(s.test), join(suite_flags(s.body), oe));
        },
        CompoundStatement::For { is_async, iter, body, orelse } => {
            let rest = join(suite_flags(body), optional_flags(orelse));
            lemma_loop_suite(body, orelse, i);
            lemma_le_join_right(x, expr_flags(iter), rest);
            lemma_le_join_right(x, flag_if(is_async, Flag::Async), join(expr_flags(iter), rest));
        },
        CompoundStatement::While { test, body, orelse } => {
            let rest = join(suite_flags(body), optional_flags(orelse));
            lemma_loop_suite(body, orelse, i);
            lemma_le_join_right(x, expr_flags(test), rest);
        },
        CompoundStatement::ClassDef { body } => {
            lemma_le_refl(x);
        },
        CompoundStatement::Try { body, handlers, orelse, finalbody } => {
            lemma_try_suite(body, handlers@, orelse, finalbody, i);
        },
        CompoundStatement::TryStar { body, handlers, orelse, finalbody } => {
            lemma_try_suite(body, handlers@, orelse, finalbody, i);
            lemma_le_join_right(
                x,
                flag_stats(Flag::TryStar),
                join(
                    suite_flags(body),
                    join(suites_flags(handlers@), join(optional_flags(orelse), optional_flags(finalbody))),
                ),
            );
        },
        CompoundStatement::With { is_async, items, body } => {
            lemma_le_in_join2(x, exprs_flags(items@), suite_flags(body));
            lemma_le_join_right(
                x,
                flag_if(is_async, Flag::Async),
                join(exprs_flags(items@), suite_flags(body)),
            );
        },
        CompoundStatement::Match { subject, cases } => {
            lemma_suites_member(cases@, i);
            lemma_le_join_right(x, expr_flags(subject), suites_flags(cases@));
            lemma_le_join_right(
                x,
                flag_stats(Flag::Match),
                join(expr_flags(subject), suites_flags(cases@)),
            );
        },
    }
}

/// A flag that an expression of a compound statement sets is set in the
/// statement's vector.
pub proof fn lemma_compound_expr_flags_propagate(c: CompoundStatement, i: int)
    requires
        0 <= i < compound_exprs(c).len(),
    ensures
        flags_le(expr_flags(compound_exprs(c)[i]), compound_flags(c)),
{
    reveal(join);
    match c {
        CompoundStatement::If(x) => {
            assert(compound_flags(c) == if_flags(x));
        },
        CompoundStatement::With { items, .. } => {
            lemma_exprs_member(items@, i);
        },
        _ => {},
    }
}

/// A flag that an `elif` (with its own chain) or the final `else` block sets
/// is set in the enclosing `if` statement's vector.
pub proof fn lemma_if_branch_flags_propagate(i: If)
    requires
        i.orelse is Some,
    ensures
        match *i.orelse->Some_0 {
            OrElse::Elif(e) => flags_le(if_flags(e), if_flags(i)),
            OrElse::Else(s) => flags_le(suite_flags(s), if_flags(i)),
        },
{
    reveal(join);
}

/// The parts of a comprehension clause: its iterable, its guards, and the
/// expressions of its target.
pub open spec fn comp_for_exprs(c: CompFor) -> Seq<Expression> {
    seq![c.iter] + c.ifs@
}

/// A flag that the iterable or a guard of a comprehension clause sets, or
/// that the clause nested in it sets, is set in the clause's vector.
pub proof fn lemma_comp_for_flags_propagate(c: CompFor, i: int)
    requires
        0 <= i < comp_for_exprs(c).len(),
    ensures
        flags_le(expr_flags(comp_for_exprs(c)[i]), comp_for_flags(c)),
        flags_le(target_flags(c.target), comp_for_flags(c)),
        c.inner_for_in matches Some(inner) ==> flags_le(comp_for_flags(*inner), comp_for_flags(c)),
{
    reveal(join);
    if i > 0 {
        assert(comp_for_exprs(c)[i] == c.ifs@[i - 1]);
        lemma_exprs_member(c.ifs@, i - 1);
    }
}

} // verus!
