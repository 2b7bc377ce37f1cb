use pyscan::stats::Stats;
use pyscan::tree::{
    AssignTargetExpression, BinaryOp, CompFor, CompoundStatement, DictElement, Element, Expression,
    If, Module, NameOrAttribute, SmallStatement, Statement, Suite,
};
use pyscan::visitor::walk_cst;

fn name() -> Expression {
    Expression::Other
}

fn simple(small: SmallStatement) -> Statement {
    Statement::Simple(vec![small])
}

fn module(body: Vec<Statement>) -> Module {
    Module { body }
}

fn comp_for(is_async: bool) -> CompFor {
    CompFor {
        is_async,
        target: AssignTargetExpression::Name,
        iter: name(),
        ifs: vec![],
        inner_for_in: None,
    }
}

#[test]
fn if_with_assignment_sets_nothing() {
    // if x:
    //     y = 1
    let m = module(vec![Statement::Compound(CompoundStatement::If(If {
        test: name(),
        body: Suite::IndentedBlock(vec![simple(SmallStatement::Assign(name()))]),
        orelse: None,
    }))]);
    assert_eq!(walk_cst(m), Stats::new());
}

#[test]
fn async_def_with_await() {
    // async def f():
    //     await g()
    let call = Expression::Call { func: Box::new(name()), args: vec![] };
    let m = module(vec![Statement::Compound(CompoundStatement::FunctionDef {
        is_async: true,
        has_returns: false,
        body: Suite::IndentedBlock(vec![simple(SmallStatement::Expr(Expression::Await(
            Box::new(call),
        )))]),
    })]);
    let mut expected = Stats::new();
    expected.has_async = true;
    assert_eq!(walk_cst(m), expected);
}

#[test]
fn fstring_assignment() {
    // x = f"{a}"
    let m = module(vec![simple(SmallStatement::Assign(Expression::FormattedString(vec![name()])))]);
    let s = walk_cst(m);
    assert!(s.has_fstring);
    let mut expected = Stats::new();
    expected.has_fstring = true;
    assert_eq!(s, expected);
}

#[test]
fn import_dataclasses() {
    let m = module(vec![simple(SmallStatement::Import(vec![NameOrAttribute::Name(
        "dataclasses".to_string(),
    )]))]);
    let mut expected = Stats::new();
    expected.has_dataclasses = true;
    assert_eq!(walk_cst(m), expected);
}

#[test]
fn import_from_dataclasses_and_other_names() {
    let from = module(vec![simple(SmallStatement::ImportFrom(Some(NameOrAttribute::Name(
        "dataclasses".to_string(),
    ))))]);
    assert!(walk_cst(from).has_dataclasses);
    let other = module(vec![simple(SmallStatement::Import(vec![
        NameOrAttribute::Name("dataclass".to_string()),
        NameOrAttribute::Name("dataclasses_json".to_string()),
        NameOrAttribute::Attribute,
    ]))]);
    assert!(!walk_cst(other).has_dataclasses);
}

#[test]
fn walrus_in_if_test() {
    // if (y := 5): pass
    let m = module(vec![Statement::Compound(CompoundStatement::If(If {
        test: Expression::NamedExpr { target: Box::new(name()), value: Box::new(name()) },
        body: Suite::SimpleStatementSuite(vec![SmallStatement::Other]),
        orelse: None,
    }))]);
    let mut expected = Stats::new();
    expected.has_walrus = true;
    assert_eq!(walk_cst(m), expected);
}

#[test]
fn empty_module_sets_nothing() {
    assert_eq!(walk_cst(module(vec![])), Stats::new());
    assert_eq!(Stats::default(), Stats::new());
}

fn nested_tree() -> Module {
    // print(lambda: [x async for x in y if (z := x)])
    let mut clause = comp_for(true);
    clause.ifs = vec![Expression::NamedExpr { target: Box::new(name()), value: Box::new(name()) }];
    let comp = Expression::ListComp { elt: Box::new(name()), for_in: Box::new(clause) };
    let lambda = Expression::Lambda(Box::new(comp));
    module(vec![simple(SmallStatement::Expr(Expression::Call {
        func: Box::new(name()),
        args: vec![lambda],
    }))])
}

#[test]
fn visitor_is_deterministic() {
    assert_eq!(walk_cst(nested_tree()), walk_cst(nested_tree()));
}

#[test]
fn flags_of_nested_constructs_reach_the_module() {
    let s = walk_cst(nested_tree());
    assert!(s.has_list_comp);
    assert!(s.has_async_comp);
    assert!(s.has_walrus);
    assert!(!s.has_async);
    assert!(!s.has_generator_expression);
}

#[test]
fn modulo_formatting_needs_a_string_on_the_left() {
    let fmt = Expression::BinaryOperation {
        left: Box::new(Expression::SimpleString),
        operator: BinaryOp::Modulo,
        right: Box::new(name()),
    };
    assert!(walk_cst(module(vec![simple(SmallStatement::Expr(fmt))])).has_modulo_formatting);
    let arith = Expression::BinaryOperation {
        left: Box::new(name()),
        operator: BinaryOp::Modulo,
        right: Box::new(Expression::SimpleString),
    };
    assert_eq!(walk_cst(module(vec![simple(SmallStatement::Expr(arith))])), Stats::new());
}

#[test]
fn matrix_multiply_operator() {
    let mm = Expression::BinaryOperation {
        left: Box::new(name()),
        operator: BinaryOp::MatrixMultiply,
        right: Box::new(name()),
    };
    let mut expected = Stats::new();
    expected.has_matrix_multiply = true;
    assert_eq!(walk_cst(module(vec![simple(SmallStatement::Assign(mm))])), expected);
}

#[test]
fn annotations_from_return_type_and_valued_ann_assign() {
    let def = Statement::Compound(CompoundStatement::FunctionDef {
        is_async: false,
        has_returns: true,
        body: Suite::SimpleStatementSuite(vec![SmallStatement::Other]),
    });
    assert!(walk_cst(module(vec![def])).has_annotations);
    assert!(walk_cst(module(vec![simple(SmallStatement::AnnAssign(Some(name())))])).has_annotations);
    assert_eq!(walk_cst(module(vec![simple(SmallStatement::AnnAssign(None))])), Stats::new());
}

#[test]
fn try_star_and_match_statements() {
    let handler = Suite::IndentedBlock(vec![simple(SmallStatement::Expr(Expression::FormattedString(vec![])))]);
    let try_star = Statement::Compound(CompoundStatement::TryStar {
        body: Suite::SimpleStatementSuite(vec![SmallStatement::Other]),
        handlers: vec![handler],
        orelse: None,
        finalbody: None,
    });
    let s = walk_cst(module(vec![try_star]));
    assert!(s.has_try_star);
    assert!(s.has_fstring);
    let plain_try = Statement::Compound(CompoundStatement::Try {
        body: Suite::SimpleStatementSuite(vec![SmallStatement::Other]),
        handlers: vec![],
        orelse: None,
        finalbody: None,
    });
    assert_eq!(walk_cst(module(vec![plain_try])), Stats::new());
    let m = Statement::Compound(CompoundStatement::Match {
        subject: name(),
        cases: vec![Suite::IndentedBlock(vec![simple(SmallStatement::Return(Some(
            Expression::Await(Box::new(name())),
        )))])],
    });
    let s = walk_cst(module(vec![m]));
    assert!(s.has_match);
    assert!(s.has_async);
}

#[test]
fn comprehensions_each_set_their_flag() {
    let exprs = vec![
        Expression::GeneratorExp { elt: Box::new(name()), for_in: Box::new(comp_for(false)) },
        Expression::SetComp { elt: Box::new(name()), for_in: Box::new(comp_for(false)) },
        Expression::DictComp {
            key: Box::new(name()),
            value: Box::new(name()),
            for_in: Box::new(comp_for(false)),
        },
    ];
    let s = walk_cst(module(vec![simple(SmallStatement::Expr(Expression::Tuple(
        exprs.into_iter().map(Element::Simple).collect(),
    )))]));
    assert!(s.has_generator_expression);
    assert!(s.has_set_comp);
    assert!(s.has_dict_comp);
    assert!(!s.has_list_comp);
    assert!(!s.has_async_comp);
}

#[test]
fn elif_else_and_loop_else_bodies_are_visited() {
    let inner = If {
        test: name(),
        body: Suite::SimpleStatementSuite(vec![SmallStatement::Other]),
        orelse: Some(Box::new(pyscan::tree::OrElse::Else(Suite::SimpleStatementSuite(vec![
            SmallStatement::Expr(Expression::Dict(vec![DictElement::Starred(
                Expression::FormattedString(vec![]),
            )])),
        ])))),
    };
    let outer = If {
        test: name(),
        body: Suite::SimpleStatementSuite(vec![SmallStatement::Other]),
        orelse: Some(Box::new(pyscan::tree::OrElse::Elif(inner))),
    };
    assert!(walk_cst(module(vec![Statement::Compound(CompoundStatement::If(outer))])).has_fstring);
    let looped = Statement::Compound(CompoundStatement::For {
        is_async: true,
        iter: name(),
        body: Suite::SimpleStatementSuite(vec![SmallStatement::Other]),
        orelse: Some(Suite::SimpleStatementSuite(vec![SmallStatement::AugAssign(
            Expression::Yield(Some(Box::new(pyscan::tree::YieldValue::From(
                Expression::FormattedString(vec![]),
            )))),
        )])),
    });
    let s = walk_cst(module(vec![looped]));
    assert!(s.has_async);
    assert!(s.has_fstring);
}

#[test]
fn into_array_keeps_column_order() {
    let mut s = Stats::new();
    s.has_async_comp = true;
    s.has_set_comp = true;
    let a = s.into_array();
    let mut expected = [false; 14];
    expected[1] = true;
    expected[13] = true;
    assert_eq!(a, expected);
}

#[test]
fn walrus_inside_a_subscript_slice() {
    // a[(y := 1)]
    let sub = Expression::Subscript {
        value: Box::new(name()),
        slices: vec![Expression::NamedExpr { target: Box::new(name()), value: Box::new(name()) }],
    };
    let s = walk_cst(module(vec![simple(SmallStatement::Expr(sub))]));
    let mut expected = Stats::new();
    expected.has_walrus = true;
    assert_eq!(s, expected);
}

#[test]
fn comprehension_inside_an_fstring_field() {
    // f"{[x for x in y]}"
    let comp = Expression::ListComp { elt: Box::new(name()), for_in: Box::new(comp_for(false)) };
    let s = walk_cst(module(vec![simple(SmallStatement::Expr(Expression::FormattedString(vec![comp])))]));
    let mut expected = Stats::new();
    expected.has_fstring = true;
    expected.has_list_comp = true;
    assert_eq!(s, expected);
}
