//! Copies of syntax trees; a declared function keeps a copy of its body. A copy is the
//! same tree as the one it was made from (`same_expression`, `same_statement`): the same
//! shapes, operators, names and literals throughout. Vectors have no equality by contents
//! in the contracts, so the relation compares them element by element.
use super::expressions::{
    AccessorExpression, BinaryOperationExpression, CallExpression, DictionaryExpression,
    ExpressionType, FunctionDeclarationExpression, IdentifierExpression, ListExpression,
    LiteralType, PropertyExpression, UnaryOperationExpression,
};
use super::statements::{
    AssignmentStatement, Block, ExpressionStatement, FunctionDeclarationStatement, IfStatement,
    StatementType, VariableDeclarationStatement, While,
};
use vstd::prelude::*;

verus! {

/// `a` and `b` are the same tree: the same shapes, operators, names and literals
/// throughout.
pub open spec fn same_expression(a: ExpressionType, b: ExpressionType) -> bool
    decreases a, 1nat,
{
    match (a, b) {
        (ExpressionType::Literal(x), ExpressionType::Literal(y)) => x == y,
        (ExpressionType::Identifier(x), ExpressionType::Identifier(y)) => x == y,
        (ExpressionType::FunctionCall(x), ExpressionType::FunctionCall(y)) => same_expression(*x.value, *y.value)
            && same_expressions(x.parameters@, y.parameters@),
        (ExpressionType::Accessor(x), ExpressionType::Accessor(y)) => same_expression(*x.value, *y.value)
            && same_expression(*x.key, *y.key),
        (ExpressionType::Property(x), ExpressionType::Property(y)) => same_expression(*x.value, *y.value)
            && x.key == y.key,
        (ExpressionType::FunctionDeclaration(x), ExpressionType::FunctionDeclaration(y)) => x.parameters@
            == y.parameters@ && same_statements(x.body.statements@, y.body.statements@),
        (ExpressionType::BinaryOperation(x), ExpressionType::BinaryOperation(y)) => x.operator == y.operator
            && same_expression(*x.left, *y.left) && same_expression(*x.right, *y.right),
        (ExpressionType::UnaryOperation(x), ExpressionType::UnaryOperation(y)) => x.operator == y.operator
            && same_expression(*x.expression, *y.expression),
        (ExpressionType::List(x), ExpressionType::List(y)) => same_expressions(x.values@, y.values@),
        (ExpressionType::Dictionary(x), ExpressionType::Dictionary(y)) => same_expressions(x.keys@, y.keys@)
            && same_expressions(x.values@, y.values@),
        _ => false,
    }
}

/// `a` and `b` are the same trees, one for one.
pub open spec fn same_expressions(a: Seq<ExpressionType>, b: Seq<ExpressionType>) -> bool
    decreases a, 0nat,
{
    &&& a.len() == b.len()
    &&& forall|i: int| 0 <= i < a.len() ==> same_expression(#[trigger] a[i], b[i])
}

/// `a` and `b` are the same statement throughout.
pub open spec fn same_statement(a: StatementType, b: StatementType) -> bool
    decreases a, 1nat,
{
    match (a, b) {
        (StatementType::VariableDeclaration(x), StatementType::VariableDeclaration(y)) => x.identifier
            == y.identifier && same_expression(x.value, y.value),
        (StatementType::FunctionDeclaration(x), StatementType::FunctionDeclaration(y)) => x.identifier
            == y.identifier && x.arguments@ == y.arguments@ && same_statements(x.body.statements@, y.body.statements@),
        (StatementType::Return(x), StatementType::Return(y)) => same_expression(x, y),
        (StatementType::IfStatement(x), StatementType::IfStatement(y)) => same_expression(x.condition, y.condition)
            && same_statements(x.body.statements@, y.body.statements@),
        (StatementType::While(x), StatementType::While(y)) => same_expression(x.condition, y.condition)
            && same_statements(x.body.statements@, y.body.statements@),
        (StatementType::Expression(ExpressionStatement::Assignment(x)), StatementType::Expression(ExpressionStatement::Assignment(y))) =>
            same_expression(x.identifier, y.identifier) && same_expression(x.value, y.value),
        (StatementType::Expression(ExpressionStatement::Inline(x)), StatementType::Expression(ExpressionStatement::Inline(y))) =>
            same_expression(x, y),
        (StatementType::Break, StatementType::Break) => true,
        (StatementType::Continue, StatementType::Continue) => true,
        _ => false,
    }
}

/// `a` and `b` are the same statements, one for one.
pub open spec fn same_statements(a: Seq<StatementType>, b: Seq<StatementType>) -> bool
    decreases a, 0nat,
{
    &&& a.len() == b.len()
    &&& forall|i: int| 0 <= i < a.len() ==> same_statement(#[trigger] a[i], b[i])
}

pub fn duplicate_identifier(e: &IdentifierExpression) -> (r: IdentifierExpression)
    ensures
        r == *e,
{
    IdentifierExpression { name: e.name.clone() }
}

pub fn duplicate_identifiers(v: &Vec<IdentifierExpression>) -> (r: Vec<IdentifierExpression>)
    ensures
        r@ == v@,
{
    let mut r: Vec<IdentifierExpression> = Vec::new();
    let mut i: usize = 0;
    while i < v.len()
        invariant
            i <= v.len(),
            r@ == v@.take(i as int),
        decreases v.len() - i,
    {
        r.push(duplicate_identifier(&v[i]));
        proof {
            assert(v@.take(i + 1) == v@.take(i as int).push(v@[i as int]));
        }
        i = i + 1;
    }
    proof {
        assert(v@.take(v@.len() as int) == v@);
    }
    r
}

pub fn duplicate_literal(l: &LiteralType) -> (r: LiteralType)
    ensures
        r == *l,
{
    match l {
        LiteralType::String(s) => LiteralType::String(s.clone()),
        LiteralType::Number(s) => LiteralType::Number(s.clone()),
        LiteralType::Boolean(b) => LiteralType::Boolean(*b),
        LiteralType::Undefined => LiteralType::Undefined,
    }
}

pub fn duplicate_expressions(v: &Vec<ExpressionType>) -> (r: Vec<ExpressionType>)
    ensures
        r@.len() == v@.len(),
        same_expressions(r@, v@),
    decreases v, 0nat,
{
    let mut r: Vec<ExpressionType> = Vec::new();
    let mut i: usize = 0;
    while i < v.len()
        invariant
            i <= v.len(),
            r@.len() == i,
            forall|k: int| 0 <= k < i ==> same_expression(#[trigger] r@[k], v@[k]),
        decreases v.len() - i,
    {
        proof {
            assert(decreases_to!(v => v@[i as int]));
        }
        r.push(duplicate_expression(&v[i]));
        i = i + 1;
    }
    proof {
        assert(v@.take(v@.len() as int) == v@);
    }
    r
}

pub fn duplicate_expression(e: &ExpressionType) -> (r: ExpressionType)
    ensures
        same_expression(r, *e),
    decreases e, 1nat,
{
    match e {
        ExpressionType::Literal(l) => ExpressionType::Literal(duplicate_literal(l)),
        ExpressionType::Identifier(i) => ExpressionType::Identifier(duplicate_identifier(i)),
        ExpressionType::FunctionCall(c) => ExpressionType::FunctionCall(
            CallExpression {
                value: Box::new(duplicate_expression(&c.value)),
                parameters: duplicate_expressions(&c.parameters),
            },
        ),
        ExpressionType::Accessor(a) => ExpressionType::Accessor(
            AccessorExpression {
                value: Box::new(duplicate_expression(&a.value)),
                key: Box::new(duplicate_expression(&a.key)),
            },
        ),
        ExpressionType::Property(p) => ExpressionType::Property(
            PropertyExpression {
                value: Box::new(duplicate_expression(&p.value)),
                key: Box::new(duplicate_identifier(&p.key)),
            },
        ),
        ExpressionType::FunctionDeclaration(f) => ExpressionType::FunctionDeclaration(
            FunctionDeclarationExpression {
                parameters: duplicate_identifiers(&f.parameters),
                body: Block { statements: duplicate_statements(&f.body.statements) },
            },
        ),
        ExpressionType::BinaryOperation(b) => ExpressionType::BinaryOperation(
            BinaryOperationExpression {
                left: Box::new(duplicate_expression(&b.left)),
                operator: b.operator,
                right: Box::new(duplicate_expression(&b.right)),
            },
        ),
        ExpressionType::UnaryOperation(u) => ExpressionType::UnaryOperation(
            UnaryOperationExpression {
                operator: u.operator,
                expression: Box::new(duplicate_expression(&u.expression)),
            },
        ),
        ExpressionType::List(l) => ExpressionType::List(
            ListExpression { values: duplicate_expressions(&l.values) },
        ),
        ExpressionType::Dictionary(d) => ExpressionType::Dictionary(
            DictionaryExpression {
                keys: duplicate_expressions(&d.keys),
                values: duplicate_expressions(&d.values),
            },
        ),
    }
}

pub fn duplicate_statements(v: &Vec<StatementType>) -> (r: Vec<StatementType>)
    ensures
        r@.len() == v@.len(),
        same_statements(r@, v@),
    decreases v, 0nat,
{
    let mut r: Vec<StatementType> = Vec::new();
    let mut i: usize = 0;
    while i < v.len()
        invariant
            i <= v.len(),
            r@.len() == i,
            forall|k: int| 0 <= k < i ==> same_statement(#[trigger] r@[k], v@[k]),
        decreases v.len() - i,
    {
        proof {
            assert(decreases_to!(v => v@[i as int]));
        }
        r.push(duplicate_statement(&v[i]));
        i = i + 1;
    }
    proof {
        assert(v@.take(v@.len() as int) == v@);
    }
    r
}

pub fn duplicate_statement(s: &StatementType) -> (r: StatementType)
    ensures
        same_statement(r, *s),
    decreases s, 1nat,
{
    match s {
        StatementType::VariableDeclaration(v) => StatementType::VariableDeclaration(
            VariableDeclarationStatement {
                identifier: v.identifier.clone(),
                value: duplicate_expression(&v.value),
            },
        ),
        StatementType::FunctionDeclaration(f) => StatementType::FunctionDeclaration(
            FunctionDeclarationStatement {
                identifier: f.identifier.clone(),
                arguments: duplicate_identifiers(&f.arguments),
                body: Block { statements: duplicate_statements(&f.body.statements) },
            },
        ),
        StatementType::Return(e) => StatementType::Return(duplicate_expression(e)),
        StatementType::IfStatement(i) => StatementType::IfStatement(
            IfStatement {
                condition: duplicate_expression(&i.condition),
                body: Block { statements: duplicate_statements(&i.body.statements) },
            },
        ),
        StatementType::While(w) => StatementType::While(
            While {
                condition: duplicate_expression(&w.condition),
                body: Block { statements: duplicate_statements(&w.body.statements) },
            },
        ),
        StatementType::Expression(ExpressionStatement::Assignment(a)) => StatementType::Expression(
            ExpressionStatement::Assignment(
                AssignmentStatement {
                    identifier: duplicate_expression(&a.identifier),
                    value: duplicate_expression(&a.value),
                },
            ),
        ),
        StatementType::Expression(ExpressionStatement::Inline(e)) => StatementType::Expression(
            ExpressionStatement::Inline(duplicate_expression(e)),
        ),
        StatementType::Break => StatementType::Break,
        StatementType::Continue => StatementType::Continue,
    }
}

} // verus!
