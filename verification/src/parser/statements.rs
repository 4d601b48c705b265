//! Statements of the DSL and their parsing.
use super::expressions::{
    chain_at, chain_operands, chain_operators, ends_operand, items_at, literal_token, lone_literal_at, operand_at,
    simple_chain, spec_tree, BinaryOperator, ExpressionType, IdentifierExpression,
};
use super::{advanced, ParseError, Parser};
use crate::lexer::{Token, TokenKind};
use vstd::prelude::*;

verus! {

#[derive(PartialEq, Debug)]
pub enum StatementType {
    VariableDeclaration(VariableDeclarationStatement),
    FunctionDeclaration(FunctionDeclarationStatement),
    Return(ExpressionType),
    IfStatement(IfStatement),
    While(While),
    Expression(ExpressionStatement),
    Break,
    Continue,
}

#[derive(PartialEq, Debug)]
pub enum ExpressionStatement {
    Assignment(AssignmentStatement),
    Inline(ExpressionType),
}

#[derive(PartialEq, Debug)]
pub struct Block {
    pub statements: Vec<StatementType>,
}

#[derive(PartialEq, Debug)]
pub struct VariableDeclarationStatement {
    pub identifier: String,
    pub value: ExpressionType,
}

#[derive(PartialEq, Debug)]
pub struct AssignmentStatement {
    pub identifier: ExpressionType,
    pub value: ExpressionType,
}

#[derive(PartialEq, Debug)]
pub struct FunctionDeclarationStatement {
    pub identifier: String,
    pub arguments: Vec<IdentifierExpression>,
    pub body: Block,
}

#[derive(PartialEq, Debug)]
pub struct IfStatement {
    pub condition: ExpressionType,
    pub body: Block,
}

#[derive(PartialEq, Debug)]
pub struct While {
    pub condition: ExpressionType,
    pub body: Block,
}

/// The tokens from `start` on name the parameters `names` in order: an identifier for each,
/// with commas between them.
pub open spec fn names_between(tokens: Seq<Token>, start: int, names: Seq<IdentifierExpression>) -> bool {
    &&& start + 2 * names.len() <= tokens.len()
    &&& forall|k: int| 0 <= k < names.len() ==> (#[trigger] tokens[start + 1 + 2 * k]).kind is Identifier
        && tokens[start + 1 + 2 * k].value == names[k].name
    &&& forall|k: int| 0 <= k < names.len() - 1 ==> (#[trigger] tokens[start + 2 + 2 * k]).kind is Comma
}

/// The tokens from `start` up to `end` are `(`, the parameters `names` separated by commas,
/// and `)`.
pub open spec fn name_list(tokens: Seq<Token>, start: int, names: Seq<IdentifierExpression>, end: int) -> bool {
    &&& 0 <= start < end <= tokens.len()
    &&& tokens[start].kind is LeftParenthesis
    &&& tokens[end - 1].kind is RightParenthesis
    &&& end == name_list_end(start, names)
    &&& names_between(tokens, start, names)
}

/// The value of the declaration `var name = ...` that starts at `start`, read within the
/// nesting allowance that `depth` leaves: where a chain of operands and operators follows
/// `=`, the chain's tree by precedence, a parenthesized group standing as one operand; where
/// a list literal of such chains follows `=` and ends the expression, a list of their trees.
pub open spec fn declared_value(tokens: Seq<Token>, start: int, value: ExpressionType, depth: int) -> bool {
    &&& forall|n: int| start + 2 < tokens.len() && tokens[start + 2].kind is Assign
        && #[trigger] simple_chain(tokens, start + 3, n) ==> value == spec_tree(
            chain_operands(tokens, start + 3, n),
            chain_operators(tokens, start + 3, n),
        )
    &&& forall|f: nat| #![trigger chain_at(tokens, start + 3, f)]
        start + 2 < tokens.len() && tokens[start + 2].kind is Assign && 2 * f + 2 < depth ==> (
        chain_at(tokens, start + 3, f) matches Some((es, os, k)) ==> value == spec_tree(es, os))
    &&& forall|g: nat| #![trigger items_at(tokens, start + 4, g, TokenKind::RightBracket, true)]
        (start + 3 < tokens.len() && tokens[start + 2].kind is Assign && tokens[start + 3].kind is LeftBracket
        && 2 * g + 2 < depth - 3) ==> (items_at(tokens, start + 4, g, TokenKind::RightBracket, true) matches Some((vs, end)) ==> ((end >= tokens.len()
        || ends_operand(tokens[end].kind)) ==> (value matches ExpressionType::List(l) && l.values@ == vs)))
}

/// The body of the declaration `fn name ( parameters )` that starts at `start` is empty
/// where `{ }` follows the parameter list.
pub open spec fn empty_body_if_braces(tokens: Seq<Token>, start: int, names: Seq<IdentifierExpression>, body: Block) -> bool {
    let e = name_list_end(start + 2, names);
    (0 <= e && e + 1 < tokens.len() && tokens[e].kind is LeftCurly && tokens[e + 1].kind is RightCurly)
        ==> body.statements@.len() == 0
}

/// Where a parameter list of `names` that starts at `start` ends.
pub open spec fn name_list_end(start: int, names: Seq<IdentifierExpression>) -> int {
    start + 2 * names.len() + if names.len() == 0 { 2int } else { 1int }
}

/// The declaration `fn name ( parameters )` that starts at `start` names `names` as its
/// parameters.
pub open spec fn declared_parameters(tokens: Seq<Token>, start: int, names: Seq<IdentifierExpression>) -> bool {
    name_list(tokens, start + 2, names, name_list_end(start + 2, names))
}

/// `starts` are `n` positions in `tokens`, the first at `from`, each after the one before.
pub open spec fn block_at(tokens: Seq<Token>, from: int, starts: Seq<int>, n: int) -> bool {
    &&& starts.len() == n
    &&& n > 0 ==> starts[0] == from
    &&& forall|i: int| 0 <= i < n ==> from <= #[trigger] starts[i] < tokens.len()
    &&& forall|i: int| 0 <= i < n - 1 ==> #[trigger] starts[i] < starts[i + 1]
}

/// The statements `statements` start one after another from `from`, each of the kind its
/// first token announces, read within the nesting allowance `depth`.
pub open spec fn block_statements(tokens: Seq<Token>, from: int, statements: Seq<StatementType>, depth: int) -> bool {
    exists|starts: Seq<int>| #[trigger] block_at(tokens, from, starts, statements.len() as int)
        && forall|k: int| 0 <= k < statements.len() ==> statement_at(tokens, starts[k], #[trigger] statements[k], depth)
}

/// The statement at `start` that is a call `name(arguments)` on its own, read as an
/// expression statement within the nesting allowance `depth`: where each argument is a chain
/// of operands, the call of the name with the arguments' trees.
pub open spec fn called_at(tokens: Seq<Token>, start: int, statement: StatementType, depth: int) -> bool {
    forall|g: nat| #![trigger items_at(tokens, start + 2, g, TokenKind::RightParenthesis, false)]
        (2 * g + 2 < depth - 6 && start + 2 < tokens.len() && tokens[start].kind is Identifier
        && tokens[start + 1].kind is LeftParenthesis && !(tokens[start + 2].kind is LeftParenthesis)) ==> (
        items_at(tokens, start + 2, g, TokenKind::RightParenthesis, false) matches Some((vs, end)) ==> ((end >= tokens.len()
        || (ends_operand(tokens[end].kind) && !(tokens[end].kind is Assign))) ==> (statement matches
        StatementType::Expression(ExpressionStatement::Inline(ExpressionType::FunctionCall(c)))
        && *c.value == ExpressionType::Identifier(IdentifierExpression { name: tokens[start].value })
        && c.parameters@ == vs)))
}

/// The statement at `start` that gives a name a new value, `name = ...`, read as an
/// expression statement within the nesting allowance `depth`: where a chain of operands
/// follows `=`, the assignment to the name of the chain's tree.
pub open spec fn assigned_at(tokens: Seq<Token>, start: int, statement: StatementType, depth: int) -> bool {
    forall|f: nat| #![trigger chain_at(tokens, start + 2, f)]
        (2 * f + 2 < depth - 1 && start + 1 < tokens.len() && tokens[start].kind is Identifier
        && tokens[start + 1].kind is Assign) ==> (chain_at(tokens, start + 2, f) matches Some((es, os, k))
        ==> statement == StatementType::Expression(ExpressionStatement::Assignment(AssignmentStatement {
            identifier: ExpressionType::Identifier(IdentifierExpression { name: tokens[start].value }),
            value: spec_tree(es, os),
        })))
}

/// The `return` at `start`, read within the nesting allowance `depth`: where a chain of
/// operands follows it, the return of the chain's tree.
pub open spec fn returned_at(tokens: Seq<Token>, start: int, statement: StatementType, depth: int) -> bool {
    forall|f: nat| #![trigger chain_at(tokens, start + 1, f)]
        2 * f + 2 < depth - 1 ==> (chain_at(tokens, start + 1, f) matches Some((es, os, k))
        ==> statement == StatementType::Return(spec_tree(es, os)))
}

/// The `if` or `while` at `start`, read within the nesting allowance `depth`: where `(` and a
/// chain of operands follow it, the condition is the chain's tree by precedence, and the
/// body's statements start one after another right after the `{` that follows the `)`, each
/// of the kind its first token announces.
pub open spec fn guarded_at(tokens: Seq<Token>, start: int, condition: ExpressionType, body: Seq<StatementType>, depth: int) -> bool {
    forall|f: nat| #![trigger chain_at(tokens, start + 2, f)]
        (start + 1 < tokens.len() && tokens[start + 1].kind is LeftParenthesis && 2 * f + 2 < depth - 1) ==> (
        chain_at(tokens, start + 2, f) matches Some((es, os, k)) ==> (condition == spec_tree(es, os)
        && block_statements(tokens, k + 2, body, depth - 2)))
}

/// A statement of the kind that its first token, at `start`, announces, read within the
/// nesting allowance `depth`: `var` a declaration of the name that follows (with the tree by
/// precedence of a chain of operands after `=`), `fn` a declaration of the function named
/// next, with the parameters its parenthesized list names and a body whose statements start,
/// one after another, right after the `{` that follows the list, each of the kind its first
/// token announces (an empty body where `{ }` follows the list), or an expression; `return`,
/// `if` and `while` their statements, with the condition's tree and the body's statements;
/// `break` and `continue` their statements; any other token an expression statement, a call
/// of a name with the trees of its arguments where that is all the statement holds.
pub open spec fn statement_at(tokens: Seq<Token>, start: int, statement: StatementType, depth: int) -> bool
    decreases statement,
{
    let kind = tokens[start].kind;
    if kind is Var {
        statement matches StatementType::VariableDeclaration(v) && start + 1 < tokens.len()
            && v.identifier == tokens[start + 1].value
            && (depth > 4 ==> declared_value(tokens, start, v.value, depth - 2))
    } else if kind is Fn {
        if start + 1 < tokens.len() && tokens[start + 1].kind is Identifier {
            match statement {
                StatementType::FunctionDeclaration(f) => {
                    &&& f.identifier == tokens[start + 1].value
                    &&& declared_parameters(tokens, start, f.arguments@)
                    &&& depth > 2 ==> empty_body_if_braces(tokens, start, f.arguments@, f.body)
                    &&& depth > 3 ==> exists|starts: Seq<int>| #[trigger] block_at(tokens, name_list_end(start + 2, f.arguments@) + 1,
                        starts, f.body.statements@.len() as int) && forall|k: int| 0 <= k < f.body.statements@.len()
                        ==> statement_at(tokens, starts[k], #[trigger] f.body.statements@[k], depth - 3)
                },
                _ => false,
            }
        } else {
            statement is Expression
        }
    } else if kind is Return {
        statement is Return && returned_at(tokens, start, statement, depth - 1)
    } else if kind is If {
        match statement {
            StatementType::IfStatement(x) => forall|f: nat| #![trigger chain_at(tokens, start + 2, f)]
                (start + 1 < tokens.len() && tokens[start + 1].kind is LeftParenthesis && 2 * f + 2 < depth - 2) ==> (
                chain_at(tokens, start + 2, f) matches Some((es, os, k)) ==> (x.condition == spec_tree(es, os)
                && exists|starts: Seq<int>| #[trigger] block_at(tokens, k + 2, starts, x.body.statements@.len() as int)
                && forall|j: int| 0 <= j < x.body.statements@.len() ==> statement_at(tokens, starts[j],
                #[trigger] x.body.statements@[j], depth - 3))),
            _ => false,
        }
    } else if kind is While {
        match statement {
            StatementType::While(x) => forall|f: nat| #![trigger chain_at(tokens, start + 2, f)]
                (start + 1 < tokens.len() && tokens[start + 1].kind is LeftParenthesis && 2 * f + 2 < depth - 2) ==> (
                chain_at(tokens, start + 2, f) matches Some((es, os, k)) ==> (x.condition == spec_tree(es, os)
                && exists|starts: Seq<int>| #[trigger] block_at(tokens, k + 2, starts, x.body.statements@.len() as int)
                && forall|j: int| 0 <= j < x.body.statements@.len() ==> statement_at(tokens, starts[j],
                #[trigger] x.body.statements@[j], depth - 3))),
            _ => false,
        }
    } else if kind is Break {
        statement is Break
    } else if kind is Continue {
        statement is Continue
    } else {
        statement is Expression && called_at(tokens, start, statement, depth - 1)
            && assigned_at(tokens, start, statement, depth - 1)
    }
}

/// `s` has no `break` or `continue` outside a loop body: it is none itself, the bodies of
/// the `if` statements it holds have none, and the body of a function it declares has none
/// (a function's body is no loop body, even inside a loop).
pub open spec fn no_loose_jump(s: StatementType) -> bool
    decreases s,
{
    match s {
        StatementType::Break => false,
        StatementType::Continue => false,
        StatementType::IfStatement(i) => forall|k: int|
            0 <= k < i.body.statements@.len() ==> no_loose_jump(#[trigger] i.body.statements@[k]),
        StatementType::FunctionDeclaration(f) => forall|k: int|
            0 <= k < f.body.statements@.len() ==> no_loose_jump(#[trigger] f.body.statements@[k]),
        _ => true,
    }
}

/// None of `statements` has a `break` or `continue` outside a loop body.
pub open spec fn no_loose_jumps(statements: Seq<StatementType>) -> bool {
    forall|k: int| 0 <= k < statements.len() ==> no_loose_jump(#[trigger] statements[k])
}

impl Parser {
    /// One statement. `break` and `continue` are refused outside of a loop body.
    pub(crate) fn parse_statement(&mut self, depth: usize) -> (r: Result<StatementType, ParseError>)
        requires
            old(self).wf(),
        ensures
            advanced(*old(self), *final(self)),
            r is Ok ==> final(self).pos > old(self).pos,
            r matches Ok(StatementType::Break) ==> old(self).loop_depth > 0,
            r matches Ok(StatementType::Continue) ==> old(self).loop_depth > 0,
            old(self).loop_depth == 0 ==> (r matches Ok(x) ==> no_loose_jump(x)),
            r matches Ok(StatementType::FunctionDeclaration(f)) ==> no_loose_jumps(f.body.statements@),
            old(self).pos >= old(self).tokens.len() ==> r is Err,
            r matches Ok(x) ==> statement_at(old(self).tokens@, old(self).pos as int, x, depth as int),
            (depth > 0 && old(self).pos < old(self).tokens.len()) ==> {
                let k = old(self).tokens@[old(self).pos as int].kind;
                &&& (k is Var ==> (r matches Ok(x) ==> (x matches StatementType::VariableDeclaration(v)
                    && old(self).pos + 1 < old(self).tokens.len() && v.identifier == old(self).tokens@[old(self).pos + 1].value)))
                &&& (k is Fn ==> (r matches Ok(x) ==> if old(self).pos + 1 < old(self).tokens.len()
                    && old(self).tokens@[old(self).pos + 1].kind is Identifier {
                    x matches StatementType::FunctionDeclaration(f) && f.identifier == old(self).tokens@[old(self).pos + 1].value
                        && declared_parameters(old(self).tokens@, old(self).pos as int, f.arguments@)
                } else {
                    x is Expression
                }))
                &&& (depth > 4 && k is Var ==> (r matches Ok(StatementType::VariableDeclaration(v)) ==> declared_value(
                    old(self).tokens@, old(self).pos as int, v.value, depth - 2)))
                &&& (depth > 2 && k is Fn ==> (r matches Ok(StatementType::FunctionDeclaration(f)) ==> empty_body_if_braces(
                    old(self).tokens@, old(self).pos as int, f.arguments@, f.body)))
                &&& (k is Return ==> (r matches Ok(x) ==> x is Return))
                &&& (k is If ==> (r matches Ok(x) ==> x is IfStatement))
                &&& (k is While ==> (r matches Ok(x) ==> x is While))
                &&& (k is Break ==> (old(self).loop_depth > 0 ==> r == Ok::<StatementType, ParseError>(StatementType::Break))
                    && (old(self).loop_depth == 0 ==> (r matches Err(e) && e.reason@ == "Break is not supported outside of loops"@)))
                &&& (k is Continue ==> (old(self).loop_depth > 0 ==> r == Ok::<StatementType, ParseError>(StatementType::Continue))
                    && (old(self).loop_depth == 0 ==> (r matches Err(e) && e.reason@ == "Continue is not supported outside of loops"@)))
                &&& (!(k is Var || k is Fn || k is Return || k is If || k is While || k is Break || k is Continue)
                    ==> (r matches Ok(x) ==> x is Expression))
            },
        decreases depth,
    {
        if depth == 0 {
            return Err(ParseError::new("Statements are nested too deeply"));
        }
        match self.peek_kind_ahead(0) {
            Some(TokenKind::Var) => self.parse_variable_declaration(depth - 1),
            Some(TokenKind::Fn) if self.peek_kind_ahead(1) == Some(TokenKind::Identifier) => {
                self.parse_function_declaration(depth - 1)
            },
            Some(TokenKind::Return) => self.parse_return_statement(depth - 1),
            Some(TokenKind::If) => self.parse_if_statement(depth - 1),
            Some(TokenKind::While) => self.parse_while_statement(depth - 1),
            Some(TokenKind::Break) => {
                if self.loop_depth == 0 {
                    return Err(ParseError::new("Break is not supported outside of loops"));
                }
                self.next();
                Ok(StatementType::Break)
            },
            Some(TokenKind::Continue) => {
                if self.loop_depth == 0 {
                    return Err(ParseError::new("Continue is not supported outside of loops"));
                }
                self.next();
                Ok(StatementType::Continue)
            },
            Some(_) => self.parse_expression_statement(depth - 1),
            None => Err(ParseError::new("No more tokens to parse")),
        }
    }

    fn parse_expression_statement(&mut self, depth: usize) -> (r: Result<StatementType, ParseError>)
        requires
            old(self).wf(),
        ensures
            advanced(*old(self), *final(self)),
            r is Ok ==> final(self).pos > old(self).pos,
            r is Ok ==> r->Ok_0 is Expression,
            (depth > 3 && lone_literal_at(old(self).tokens@, old(self).pos as int) && (old(self).pos + 1
                >= old(self).tokens.len() || !(old(self).tokens@[old(self).pos + 1].kind is Assign))) ==> (
                r == Ok::<StatementType, ParseError>(StatementType::Expression(ExpressionStatement::Inline(
                ExpressionType::Literal(literal_token(old(self).tokens@[old(self).pos as int])->0))))
                && final(self).pos == old(self).pos + 1),
            forall|g: nat| #![trigger items_at(old(self).tokens@, old(self).pos + 2, g, TokenKind::RightParenthesis, false)]
                (2 * g + 2 < depth - 6 && old(self).pos + 2 < old(self).tokens.len()
                && old(self).tokens@[old(self).pos as int].kind is Identifier
                && old(self).tokens@[old(self).pos + 1].kind is LeftParenthesis
                && !(old(self).tokens@[old(self).pos + 2].kind is LeftParenthesis)) ==> (items_at(old(self).tokens@,
                old(self).pos + 2, g, TokenKind::RightParenthesis, false) matches Some((vs, end)) ==> ((end
                >= old(self).tokens.len() || (ends_operand(old(self).tokens@[end].kind)
                && !(old(self).tokens@[end].kind is Assign))) ==> (r matches Ok(StatementType::Expression(
                ExpressionStatement::Inline(ExpressionType::FunctionCall(c)))) && *c.value == ExpressionType::Identifier(
                IdentifierExpression { name: old(self).tokens@[old(self).pos as int].value }) && c.parameters@ == vs
                && final(self).pos == end))),
            forall|f: nat| #![trigger chain_at(old(self).tokens@, old(self).pos + 2, f)]
                (2 * f + 2 < depth - 1 && old(self).pos + 1 < old(self).tokens.len()
                && old(self).tokens@[old(self).pos as int].kind is Identifier
                && old(self).tokens@[old(self).pos + 1].kind is Assign) ==> (chain_at(old(self).tokens@, old(self).pos + 2, f)
                matches Some((es, os, k)) ==> (r == Ok::<StatementType, ParseError>(StatementType::Expression(
                ExpressionStatement::Assignment(AssignmentStatement {
                    identifier: ExpressionType::Identifier(IdentifierExpression { name: old(self).tokens@[old(self).pos as int].value }),
                    value: spec_tree(es, os),
                }))) && final(self).pos == k)),
        decreases depth,
    {
        if depth == 0 {
            return Err(ParseError::new("Statements are nested too deeply"));
        }
        proof {
            let tokens = old(self).tokens@;
            let p = old(self).pos as int;
            if p + 1 < tokens.len() && tokens[p].kind is Identifier && tokens[p + 1].kind is Assign {
                assert(operand_at(tokens, p, 1) == Some((ExpressionType::Identifier(IdentifierExpression { name: tokens[p].value }), p + 1)));
                assert(chain_at(tokens, p, 1) == Some((seq![ExpressionType::Identifier(IdentifierExpression { name: tokens[p].value })],
                    Seq::<BinaryOperator>::empty(), p + 1)));
                assert(spec_tree(seq![ExpressionType::Identifier(IdentifierExpression { name: tokens[p].value })],
                    Seq::<BinaryOperator>::empty()) == ExpressionType::Identifier(IdentifierExpression { name: tokens[p].value }));
            }
        }
        let expression = self.parse_expression(depth - 1)?;
        if self.match_token(TokenKind::Assign) {
            let value = self.parse_expression(depth - 1)?;
            return Ok(
                StatementType::Expression(
                    ExpressionStatement::Assignment(
                        AssignmentStatement { identifier: expression, value },
                    ),
                ),
            );
        }
        Ok(StatementType::Expression(ExpressionStatement::Inline(expression)))
    }

    fn parse_return_statement(&mut self, depth: usize) -> (r: Result<StatementType, ParseError>)
        requires
            old(self).wf(),
        ensures
            advanced(*old(self), *final(self)),
            r is Ok ==> final(self).pos > old(self).pos,
            r is Ok ==> r->Ok_0 is Return,
            (depth > 3 && old(self).pos < old(self).tokens.len() && old(self).tokens@[old(self).pos as int].kind is Return
                && lone_literal_at(old(self).tokens@, old(self).pos + 1)) ==> (r == Ok::<StatementType, ParseError>(
                StatementType::Return(ExpressionType::Literal(literal_token(old(self).tokens@[old(self).pos + 1])->0)))
                && final(self).pos == old(self).pos + 2),
            (old(self).pos < old(self).tokens.len() && old(self).tokens@[old(self).pos as int].kind is Return) ==> forall|f: nat|
                #![trigger chain_at(old(self).tokens@, old(self).pos + 1, f)] 2 * f + 2 < depth - 1 ==> (chain_at(
                old(self).tokens@, old(self).pos + 1, f) matches Some((es, os, k)) ==> (r == Ok::<StatementType, ParseError>(
                StatementType::Return(spec_tree(es, os))) && final(self).pos == k)),
        decreases depth,
    {
        if depth == 0 {
            return Err(ParseError::new("Statements are nested too deeply"));
        }
        self.expect(TokenKind::Return)?;
        let value = self.parse_expression(depth - 1)?;
        Ok(StatementType::Return(value))
    }

    fn parse_variable_declaration(&mut self, depth: usize) -> (r: Result<StatementType, ParseError>)
        requires
            old(self).wf(),
        ensures
            advanced(*old(self), *final(self)),
            r is Ok ==> final(self).pos > old(self).pos,
            r is Ok ==> r->Ok_0 is VariableDeclaration,
            r matches Ok(StatementType::VariableDeclaration(v)) ==> old(self).pos + 1 < old(self).tokens.len()
                && v.identifier == old(self).tokens@[old(self).pos + 1].value,
            (depth > 3 && old(self).pos + 3 < old(self).tokens.len()
                && old(self).tokens@[old(self).pos as int].kind is Var
                && old(self).tokens@[old(self).pos + 1].kind is Identifier
                && old(self).tokens@[old(self).pos + 2].kind is Assign
                && lone_literal_at(old(self).tokens@, old(self).pos + 3)) ==> (
                r matches Ok(StatementType::VariableDeclaration(v)) && v.value == ExpressionType::Literal(
                literal_token(old(self).tokens@[old(self).pos + 3])->0) && final(self).pos == old(self).pos + 4),
            depth > 3 ==> (r matches Ok(StatementType::VariableDeclaration(v)) ==> declared_value(
                old(self).tokens@, old(self).pos as int, v.value, depth - 1)),
        decreases depth,
    {
        if depth == 0 {
            return Err(ParseError::new("Statements are nested too deeply"));
        }
        self.expect(TokenKind::Var)?;
        let identifier = self.expect(TokenKind::Identifier)?.value;
        self.expect(TokenKind::Assign)?;
        let value = self.parse_expression(depth - 1)?;
        Ok(StatementType::VariableDeclaration(VariableDeclarationStatement { identifier, value }))
    }

    /// `( name, name, ... )` of a function declaration.
    fn parse_arguments(&mut self) -> (r: Result<Vec<IdentifierExpression>, ParseError>)
        requires
            old(self).wf(),
        ensures
            advanced(*old(self), *final(self)),
            r is Ok ==> final(self).pos > old(self).pos,
            (old(self).pos + 1 < old(self).tokens.len() && old(self).tokens@[old(self).pos as int].kind is LeftParenthesis
                && old(self).tokens@[old(self).pos + 1].kind is RightParenthesis) ==> (r matches Ok(a) && a@.len() == 0
                && final(self).pos == old(self).pos + 2),
            r matches Ok(a) ==> name_list(old(self).tokens@, old(self).pos as int, a@, final(self).pos as int),
    {
        let ghost start = self.pos as int;
        let ghost empty_list = old(self).pos + 1 < old(self).tokens.len()
            && old(self).tokens@[old(self).pos as int].kind is LeftParenthesis
            && old(self).tokens@[old(self).pos + 1].kind is RightParenthesis;
        let mut arguments: Vec<IdentifierExpression> = Vec::new();
        self.expect(TokenKind::LeftParenthesis)?;
        if !self.match_token(TokenKind::RightParenthesis) {
            arguments.push(IdentifierExpression { name: self.expect(TokenKind::Identifier)?.value });
            while self.match_token(TokenKind::Comma)
                invariant
                    self.wf(),
                    advanced(*old(self), *self),
                    self.pos > old(self).pos,
                    start == old(self).pos,
                    arguments@.len() > 0,
                    self.pos == start + 2 * arguments@.len(),
                    self.tokens@[start].kind is LeftParenthesis,
                    names_between(self.tokens@, start, arguments@),
                    empty_list == (old(self).pos + 1 < old(self).tokens.len()
                        && old(self).tokens@[old(self).pos as int].kind is LeftParenthesis
                        && old(self).tokens@[old(self).pos + 1].kind is RightParenthesis),
                    !empty_list,
                decreases self.tokens.len() - self.pos,
            {
                arguments.push(
                    IdentifierExpression { name: self.expect(TokenKind::Identifier)?.value },
                );
            }
            self.expect(TokenKind::RightParenthesis)?;
        }
        Ok(arguments)
    }

    fn parse_function_declaration(&mut self, depth: usize) -> (r: Result<StatementType, ParseError>)
        requires
            old(self).wf(),
        ensures
            advanced(*old(self), *final(self)),
            r is Ok ==> final(self).pos > old(self).pos,
            r is Ok ==> r->Ok_0 is FunctionDeclaration,
            (depth > 1 && old(self).pos + 5 < old(self).tokens.len()
                && old(self).tokens@[old(self).pos as int].kind is Fn
                && old(self).tokens@[old(self).pos + 1].kind is Identifier
                && old(self).tokens@[old(self).pos + 2].kind is LeftParenthesis
                && old(self).tokens@[old(self).pos + 3].kind is RightParenthesis
                && old(self).tokens@[old(self).pos + 4].kind is LeftCurly
                && old(self).tokens@[old(self).pos + 5].kind is RightCurly) ==> (
                r matches Ok(StatementType::FunctionDeclaration(f)) && f.arguments@.len() == 0
                && f.body.statements@.len() == 0 && final(self).pos == old(self).pos + 6),
            r matches Ok(StatementType::FunctionDeclaration(f)) ==> old(self).pos + 1 < old(self).tokens.len()
                && f.identifier == old(self).tokens@[old(self).pos + 1].value,
            r matches Ok(StatementType::FunctionDeclaration(f)) ==> declared_parameters(
                old(self).tokens@,
                old(self).pos as int,
                f.arguments@,
            ),
            depth > 1 ==> (r matches Ok(StatementType::FunctionDeclaration(f)) ==> empty_body_if_braces(
                old(self).tokens@, old(self).pos as int, f.arguments@, f.body)),
            depth > 2 ==> (r matches Ok(StatementType::FunctionDeclaration(f)) ==> block_statements(
                old(self).tokens@, name_list_end(old(self).pos + 2, f.arguments@) + 1, f.body.statements@, depth - 2)),
            r matches Ok(StatementType::FunctionDeclaration(f)) ==> no_loose_jumps(f.body.statements@),
        decreases depth,
    {
        if depth == 0 {
            return Err(ParseError::new("Statements are nested too deeply"));
        }
        self.expect(TokenKind::Fn)?;
        let identifier = self.expect(TokenKind::Identifier)?.value;
        let arguments = self.parse_arguments()?;
        self.expect(TokenKind::LeftCurly)?;
        let ghost body_from = self.pos as int;
        proof {
            assert(body_from == name_list_end(old(self).pos + 2, arguments@) + 1);
        }
        // A function body is no loop body: break and continue are refused in it.
        let outer_loop_depth = self.loop_depth;
        self.loop_depth = 0;
        let body = self.parse_block(depth - 1);
        self.loop_depth = outer_loop_depth;
        let body = body?;
        proof {
            assert(block_statements(old(self).tokens@, name_list_end(old(self).pos + 2, arguments@) + 1,
                body.statements@, depth - 2));
        }
        Ok(
            StatementType::FunctionDeclaration(
                FunctionDeclarationStatement { identifier, arguments, body },
            ),
        )
    }

    /// Statements up to and including the closing `}`.
    pub(crate) fn parse_block(&mut self, depth: usize) -> (r: Result<Block, ParseError>)
        requires
            old(self).wf(),
        ensures
            advanced(*old(self), *final(self)),
            r is Ok ==> final(self).pos > old(self).pos,
            (depth > 0 && old(self).pos < old(self).tokens.len() && old(self).tokens@[old(self).pos as int].kind is RightCurly)
                ==> (r matches Ok(b) && b.statements@.len() == 0 && final(self).pos == old(self).pos + 1),
            old(self).loop_depth == 0 ==> (r matches Ok(b) ==> no_loose_jumps(b.statements@)),
            r matches Ok(b) ==> block_statements(old(self).tokens@, old(self).pos as int, b.statements@, depth - 1),
        decreases depth,
    {
        if depth == 0 {
            return Err(ParseError::new("Statements are nested too deeply"));
        }
        let ghost closes = old(self).pos < old(self).tokens.len()
            && old(self).tokens@[old(self).pos as int].kind is RightCurly;
        let ghost from = old(self).pos as int;
        let ghost mut starts: Seq<int> = Seq::empty();
        let mut statements: Vec<StatementType> = Vec::new();
        while !self.match_token(TokenKind::RightCurly)
            invariant
                depth > 0,
                self.wf(),
                advanced(*old(self), *self),
                from == old(self).pos,
                closes == (old(self).pos < old(self).tokens.len()
                    && old(self).tokens@[old(self).pos as int].kind is RightCurly),
                closes ==> (self.pos == old(self).pos && statements@.len() == 0),
                self.loop_depth == 0 ==> no_loose_jumps(statements@),
                block_at(self.tokens@, from, starts, statements@.len() as int),
                forall|k: int| 0 <= k < statements@.len() ==> statement_at(
                    self.tokens@, starts[k], #[trigger] statements@[k], depth - 1),
                statements@.len() == 0 ==> self.pos == from,
                statements@.len() > 0 ==> starts.last() < self.pos,
            decreases self.tokens.len() - self.pos,
        {
            let ghost at = self.pos as int;
            let statement = self.parse_statement(depth - 1)?;
            proof {
                starts = starts.push(at);
            }
            statements.push(statement);
        }
        proof {
            assert(block_at(old(self).tokens@, old(self).pos as int, starts, statements@.len() as int));
            assert(block_statements(old(self).tokens@, old(self).pos as int, statements@, depth - 1));
        }
        Ok(Block { statements })
    }

    fn parse_if_statement(&mut self, depth: usize) -> (r: Result<StatementType, ParseError>)
        requires
            old(self).wf(),
        ensures
            advanced(*old(self), *final(self)),
            r is Ok ==> final(self).pos > old(self).pos,
            r is Ok ==> r->Ok_0 is IfStatement,
            (depth > 3 && old(self).pos + 5 < old(self).tokens.len()
                && old(self).tokens@[old(self).pos as int].kind is If
                && old(self).tokens@[old(self).pos + 1].kind is LeftParenthesis
                && lone_literal_at(old(self).tokens@, old(self).pos + 2)
                && old(self).tokens@[old(self).pos + 3].kind is RightParenthesis
                && old(self).tokens@[old(self).pos + 4].kind is LeftCurly
                && old(self).tokens@[old(self).pos + 5].kind is RightCurly) ==> (
                r matches Ok(StatementType::IfStatement(x)) && x.condition == ExpressionType::Literal(
                literal_token(old(self).tokens@[old(self).pos + 2])->0) && x.body.statements@.len() == 0
                && final(self).pos == old(self).pos + 6),
            old(self).loop_depth == 0 ==> (r matches Ok(StatementType::IfStatement(x)) ==> no_loose_jumps(x.body.statements@)),
            r matches Ok(StatementType::IfStatement(x)) ==> guarded_at(old(self).tokens@, old(self).pos as int, x.condition,
                x.body.statements@, depth as int),
        decreases depth,
    {
        if depth == 0 {
            return Err(ParseError::new("Statements are nested too deeply"));
        }
        self.expect(TokenKind::If)?;
        self.expect(TokenKind::LeftParenthesis)?;
        let condition = self.parse_expression(depth - 1)?;
        self.expect(TokenKind::RightParenthesis)?;
        self.expect(TokenKind::LeftCurly)?;
        let body = self.parse_block(depth - 1)?;
        Ok(StatementType::IfStatement(IfStatement { condition, body }))
    }

    fn parse_while_statement(&mut self, depth: usize) -> (r: Result<StatementType, ParseError>)
        requires
            old(self).wf(),
        ensures
            advanced(*old(self), *final(self)),
            r is Ok ==> final(self).pos > old(self).pos,
            r is Ok ==> r->Ok_0 is While,
            (depth > 3 && old(self).pos + 5 < old(self).tokens.len()
                && old(self).tokens@[old(self).pos as int].kind is While
                && old(self).tokens@[old(self).pos + 1].kind is LeftParenthesis
                && lone_literal_at(old(self).tokens@, old(self).pos + 2)
                && old(self).tokens@[old(self).pos + 3].kind is RightParenthesis
                && old(self).tokens@[old(self).pos + 4].kind is LeftCurly
                && old(self).tokens@[old(self).pos + 5].kind is RightCurly
                && old(self).loop_depth < MAX_LOOP_NESTING) ==> (
                r matches Ok(StatementType::While(x)) && x.condition == ExpressionType::Literal(
                literal_token(old(self).tokens@[old(self).pos + 2])->0) && x.body.statements@.len() == 0
                && final(self).pos == old(self).pos + 6),
            r matches Ok(StatementType::While(x)) ==> guarded_at(old(self).tokens@, old(self).pos as int, x.condition,
                x.body.statements@, depth as int),
        decreases depth,
    {
        if depth == 0 || self.loop_depth >= MAX_LOOP_NESTING {
            return Err(ParseError::new("Statements are nested too deeply"));
        }
        self.expect(TokenKind::While)?;
        self.expect(TokenKind::LeftParenthesis)?;
        let condition = self.parse_expression(depth - 1)?;
        self.expect(TokenKind::RightParenthesis)?;
        self.expect(TokenKind::LeftCurly)?;
        self.loop_depth = self.loop_depth + 1;
        let body = self.parse_block(depth - 1);
        self.loop_depth = self.loop_depth - 1;
        let body = body?;
        Ok(StatementType::While(While { condition, body }))
    }
}

/// Loops nested more deeply than this are refused.
pub const MAX_LOOP_NESTING: usize = 100000;

} // verus!
