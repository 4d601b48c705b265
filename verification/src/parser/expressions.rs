//! Expressions of the DSL and their parsing, with operator precedence.
use super::statements::Block;
use super::{advanced, ParseError, Parser};
use crate::lexer::{Token, TokenKind};
use vstd::prelude::*;

verus! {

#[derive(PartialEq, Debug)]
pub enum ExpressionType {
    Literal(LiteralType),
    Identifier(IdentifierExpression),
    FunctionCall(CallExpression),
    Accessor(AccessorExpression),
    Property(PropertyExpression),
    FunctionDeclaration(FunctionDeclarationExpression),
    BinaryOperation(BinaryOperationExpression),
    UnaryOperation(UnaryOperationExpression),
    List(ListExpression),
    Dictionary(DictionaryExpression),
}

#[derive(PartialEq, Debug)]
pub struct DictionaryExpression {
    pub keys: Vec<ExpressionType>,
    pub values: Vec<ExpressionType>,
}

#[derive(PartialEq, Debug)]
pub struct ListExpression {
    pub values: Vec<ExpressionType>,
}

/// A literal. A number literal keeps the digits it was written with; the runtime's
/// number system reads them.
#[derive(PartialEq, Debug, Clone)]
pub enum LiteralType {
    String(String),
    Number(String),
    Boolean(bool),
    Undefined,
}

#[derive(PartialEq, Debug)]
pub struct IdentifierExpression {
    pub name: String,
}

#[derive(PartialEq, Debug)]
pub struct CallExpression {
    pub value: Box<ExpressionType>,
    pub parameters: Vec<ExpressionType>,
}

#[derive(PartialEq, Debug)]
pub struct AccessorExpression {
    pub value: Box<ExpressionType>,
    pub key: Box<ExpressionType>,
}

#[derive(PartialEq, Debug)]
pub struct PropertyExpression {
    pub value: Box<ExpressionType>,
    pub key: Box<IdentifierExpression>,
}

#[derive(PartialEq, Debug)]
pub struct FunctionDeclarationExpression {
    pub parameters: Vec<IdentifierExpression>,
    pub body: Block,
}

#[derive(PartialEq, Eq, Debug, Clone, Copy, Structural)]
pub enum BinaryOperator {
    // Arithmetic
    Add,
    Subtract,
    Divide,
    Multiply,
    // Comparison
    Equal,
    NotEqual,
    GreaterThan,
    LessThan,
    GreaterOrEqual,
    LessOrEqual,
    // Logical
    And,
    Or,
}

/// The binary operator a token kind stands for, if any.
pub open spec fn spec_binary_operator(kind: TokenKind) -> Option<BinaryOperator> {
    match kind {
        TokenKind::GreaterThan => Some(BinaryOperator::GreaterThan),
        TokenKind::GreaterOrEqual => Some(BinaryOperator::GreaterOrEqual),
        TokenKind::LessThan => Some(BinaryOperator::LessThan),
        TokenKind::LessOrEqual => Some(BinaryOperator::LessOrEqual),
        TokenKind::Equal => Some(BinaryOperator::Equal),
        TokenKind::NotEqual => Some(BinaryOperator::NotEqual),
        TokenKind::And => Some(BinaryOperator::And),
        TokenKind::Or => Some(BinaryOperator::Or),
        TokenKind::Plus => Some(BinaryOperator::Add),
        TokenKind::Minus => Some(BinaryOperator::Subtract),
        TokenKind::Divide => Some(BinaryOperator::Divide),
        TokenKind::Times => Some(BinaryOperator::Multiply),
        _ => None,
    }
}

/// Binding strength: `||` < `&&` < comparisons < `+ -` < `* /`.
pub open spec fn spec_precedence(op: BinaryOperator) -> int {
    match op {
        BinaryOperator::Or => 0,
        BinaryOperator::And => 1,
        BinaryOperator::Equal => 2,
        BinaryOperator::NotEqual => 2,
        BinaryOperator::GreaterThan => 2,
        BinaryOperator::LessThan => 2,
        BinaryOperator::GreaterOrEqual => 2,
        BinaryOperator::LessOrEqual => 2,
        BinaryOperator::Add => 3,
        BinaryOperator::Subtract => 3,
        BinaryOperator::Divide => 4,
        BinaryOperator::Multiply => 4,
    }
}

impl BinaryOperator {
    /// The operator of a token kind; `None` for a kind that is no binary operator.
    pub fn from_kind(kind: TokenKind) -> (r: Option<BinaryOperator>)
        ensures
            r == spec_binary_operator(kind),
    {
        match kind {
            TokenKind::GreaterThan => Some(BinaryOperator::GreaterThan),
            TokenKind::GreaterOrEqual => Some(BinaryOperator::GreaterOrEqual),
            TokenKind::LessThan => Some(BinaryOperator::LessThan),
            TokenKind::LessOrEqual => Some(BinaryOperator::LessOrEqual),
            TokenKind::Equal => Some(BinaryOperator::Equal),
            TokenKind::NotEqual => Some(BinaryOperator::NotEqual),
            TokenKind::And => Some(BinaryOperator::And),
            TokenKind::Or => Some(BinaryOperator::Or),
            TokenKind::Plus => Some(BinaryOperator::Add),
            TokenKind::Minus => Some(BinaryOperator::Subtract),
            TokenKind::Divide => Some(BinaryOperator::Divide),
            TokenKind::Times => Some(BinaryOperator::Multiply),
            _ => None,
        }
    }

    pub fn get_precedence(&self) -> (p: i32)
        ensures
            p == spec_precedence(*self),
    {
        match self {
            BinaryOperator::Or => 0,
            BinaryOperator::And => 1,
            BinaryOperator::Equal => 2,
            BinaryOperator::NotEqual => 2,
            BinaryOperator::GreaterThan => 2,
            BinaryOperator::LessThan => 2,
            BinaryOperator::GreaterOrEqual => 2,
            BinaryOperator::LessOrEqual => 2,
            BinaryOperator::Add => 3,
            BinaryOperator::Subtract => 3,
            BinaryOperator::Divide => 4,
            BinaryOperator::Multiply => 4,
        }
    }
}

#[derive(PartialEq, Eq, Debug, Clone, Copy, Structural)]
pub enum UnaryOperator {
    Minus,
    Bang,
}

#[derive(PartialEq, Debug)]
pub struct BinaryOperationExpression {
    pub left: Box<ExpressionType>,
    pub operator: BinaryOperator,
    pub right: Box<ExpressionType>,
}

/// One item of the in-order reading of an operator tree: an operand or an operator.
pub enum Chain {
    Operand(ExpressionType),
    Operator(BinaryOperator),
}

/// The in-order reading of an expression's binary-operator tree: operands and
/// operators in the order in which they were written.
pub open spec fn chain_of(e: ExpressionType) -> Seq<Chain>
    decreases e,
{
    match e {
        ExpressionType::BinaryOperation(b) => chain_of(*b.left) + seq![Chain::Operator(b.operator)]
            + chain_of(*b.right),
        _ => seq![Chain::Operand(e)],
    }
}

pub open spec fn chain_of_binary(b: BinaryOperationExpression) -> Seq<Chain> {
    chain_of(*b.left) + seq![Chain::Operator(b.operator)] + chain_of(*b.right)
}

impl BinaryOperationExpression {
    pub fn new(left: ExpressionType, operator: BinaryOperator, right: ExpressionType) -> (b: Self)
        ensures
            *b.left == left,
            b.operator == operator,
            *b.right == right,
    {
        BinaryOperationExpression { left: Box::new(left), operator, right: Box::new(right) }
    }

    /// Appends `operator right` to the operation: an operator that binds more
    /// strongly than the root takes the root's right operand as its left one; otherwise
    /// the insertion continues down the right spine, and where the right operand is no
    /// operation the whole operation becomes the new left operand. The operands and
    /// operators keep the order in which they were written.
    pub fn insert_new_right(self, operator: BinaryOperator, right: ExpressionType) -> (b: Self)
        ensures
            chain_of_binary(b) == chain_of_binary(self) + seq![Chain::Operator(operator)]
                + chain_of(right),
        decreases self,
    {
        let ghost old_self = self;
        if operator.get_precedence() > self.operator.get_precedence() {
            let b = BinaryOperationExpression::new(
                *self.left,
                self.operator,
                ExpressionType::BinaryOperation(
                    BinaryOperationExpression::new(*self.right, operator, right),
                ),
            );
            proof {
                assert(chain_of_binary(b) =~= chain_of_binary(old_self) + seq![Chain::Operator(operator)] + chain_of(right));
            }
            b
        } else {
            let BinaryOperationExpression { left, operator: root, right: old_right } = self;
            match *old_right {
                ExpressionType::BinaryOperation(inner) => {
                    let inserted = inner.insert_new_right(operator, right);
                    let b = BinaryOperationExpression::new(
                        *left,
                        root,
                        ExpressionType::BinaryOperation(inserted),
                    );
                    proof {
                        assert(chain_of_binary(b) =~= chain_of_binary(old_self) + seq![Chain::Operator(operator)] + chain_of(right));
                    }
                    b
                },
                other => {
                    let b = BinaryOperationExpression::new(
                        ExpressionType::BinaryOperation(
                            BinaryOperationExpression { left, operator: root, right: Box::new(other) },
                        ),
                        operator,
                        right,
                    );
                    proof {
                        assert(chain_of_binary(b) =~= chain_of_binary(old_self) + seq![Chain::Operator(operator)] + chain_of(right));
                    }
                    b
                },
            }
        }
    }
}

#[derive(PartialEq, Debug)]
pub struct UnaryOperationExpression {
    pub operator: UnaryOperator,
    pub expression: Box<ExpressionType>,
}

impl UnaryOperationExpression {
    pub fn new(operator: UnaryOperator, expression: ExpressionType) -> (u: Self)
        ensures
            u.operator == operator,
            *u.expression == expression,
    {
        UnaryOperationExpression { operator, expression: Box::new(expression) }
    }
}


/// Binary operator token kinds, in the order the expression parser tries them.
pub const BINARY_OPERATOR_KINDS: [TokenKind; 12] = [
    TokenKind::Plus,
    TokenKind::Minus,
    TokenKind::Times,
    TokenKind::Divide,
    TokenKind::Equal,
    TokenKind::NotEqual,
    TokenKind::LessThan,
    TokenKind::LessOrEqual,
    TokenKind::GreaterThan,
    TokenKind::GreaterOrEqual,
    TokenKind::And,
    TokenKind::Or,
];

/// Of the operators `ops`, the last of those that bind least strongly: where a chain of
/// operands is split at the top of its tree.
pub open spec fn split_index(ops: Seq<BinaryOperator>) -> int
    recommends
        ops.len() > 0,
    decreases ops.len(),
{
    if ops.len() <= 1 {
        0
    } else {
        let k = split_index(ops.drop_last());
        if spec_precedence(ops.last()) <= spec_precedence(ops[k]) {
            ops.len() - 1
        } else {
            k
        }
    }
}

/// The tree of the chain `operands[0] ops[0] operands[1] ... operands[n]` by operator
/// precedence: `* /` bind more strongly than `+ -`, these than comparisons, these than
/// `&&`, and `&&` than `||`; operators of equal precedence group to the left.
pub open spec fn spec_tree(operands: Seq<ExpressionType>, ops: Seq<BinaryOperator>) -> ExpressionType
    decreases ops.len(),
{
    if ops.len() == 0 {
        operands[0]
    } else {
        let k = split_index(ops);
        if 0 <= k < ops.len() {
            ExpressionType::BinaryOperation(BinaryOperationExpression {
                left: Box::new(spec_tree(operands.take(k + 1), ops.take(k))),
                operator: ops[k],
                right: Box::new(spec_tree(operands.skip(k + 1), ops.skip(k + 1))),
            })
        } else {
            operands[0]
        }
    }
}

proof fn lemma_split_index(ops: Seq<BinaryOperator>)
    requires
        ops.len() > 0,
    ensures
        0 <= split_index(ops) < ops.len(),
        forall|j: int| 0 <= j < ops.len() ==> spec_precedence(ops[split_index(ops)]) <= #[trigger] spec_precedence(ops[j]),
        forall|j: int| split_index(ops) < j < ops.len() ==> spec_precedence(ops[split_index(ops)]) < #[trigger] spec_precedence(ops[j]),
    decreases ops.len(),
{
    if ops.len() > 1 {
        let d = ops.drop_last();
        lemma_split_index(d);
        let k = split_index(d);
        assert forall|j: int| 0 <= j < d.len() implies #[trigger] d[j] == ops[j] by {}
        assert(spec_precedence(d[k]) == spec_precedence(ops[k]));
        assert forall|j: int| 0 <= j < ops.len() implies spec_precedence(ops[split_index(ops)])
            <= #[trigger] spec_precedence(ops[j]) by {
            if j < d.len() {
                assert(spec_precedence(d[k]) <= spec_precedence(d[j]));
            }
        }
        assert forall|j: int| split_index(ops) < j < ops.len() implies spec_precedence(ops[split_index(ops)])
            < #[trigger] spec_precedence(ops[j]) by {
            if j < d.len() {
                assert(d[j] == ops[j]);
            }
        }
    }
}

/// Builds the tree of the chain `operands[0] ops[0] operands[1] ...` by operator precedence.
pub fn build_tree(operands: Vec<ExpressionType>, ops: Vec<BinaryOperator>) -> (r: ExpressionType)
    requires
        operands@.len() == ops@.len() + 1,
    ensures
        r == spec_tree(operands@, ops@),
    decreases ops@.len(),
{
    let mut operands = operands;
    let mut ops = ops;
    if ops.len() == 0 {
        return operands.remove(0);
    }
    proof {
        lemma_split_index(ops@);
    }
    let mut k: usize = 0;
    let mut i: usize = 1;
    while i < ops.len()
        invariant
            1 <= i <= ops@.len(),
            k == split_index(ops@.take(i as int)),
            0 <= k < i,
        decreases ops@.len() - i,
    {
        proof {
            assert(ops@.take(i + 1).drop_last() =~= ops@.take(i as int));
            lemma_split_index(ops@.take(i as int));
        }
        if ops[i].get_precedence() <= ops[k].get_precedence() {
            k = i;
        }
        i = i + 1;
    }
    proof {
        assert(ops@.take(ops@.len() as int) =~= ops@);
    }
    let ghost all_operands = operands@;
    let ghost all_ops = ops@;
    let right_ops = ops.split_off(k + 1);
    let op = ops.remove(k);
    let right_operands = operands.split_off(k + 1);
    proof {
        assert(ops@ =~= all_ops.take(k as int));
        assert(right_ops@ =~= all_ops.skip(k + 1));
        assert(operands@ =~= all_operands.take(k + 1));
        assert(right_operands@ =~= all_operands.skip(k + 1));
    }
    let left = build_tree(operands, ops);
    let right = build_tree(right_operands, right_ops);
    ExpressionType::BinaryOperation(BinaryOperationExpression::new(left, op, right))
}

/// The literal a number, string, `true`, `false` or `undefined` token reads as.
pub open spec fn literal_token(t: Token) -> Option<LiteralType> {
    match t.kind {
        TokenKind::Number => Some(LiteralType::Number(t.value)),
        TokenKind::String => Some(LiteralType::String(t.value)),
        TokenKind::True => Some(LiteralType::Boolean(true)),
        TokenKind::False => Some(LiteralType::Boolean(false)),
        TokenKind::Undefined => Some(LiteralType::Undefined),
        _ => None,
    }
}

/// A token kind that continues an operand: an accessor, a call or a property.
pub open spec fn continues_operand(kind: TokenKind) -> bool {
    kind is LeftBracket || kind is LeftParenthesis || kind is Period
}

/// A token kind that neither continues an operand (`[`, `(`, `.`) nor joins it to another
/// (a binary operator).
pub open spec fn ends_operand(kind: TokenKind) -> bool {
    &&& !continues_operand(kind)
    &&& spec_binary_operator(kind) is None
}

/// The operand a literal or name token reads as on its own.
pub open spec fn operand_token(t: Token) -> Option<ExpressionType> {
    match literal_token(t) {
        Some(l) => Some(ExpressionType::Literal(l)),
        None => if t.kind is Identifier {
            Some(ExpressionType::Identifier(IdentifierExpression { name: t.value }))
        } else {
            None
        },
    }
}

/// From `start` the tokens are a chain of `n + 1` single-token operands (literals and names)
/// joined by `n` binary operators, and what follows neither continues the last operand nor
/// joins another to it.
pub open spec fn simple_chain(tokens: Seq<Token>, start: int, n: int) -> bool {
    &&& 0 <= start
    &&& 0 <= n
    &&& start + 2 * n < tokens.len()
    &&& forall|k: int| 0 <= k <= n ==> (#[trigger] operand_token(tokens[start + 2 * k])) is Some
    &&& forall|k: int| 0 <= k < n ==> (#[trigger] spec_binary_operator(tokens[start + 2 * k + 1].kind)) is Some
    &&& (start + 2 * n + 1 >= tokens.len() || ends_operand(tokens[start + 2 * n + 1].kind))
}

/// A simple chain has one length.
proof fn lemma_chain_length(tokens: Seq<Token>, start: int, m: int, n: int)
    requires
        simple_chain(tokens, start, m),
        simple_chain(tokens, start, n),
    ensures
        m == n,
{
    if m < n {
        assert(spec_binary_operator(tokens[start + 2 * m + 1].kind) is Some);
    } else if n < m {
        assert(spec_binary_operator(tokens[start + 2 * n + 1].kind) is Some);
    }
}

/// The operands of a simple chain of `n` operators from `start`.
pub open spec fn chain_operands(tokens: Seq<Token>, start: int, n: int) -> Seq<ExpressionType> {
    Seq::new((n + 1) as nat, |k: int| operand_token(tokens[start + 2 * k])->0)
}

/// The operators of a simple chain of `n` operators from `start`.
pub open spec fn chain_operators(tokens: Seq<Token>, start: int, n: int) -> Seq<BinaryOperator> {
    Seq::new(n as nat, |k: int| spec_binary_operator(tokens[start + 2 * k + 1].kind)->0)
}

/// The operand that starts at `i`, read with nesting allowance `fuel`, and where it ends: a
/// literal; a name that no `(` follows; `-` or `!` before an operand; or a chain of
/// operands in parentheses, which stays one operand.
pub open spec fn operand_at(tokens: Seq<Token>, i: int, fuel: nat) -> Option<(ExpressionType, int)>
    decreases fuel, 0nat,
{
    if fuel == 0 || i < 0 || i >= tokens.len() {
        None
    } else if operand_token(tokens[i]) is Some {
        if tokens[i].kind is Identifier && i + 1 < tokens.len() && tokens[i + 1].kind is LeftParenthesis {
            None
        } else {
            Some((operand_token(tokens[i])->0, i + 1))
        }
    } else if tokens[i].kind is LeftParenthesis {
        match chain_at(tokens, i + 1, (fuel - 1) as nat) {
            Some((es, os, j)) => if j < tokens.len() && tokens[j].kind is RightParenthesis {
                Some((spec_tree(es, os), j + 1))
            } else {
                None
            },
            None => None,
        }
    } else if tokens[i].kind is Minus || tokens[i].kind is Bang {
        match operand_at(tokens, i + 1, (fuel - 1) as nat) {
            Some((e, j)) => Some((ExpressionType::UnaryOperation(UnaryOperationExpression {
                operator: if tokens[i].kind is Minus { UnaryOperator::Minus } else { UnaryOperator::Bang },
                expression: Box::new(e),
            }), j)),
            None => None,
        }
    } else {
        None
    }
}

/// The chain of operands joined by binary operators that starts at `i`, read with nesting
/// allowance `fuel`: its operands, its operators and where it ends, which is where neither
/// an operator nor anything that continues an operand follows.
pub open spec fn chain_at(tokens: Seq<Token>, i: int, fuel: nat) -> Option<(Seq<ExpressionType>, Seq<BinaryOperator>, int)>
    decreases fuel, 1nat,
{
    if fuel == 0 {
        None
    } else {
        match operand_at(tokens, i, fuel) {
            Some((e, j)) => if 0 <= j < tokens.len() && spec_binary_operator(tokens[j].kind) is Some {
                match chain_at(tokens, j + 1, (fuel - 1) as nat) {
                    Some((es, os, k)) => Some((seq![e] + es, seq![spec_binary_operator(tokens[j].kind)->0] + os, k)),
                    None => None,
                }
            } else if j >= tokens.len() || (0 <= j && ends_operand(tokens[j].kind)) {
                Some((seq![e], Seq::empty(), j))
            } else {
                None
            },
            None => None,
        }
    }
}

/// What follows an operand that ends at `j` in a chain read with allowance `fuel`: more
/// operands `rest` joined by the operators `ops`, up to `end`; or nothing.
pub open spec fn after_operand(tokens: Seq<Token>, j: int, fuel: nat, rest: Seq<ExpressionType>, ops: Seq<BinaryOperator>, end: int) -> bool {
    if 0 <= j < tokens.len() && spec_binary_operator(tokens[j].kind) is Some {
        &&& fuel > 0
        &&& ops.len() > 0
        &&& ops[0] == spec_binary_operator(tokens[j].kind)->0
        &&& chain_at(tokens, j + 1, (fuel - 1) as nat) == Some((rest, ops.skip(1), end))
    } else {
        &&& (j >= tokens.len() || (0 <= j && ends_operand(tokens[j].kind)))
        &&& rest.len() == 0
        &&& ops.len() == 0
        &&& end == j
    }
}

proof fn lemma_chain_head(tokens: Seq<Token>, i: int, fuel: nat)
    requires
        chain_at(tokens, i, fuel) is Some,
    ensures
        chain_at(tokens, i, fuel) matches Some((es, os, k)) && operand_at(tokens, i, fuel) matches Some((e, j))
            && es.len() == os.len() + 1 && es[0] == e && after_operand(tokens, j, fuel, es.skip(1), os, k),
    decreases fuel,
{
    let (e, j) = operand_at(tokens, i, fuel)->0;
    if 0 <= j < tokens.len() && spec_binary_operator(tokens[j].kind) is Some {
        let (es, os, k) = chain_at(tokens, j + 1, (fuel - 1) as nat)->0;
        lemma_chain_head(tokens, j + 1, (fuel - 1) as nat);
        let op = spec_binary_operator(tokens[j].kind)->0;
        assert((seq![e] + es).skip(1) =~= es);
        assert((seq![op] + os).skip(1) =~= os);
    } else {
        assert(Seq::<ExpressionType>::empty().len() == 0);
        assert(seq![e].skip(1) =~= Seq::<ExpressionType>::empty());
    }
}

/// More allowance reads the same.
proof fn lemma_fuel_more(tokens: Seq<Token>, i: int, fuel: nat, more: nat)
    requires
        fuel <= more,
    ensures
        operand_at(tokens, i, fuel) is Some ==> operand_at(tokens, i, more) == operand_at(tokens, i, fuel),
        chain_at(tokens, i, fuel) is Some ==> chain_at(tokens, i, more) == chain_at(tokens, i, fuel),
    decreases fuel,
{
    if fuel > 0 {
        lemma_fuel_more(tokens, i + 1, (fuel - 1) as nat, (more - 1) as nat);
        if operand_at(tokens, i, fuel) is Some {
            let (e, j) = operand_at(tokens, i, fuel)->0;
            lemma_fuel_more(tokens, j + 1, (fuel - 1) as nat, (more - 1) as nat);
        }
    }
}

/// The items of a list literal or of the arguments of a call from `i`, just after the
/// opening bracket, read with nesting allowance `fuel`: chains of operands separated by
/// commas up to `close`, with a comma allowed before `close` where `trailing` says so; their
/// trees, and where the items end, just after `close`.
pub open spec fn items_at(tokens: Seq<Token>, i: int, fuel: nat, close: TokenKind, trailing: bool) -> Option<(Seq<ExpressionType>, int)> {
    if 0 <= i < tokens.len() && tokens[i].kind == close {
        Some((Seq::empty(), i + 1))
    } else {
        items_from(tokens, i, fuel, close, trailing)
    }
}

/// One or more items from `i`, as `items_at` reads them.
pub open spec fn items_from(tokens: Seq<Token>, i: int, fuel: nat, close: TokenKind, trailing: bool) -> Option<(Seq<ExpressionType>, int)>
    decreases fuel, 1nat,
{
    match chain_at(tokens, i, fuel) {
        Some((es, os, k)) => match items_tail(tokens, k, fuel, close, trailing) {
            Some((rest, end)) => Some((seq![spec_tree(es, os)] + rest, end)),
            None => None,
        },
        None => None,
    }
}

/// What follows an item that ends at `k`: `close`; `,` and `close` where `trailing` says
/// so; or `,` and more items.
pub open spec fn items_tail(tokens: Seq<Token>, k: int, fuel: nat, close: TokenKind, trailing: bool) -> Option<(Seq<ExpressionType>, int)>
    decreases fuel, 0nat,
{
    if 0 <= k < tokens.len() && tokens[k].kind is Comma {
        if trailing && k + 1 < tokens.len() && tokens[k + 1].kind == close {
            Some((Seq::empty(), k + 2))
        } else if fuel > 0 {
            items_from(tokens, k + 1, (fuel - 1) as nat, close, trailing)
        } else {
            None
        }
    } else if 0 <= k < tokens.len() && tokens[k].kind == close {
        Some((Seq::empty(), k + 1))
    } else {
        None
    }
}

/// More allowance reads the items the same.
proof fn lemma_items_more(tokens: Seq<Token>, i: int, fuel: nat, more: nat, close: TokenKind, trailing: bool)
    requires
        fuel <= more,
    ensures
        items_from(tokens, i, fuel, close, trailing) is Some ==> items_from(tokens, i, more, close, trailing)
            == items_from(tokens, i, fuel, close, trailing),
        items_at(tokens, i, fuel, close, trailing) is Some ==> items_at(tokens, i, more, close, trailing)
            == items_at(tokens, i, fuel, close, trailing),
    decreases fuel,
{
    lemma_fuel_more(tokens, i, fuel, more);
    if let Some((es, os, k)) = chain_at(tokens, i, fuel) {
        if 0 <= k < tokens.len() && tokens[k].kind is Comma && !(trailing && k + 1 < tokens.len()
            && tokens[k + 1].kind == close) && fuel > 0 {
            lemma_items_more(tokens, k + 1, (fuel - 1) as nat, (more - 1) as nat, close, trailing);
        }
    }
}

/// At `i` stands a literal that nothing after it continues: the whole of an expression.
pub open spec fn lone_literal_at(tokens: Seq<Token>, i: int) -> bool {
    &&& 0 <= i < tokens.len()
    &&& literal_token(tokens[i]) is Some
    &&& (i + 1 >= tokens.len() || ends_operand(tokens[i + 1].kind))
}

proof fn lemma_operator_kinds(kind: TokenKind)
    ensures
        BINARY_OPERATOR_KINDS@.contains(kind) <==> spec_binary_operator(kind) is Some,
{
    assert(BINARY_OPERATOR_KINDS@ =~= seq![
        TokenKind::Plus, TokenKind::Minus, TokenKind::Times, TokenKind::Divide, TokenKind::Equal,
        TokenKind::NotEqual, TokenKind::LessThan, TokenKind::LessOrEqual, TokenKind::GreaterThan,
        TokenKind::GreaterOrEqual, TokenKind::And, TokenKind::Or,
    ]);
    if spec_binary_operator(kind) is Some {
        let k = match kind {
            TokenKind::Plus => 0int, TokenKind::Minus => 1, TokenKind::Times => 2, TokenKind::Divide => 3,
            TokenKind::Equal => 4, TokenKind::NotEqual => 5, TokenKind::LessThan => 6, TokenKind::LessOrEqual => 7,
            TokenKind::GreaterThan => 8, TokenKind::GreaterOrEqual => 9, TokenKind::And => 10, _ => 11,
        };
        assert(BINARY_OPERATOR_KINDS@[k] == kind);
    }
}

impl Parser {
    /// An expression: operands with their postfix chains, joined by binary operators
    /// with `* /` binding more strongly than `+ -`, than comparisons, than `&&`, than `||`.
    #[verifier::rlimit(50)]
    #[verifier::spinoff_prover]
    pub(crate) fn parse_expression(&mut self, depth: usize) -> (r: Result<ExpressionType, ParseError>)
        requires
            old(self).wf(),
        ensures
            advanced(*old(self), *final(self)),
            r is Ok ==> final(self).pos > old(self).pos,
            (depth > 2 && lone_literal_at(old(self).tokens@, old(self).pos as int)) ==> (r == Ok::<
                ExpressionType,
                ParseError,
            >(ExpressionType::Literal(literal_token(old(self).tokens@[old(self).pos as int])->0))
                && final(self).pos == old(self).pos + 1),
            forall|n: int| depth > 2 && #[trigger] simple_chain(old(self).tokens@, old(self).pos as int, n) ==> (
                r == Ok::<ExpressionType, ParseError>(spec_tree(
                    chain_operands(old(self).tokens@, old(self).pos as int, n),
                    chain_operators(old(self).tokens@, old(self).pos as int, n),
                )) && final(self).pos == old(self).pos + 2 * n + 1),
            forall|f: nat| #![trigger chain_at(old(self).tokens@, old(self).pos as int, f)]
                2 * f + 2 < depth ==> (chain_at(old(self).tokens@, old(self).pos as int, f) matches Some((es, os, k))
                ==> (r == Ok::<ExpressionType, ParseError>(spec_tree(es, os)) && final(self).pos == k)),
            forall|g: nat| #![trigger items_at(old(self).tokens@, old(self).pos + 2, g, TokenKind::RightParenthesis, false)]
                (2 * g + 2 < depth - 5 && old(self).pos + 2 < old(self).tokens.len()
                && old(self).tokens@[old(self).pos as int].kind is Identifier
                && old(self).tokens@[old(self).pos + 1].kind is LeftParenthesis
                && !(old(self).tokens@[old(self).pos + 2].kind is LeftParenthesis)) ==> (items_at(old(self).tokens@,
                old(self).pos + 2, g, TokenKind::RightParenthesis, false) matches Some((vs, end)) ==> ((end
                >= old(self).tokens.len() || ends_operand(old(self).tokens@[end].kind)) ==> (
                r matches Ok(ExpressionType::FunctionCall(c)) && *c.value == ExpressionType::Identifier(
                IdentifierExpression { name: old(self).tokens@[old(self).pos as int].value }) && c.parameters@ == vs
                && final(self).pos == end))),
            forall|g: nat| #![trigger items_at(old(self).tokens@, old(self).pos + 1, g, TokenKind::RightBracket, true)]
                (2 * g + 2 < depth - 3 && old(self).pos < old(self).tokens.len()
                && old(self).tokens@[old(self).pos as int].kind is LeftBracket) ==> (items_at(old(self).tokens@,
                old(self).pos + 1, g, TokenKind::RightBracket, true) matches Some((vs, end)) ==> ((end >= old(self).tokens.len() || ends_operand(
                old(self).tokens@[end].kind)) ==> (r matches Ok(ExpressionType::List(l)) && l.values@ == vs
                && final(self).pos == end))),
        decreases depth,
    {
        if depth == 0 {
            return Err(ParseError::new("Expressions are nested too deeply"));
        }
        let ghost start = old(self).pos as int;
        let ghost tokens = old(self).tokens@;
        let ghost big: nat = if depth >= 3 { ((depth - 3) / 2) as nat } else { 0 };
        let ghost grouped = chain_at(tokens, start, big) is Some;
        let ghost (all_es, all_os, stop) = match chain_at(tokens, start, big) {
            Some(c) => c,
            None => (Seq::<ExpressionType>::empty(), Seq::<BinaryOperator>::empty(), 0int),
        };
        proof {
            if grouped {
                lemma_chain_head(tokens, start, big);
            }
            assert forall|f: nat| #![trigger chain_at(tokens, start, f)]
                2 * f + 2 < depth && chain_at(tokens, start, f) is Some implies chain_at(tokens, start, f) == chain_at(tokens, start, big) by {
                lemma_fuel_more(tokens, start, f, big);
            }
        }
        let ghost list_fuel: nat = if depth >= 6 { ((depth - 6) / 2) as nat } else { 0 };
        let ghost (list_vs, list_end) = match items_at(tokens, start + 1, list_fuel, TokenKind::RightBracket, true) {
            Some(c) => c,
            None => (Seq::<ExpressionType>::empty(), 0int),
        };
        let ghost call_fuel: nat = if depth >= 8 { ((depth - 8) / 2) as nat } else { 0 };
        let ghost (call_vs, call_end) = match items_at(tokens, start + 2, call_fuel, TokenKind::RightParenthesis, false) {
            Some(c) => c,
            None => (Seq::<ExpressionType>::empty(), 0int),
        };
        let ghost lone_call = depth >= 8 && start + 2 < tokens.len() && tokens[start].kind is Identifier
            && tokens[start + 1].kind is LeftParenthesis && !(tokens[start + 2].kind is LeftParenthesis)
            && items_at(tokens, start + 2, call_fuel, TokenKind::RightParenthesis, false) is Some
            && (call_end >= tokens.len() || ends_operand(tokens[call_end].kind));
        proof {
            assert forall|g: nat| #![trigger items_at(tokens, start + 2, g, TokenKind::RightParenthesis, false)]
                2 * g + 2 < depth - 5 && items_at(tokens, start + 2, g, TokenKind::RightParenthesis, false) is Some
                implies items_at(tokens, start + 2, g, TokenKind::RightParenthesis, false)
                == items_at(tokens, start + 2, call_fuel, TokenKind::RightParenthesis, false) by {
                lemma_items_more(tokens, start + 2, g, call_fuel, TokenKind::RightParenthesis, false);
            }
        }
        let ghost lone_list = depth >= 6 && start < tokens.len() && tokens[start].kind is LeftBracket
            && items_at(tokens, start + 1, list_fuel, TokenKind::RightBracket, true) is Some
            && (list_end >= tokens.len() || ends_operand(tokens[list_end].kind));
        proof {
            assert forall|g: nat| #![trigger items_at(tokens, start + 1, g, TokenKind::RightBracket, true)]
                2 * g + 2 < depth - 3 && items_at(tokens, start + 1, g, TokenKind::RightBracket, true) is Some implies items_at(tokens, start + 1, g, TokenKind::RightBracket, true)
                == items_at(tokens, start + 1, list_fuel, TokenKind::RightBracket, true) by {
                lemma_items_more(tokens, start + 1, g, list_fuel, TokenKind::RightBracket, true);
            }
        }
        let ghost chain = depth > 2 && exists|n: int| simple_chain(tokens, start, n);
        let ghost n: int = if chain { choose|n: int| simple_chain(tokens, start, n) } else { 0 };
        proof {
            if depth > 2 && lone_literal_at(tokens, start) {
                assert(simple_chain(tokens, start, 0));
            }
            if chain {
                assert forall|m: int| #[trigger] simple_chain(tokens, start, m) implies m == n by {
                    lemma_chain_length(tokens, start, m, n);
                }
            }
        }
        proof {
            if chain {
                assert(operand_token(tokens[start + 2 * 0]) is Some);
                if n > 0 {
                    assert(spec_binary_operator(tokens[start + 2 * 0 + 1].kind) is Some);
                }
            }
        }
        let simple = self.parse_simple_expression(depth - 1)?;
        let first = self.parse_postfix_chain(simple, depth - 1)?;
        let ghost first_value = first;
        let mut operands: Vec<ExpressionType> = Vec::new();
        operands.push(first);
        let mut ops: Vec<BinaryOperator> = Vec::new();
        let ghost mut cur: nat = big;
        proof {
            if grouped {
                assert(operands@ =~= all_es.take(1));
                assert(ops@ =~= all_os.take(0));
                assert(all_os.skip(0) =~= all_os);
            }
        }
        loop
            invariant
                depth > 0,
                lone_call ==> (ops@.len() == 0 && operands@ == seq![first_value] && self.pos == call_end
                    && (first_value matches ExpressionType::FunctionCall(c) && *c.value == ExpressionType::Identifier(
                    IdentifierExpression { name: tokens[start].value }) && c.parameters@ == call_vs)
                    && (call_end >= tokens.len() || ends_operand(tokens[call_end].kind))),
                lone_call == (depth >= 8 && start + 2 < tokens.len() && tokens[start].kind is Identifier
                    && tokens[start + 1].kind is LeftParenthesis && !(tokens[start + 2].kind is LeftParenthesis)
                    && items_at(tokens, start + 2, call_fuel, TokenKind::RightParenthesis, false) is Some
                    && (call_end >= tokens.len() || ends_operand(tokens[call_end].kind))),
                items_at(tokens, start + 2, call_fuel, TokenKind::RightParenthesis, false) is Some ==> items_at(tokens,
                    start + 2, call_fuel, TokenKind::RightParenthesis, false) == Some((call_vs, call_end)),
                forall|g: nat| #![trigger items_at(tokens, start + 2, g, TokenKind::RightParenthesis, false)]
                    2 * g + 2 < depth - 5 && items_at(tokens, start + 2, g, TokenKind::RightParenthesis, false) is Some
                    ==> items_at(tokens, start + 2, g, TokenKind::RightParenthesis, false)
                    == items_at(tokens, start + 2, call_fuel, TokenKind::RightParenthesis, false),
                lone_list ==> (ops@.len() == 0 && operands@ == seq![first_value] && self.pos == list_end
                    && (first_value matches ExpressionType::List(l) && l.values@ == list_vs)
                    && (list_end >= tokens.len() || ends_operand(tokens[list_end].kind))),
                lone_list == (depth >= 6 && start < tokens.len() && tokens[start].kind is LeftBracket
                    && items_at(tokens, start + 1, list_fuel, TokenKind::RightBracket, true) is Some
                    && (list_end >= tokens.len() || ends_operand(tokens[list_end].kind))),
                items_at(tokens, start + 1, list_fuel, TokenKind::RightBracket, true) is Some ==> items_at(tokens, start + 1, list_fuel, TokenKind::RightBracket, true) == Some((list_vs, list_end)),
                forall|g: nat| #![trigger items_at(tokens, start + 1, g, TokenKind::RightBracket, true)]
                    2 * g + 2 < depth - 3 && items_at(tokens, start + 1, g, TokenKind::RightBracket, true) is Some ==> items_at(tokens, start + 1, g, TokenKind::RightBracket, true)
                    == items_at(tokens, start + 1, list_fuel, TokenKind::RightBracket, true),
                grouped == (chain_at(tokens, start, big) is Some),
                grouped ==> chain_at(tokens, start, big) == Some((all_es, all_os, stop)),
                forall|f: nat| #![trigger chain_at(tokens, start, f)]
                    2 * f + 2 < depth && chain_at(tokens, start, f) is Some ==> chain_at(tokens, start, f) == chain_at(tokens, start, big),
                grouped ==> (cur <= big && 2 * big + 2 < depth && operands@.len() <= all_es.len()
                    && ops@.len() <= all_os.len() && operands@ == all_es.take(operands@.len() as int)
                    && ops@ == all_os.take(ops@.len() as int) && after_operand(tokens, self.pos as int, cur,
                    all_es.skip(operands@.len() as int), all_os.skip(ops@.len() as int), stop)),
                self.wf(),
                advanced(*old(self), *self),
                self.pos > old(self).pos,
                tokens == old(self).tokens@,
                start == old(self).pos,
                operands@.len() == ops@.len() + 1,
                chain == (depth > 2 && exists|m: int| simple_chain(tokens, start, m)),
                chain ==> simple_chain(tokens, start, n),
                (depth > 2 && lone_literal_at(tokens, start)) ==> (chain && n == 0),
                chain ==> (ops@.len() <= n && self.pos == start + 2 * ops@.len() + 1
                    && operands@ == chain_operands(tokens, start, n).take(ops@.len() as int + 1)
                    && ops@ == chain_operators(tokens, start, n).take(ops@.len() as int)),
            ensures
                operands@.len() == ops@.len() + 1,
                grouped ==> (operands@ == all_es && ops@ == all_os && self.pos == stop),
                lone_list ==> (ops@.len() == 0 && operands@ == seq![first_value] && self.pos == list_end
                    && (first_value matches ExpressionType::List(l) && l.values@ == list_vs)),
                lone_call ==> (ops@.len() == 0 && operands@ == seq![first_value] && self.pos == call_end
                    && (first_value matches ExpressionType::FunctionCall(c) && *c.value == ExpressionType::Identifier(
                    IdentifierExpression { name: tokens[start].value }) && c.parameters@ == call_vs)),
                chain ==> (ops@.len() == n && self.pos == start + 2 * n + 1
                    && operands@ == chain_operands(tokens, start, n).take(n + 1)
                    && ops@ == chain_operators(tokens, start, n).take(n)),
            decreases self.tokens.len() - self.pos,
        {
            proof {
                if self.pos < self.tokens.len() {
                    lemma_operator_kinds(self.tokens@[self.pos as int].kind);
                }
                if grouped && (self.pos >= self.tokens.len() || spec_binary_operator(self.tokens@[self.pos as int].kind) is None) {
                    assert(all_es.take(operands@.len() as int) =~= all_es);
                    assert(all_os.take(ops@.len() as int) =~= all_os);
                }
                if chain && self.pos < self.tokens.len() {
                    if ops@.len() < n {
                        let k = ops@.len() as int;
                        assert(spec_binary_operator(tokens[start + 2 * k + 1].kind) is Some);
                    } else {
                        assert(ends_operand(self.tokens@[self.pos as int].kind));
                        assert(!BINARY_OPERATOR_KINDS@.contains(self.tokens@[self.pos as int].kind));
                    }
                }
            }
            let binary_operator = match self.match_any(&BINARY_OPERATOR_KINDS) {
                Some(token) => token,
                None => break,
            };
            let new_operator = match BinaryOperator::from_kind(binary_operator.kind) {
                Some(op) => op,
                None => return Err(ParseError::new("Token is no binary operator")),
            };
            proof {
                if chain {
                    let k = ops@.len() as int;
                    assert(k < n);
                    assert(operand_token(tokens[start + 2 * (k + 1)]) is Some);
                    if k + 1 < n {
                        assert(spec_binary_operator(tokens[start + 2 * (k + 1) + 1].kind) is Some);
                    }
                    assert(self.pos == start + 2 * (k + 1));
                }
                if grouped {
                    lemma_chain_head(tokens, self.pos as int, (cur - 1) as nat);
                }
            }
            let simple = self.parse_simple_expression(depth - 1)?;
            let next = self.parse_postfix_chain(simple, depth - 1)?;
            let ghost before_ops = ops@;
            let ghost before_operands = operands@;
            operands.push(next);
            ops.push(new_operator);
            proof {
                if chain {
                    let k = before_ops.len() as int;
                    assert(ops@ =~= chain_operators(tokens, start, n).take(k + 1));
                    assert(operands@ =~= chain_operands(tokens, start, n).take(k + 2));
                }
                if grouped {
                    let m = before_operands.len() as int;
                    let q = before_ops.len() as int;
                    assert(all_es.skip(m).skip(1) =~= all_es.skip(m + 1));
                    assert(all_os.skip(q).skip(1) =~= all_os.skip(q + 1));
                    assert(operands@ =~= all_es.take(m + 1));
                    assert(ops@ =~= all_os.take(q + 1));
                    cur = (cur - 1) as nat;
                }
            }
        }
        proof {
            if chain {
                assert(chain_operands(tokens, start, n).take(n + 1) =~= chain_operands(tokens, start, n));
                assert(chain_operators(tokens, start, n).take(n) =~= chain_operators(tokens, start, n));
                if self.pos < self.tokens.len() {
                    assert(ends_operand(tokens[start + 2 * n + 1].kind));
                }
            }
            if depth > 2 && lone_literal_at(tokens, start) {
                assert(chain_operands(tokens, start, 0) =~= seq![operand_token(tokens[start])->0]);
            }
        }
        let expression = build_tree(operands, ops);
        self.parse_postfix_chain(expression, depth - 1)
    }

    /// Accessors `[key]`, calls `(arguments)` and properties `.name` that follow an expression.
    fn parse_postfix_chain(&mut self, expression: ExpressionType, depth: usize) -> (r: Result<
        ExpressionType,
        ParseError,
    >)
        requires
            old(self).wf(),
        ensures
            advanced(*old(self), *final(self)),
            (depth > 0 && (old(self).pos >= old(self).tokens.len() || !continues_operand(
                old(self).tokens@[old(self).pos as int].kind,
            ))) ==> (r == Ok::<ExpressionType, ParseError>(expression) && final(self).pos == old(self).pos),
        decreases depth,
    {
        if depth == 0 {
            return Err(ParseError::new("Expressions are nested too deeply"));
        }
        let ghost start = expression;
        let ghost unchanged = old(self).pos >= old(self).tokens.len() || !continues_operand(
            old(self).tokens@[old(self).pos as int].kind,
        );
        let mut expression = expression;
        loop
            invariant
                depth > 0,
                self.wf(),
                advanced(*old(self), *self),
                unchanged == (old(self).pos >= old(self).tokens.len() || !continues_operand(
                    old(self).tokens@[old(self).pos as int].kind,
                )),
                unchanged ==> (self.pos == old(self).pos && expression == start),
            decreases self.tokens.len() - self.pos,
        {
            proof {
                let kinds = seq![TokenKind::LeftBracket, TokenKind::LeftParenthesis, TokenKind::Period];
                if self.pos < self.tokens.len() && continues_operand(self.tokens@[self.pos as int].kind) {
                    let k = self.tokens@[self.pos as int].kind;
                    if k is LeftBracket { assert(kinds[0] == k); }
                    if k is LeftParenthesis { assert(kinds[1] == k); }
                    if k is Period { assert(kinds[2] == k); }
                }
            }
            let x = match self.match_any(
                &[TokenKind::LeftBracket, TokenKind::LeftParenthesis, TokenKind::Period],
            ) {
                Some(token) => token,
                None => break,
            };
            match x.kind {
                TokenKind::LeftBracket => {
                    let key = self.parse_expression(depth - 1)?;
                    self.expect(TokenKind::RightBracket)?;
                    expression = ExpressionType::Accessor(
                        AccessorExpression { value: Box::new(expression), key: Box::new(key) },
                    );
                },
                TokenKind::LeftParenthesis => {
                    let parameters = self.parse_comma_separated_list(
                        TokenKind::RightParenthesis,
                        false,
                        depth - 1,
                    )?;
                    expression = ExpressionType::FunctionCall(
                        CallExpression { value: Box::new(expression), parameters },
                    );
                },
                _ => {
                    let key = self.expect(TokenKind::Identifier)?;
                    expression = ExpressionType::Property(
                        PropertyExpression {
                            value: Box::new(expression),
                            key: Box::new(IdentifierExpression { name: key.value }),
                        },
                    );
                },
            }
        }
        Ok(expression)
    }

    /// A literal, identifier, call, function, list, dictionary, parenthesized or
    /// negated expression.
    fn parse_simple_expression(&mut self, depth: usize) -> (r: Result<ExpressionType, ParseError>)
        requires
            old(self).wf(),
        ensures
            advanced(*old(self), *final(self)),
            r is Ok ==> final(self).pos > old(self).pos,
            old(self).pos >= old(self).tokens.len() ==> r is Err,
            (depth > 0 && old(self).pos < old(self).tokens.len()) ==> {
                let t = old(self).tokens@[old(self).pos as int];
                &&& (t.kind is Number ==> r == Ok::<ExpressionType, ParseError>(ExpressionType::Literal(LiteralType::Number(t.value))))
                &&& (t.kind is String ==> r == Ok::<ExpressionType, ParseError>(ExpressionType::Literal(LiteralType::String(t.value))))
                &&& (t.kind is True ==> r == Ok::<ExpressionType, ParseError>(ExpressionType::Literal(LiteralType::Boolean(true))))
                &&& (t.kind is False ==> r == Ok::<ExpressionType, ParseError>(ExpressionType::Literal(LiteralType::Boolean(false))))
                &&& (t.kind is Undefined ==> r == Ok::<ExpressionType, ParseError>(ExpressionType::Literal(LiteralType::Undefined)))
                &&& (literal_token(t) is Some ==> final(self).pos == old(self).pos + 1)
                &&& ((depth > 1 && operand_token(t) is Some && (old(self).pos + 1 >= old(self).tokens.len()
                    || !(old(self).tokens@[old(self).pos + 1].kind is LeftParenthesis))) ==> (r == Ok::<
                    ExpressionType, ParseError>(operand_token(t)->0) && final(self).pos == old(self).pos + 1))
                &&& (t.kind is Minus ==> (r matches Ok(e) ==> (e matches ExpressionType::UnaryOperation(u) && u.operator is Minus)))
                &&& (t.kind is Bang ==> (r matches Ok(e) ==> (e matches ExpressionType::UnaryOperation(u) && u.operator is Bang)))
                &&& (t.kind is LeftBracket ==> (r matches Ok(e) ==> e is List))
                &&& (t.kind is LeftCurly ==> (r matches Ok(e) ==> e is Dictionary))
                &&& (!(t.kind is LeftParenthesis || t.kind is Minus || t.kind is Bang || t.kind is Number
                    || t.kind is String || t.kind is True || t.kind is False || t.kind is Undefined
                    || t.kind is Identifier || t.kind is Fn || t.kind is LeftBracket || t.kind is LeftCurly) ==> r is Err)
            },
            forall|f: nat| #![trigger operand_at(old(self).tokens@, old(self).pos as int, f)]
                2 * f + 1 < depth ==> (operand_at(old(self).tokens@, old(self).pos as int, f) matches Some((e, j))
                ==> (r == Ok::<ExpressionType, ParseError>(e) && final(self).pos == j)),
            forall|g: nat| #![trigger items_at(old(self).tokens@, old(self).pos + 2, g, TokenKind::RightParenthesis, false)]
                (2 * g + 2 < depth - 4 && old(self).pos + 2 < old(self).tokens.len()
                && old(self).tokens@[old(self).pos as int].kind is Identifier
                && old(self).tokens@[old(self).pos + 1].kind is LeftParenthesis
                && !(old(self).tokens@[old(self).pos + 2].kind is LeftParenthesis)) ==> (items_at(old(self).tokens@,
                old(self).pos + 2, g, TokenKind::RightParenthesis, false) matches Some((vs, end)) ==> (
                r matches Ok(ExpressionType::FunctionCall(c)) && *c.value == ExpressionType::Identifier(
                IdentifierExpression { name: old(self).tokens@[old(self).pos as int].value }) && c.parameters@ == vs
                && final(self).pos == end)),
            forall|g: nat| #![trigger items_at(old(self).tokens@, old(self).pos + 1, g, TokenKind::RightBracket, true)]
                (2 * g + 2 < depth - 2 && old(self).pos < old(self).tokens.len()
                && old(self).tokens@[old(self).pos as int].kind is LeftBracket) ==> (items_at(old(self).tokens@,
                old(self).pos + 1, g, TokenKind::RightBracket, true) matches Some((vs, end)) ==> (r matches Ok(ExpressionType::List(l))
                && l.values@ == vs && final(self).pos == end)),
        decreases depth,
    {
        if depth == 0 {
            return Err(ParseError::new("Expressions are nested too deeply"));
        }
        let ghost tokens = old(self).tokens@;
        let ghost i = old(self).pos as int;
        let token = match self.next() {
            Some(token) => token,
            None => return Err(ParseError::new("No next token in parse_expression")),
        };
        match token.kind {
            TokenKind::LeftParenthesis => {
                proof {
                    assert forall|f: nat| #![trigger operand_at(tokens, i, f)]
                        2 * f + 1 < depth && operand_at(tokens, i, f) is Some implies f > 0
                        && chain_at(tokens, i + 1, (f - 1) as nat) is Some by {}
                }
                let expression = self.parse_expression(depth - 1)?;
                self.expect(TokenKind::RightParenthesis)?;
                Ok(expression)
            },
            TokenKind::Minus => {
                proof {
                    assert forall|f: nat| #![trigger operand_at(tokens, i, f)]
                        2 * f + 1 < depth && operand_at(tokens, i, f) is Some implies f > 0
                        && operand_at(tokens, i + 1, (f - 1) as nat) is Some by {}
                }
                let expression = self.parse_simple_expression(depth - 1)?;
                Ok(
                    ExpressionType::UnaryOperation(
                        UnaryOperationExpression::new(UnaryOperator::Minus, expression),
                    ),
                )
            },
            TokenKind::Bang => {
                proof {
                    assert forall|f: nat| #![trigger operand_at(tokens, i, f)]
                        2 * f + 1 < depth && operand_at(tokens, i, f) is Some implies f > 0
                        && operand_at(tokens, i + 1, (f - 1) as nat) is Some by {}
                }
                let expression = self.parse_simple_expression(depth - 1)?;
                Ok(
                    ExpressionType::UnaryOperation(
                        UnaryOperationExpression::new(UnaryOperator::Bang, expression),
                    ),
                )
            },
            TokenKind::Number => Ok(ExpressionType::Literal(LiteralType::Number(token.value))),
            TokenKind::String => Ok(ExpressionType::Literal(LiteralType::String(token.value))),
            TokenKind::True => Ok(ExpressionType::Literal(LiteralType::Boolean(true))),
            TokenKind::False => Ok(ExpressionType::Literal(LiteralType::Boolean(false))),
            TokenKind::Undefined => Ok(ExpressionType::Literal(LiteralType::Undefined)),
            TokenKind::Identifier => self.parse_identifier_expression(token, depth - 1),
            TokenKind::Fn => self.parse_function_expression(token, depth - 1),
            TokenKind::LeftBracket => {
                let values = self.parse_comma_separated_list(TokenKind::RightBracket, true, depth - 1)?;
                Ok(ExpressionType::List(ListExpression { values }))
            },
            TokenKind::LeftCurly => self.parse_dictionary_expression(depth - 1),
            _ => Err(ParseError::new("Invalid token for simple expression parsing")),
        }
    }

    /// A name, or a call when `(` follows it.
    fn parse_identifier_expression(&mut self, token: Token, depth: usize) -> (r: Result<
        ExpressionType,
        ParseError,
    >)
        requires
            old(self).wf(),
        ensures
            advanced(*old(self), *final(self)),
            !(token.kind is Identifier) ==> r is Err,
            (depth > 0 && token.kind is Identifier && (old(self).pos >= old(self).tokens.len()
                || !(old(self).tokens@[old(self).pos as int].kind is LeftParenthesis))) ==> (
                r == Ok::<ExpressionType, ParseError>(ExpressionType::Identifier(IdentifierExpression { name: token.value }))
                && final(self).pos == old(self).pos),
            (old(self).pos < old(self).tokens.len() && old(self).tokens@[old(self).pos as int].kind is LeftParenthesis)
                ==> (r matches Ok(e) ==> e is FunctionCall),
            forall|g: nat| #![trigger items_at(old(self).tokens@, old(self).pos + 1, g, TokenKind::RightParenthesis, false)]
                (token.kind is Identifier && 2 * g + 2 < depth - 3 && old(self).pos + 1 < old(self).tokens.len()
                && old(self).tokens@[old(self).pos as int].kind is LeftParenthesis
                && !(old(self).tokens@[old(self).pos + 1].kind is LeftParenthesis)) ==> (items_at(old(self).tokens@,
                old(self).pos + 1, g, TokenKind::RightParenthesis, false) matches Some((vs, end)) ==> (
                r matches Ok(ExpressionType::FunctionCall(c)) && *c.value == ExpressionType::Identifier(
                IdentifierExpression { name: token.value }) && c.parameters@ == vs && final(self).pos == end)),
        decreases depth,
    {
        if depth == 0 {
            return Err(ParseError::new("Expressions are nested too deeply"));
        }
        if token.kind != TokenKind::Identifier {
            return Err(ParseError::new("Expected identifier token"));
        }
        if self.peek_kind_ahead(0) == Some(TokenKind::LeftParenthesis) {
            return self.parse_function_expression(token, depth - 1);
        }
        Ok(ExpressionType::Identifier(IdentifierExpression { name: token.value }))
    }

    /// After `fn`: an anonymous function `( parameters ) { body }`; after a name: a call.
    pub(crate) fn parse_function_expression(&mut self, identifier_token: Token, depth: usize) -> (r:
        Result<ExpressionType, ParseError>)
        requires
            old(self).wf(),
        ensures
            advanced(*old(self), *final(self)),
            r matches Ok(e) ==> (identifier_token.kind is Fn ==> e is FunctionDeclaration)
                && (!(identifier_token.kind is Fn) ==> e is FunctionCall),
            (depth > 2 && old(self).pos + 1 < old(self).tokens.len()
                && old(self).tokens@[old(self).pos as int].kind is LeftParenthesis
                && old(self).tokens@[old(self).pos + 1].kind is RightParenthesis) ==> ({
                &&& identifier_token.kind is Identifier ==> (r matches Ok(ExpressionType::FunctionCall(c))
                    && *c.value == ExpressionType::Identifier(IdentifierExpression { name: identifier_token.value })
                    && c.parameters@.len() == 0 && final(self).pos == old(self).pos + 2)
                &&& (identifier_token.kind is Fn && old(self).pos + 3 < old(self).tokens.len()
                    && old(self).tokens@[old(self).pos + 2].kind is LeftCurly
                    && old(self).tokens@[old(self).pos + 3].kind is RightCurly) ==> (
                    r matches Ok(ExpressionType::FunctionDeclaration(f)) && f.parameters@.len() == 0
                    && f.body.statements@.len() == 0 && final(self).pos == old(self).pos + 4)
            }),
            r matches Ok(ExpressionType::FunctionDeclaration(f)) ==> crate::parser::statements::no_loose_jumps(f.body.statements@),
            forall|g: nat| #![trigger items_at(old(self).tokens@, old(self).pos + 1, g, TokenKind::RightParenthesis, false)]
                (identifier_token.kind is Identifier && 2 * g + 2 < depth - 2 && old(self).pos + 1 < old(self).tokens.len()
                && old(self).tokens@[old(self).pos as int].kind is LeftParenthesis
                && !(old(self).tokens@[old(self).pos + 1].kind is LeftParenthesis)) ==> (items_at(old(self).tokens@,
                old(self).pos + 1, g, TokenKind::RightParenthesis, false) matches Some((vs, end)) ==> (
                r matches Ok(ExpressionType::FunctionCall(c)) && *c.value == ExpressionType::Identifier(
                IdentifierExpression { name: identifier_token.value }) && c.parameters@ == vs && final(self).pos == end)),
        decreases depth,
    {
        if depth == 0 {
            return Err(ParseError::new("Expressions are nested too deeply"));
        }
        self.expect(TokenKind::LeftParenthesis)?;
        if identifier_token.kind == TokenKind::Fn {
            let parameters = self.parse_parameters(depth - 1)?;
            self.expect(TokenKind::LeftCurly)?;
            // A function body is no loop body: break and continue are refused in it.
            let prev_loop_depth = self.loop_depth;
            self.loop_depth = 0;
            let body = self.parse_block(depth - 1);
            self.loop_depth = prev_loop_depth;
            let body = body?;
            return Ok(
                ExpressionType::FunctionDeclaration(
                    FunctionDeclarationExpression { parameters, body },
                ),
            );
        }
        let value = self.parse_identifier_expression(identifier_token, depth - 1)?;
        let parameters = self.parse_comma_separated_list(TokenKind::RightParenthesis, false, depth - 1)?;
        Ok(ExpressionType::FunctionCall(CallExpression { value: Box::new(value), parameters }))
    }

    /// `name, name, ... )` of an anonymous function; every parameter must be a name.
    fn parse_parameters(&mut self, depth: usize) -> (r: Result<Vec<IdentifierExpression>, ParseError>)
        requires
            old(self).wf(),
        ensures
            advanced(*old(self), *final(self)),
            (depth > 0 && old(self).pos < old(self).tokens.len() && old(self).tokens@[old(self).pos as int].kind is RightParenthesis)
                ==> (r matches Ok(p) && p@.len() == 0 && final(self).pos == old(self).pos + 1),
        decreases depth,
    {
        if depth == 0 {
            return Err(ParseError::new("Expressions are nested too deeply"));
        }
        let ghost closes = old(self).pos < old(self).tokens.len()
            && old(self).tokens@[old(self).pos as int].kind is RightParenthesis;
        let mut parameters: Vec<IdentifierExpression> = Vec::new();
        if !self.match_token(TokenKind::RightParenthesis) {
            match self.parse_expression(depth - 1)? {
                ExpressionType::Identifier(identifier_expression) => parameters.push(identifier_expression),
                _ => return Err(ParseError::new("Expected identifier while parsing parameters")),
            }
            while self.match_token(TokenKind::Comma)
                invariant
                    closes == (old(self).pos < old(self).tokens.len()
                        && old(self).tokens@[old(self).pos as int].kind is RightParenthesis),
                    !closes,
                    depth > 0,
                    self.wf(),
                    advanced(*old(self), *self),
                decreases self.tokens.len() - self.pos,
            {
                match self.parse_expression(depth - 1)? {
                    ExpressionType::Identifier(identifier_expression) => parameters.push(identifier_expression),
                    _ => return Err(ParseError::new("Expected identifier while parsing parameters")),
                }
            }
            self.expect(TokenKind::RightParenthesis)?;
        }
        Ok(parameters)
    }

    /// Expressions separated by commas up to `delimiter`; with `trailing_comma` a comma
    /// may directly precede the delimiter.
    pub(crate) fn parse_comma_separated_list(
        &mut self,
        delimiter: TokenKind,
        trailing_comma: bool,
        depth: usize,
    ) -> (r: Result<Vec<ExpressionType>, ParseError>)
        requires
            old(self).wf(),
        ensures
            advanced(*old(self), *final(self)),
            (depth > 0 && old(self).pos < old(self).tokens.len() && old(self).tokens@[old(self).pos as int].kind == delimiter)
                ==> (r matches Ok(a) && a@.len() == 0 && final(self).pos == old(self).pos + 1),
            (depth > 3 && lone_literal_at(old(self).tokens@, old(self).pos as int) && old(self).pos + 1 < old(self).tokens.len()
                && old(self).tokens@[old(self).pos + 1].kind == delimiter && !(delimiter is Comma)
                && old(self).tokens@[old(self).pos as int].kind != delimiter) ==> (r matches Ok(a)
                && a@ == seq![ExpressionType::Literal(literal_token(old(self).tokens@[old(self).pos as int])->0)]
                && final(self).pos == old(self).pos + 2),
            !(delimiter is Comma) ==> forall|g: nat| #![trigger items_at(old(self).tokens@, old(self).pos as int, g, delimiter, trailing_comma)]
                2 * g + 2 < depth - 1 ==> (items_at(old(self).tokens@, old(self).pos as int, g, delimiter, trailing_comma) matches Some((vs, end))
                ==> (r matches Ok(a) && a@ == vs && final(self).pos == end)),
        decreases depth,
    {
        if depth == 0 {
            return Err(ParseError::new("Expressions are nested too deeply"));
        }
        let ghost closes = old(self).pos < old(self).tokens.len()
            && old(self).tokens@[old(self).pos as int].kind == delimiter;
        let ghost single = depth > 3 && lone_literal_at(old(self).tokens@, old(self).pos as int)
            && old(self).pos + 1 < old(self).tokens.len() && old(self).tokens@[old(self).pos + 1].kind == delimiter
            && !(delimiter is Comma) && old(self).tokens@[old(self).pos as int].kind != delimiter;
        let ghost tokens = old(self).tokens@;
        let ghost from = old(self).pos as int;
        let ghost big: nat = if depth >= 4 { ((depth - 4) / 2) as nat } else { 0 };
        let ghost listed = !(delimiter is Comma) && items_at(tokens, from, big, delimiter, trailing_comma) is Some;
        let ghost (all_vs, stop) = match items_at(tokens, from, big, delimiter, trailing_comma) {
            Some(c) => c,
            None => (Seq::<ExpressionType>::empty(), 0int),
        };
        proof {
            assert forall|g: nat| #![trigger items_at(tokens, from, g, delimiter, trailing_comma)]
                2 * g + 2 < depth - 1 && items_at(tokens, from, g, delimiter, trailing_comma) is Some implies items_at(tokens, from, g, delimiter, trailing_comma) == items_at(tokens, from, big, delimiter, trailing_comma) by {
                lemma_items_more(tokens, from, g, big, delimiter, trailing_comma);
            }
        }
        let mut arguments: Vec<ExpressionType> = Vec::new();
        let ghost mut cur: nat = big;
        if !self.match_token(delimiter) {
            proof {
                if listed {
                    assert(items_from(tokens, from, big, delimiter, trailing_comma) is Some);
                }
            }
            arguments.push(self.parse_expression(depth - 1)?);
            proof {
                if listed {
                    assert(arguments@ =~= all_vs.take(1));
                }
            }
            while self.match_token(TokenKind::Comma)
                invariant_except_break
                    listed ==> items_tail(tokens, self.pos as int, cur, delimiter, trailing_comma) == Some((all_vs.skip(arguments@.len() as int), stop)),
                invariant
                    depth > 0,
                    tokens == old(self).tokens@,
                    from == old(self).pos,
                    listed == (!(delimiter is Comma) && items_at(tokens, from, big, delimiter, trailing_comma) is Some),
                    listed ==> items_at(tokens, from, big, delimiter, trailing_comma) == Some((all_vs, stop)),
                    forall|g: nat| #![trigger items_at(tokens, from, g, delimiter, trailing_comma)]
                        2 * g + 2 < depth - 1 && items_at(tokens, from, g, delimiter, trailing_comma) is Some ==> items_at(tokens, from, g, delimiter, trailing_comma) == items_at(tokens, from, big, delimiter, trailing_comma),
                    listed ==> (2 * big + 2 < depth - 1 && cur <= big && 1 <= arguments@.len() <= all_vs.len()
                        && arguments@ == all_vs.take(arguments@.len() as int)),
                    self.wf(),
                    advanced(*old(self), *self),
                    closes == (old(self).pos < old(self).tokens.len()
                        && old(self).tokens@[old(self).pos as int].kind == delimiter),
                    !closes,
                    single == (depth > 3 && lone_literal_at(old(self).tokens@, old(self).pos as int)
                        && old(self).pos + 1 < old(self).tokens.len() && old(self).tokens@[old(self).pos + 1].kind == delimiter
                        && !(delimiter is Comma) && old(self).tokens@[old(self).pos as int].kind != delimiter),
                    single ==> (self.pos == old(self).pos + 1 && arguments@ == seq![ExpressionType::Literal(
                        literal_token(old(self).tokens@[old(self).pos as int])->0)]),
                ensures
                    single ==> (self.pos == old(self).pos + 1 && arguments@ == seq![ExpressionType::Literal(
                        literal_token(old(self).tokens@[old(self).pos as int])->0)]),
                    listed ==> (arguments@ == all_vs && self.pos < tokens.len() && tokens[self.pos as int].kind == delimiter
                        && stop == self.pos + 1),
                decreases self.tokens.len() - self.pos,
            {
                if trailing_comma && self.peek_kind_ahead(0) == Some(delimiter) {
                    proof {
                        if listed {
                            assert(all_vs.skip(arguments@.len() as int).len() == 0);
                            assert(all_vs.take(arguments@.len() as int) =~= all_vs);
                        }
                    }
                    break;
                }
                proof {
                    if listed {
                        let n = arguments@.len() as int;
                        assert(all_vs.skip(n).len() > 0);
                        assert(items_from(tokens, self.pos as int, (cur - 1) as nat, delimiter, trailing_comma) == Some((all_vs.skip(n), stop)));
                        assert(all_vs.skip(n)[0] == all_vs[n]);
                        if let Some((es, os, k)) = chain_at(tokens, self.pos as int, (cur - 1) as nat) {
                            assert(spec_tree(es, os) == all_vs[n]);
                        }
                    }
                }
                let ghost before = arguments@;
                arguments.push(self.parse_expression(depth - 1)?);
                proof {
                    if listed {
                        let n = before.len() as int;
                        assert(all_vs.skip(n).skip(1) =~= all_vs.skip(n + 1));
                        assert(arguments@ =~= all_vs.take(n + 1));
                        cur = (cur - 1) as nat;
                    }
                }
            }
            self.expect(delimiter)?;
        }
        Ok(arguments)
    }

    /// `{ key: value, ... }`. A name key becomes a string; a string, boolean or
    /// `undefined` literal becomes its text; a number literal stays a number (its text is
    /// the one the runtime prints); a list of one expression is kept.
    fn parse_dictionary_expression(&mut self, depth: usize) -> (r: Result<ExpressionType, ParseError>)
        requires
            old(self).wf(),
        ensures
            advanced(*old(self), *final(self)),
            r matches Ok(e) ==> e is Dictionary,
            (depth > 0 && old(self).pos < old(self).tokens.len() && old(self).tokens@[old(self).pos as int].kind is RightCurly)
                ==> (r matches Ok(ExpressionType::Dictionary(d)) && d.keys@.len() == 0 && d.values@.len() == 0
                && final(self).pos == old(self).pos + 1),
        decreases depth,
    {
        if depth == 0 {
            return Err(ParseError::new("Expressions are nested too deeply"));
        }
        let ghost closes = old(self).pos < old(self).tokens.len()
            && old(self).tokens@[old(self).pos as int].kind is RightCurly;
        let mut keys: Vec<ExpressionType> = Vec::new();
        let mut values: Vec<ExpressionType> = Vec::new();
        while !self.match_token(TokenKind::RightCurly)
            invariant_except_break
                closes ==> (self.pos == old(self).pos && keys@.len() == 0 && values@.len() == 0),
            invariant
                depth > 0,
                self.wf(),
                advanced(*old(self), *self),
                closes == (old(self).pos < old(self).tokens.len()
                    && old(self).tokens@[old(self).pos as int].kind is RightCurly),
            ensures
                closes ==> (self.pos == old(self).pos + 1 && keys@.len() == 0 && values@.len() == 0),
            decreases self.tokens.len() - self.pos,
        {
            let key = self.parse_expression(depth - 1)?;
            let normalized = match key {
                ExpressionType::Identifier(identifier) => ExpressionType::Literal(
                    LiteralType::String(identifier.name),
                ),
                ExpressionType::Literal(literal) => ExpressionType::Literal(
                    match literal {
                        LiteralType::String(x) => LiteralType::String(x),
                        LiteralType::Number(x) => LiteralType::Number(x),
                        LiteralType::Boolean(b) => LiteralType::String(
                            if b {
                                "true".to_owned()
                            } else {
                                "false".to_owned()
                            },
                        ),
                        LiteralType::Undefined => LiteralType::String("undefined".to_owned()),
                    },
                ),
                ExpressionType::List(list) => {
                    if list.values.len() != 1 {
                        return Err(ParseError::new("Invalid key for dictionary"));
                    }
                    ExpressionType::List(list)
                },
                _ => return Err(ParseError::new("Invalid key for dictionary")),
            };
            keys.push(normalized);
            self.expect(TokenKind::Colon)?;
            let value = self.parse_expression(depth - 1)?;
            values.push(value);
            if self.peek_kind_ahead(0) == Some(TokenKind::RightCurly) {
                self.match_token(TokenKind::RightCurly);
                break;
            }
            self.expect(TokenKind::Comma)?;
        }
        Ok(ExpressionType::Dictionary(DictionaryExpression { keys, values }))
    }
}

} // verus!
