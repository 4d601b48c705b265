//! Recursive-descent parser from tokens to statements.
pub mod expressions;
pub mod statements;
pub mod duplicate;

use crate::lexer::{Token, TokenKind};
use statements::{no_loose_jumps, StatementType};
use vstd::prelude::*;

verus! {

/// Why a token sequence is not a program.
#[derive(PartialEq, Debug, Clone)]
pub struct ParseError {
    pub reason: String,
}

impl ParseError {
    pub fn new(reason: &str) -> (e: ParseError)
        ensures
            e.reason@ == reason@,
    {
        ParseError { reason: reason.to_owned() }
    }
}

/// A statement of the kind that its first token, at `start`, announces, as the parser reads
/// it at the top level (see `statement_at`).
pub open spec fn starts_statement(tokens: Seq<Token>, start: int, statement: StatementType) -> bool {
    crate::parser::statements::statement_at(tokens, start, statement, MAX_DEPTH as int)
}

/// `starts` are the positions at which the statements `ast` begin in `tokens`: the first
/// at `from`, each after the one before, and each of the kind its first token announces.
pub open spec fn statement_starts(tokens: Seq<Token>, from: int, starts: Seq<int>, ast: Seq<StatementType>) -> bool {
    &&& starts.len() == ast.len()
    &&& starts.len() > 0 ==> starts[0] == from
    &&& forall|i: int| 0 <= i < starts.len() ==> from <= #[trigger] starts[i] < tokens.len()
    &&& forall|i: int| 0 <= i < starts.len() - 1 ==> #[trigger] starts[i] < starts[i + 1]
    &&& forall|i: int| 0 <= i < starts.len() ==> starts_statement(tokens, #[trigger] starts[i], ast[i])
}

/// Nesting budget of the recursive descent; deeper input is refused.
pub const MAX_DEPTH: usize = 100000;

pub struct Parser {
    pub(crate) tokens: Vec<Token>,
    pub(crate) pos: usize,
    pub(crate) loop_depth: usize,
}

/// What a parsing step keeps: the tokens, and a position that only moves forward.
pub(crate) open spec fn advanced(before: Parser, after: Parser) -> bool {
    &&& after.tokens == before.tokens
    &&& before.pos <= after.pos <= after.tokens.len()
    &&& after.loop_depth == before.loop_depth
}

impl Parser {
    pub(crate) open spec fn wf(&self) -> bool {
        self.pos <= self.tokens.len()
    }

    /// The tokens being parsed.
    pub closed spec fn token_seq(&self) -> Seq<Token> {
        self.tokens@
    }

    /// Index of the next token to read.
    pub closed spec fn position(&self) -> int {
        self.pos as int
    }

    pub closed spec fn is_fresh(&self) -> bool {
        self.pos == 0 && self.loop_depth == 0
    }

    /// Whether the parser is outside every loop.
    pub closed spec fn outside_loops(&self) -> bool {
        self.loop_depth == 0
    }

    pub fn new(tokens: Vec<Token>) -> (p: Self)
        ensures
            p.token_seq() == tokens@,
            p.position() == 0,
            p.is_fresh(),
    {
        Parser { tokens, pos: 0, loop_depth: 0 }
    }

    /// Parses the whole token sequence into statements.
    pub fn parse(&mut self) -> (r: Result<Vec<StatementType>, ParseError>)
        requires
            old(self).position() <= old(self).token_seq().len(),
        ensures
            final(self).token_seq() == old(self).token_seq(),
            r is Ok ==> final(self).position() == final(self).token_seq().len(),
            old(self).position() == old(self).token_seq().len() ==> (r matches Ok(ast)
                && ast@.len() == 0),
            old(self).is_fresh() ==> old(self).outside_loops(),
            old(self).outside_loops() ==> (r matches Ok(ast) ==> forall|i: int|
                0 <= i < ast@.len() ==> !(#[trigger] ast@[i] is Break) && !(ast@[i] is Continue)),
            old(self).outside_loops() ==> (r matches Ok(ast) ==> no_loose_jumps(ast@)),
            r matches Ok(ast) ==> exists|starts: Seq<int>| statement_starts(old(self).token_seq(), old(self).position(), starts, ast@),
            r matches Ok(ast) ==> (old(self).position() < old(self).token_seq().len() ==> ast@.len() > 0),
    {
        let mut ast: Vec<StatementType> = Vec::new();
        let ghost mut starts: Seq<int> = Seq::empty();
        while self.pos < self.tokens.len()
            invariant
                self.wf(),
                self.tokens == old(self).tokens,
                self.loop_depth == old(self).loop_depth,
                self.pos >= old(self).pos,
                old(self).pos == old(self).tokens.len() ==> ast@.len() == 0,
                self.loop_depth == 0 ==> forall|i: int|
                    0 <= i < ast@.len() ==> !(#[trigger] ast@[i] is Break) && !(ast@[i] is Continue),
                self.loop_depth == 0 ==> no_loose_jumps(ast@),
                statement_starts(self.tokens@, old(self).pos as int, starts, ast@),
                starts.len() > 0 ==> starts.last() < self.pos,
                self.pos > old(self).pos ==> ast@.len() > 0,
            decreases self.tokens.len() - self.pos,
        {
            let ghost start = self.pos as int;
            let statement = self.parse_statement(MAX_DEPTH)?;
            proof {
                assert(starts_statement(self.tokens@, start, statement));
                starts = starts.push(start);
            }
            ast.push(statement);
        }
        assert(statement_starts(old(self).tokens@, old(self).pos as int, starts, ast@));
        Ok(ast)
    }

    /// The next token, if any, without consuming it.
    pub(crate) fn peek(&self) -> (r: Option<Token>)
        requires
            self.wf(),
        ensures
            self.pos < self.tokens.len() ==> r == Some(self.tokens@[self.pos as int]),
            self.pos >= self.tokens.len() ==> r is None,
    {
        if self.pos >= self.tokens.len() {
            return None;
        }
        Some(self.tokens[self.pos].duplicate())
    }

    /// The kind of the token `offset` places ahead of the next one, if any.
    pub(crate) fn peek_kind_ahead(&self, offset: usize) -> (r: Option<TokenKind>)
        requires
            self.wf(),
        ensures
            self.pos + offset < self.tokens.len() ==> r == Some(
                self.tokens@[self.pos + offset].kind,
            ),
            self.pos + offset >= self.tokens.len() ==> r is None,
    {
        if offset >= self.tokens.len() - self.pos {
            return None;
        }
        Some(self.tokens[self.pos + offset].kind)
    }

    /// Consumes and returns the next token, if any.
    pub(crate) fn next(&mut self) -> (r: Option<Token>)
        requires
            old(self).wf(),
        ensures
            final(self).tokens == old(self).tokens,
            final(self).loop_depth == old(self).loop_depth,
            final(self).wf(),
            old(self).pos < old(self).tokens.len() ==> r == Some(
                old(self).tokens@[old(self).pos as int],
            ) && final(self).pos == old(self).pos + 1,
            old(self).pos >= old(self).tokens.len() ==> r is None && final(self).pos == old(
                self,
            ).pos,
    {
        if self.pos >= self.tokens.len() {
            return None;
        }
        let token = self.tokens[self.pos].duplicate();
        self.pos = self.pos + 1;
        Some(token)
    }

    /// Consumes the next token, which must be of `kind`.
    pub(crate) fn expect(&mut self, kind: TokenKind) -> (r: Result<Token, ParseError>)
        requires
            old(self).wf(),
        ensures
            final(self).tokens == old(self).tokens,
            final(self).loop_depth == old(self).loop_depth,
            final(self).wf(),
            r is Ok <==> (old(self).pos < old(self).tokens.len() && old(self).tokens@[old(
                self,
            ).pos as int].kind == kind),
            r matches Ok(t) ==> t == old(self).tokens@[old(self).pos as int] && final(self).pos
                == old(self).pos + 1,
            old(self).pos <= final(self).pos,
    {
        if let Some(next_token) = self.next() {
            if next_token.kind == kind {
                return Ok(next_token);
            }
            return Err(ParseError::new("Unexpected token"));
        }
        Err(ParseError::new("Reached the end of the tokens"))
    }

    /// Consumes the next token if it is of `kind`.
    pub(crate) fn match_token(&mut self, kind: TokenKind) -> (b: bool)
        requires
            old(self).wf(),
        ensures
            final(self).tokens == old(self).tokens,
            final(self).loop_depth == old(self).loop_depth,
            final(self).wf(),
            b == (old(self).pos < old(self).tokens.len() && old(self).tokens@[old(
                self,
            ).pos as int].kind == kind),
            final(self).pos == if b {
                old(self).pos + 1
            } else {
                old(self).pos as int
            },
    {
        if self.pos < self.tokens.len() && self.tokens[self.pos].kind == kind {
            self.pos = self.pos + 1;
            return true;
        }
        false
    }

    /// Consumes and returns the next token if its kind is one of `kinds`.
    pub(crate) fn match_any(&mut self, kinds: &[TokenKind]) -> (r: Option<Token>)
        requires
            old(self).wf(),
        ensures
            final(self).tokens == old(self).tokens,
            final(self).loop_depth == old(self).loop_depth,
            final(self).wf(),
            r is Some <==> (old(self).pos < old(self).tokens.len() && kinds@.contains(
                old(self).tokens@[old(self).pos as int].kind,
            )),
            r matches Some(t) ==> t == old(self).tokens@[old(self).pos as int] && final(self).pos
                == old(self).pos + 1,
            r is None ==> final(self).pos == old(self).pos,
    {
        if self.pos >= self.tokens.len() {
            return None;
        }
        let kind = self.tokens[self.pos].kind;
        let mut i: usize = 0;
        while i < kinds.len()
            invariant
                i <= kinds@.len(),
                forall|k: int| 0 <= k < i ==> kinds@[k] != kind,
                self.tokens == old(self).tokens,
                self.pos == old(self).pos,
                self.loop_depth == old(self).loop_depth,
                self.pos < self.tokens.len(),
                kind == self.tokens@[self.pos as int].kind,
            decreases kinds.len() - i,
        {
            if kinds[i] == kind {
                let token = self.tokens[self.pos].duplicate();
                self.pos = self.pos + 1;
                return Some(token);
            }
            i = i + 1;
        }
        None
    }
}

} // verus!
