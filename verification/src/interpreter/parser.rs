//! From tokens to the tree of an expression.
//!
//! ```text
//! expression -> term EOF
//! term       -> factor ( ( "+" | "-" ) factor )*
//! factor     -> typecast ( ( "*" | "/" ) typecast )*
//! typecast   -> unary ( "as" UNIT )?
//! unary      -> "-" unary | primary
//! primary    -> INTEGER ( UNIT )? | "(" term ")"
//! ```

use super::expr::{Expr, OperatorExpr};
use super::lexer::{lemma_step_advances, lemma_stream_terminated, terminated, LexError, Lexer};
use super::token::{Token, TokenKind};
use super::SyntaxErrorKind;
use std::ops::Range;
use vstd::prelude::*;

verus! {

/// What the parser missed.
#[derive(Debug, Clone, Copy, PartialEq, Eq)]
pub enum ParseErrorKind {
    /// The token named here was expected.
    UnexpectedToken(&'static str),
    /// An integer or an opening parenthesis was expected.
    ExpectedExpression,
    /// The expression was complete, and the input went on.
    ExpectedEof,
    /// `as` was not followed by a unit.
    ExpectedUnit,
}

/// A syntactic error and the token that was found in place of what was expected.
#[derive(Debug, PartialEq, Eq)]
pub struct ParseError {
    pub kind: ParseErrorKind,
    pub token: Token,
}

impl Clone for ParseError {
    fn clone(&self) -> (copy: ParseError)
        ensures
            copy == *self,
    {
        ParseError { kind: self.kind, token: self.token.clone() }
    }
}

impl ParseError {
    pub fn new(kind: ParseErrorKind, token: Token) -> (error: ParseError)
        ensures
            error == (ParseError { kind, token }),
    {
        ParseError { kind, token }
    }

    pub fn token(&self) -> (token: &Token)
        ensures
            *token == self.token,
    {
        &self.token
    }
}

/// A stream of tokens as the lexer yields it: see `LexerState::stream`.
pub type Tokens = Seq<Result<Token, LexError>>;

/// What a rule of the grammar makes of the tokens from some place on: the tree or the
/// error, and the number of tokens that it has taken.
pub type Parsed = (Result<Expr, SyntaxErrorKind>, nat);

/// The item at `at`. Behind its end a stream is taken to have reached the end of the input.
pub open spec fn upcoming(items: Tokens, at: nat) -> Result<Token, LexError> {
    if at < items.len() {
        items[at as int]
    } else {
        Ok(Token { kind: TokenKind::Eof, loc: Range { start: 0, end: 0 } })
    }
}

/// How many items stand at `at` and behind it.
pub open spec fn tokens_left(items: Tokens, at: nat) -> nat {
    if at <= items.len() {
        (items.len() - at) as nat
    } else {
        0
    }
}

/// The syntactic error of this kind at this token.
pub open spec fn unexpected(kind: ParseErrorKind, token: Token) -> SyntaxErrorKind {
    SyntaxErrorKind::Parse(ParseError { kind, token })
}

/// `left operator right` as a tree.
pub open spec fn binary(left: Expr, operator: Token, right: Expr) -> Expr {
    Expr::Operator(
        OperatorExpr::ArithmeticOrLogical { left: Box::new(left), operator, right: Box::new(right) },
    )
}

/// `primary -> INTEGER ( UNIT )? | "(" term ")"`
///
/// An integer takes the unit that follows it. Where neither an integer nor an opening
/// parenthesis stands, an expression was expected; where the closing parenthesis is
/// missing, it was. The token found in its place is taken too.
pub open spec fn primary(items: Tokens, at: nat) -> Parsed
    decreases tokens_left(items, at), 0nat,
{
    match upcoming(items, at) {
        Err(error) => (Err(SyntaxErrorKind::Lex(error)), 0),
        Ok(token) => match token.kind {
            TokenKind::Integer(_) => match upcoming(items, at + 1) {
                Err(error) => (Err(SyntaxErrorKind::Lex(error)), 1),
                Ok(unit) => if unit.kind is Unit {
                    (Ok(Expr::Literal { kind: token, unit: Some(unit) }), 2)
                } else {
                    (Ok(Expr::Literal { kind: token, unit: None }), 1)
                },
            },
            TokenKind::LeftParen => {
                let (inner, taken) = expression(items, at + 1);
                match inner {
                    Err(error) => (Err(error), 1 + taken),
                    Ok(inner) => match upcoming(items, at + 1 + taken) {
                        Err(error) => (Err(SyntaxErrorKind::Lex(error)), 1 + taken),
                        Ok(closing) => if closing.kind is RightParen {
                            (Ok(Expr::Grouping(Box::new(inner))), 2 + taken)
                        } else {
                            (
                                Err(unexpected(ParseErrorKind::UnexpectedToken(")"), closing)),
                                2 + taken,
                            )
                        },
                    },
                }
            },
            _ => (Err(unexpected(ParseErrorKind::ExpectedExpression, token)), 1),
        },
    }
}

/// `unary -> "-" unary | primary`
pub open spec fn unary(items: Tokens, at: nat) -> Parsed
    decreases tokens_left(items, at), 1nat,
{
    match upcoming(items, at) {
        Err(error) => (Err(SyntaxErrorKind::Lex(error)), 0),
        Ok(token) => if token.kind is Minus {
            let (right, taken) = unary(items, at + 1);
            match right {
                Err(error) => (Err(error), 1 + taken),
                Ok(right) => (
                    Ok(Expr::Operator(OperatorExpr::Unary { operator: token, right: Box::new(right) })),
                    1 + taken,
                ),
            }
        } else {
            primary(items, at)
        },
    }
}

/// `typecast -> unary ( "as" UNIT )?`
///
/// Where `as` is followed by no unit, one was expected; the token found is taken too.
pub open spec fn type_cast(items: Tokens, at: nat) -> Parsed
    decreases tokens_left(items, at), 2nat,
{
    let (left, taken) = unary(items, at);
    match left {
        Err(error) => (Err(error), taken),
        Ok(left) => match upcoming(items, at + taken) {
            Err(error) => (Err(SyntaxErrorKind::Lex(error)), taken),
            Ok(token) => if token.kind is As {
                match upcoming(items, at + taken + 1) {
                    Err(error) => (Err(SyntaxErrorKind::Lex(error)), taken + 1),
                    Ok(unit) => if unit.kind is Unit {
                        (
                            Ok(Expr::Operator(OperatorExpr::TypeCast { left: Box::new(left), unit })),
                            taken + 2,
                        )
                    } else {
                        (Err(unexpected(ParseErrorKind::ExpectedUnit, unit)), taken + 2)
                    },
                }
            } else {
                (Ok(left), taken)
            },
        },
    }
}

/// `( ( "*" | "/" ) typecast )*` behind the factor `left`.
pub open spec fn factor_tail(items: Tokens, at: nat, left: Expr) -> Parsed
    decreases tokens_left(items, at), 3nat,
{
    match upcoming(items, at) {
        Err(error) => (Err(SyntaxErrorKind::Lex(error)), 0),
        Ok(operator) => if operator.kind is Star || operator.kind is Slash {
            let (right, taken) = type_cast(items, at + 1);
            match right {
                Err(error) => (Err(error), 1 + taken),
                Ok(right) => {
                    let (whole, more) = factor_tail(
                        items,
                        at + 1 + taken,
                        binary(left, operator, right),
                    );
                    (whole, 1 + taken + more)
                },
            }
        } else {
            (Ok(left), 0)
        },
    }
}

/// `factor -> typecast ( ( "*" | "/" ) typecast )*`, grouped from the left.
pub open spec fn factor(items: Tokens, at: nat) -> Parsed
    decreases tokens_left(items, at), 4nat,
{
    let (left, taken) = type_cast(items, at);
    match left {
        Err(error) => (Err(error), taken),
        Ok(left) => {
            let (whole, more) = factor_tail(items, at + taken, left);
            (whole, taken + more)
        },
    }
}

/// `( ( "+" | "-" ) factor )*` behind the term `left`.
pub open spec fn term_tail(items: Tokens, at: nat, left: Expr) -> Parsed
    decreases tokens_left(items, at), 5nat,
{
    match upcoming(items, at) {
        Err(error) => (Err(SyntaxErrorKind::Lex(error)), 0),
        Ok(operator) => if operator.kind is Plus || operator.kind is Minus {
            let (right, taken) = factor(items, at + 1);
            match right {
                Err(error) => (Err(error), 1 + taken),
                Ok(right) => {
                    let (whole, more) = term_tail(
                        items,
                        at + 1 + taken,
                        binary(left, operator, right),
                    );
                    (whole, 1 + taken + more)
                },
            }
        } else {
            (Ok(left), 0)
        },
    }
}

/// `term -> factor ( ( "+" | "-" ) factor )*`, grouped from the left.
pub open spec fn term(items: Tokens, at: nat) -> Parsed
    decreases tokens_left(items, at), 6nat,
{
    let (left, taken) = factor(items, at);
    match left {
        Err(error) => (Err(error), taken),
        Ok(left) => {
            let (whole, more) = term_tail(items, at + taken, left);
            (whole, taken + more)
        },
    }
}

/// An expression is a term.
pub open spec fn expression(items: Tokens, at: nat) -> Parsed
    decreases tokens_left(items, at), 7nat,
{
    term(items, at)
}

/// `expression -> term EOF`
///
/// The tree of the whole stream, or the first error: a lexical error where the stream
/// holds one that the parser comes to, else a syntactic one. Where the term is not
/// followed by the end of the input, that was expected.
pub open spec fn whole(items: Tokens) -> Parsed {
    let (whole, taken) = expression(items, 0);
    match whole {
        Err(error) => (Err(error), taken),
        Ok(whole) => match upcoming(items, taken) {
            Err(error) => (Err(SyntaxErrorKind::Lex(error)), taken),
            Ok(token) => if token.kind is Eof {
                (Ok(whole), taken + 1)
            } else {
                (Err(unexpected(ParseErrorKind::ExpectedEof, token)), taken + 1)
            },
        },
    }
}

/// A sum or difference follows the grammar where its operands do and the right one is
/// a factor.
proof fn lemma_sum_follows_grammar(left: Expr, operator: Token, right: Expr)
    requires
        operator.kind is Plus || operator.kind is Minus,
        left.follows_grammar(),
        right.follows_grammar(),
        right.is_factor(),
    ensures
        binary(left, operator, right).follows_grammar(),
{
    let node = OperatorExpr::ArithmeticOrLogical {
        left: Box::new(left),
        operator,
        right: Box::new(right),
    };
    assert(node.follows_grammar());
}

/// A product or quotient is a factor that follows the grammar where its operands do,
/// the left one is a factor and the right one a cast expression.
proof fn lemma_product_follows_grammar(left: Expr, operator: Token, right: Expr)
    requires
        operator.kind is Star || operator.kind is Slash,
        left.follows_grammar(),
        right.follows_grammar(),
        left.is_factor(),
        right.is_type_cast(),
    ensures
        binary(left, operator, right).follows_grammar(),
        binary(left, operator, right).is_factor(),
{
    let node = OperatorExpr::ArithmeticOrLogical {
        left: Box::new(left),
        operator,
        right: Box::new(right),
    };
    assert(node.follows_grammar());
}

/// A cast follows the grammar where its operand does and is a unary expression.
proof fn lemma_cast_follows_grammar(left: Expr, unit: Token)
    requires
        unit.kind is Unit,
        left.follows_grammar(),
        left.is_unary(),
    ensures
        Expr::Operator(OperatorExpr::TypeCast { left: Box::new(left), unit }).follows_grammar(),
        Expr::Operator(OperatorExpr::TypeCast { left: Box::new(left), unit }).is_type_cast(),
{
    let node = OperatorExpr::TypeCast { left: Box::new(left), unit };
    assert(node.follows_grammar());
}

/// A signed expression follows the grammar where its operand does and is a unary
/// expression.
proof fn lemma_sign_follows_grammar(operator: Token, right: Expr)
    requires
        operator.kind is Minus,
        right.follows_grammar(),
        right.is_unary(),
    ensures
        Expr::Operator(OperatorExpr::Unary { operator, right: Box::new(right) }).follows_grammar(),
        Expr::Operator(OperatorExpr::Unary { operator, right: Box::new(right) }).is_unary(),
{
    let node = OperatorExpr::Unary { operator, right: Box::new(right) };
    assert(node.follows_grammar());
}

/// A primary expression that the grammar gives follows the grammar.
pub proof fn lemma_primary_follows_grammar(items: Tokens, at: nat)
    ensures
        primary(items, at).0 matches Ok(tree) ==> tree.is_primary() && tree.follows_grammar(),
    decreases tokens_left(items, at), 0nat,
{
    if let Ok(token) = upcoming(items, at) {
        if token.kind is LeftParen {
            lemma_term_follows_grammar(items, at + 1);
        }
    }
}

/// A unary expression that the grammar gives follows the grammar.
pub proof fn lemma_unary_follows_grammar(items: Tokens, at: nat)
    ensures
        unary(items, at).0 matches Ok(tree) ==> tree.is_unary() && tree.follows_grammar(),
    decreases tokens_left(items, at), 1nat,
{
    if let Ok(token) = upcoming(items, at) {
        if token.kind is Minus {
            lemma_unary_follows_grammar(items, at + 1);
            if let Ok(right) = unary(items, at + 1).0 {
                lemma_sign_follows_grammar(token, right);
            }
        } else {
            lemma_primary_follows_grammar(items, at);
        }
    }
}

/// A cast expression that the grammar gives follows the grammar.
pub proof fn lemma_type_cast_follows_grammar(items: Tokens, at: nat)
    ensures
        type_cast(items, at).0 matches Ok(tree) ==> tree.is_type_cast() && tree.follows_grammar(),
    decreases tokens_left(items, at), 2nat,
{
    lemma_unary_follows_grammar(items, at);
    if let (Ok(left), taken) = unary(items, at) {
        if let Ok(unit) = upcoming(items, at + taken + 1) {
            if unit.kind is Unit {
                lemma_cast_follows_grammar(left, unit);
            }
        }
    }
}

/// The factor that grows from a factor that follows the grammar follows it too.
pub proof fn lemma_factor_tail_follows_grammar(items: Tokens, at: nat, left: Expr)
    requires
        left.is_factor(),
        left.follows_grammar(),
    ensures
        factor_tail(items, at, left).0 matches Ok(tree) ==> tree.is_factor()
            && tree.follows_grammar(),
    decreases tokens_left(items, at), 3nat,
{
    if let Ok(operator) = upcoming(items, at) {
        if operator.kind is Star || operator.kind is Slash {
            lemma_type_cast_follows_grammar(items, at + 1);
            if let (Ok(right), taken) = type_cast(items, at + 1) {
                lemma_product_follows_grammar(left, operator, right);
                lemma_factor_tail_follows_grammar(
                    items,
                    at + 1 + taken,
                    binary(left, operator, right),
                );
            }
        }
    }
}

/// A factor that the grammar gives follows the grammar.
pub proof fn lemma_factor_follows_grammar(items: Tokens, at: nat)
    ensures
        factor(items, at).0 matches Ok(tree) ==> tree.is_factor() && tree.follows_grammar(),
    decreases tokens_left(items, at), 4nat,
{
    lemma_type_cast_follows_grammar(items, at);
    if let (Ok(left), taken) = type_cast(items, at) {
        lemma_factor_tail_follows_grammar(items, at + taken, left);
    }
}

/// The term that grows from a term that follows the grammar follows it too.
pub proof fn lemma_term_tail_follows_grammar(items: Tokens, at: nat, left: Expr)
    requires
        left.follows_grammar(),
    ensures
        term_tail(items, at, left).0 matches Ok(tree) ==> tree.follows_grammar(),
    decreases tokens_left(items, at), 5nat,
{
    if let Ok(operator) = upcoming(items, at) {
        if operator.kind is Plus || operator.kind is Minus {
            lemma_factor_follows_grammar(items, at + 1);
            if let (Ok(right), taken) = factor(items, at + 1) {
                lemma_sum_follows_grammar(left, operator, right);
                lemma_term_tail_follows_grammar(items, at + 1 + taken, binary(left, operator, right));
            }
        }
    }
}

/// A term that the grammar gives follows the grammar.
pub proof fn lemma_term_follows_grammar(items: Tokens, at: nat)
    ensures
        term(items, at).0 matches Ok(tree) ==> tree.follows_grammar(),
    decreases tokens_left(items, at), 6nat,
{
    lemma_factor_follows_grammar(items, at);
    if let (Ok(left), taken) = factor(items, at) {
        lemma_term_tail_follows_grammar(items, at + taken, left);
    }
}

/// Whatever the tokens are, a tree that comes out of them is built as the precedence of
/// the operators asks: `*` and `/` bind tighter than `+` and `-`, each pair groups from
/// the left, a cast takes the operand nearest to it, and signs stack to the right. Only
/// parentheses put a looser operator below a tighter one. See `Expr::follows_grammar`.
pub proof fn lemma_whole_follows_grammar(items: Tokens)
    ensures
        whole(items).0 matches Ok(tree) ==> tree.follows_grammar(),
{
    lemma_term_follows_grammar(items, 0);
}

/// Leaving one more token behind.
proof fn lemma_skip_one(items: Tokens, at: nat)
    requires
        at < items.len(),
    ensures
        items.skip(at as int).skip(1) == items.skip(at as int + 1),
        items.skip(at as int)[0] == items[at as int],
{
    assert(items.skip(at as int).skip(1) =~= items.skip(at as int + 1));
}

/// Builds the tree of an expression from the tokens of a lexer, looking one token ahead.
pub struct Parser<'a> {
    lexer: Lexer<'a>,
    peeked: Option<Option<Result<Token, LexError>>>,
}

impl<'a> Parser<'a> {
    /// The tokens that the parser has not taken yet: the one it has looked at, if any,
    /// and those that the lexer still yields.
    pub closed spec fn stream(&self) -> Tokens {
        match self.peeked {
            None => self.lexer@.stream(),
            Some(None) => seq![],
            Some(Some(Err(error))) => seq![Err(error)],
            Some(Some(Ok(token))) => seq![Ok(token)] + self.lexer@.stream(),
        }
    }

    /// The token that was looked at is the end of the input just when the lexer is done.
    pub closed spec fn well_formed(&self) -> bool {
        self.peeked matches Some(Some(Ok(token))) ==> (token.kind == TokenKind::Eof
            <==> self.lexer@.rest is None)
    }

    /// The parser stands at `at` in `items`, a stream that ends as it should.
    #[verifier::opaque]
    spec fn stands_at(&self, items: Tokens, at: nat) -> bool {
        &&& self.well_formed()
        &&& terminated(items)
        &&& at <= items.len()
        &&& self.stream() == items.skip(at as int)
    }

    /// A rule that gave `parsed` from `at` on has left the parser behind what it took,
    /// and before the end of the stream if it gave a tree.
    spec fn left_behind(&self, items: Tokens, at: nat, parsed: Parsed) -> bool {
        &&& self.stands_at(items, at + parsed.1)
        &&& parsed.0 is Ok ==> at + parsed.1 < items.len()
    }

    /// What a well-formed parser has still to take ends as a stream should.
    proof fn lemma_ends_once(&self)
        requires
            self.well_formed(),
        ensures
            terminated(self.stream()),
    {
        lemma_stream_terminated(self.lexer@);
    }

    /// A parser for the tokens of `lexer`.
    pub fn new(lexer: Lexer<'a>) -> (parser: Parser<'a>)
        ensures
            parser.well_formed(),
            parser.stream() == lexer@.stream(),
    {
        Parser { lexer, peeked: None }
    }

    /// The tree of the expression that the tokens make up, or the first error.
    ///
    /// The parser must not have reached the end of its input before.
    pub fn parse(&mut self) -> (tree: Result<Expr, SyntaxErrorKind>)
        requires
            old(self).well_formed(),
            old(self).stream().len() > 0,
        ensures
            final(self).well_formed(),
            tree == whole(old(self).stream()).0,
            final(self).stream() == old(self).stream().skip(whole(old(self).stream()).1 as int),
            tree matches Ok(tree) ==> tree.follows_grammar(),
    {
        reveal(Parser::stands_at);
        let ghost items = self.stream();
        proof {
            self.lemma_ends_once();
            assert(items.skip(0) =~= items);
            lemma_whole_follows_grammar(items);
        }
        let expr = match self.expression(Ghost(items), Ghost(0)) {
            Ok(expr) => expr,
            Err(error) => {
                return Err(error);
            },
        };
        let ghost taken = expression(items, 0).1;
        match self.peek(Ghost(items), Ghost(taken)) {
            Err(error) => Err(SyntaxErrorKind::from(error)),
            Ok(Some(TokenKind::Eof)) => {
                self.bump(Ghost(items), Ghost(taken));
                Ok(expr)
            },
            Ok(_) => {
                let token = self.bump(Ghost(items), Ghost(taken));
                Err(SyntaxErrorKind::from(ParseError::new(ParseErrorKind::ExpectedEof, token)))
            },
        }
    }

    /// Reads an expression: see `expression`.
    fn expression(&mut self, Ghost(items): Ghost<Tokens>, Ghost(at): Ghost<nat>) -> (tree: Result<
        Expr,
        SyntaxErrorKind,
    >)
        requires
            old(self).stands_at(items, at),
            at < items.len(),
        ensures
            tree == expression(items, at).0,
            final(self).left_behind(items, at, expression(items, at)),
        decreases tokens_left(items, at), 7nat,
    {
        self.term(Ghost(items), Ghost(at))
    }

    /// Reads a term: see `term`.
    fn term(&mut self, Ghost(items): Ghost<Tokens>, Ghost(at): Ghost<nat>) -> (tree: Result<
        Expr,
        SyntaxErrorKind,
    >)
        requires
            old(self).stands_at(items, at),
            at < items.len(),
        ensures
            tree == term(items, at).0,
            final(self).left_behind(items, at, term(items, at)),
        decreases tokens_left(items, at), 6nat,
    {
        let mut expr = match self.factor(Ghost(items), Ghost(at)) {
            Ok(expr) => expr,
            Err(error) => {
                return Err(error);
            },
        };
        let ghost mut here = at + factor(items, at).1;
        loop
            invariant
                self.stands_at(items, here),
                at <= here < items.len(),
                term(items, at).0 == term_tail(items, here, expr).0,
                term(items, at).1 == here - at + term_tail(items, here, expr).1,
            decreases tokens_left(items, here),
        {
            let operator = match self.peek(Ghost(items), Ghost(here)) {
                Err(error) => {
                    return Err(SyntaxErrorKind::from(error));
                },
                Ok(Some(TokenKind::Minus)) | Ok(Some(TokenKind::Plus)) => self.bump(Ghost(items), Ghost(here)),
                Ok(_) => {
                    return Ok(expr);
                },
            };
            let right = match self.factor(Ghost(items), Ghost(here + 1)) {
                Ok(right) => right,
                Err(error) => {
                    return Err(error);
                },
            };
            proof {
                here = here + 1 + factor(items, here + 1).1;
            }
            expr =
            Expr::Operator(
                OperatorExpr::ArithmeticOrLogical {
                    left: Box::new(expr),
                    operator,
                    right: Box::new(right),
                },
            );
        }
    }

    /// Reads a factor: see `factor`.
    fn factor(&mut self, Ghost(items): Ghost<Tokens>, Ghost(at): Ghost<nat>) -> (tree: Result<
        Expr,
        SyntaxErrorKind,
    >)
        requires
            old(self).stands_at(items, at),
            at < items.len(),
        ensures
            tree == factor(items, at).0,
            final(self).left_behind(items, at, factor(items, at)),
        decreases tokens_left(items, at), 4nat,
    {
        let mut expr = match self.type_cast(Ghost(items), Ghost(at)) {
            Ok(expr) => expr,
            Err(error) => {
                return Err(error);
            },
        };
        let ghost mut here = at + type_cast(items, at).1;
        loop
            invariant
                self.stands_at(items, here),
                at <= here < items.len(),
                factor(items, at).0 == factor_tail(items, here, expr).0,
                factor(items, at).1 == here - at + factor_tail(items, here, expr).1,
            decreases tokens_left(items, here),
        {
            let operator = match self.peek(Ghost(items), Ghost(here)) {
                Err(error) => {
                    return Err(SyntaxErrorKind::from(error));
                },
                Ok(Some(TokenKind::Slash)) | Ok(Some(TokenKind::Star)) => self.bump(Ghost(items), Ghost(here)),
                Ok(_) => {
                    return Ok(expr);
                },
            };
            let right = match self.type_cast(Ghost(items), Ghost(here + 1)) {
                Ok(right) => right,
                Err(error) => {
                    return Err(error);
                },
            };
            proof {
                here = here + 1 + type_cast(items, here + 1).1;
            }
            expr =
            Expr::Operator(
                OperatorExpr::ArithmeticOrLogical {
                    left: Box::new(expr),
                    operator,
                    right: Box::new(right),
                },
            );
        }
    }

    /// Reads a cast expression: see `type_cast`.
    fn type_cast(&mut self, Ghost(items): Ghost<Tokens>, Ghost(at): Ghost<nat>) -> (tree: Result<
        Expr,
        SyntaxErrorKind,
    >)
        requires
            old(self).stands_at(items, at),
            at < items.len(),
        ensures
            tree == type_cast(items, at).0,
            final(self).left_behind(items, at, type_cast(items, at)),
        decreases tokens_left(items, at), 2nat,
    {
        let expr = match self.unary(Ghost(items), Ghost(at)) {
            Ok(expr) => expr,
            Err(error) => {
                return Err(error);
            },
        };
        let ghost here = at + unary(items, at).1;
        match self.peek(Ghost(items), Ghost(here)) {
            Err(error) => Err(SyntaxErrorKind::from(error)),
            Ok(Some(TokenKind::As)) => {
                self.bump(Ghost(items), Ghost(here));
                let unit = match self.consume_unit(Ghost(items), Ghost(here + 1)) {
                    Ok(unit) => unit,
                    Err(error) => {
                        return Err(error);
                    },
                };
                Ok(Expr::Operator(OperatorExpr::TypeCast { left: Box::new(expr), unit }))
            },
            Ok(_) => Ok(expr),
        }
    }

    /// Reads a unary expression: see `unary`.
    fn unary(&mut self, Ghost(items): Ghost<Tokens>, Ghost(at): Ghost<nat>) -> (tree: Result<
        Expr,
        SyntaxErrorKind,
    >)
        requires
            old(self).stands_at(items, at),
            at < items.len(),
        ensures
            tree == unary(items, at).0,
            final(self).left_behind(items, at, unary(items, at)),
        decreases tokens_left(items, at), 1nat,
    {
        match self.peek(Ghost(items), Ghost(at)) {
            Err(error) => Err(SyntaxErrorKind::from(error)),
            Ok(Some(TokenKind::Minus)) => {
                let operator = self.bump(Ghost(items), Ghost(at));
                match self.unary(Ghost(items), Ghost(at + 1)) {
                    Ok(right) => Ok(
                        Expr::Operator(OperatorExpr::Unary { operator, right: Box::new(right) }),
                    ),
                    Err(error) => Err(error),
                }
            },
            Ok(_) => self.primary(Ghost(items), Ghost(at)),
        }
    }

    /// Reads a primary expression: see `primary`.
    fn primary(&mut self, Ghost(items): Ghost<Tokens>, Ghost(at): Ghost<nat>) -> (tree: Result<
        Expr,
        SyntaxErrorKind,
    >)
        requires
            old(self).stands_at(items, at),
            at < items.len(),
        ensures
            tree == primary(items, at).0,
            final(self).left_behind(items, at, primary(items, at)),
        decreases tokens_left(items, at), 0nat,
    {
        let kind = match self.peek(Ghost(items), Ghost(at)) {
            Ok(kind) => kind,
            Err(error) => {
                return Err(SyntaxErrorKind::from(error));
            },
        };
        match kind {
            Some(TokenKind::Integer(_)) => {
                let kind = self.bump(Ghost(items), Ghost(at));
                let unit = match self.peek(Ghost(items), Ghost(at + 1)) {
                    Err(error) => {
                        return Err(SyntaxErrorKind::from(error));
                    },
                    Ok(Some(TokenKind::Unit(_))) => {
                        let unit = self.bump(Ghost(items), Ghost(at + 1));
                        Some(unit)
                    },
                    Ok(_) => None,
                };
                Ok(Expr::Literal { kind, unit })
            },
            Some(TokenKind::LeftParen) => {
                self.bump(Ghost(items), Ghost(at));
                let inner = match self.expression(Ghost(items), Ghost(at + 1)) {
                    Ok(inner) => inner,
                    Err(error) => {
                        return Err(error);
                    },
                };
                match self.consume_r_paren(Ghost(items), Ghost(at + 1 + expression(items, at + 1).1)) {
                    Ok(_) => Ok(Expr::Grouping(Box::new(inner))),
                    Err(error) => Err(error),
                }
            },
            _ => {
                let token = self.bump(Ghost(items), Ghost(at));
                Err(SyntaxErrorKind::from(ParseError::new(ParseErrorKind::ExpectedExpression, token)))
            },
        }
    }

    /// Takes the next token.
    fn bump(&mut self, Ghost(items): Ghost<Tokens>, Ghost(at): Ghost<nat>) -> (token: Token)
        requires
            old(self).stands_at(items, at),
            at < items.len(),
            items[at as int] is Ok,
        ensures
            items[at as int] == Ok::<_, LexError>(token),
            final(self).stands_at(items, at + 1),
            token.kind != TokenKind::Eof ==> at + 1 < items.len(),
    {
        reveal(Parser::stands_at);
        proof {
            lemma_skip_one(items, at);
        }
        let item = match self.peeked.take() {
            Some(item) => item,
            None => {
                proof {
                    lemma_step_advances(self.lexer@);
                }
                self.lexer.next()
            },
        };
        assert(old(self).stream() =~= seq![item.unwrap()] + self.stream());
        assert(self.stream() =~= old(self).stream().skip(1));
        match item {
            Some(Ok(token)) => token,
            _ => vstd::pervasive::unreached(),
        }
    }

    /// The kind of the next token, which stays where it is.
    fn peek(&mut self, Ghost(items): Ghost<Tokens>, Ghost(at): Ghost<nat>) -> (kind: Result<
        Option<TokenKind>,
        LexError,
    >)
        requires
            old(self).stands_at(items, at),
        ensures
            final(self).stands_at(items, at),
            kind == if at < items.len() {
                match items[at as int] {
                    Ok(token) => Ok::<_, LexError>(Some(token.kind)),
                    Err(error) => Err(error),
                }
            } else {
                Ok(None)
            },
    {
        reveal(Parser::stands_at);
        proof {
            if at < items.len() {
                lemma_skip_one(items, at);
            }
        }
        if self.peeked.is_none() {
            proof {
                lemma_step_advances(self.lexer@);
            }
            let item = self.lexer.next();
            self.peeked = Some(item);
            assert(self.stream() =~= old(self).stream());
        }
        match &self.peeked {
            Some(Some(Ok(token))) => Ok(Some(token.kind())),
            Some(Some(Err(error))) => Err(*error),
            Some(None) => Ok(None),
            None => vstd::pervasive::unreached(),
        }
    }

    /// Takes the next token, which must be a unit.
    fn consume_unit(&mut self, Ghost(items): Ghost<Tokens>, Ghost(at): Ghost<nat>) -> (unit: Result<
        Token,
        SyntaxErrorKind,
    >)
        requires
            old(self).stands_at(items, at),
            at < items.len(),
        ensures
            match upcoming(items, at) {
                Err(error) => unit == Err::<Token, _>(SyntaxErrorKind::Lex(error)) && final(self).stands_at(items, at),
                Ok(token) => final(self).stands_at(items, at + 1) && unit == if token.kind is Unit {
                    Ok::<_, SyntaxErrorKind>(token)
                } else {
                    Err(unexpected(ParseErrorKind::ExpectedUnit, token))
                },
            },
            unit is Ok ==> at + 1 < items.len(),
    {
        let found = match self.peek(Ghost(items), Ghost(at)) {
            Ok(kind) => kind,
            Err(error) => {
                return Err(SyntaxErrorKind::from(error));
            },
        };
        let token = self.bump(Ghost(items), Ghost(at));
        match found {
            Some(TokenKind::Unit(_)) => Ok(token),
            _ => Err(SyntaxErrorKind::from(ParseError::new(ParseErrorKind::ExpectedUnit, token))),
        }
    }

    /// Takes the next token, which must be a closing parenthesis.
    fn consume_r_paren(&mut self, Ghost(items): Ghost<Tokens>, Ghost(at): Ghost<nat>) -> (closing:
        Result<Token, SyntaxErrorKind>)
        requires
            old(self).stands_at(items, at),
            at < items.len(),
        ensures
            match upcoming(items, at) {
                Err(error) => closing == Err::<Token, _>(SyntaxErrorKind::Lex(error)) && final(self).stands_at(items, at),
                Ok(token) => final(self).stands_at(items, at + 1) && closing
                    == if token.kind is RightParen {
                    Ok::<_, SyntaxErrorKind>(token)
                } else {
                    Err(unexpected(ParseErrorKind::UnexpectedToken(")"), token))
                },
            },
            closing is Ok ==> at + 1 < items.len(),
    {
        let found = match self.peek(Ghost(items), Ghost(at)) {
            Ok(kind) => kind,
            Err(error) => {
                return Err(SyntaxErrorKind::from(error));
            },
        };
        let token = self.bump(Ghost(items), Ghost(at));
        match found {
            Some(TokenKind::RightParen) => Ok(token),
            _ => Err(
                SyntaxErrorKind::from(ParseError::new(ParseErrorKind::UnexpectedToken(")"), token)),
            ),
        }
    }
}

} // verus!
