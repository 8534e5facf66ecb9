//! From the text of an expression to its value.

pub mod expr;
pub mod lexer;
pub mod num;
pub mod parser;
pub mod token;
pub mod value;

use expr::{Expr, OperatorExpr};
use lexer::{LexError, Lexer, LexerState};
use parser::{whole, ParseError, Parser};
use std::ops::{Add, Neg, Range, Sub};
use token::{Token, TokenKind};
use value::{Magnitude, Value, ValueErrorKind};
use vstd::prelude::*;
use vstd::string::StringSliceAdditionalSpecFns;

verus! {

/// A value-level error and the operator that could not be applied.
#[derive(Debug, PartialEq, Eq)]
pub struct ValueError {
    pub kind: ValueErrorKind,
    pub token: Token,
}

impl Clone for ValueError {
    fn clone(&self) -> (copy: ValueError)
        ensures
            copy == *self,
    {
        ValueError { kind: self.kind, token: self.token.clone() }
    }
}

impl ValueError {
    pub fn new(kind: ValueErrorKind, token: Token) -> (error: ValueError)
        ensures
            error == (ValueError { kind, token }),
    {
        ValueError { kind, token }
    }

    pub fn token(&self) -> (token: &Token)
        ensures
            *token == self.token,
    {
        &self.token
    }
}

/// What went wrong, at whichever stage: reading tokens, building the tree, or combining
/// values.
#[derive(Debug, PartialEq, Eq)]
pub enum SyntaxErrorKind {
    Parse(ParseError),
    Lex(LexError),
    Value(ValueError),
}

impl Clone for SyntaxErrorKind {
    fn clone(&self) -> (copy: SyntaxErrorKind)
        ensures
            copy == *self,
    {
        match self {
            SyntaxErrorKind::Parse(error) => SyntaxErrorKind::Parse(error.clone()),
            SyntaxErrorKind::Lex(error) => SyntaxErrorKind::Lex(*error),
            SyntaxErrorKind::Value(error) => SyntaxErrorKind::Value(error.clone()),
        }
    }
}

impl SyntaxErrorKind {
    /// The bytes of the input that the error is about: the one byte that could not be
    /// read, the token that was not expected, or the operator that could not be applied.
    pub open spec fn span(self) -> Range<usize> {
        match self {
            SyntaxErrorKind::Parse(error) => error.token.loc,
            SyntaxErrorKind::Lex(error) => Range {
                start: error.loc,
                end: if error.loc < usize::MAX {
                    (error.loc + 1) as usize
                } else {
                    error.loc
                },
            },
            SyntaxErrorKind::Value(error) => error.token.loc,
        }
    }

    /// Where in the input the error lies.
    pub fn loc(&self) -> (loc: Range<usize>)
        ensures
            loc == self.span(),
    {
        match self {
            SyntaxErrorKind::Parse(error) => error.token.loc(),
            SyntaxErrorKind::Lex(error) => error.loc..error.loc.saturating_add(1),
            SyntaxErrorKind::Value(error) => error.token.loc(),
        }
    }
}

impl From<ParseError> for SyntaxErrorKind {
    fn from(error: ParseError) -> (kind: SyntaxErrorKind) {
        SyntaxErrorKind::Parse(error)
    }
}

impl vstd::std_specs::convert::FromSpecImpl<ParseError> for SyntaxErrorKind {
    open spec fn obeys_from_spec() -> bool {
        true
    }

    open spec fn from_spec(error: ParseError) -> SyntaxErrorKind {
        SyntaxErrorKind::Parse(error)
    }
}

impl From<LexError> for SyntaxErrorKind {
    fn from(error: LexError) -> (kind: SyntaxErrorKind) {
        SyntaxErrorKind::Lex(error)
    }
}

impl vstd::std_specs::convert::FromSpecImpl<LexError> for SyntaxErrorKind {
    open spec fn obeys_from_spec() -> bool {
        true
    }

    open spec fn from_spec(error: LexError) -> SyntaxErrorKind {
        SyntaxErrorKind::Lex(error)
    }
}

impl From<ValueError> for SyntaxErrorKind {
    fn from(error: ValueError) -> (kind: SyntaxErrorKind) {
        SyntaxErrorKind::Value(error)
    }
}

impl vstd::std_specs::convert::FromSpecImpl<ValueError> for SyntaxErrorKind {
    open spec fn obeys_from_spec() -> bool {
        true
    }

    open spec fn from_spec(error: ValueError) -> SyntaxErrorKind {
        SyntaxErrorKind::Value(error)
    }
}

/// An error and where in the input it lies.
#[derive(Debug, PartialEq, Eq)]
pub struct SyntaxError {
    pub kind: SyntaxErrorKind,
    pub loc: Range<usize>,
}

impl Clone for SyntaxError {
    fn clone(&self) -> (copy: SyntaxError)
        ensures
            copy == *self,
    {
        SyntaxError { kind: self.kind.clone(), loc: self.loc.start..self.loc.end }
    }
}

impl SyntaxError {
    /// The error located by its kind.
    pub open spec fn located(kind: SyntaxErrorKind) -> SyntaxError {
        SyntaxError { kind, loc: kind.span() }
    }

    pub fn new(kind: SyntaxErrorKind, loc: Range<usize>) -> (error: SyntaxError)
        ensures
            error == (SyntaxError { kind, loc }),
    {
        SyntaxError { kind, loc }
    }
}

impl From<SyntaxErrorKind> for SyntaxError {
    fn from(kind: SyntaxErrorKind) -> (error: SyntaxError) {
        let loc = kind.loc();
        SyntaxError::new(kind, loc)
    }
}

impl vstd::std_specs::convert::FromSpecImpl<SyntaxErrorKind> for SyntaxError {
    open spec fn obeys_from_spec() -> bool {
        true
    }

    open spec fn from_spec(kind: SyntaxErrorKind) -> SyntaxError {
        SyntaxError::located(kind)
    }
}

impl From<ValueError> for SyntaxError {
    fn from(error: ValueError) -> (located: SyntaxError) {
        let loc = error.token.loc();
        SyntaxError::new(SyntaxErrorKind::Value(error), loc)
    }
}

impl vstd::std_specs::convert::FromSpecImpl<ValueError> for SyntaxError {
    open spec fn obeys_from_spec() -> bool {
        true
    }

    open spec fn from_spec(error: ValueError) -> SyntaxError {
        SyntaxError::located(SyntaxErrorKind::Value(error))
    }
}

/// The unit that a unit token names.
pub open spec fn unit_of(token: Token) -> token::FullUnit
    recommends
        token.kind is Unit,
{
    token.kind->Unit_0
}

/// A value-level error at the operator that raised it.
pub open spec fn refused(kind: ValueErrorKind, operator: Token) -> SyntaxError {
    SyntaxError::located(SyntaxErrorKind::Value(ValueError { kind, token: operator }))
}

/// What `operator` makes of two values.
pub open spec fn applied(operator: Token, left: Value, right: Value) -> Result<Value, SyntaxError>
    recommends
        operator.kind is Plus || operator.kind is Minus || operator.kind is Star
            || operator.kind is Slash,
{
    match operator.kind {
        TokenKind::Plus => Ok(left.sum(right)),
        TokenKind::Minus => Ok(left.difference(right)),
        TokenKind::Star => match left.product(right) {
            Ok(product) => Ok(product),
            Err(kind) => Err(refused(kind, operator)),
        },
        TokenKind::Slash => match left.quotient(right) {
            Ok(quotient) => Ok(quotient),
            Err(kind) => Err(refused(kind, operator)),
        },
        _ => arbitrary(),
    }
}

/// The value of an expression, or the first error that its evaluation meets, going
/// through the operands from left to right.
///
/// A literal is its integer, in its unit where one is written. Parentheses change
/// nothing. A sign negates and a cast converts; neither fails. `+` and `-` never fail;
/// `*` and `/` fail where `Value::product` and `Value::quotient` do, and the error then
/// lies at the operator.
pub open spec fn evaluated(expr: Expr) -> Result<Value, SyntaxError>
    recommends
        expr.well_formed(),
    decreases expr,
{
    match expr {
        Expr::Operator(OperatorExpr::ArithmeticOrLogical { left, operator, right }) => {
            match evaluated(*left) {
                Ok(left) => match evaluated(*right) {
                    Ok(right) => applied(operator, left, right),
                    Err(error) => Err(error),
                },
                Err(error) => Err(error),
            }
        },
        Expr::Operator(OperatorExpr::TypeCast { left, unit }) => match evaluated(*left) {
            Ok(left) => Ok(left.converted(unit_of(unit))),
            Err(error) => Err(error),
        },
        Expr::Operator(OperatorExpr::Unary { operator, right }) => match evaluated(*right) {
            Ok(right) => Ok(right.negated()),
            Err(error) => Err(error),
        },
        Expr::Grouping(inner) => evaluated(*inner),
        Expr::Literal { kind, unit } => Ok(
            Value {
                value: Magnitude::Integer(kind.kind->Integer_0),
                unit: match unit {
                    Some(unit) => Some(unit_of(unit)),
                    None => None,
                },
            },
        ),
    }
}

/// Evaluation fails only where `*` or `/` is applied: the error is one of values, it
/// holds the operator that raised it, and it lies at that operator.
pub proof fn lemma_evaluation_fails_at_an_operator(expr: Expr)
    requires
        expr.well_formed(),
    ensures
        evaluated(expr) matches Err(error) ==> {
            &&& error.kind matches SyntaxErrorKind::Value(raised)
            &&& error.loc == raised.token.loc
            &&& raised.kind == ValueErrorKind::MultiplicationByUnit <==> raised.token.kind is Star
            &&& raised.kind == ValueErrorKind::DivisionByUnit <==> raised.token.kind is Slash
        },
    decreases expr,
{
    match expr {
        Expr::Operator(operation) => {
            assert(operation.well_formed());
            match operation {
                OperatorExpr::ArithmeticOrLogical { left, operator, right } => {
                    lemma_evaluation_fails_at_an_operator(*left);
                    lemma_evaluation_fails_at_an_operator(*right);
                },
                OperatorExpr::TypeCast { left, unit } => {
                    lemma_evaluation_fails_at_an_operator(*left);
                },
                OperatorExpr::Unary { operator, right } => {
                    lemma_evaluation_fails_at_an_operator(*right);
                },
            }
        },
        Expr::Grouping(inner) => {
            lemma_evaluation_fails_at_an_operator(*inner);
        },
        Expr::Literal { .. } => {},
    }
}

/// Evaluates a well-formed expression.
pub fn evaluate(expr: &Expr) -> (value: Result<Value, SyntaxError>)
    requires
        expr.well_formed(),
    ensures
        value == evaluated(*expr),
    decreases expr,
{
    match expr {
        Expr::Operator(operation) => {
            assert(operation.well_formed());
            match operation {
                OperatorExpr::ArithmeticOrLogical { left, operator, right } => {
                    let left = match evaluate(left) {
                        Ok(left) => left,
                        Err(error) => {
                            return Err(error);
                        },
                    };
                    let right = match evaluate(right) {
                        Ok(right) => right,
                        Err(error) => {
                            return Err(error);
                        },
                    };
                    match operator.kind() {
                        TokenKind::Plus => Ok(left.add(right)),
                        TokenKind::Minus => Ok(left.sub(right)),
                        TokenKind::Star => match left.try_mul(right) {
                            Ok(product) => Ok(product),
                            Err(kind) => Err(SyntaxError::from(ValueError::new(kind, operator.clone()))),
                        },
                        TokenKind::Slash => match left.try_div(right) {
                            Ok(quotient) => Ok(quotient),
                            Err(kind) => Err(SyntaxError::from(ValueError::new(kind, operator.clone()))),
                        },
                        _ => vstd::pervasive::unreached(),
                    }
                },
                OperatorExpr::TypeCast { left, unit } => {
                    let left = match evaluate(left) {
                        Ok(left) => left,
                        Err(error) => {
                            return Err(error);
                        },
                    };
                    match unit.kind() {
                        TokenKind::Unit(unit) => Ok(left.convert_to(unit)),
                        _ => vstd::pervasive::unreached(),
                    }
                },
                OperatorExpr::Unary { operator, right } => {
                    let right = match evaluate(right) {
                        Ok(right) => right,
                        Err(error) => {
                            return Err(error);
                        },
                    };
                    Ok(right.neg())
                },
            }
        },
        Expr::Grouping(inner) => evaluate(inner),
        Expr::Literal { kind, unit } => match kind.kind() {
            TokenKind::Integer(number) => {
                let unit = match unit {
                    Some(unit) => match unit.kind() {
                        TokenKind::Unit(unit) => Some(unit),
                        _ => vstd::pervasive::unreached(),
                    },
                    None => None,
                };
                Ok(Value::new(Magnitude::Integer(number), unit))
            },
            _ => vstd::pervasive::unreached(),
        },
    }
}

/// What an input comes to: the value of the expression that its bytes spell, or the one
/// error that stands in the way, located in the input. A lexical or syntactic error
/// comes before an error of evaluation.
pub open spec fn interpreted(input: Seq<u8>) -> Result<Value, SyntaxError> {
    match whole(LexerState::start(input).stream()).0 {
        Ok(expr) => evaluated(expr),
        Err(kind) => Err(SyntaxError::located(kind)),
    }
}

/// Evaluates expressions. It holds nothing: every call stands for itself.
pub struct Interpreter {}

impl Interpreter {
    pub fn new() -> (interpreter: Interpreter) {
        Interpreter {  }
    }

    /// The value of the expression that `input` spells, or the first error.
    pub fn interpret(&self, input: &str) -> (value: Result<Value, SyntaxError>)
        ensures
            value == interpreted(input.spec_bytes()),
    {
        let lexer = Lexer::new(input);
        let mut parser = Parser::new(lexer);
        let expr = match parser.parse() {
            Ok(expr) => expr,
            Err(kind) => {
                return Err(SyntaxError::from(kind));
            },
        };
        proof {
            expr::lemma_grammar_is_well_formed(expr);
        }
        evaluate(&expr)
    }
}

} // verus!
