use bytecalc::interpreter::expr::{Expr, OperatorExpr};
use bytecalc::interpreter::lexer::{LexError, LexErrorKind};
use bytecalc::interpreter::num::ParseIntError;
use bytecalc::interpreter::parser::{ParseError, ParseErrorKind};
use bytecalc::interpreter::token::{FullUnit, Token, TokenKind, Unit};
use bytecalc::interpreter::value::{Magnitude, Value, ValueErrorKind};
use bytecalc::interpreter::{evaluate, Interpreter, SyntaxError, SyntaxErrorKind, ValueError};
use bytecalc::unit_prefix::UnitPrefix;

fn number(magnitude: &Magnitude) -> f64 {
    match magnitude {
        Magnitude::Integer(n) => *n as f64,
        Magnitude::Negated(m) => -number(m),
        Magnitude::Sum(l, r) => number(l) + number(r),
        Magnitude::Difference(l, r) => number(l) - number(r),
        Magnitude::Product(l, r) => number(l) * number(r),
        Magnitude::Quotient(l, r) => number(l) / number(r),
        Magnitude::Rescaled { magnitude, from, to } => number(magnitude) * (*from as f64 / *to as f64),
    }
}

fn interpret(input: &str) -> Result<Value, SyntaxError> {
    Interpreter::new().interpret(input)
}

fn result(input: &str) -> (f64, Option<FullUnit>) {
    let value = interpret(input).unwrap();
    (number(value.value()), value.unit())
}

#[test]
fn test_interpreter() {
    let interpreter = Interpreter::new();
    let value = interpreter.interpret("1 + 2").unwrap();
    assert_eq!(number(value.value()), 3.0);
    assert_eq!(value.unit(), None);

    let value = interpreter.interpret("1 + 2 B").unwrap();
    assert_eq!(number(value.value()), 3.0);
    assert_eq!(value.unit(), Some(FullUnit::byte()));

    let value = interpreter.interpret("1 + 2 KiB").unwrap();
    assert_eq!(number(value.value()), 3.0);
    assert_eq!(value.unit(), Some(FullUnit::new(UnitPrefix::Kibi, Unit::Byte)));

    let value = interpreter.interpret("1 + 2 KiB + 3 MiB").unwrap();
    assert_eq!(number(value.value()), 3.0 + 3.0 * 1024.0);
    assert_eq!(value.unit(), Some(FullUnit::new(UnitPrefix::Kibi, Unit::Byte)));

    let value = interpreter.interpret("1 + 2 KiB + 3 MiB + 4 GiB").unwrap();
    assert_eq!(number(value.value()), 3.0 + 3.0 * 1024.0 + 4.0 * 1024.0 * 1024.0);
    assert_eq!(value.unit(), Some(FullUnit::new(UnitPrefix::Kibi, Unit::Byte)));

    let value = interpreter.interpret("1 + 2 KiB + 3 MiB + 4 GiB + 5 TiB").unwrap();
    assert_eq!(
        number(value.value()),
        3.0 + 3.0 * 1024.0 + 4.0 * 1024.0 * 1024.0 + 5.0 * 1024.0 * 1024.0 * 1024.0
    );
    assert_eq!(value.unit(), Some(FullUnit::new(UnitPrefix::Kibi, Unit::Byte)));
}

#[test]
fn sum_of_plain_numbers() {
    assert_eq!(result("1 + 2"), (3.0, None));
}

#[test]
fn sum_with_bytes() {
    assert_eq!(result("1 + 2 B"), (3.0, Some(FullUnit::byte())));
}

#[test]
fn sum_across_binary_prefixes() {
    assert_eq!(
        result("1 + 2 KiB + 3 MiB"),
        (3075.0, Some(FullUnit(UnitPrefix::Kibi, Unit::Byte)))
    );
}

#[test]
fn cast_of_a_plain_number_does_not_rescale() {
    assert_eq!(result("1234 as KiB"), (1234.0, Some(FullUnit(UnitPrefix::Kibi, Unit::Byte))));
}

#[test]
fn negative_number() {
    assert_eq!(result("-1234"), (-1234.0, None));
}

#[test]
fn product_of_two_units_fails_at_the_operator() {
    let error = interpret("1 KiB * 2 KiB").unwrap_err();
    let operator = Token::new(TokenKind::Star, 6..7);
    assert_eq!(
        error.kind,
        SyntaxErrorKind::Value(ValueError::new(ValueErrorKind::MultiplicationByUnit, operator))
    );
    assert_eq!(error.loc, 6..7);
}

#[test]
fn radix_prefix_without_digits_fails_behind_the_prefix() {
    let error = interpret("0x").unwrap_err();
    assert_eq!(
        error.kind,
        SyntaxErrorKind::Lex(LexError::new(LexErrorKind::InvalidDigit(ParseIntError::Empty), 2))
    );
    assert_eq!(error.loc, 2..3);
}

#[test]
fn unexpected_character_fails_at_its_offset() {
    let error = interpret("42 + 42x").unwrap_err();
    assert_eq!(
        error.kind,
        SyntaxErrorKind::Lex(LexError::new(LexErrorKind::UnexpectedCharacter, 7))
    );
    assert_eq!(error.loc, 7..8);
}

#[test]
fn division_by_a_unit_fails_at_the_operator() {
    let error = interpret("8 KiB / 2 KiB").unwrap_err();
    let operator = Token::new(TokenKind::Slash, 6..7);
    assert_eq!(
        error,
        SyntaxError::new(
            SyntaxErrorKind::Value(ValueError::new(ValueErrorKind::DivisionByUnit, operator)),
            6..7
        )
    );
    assert_eq!(interpret("8 / 2 KiB").unwrap_err().loc, 2..3);
}

#[test]
fn syntactic_error_lies_at_the_token_found() {
    let error = interpret("(1 + 2").unwrap_err();
    assert_eq!(
        error.kind,
        SyntaxErrorKind::Parse(ParseError::new(
            ParseErrorKind::UnexpectedToken(")"),
            Token::new(TokenKind::Eof, 6..6)
        ))
    );
    assert_eq!(error.loc, 6..6);
    assert_eq!(interpret("1 as 22").unwrap_err().loc, 5..7);
    assert_eq!(interpret("1 22").unwrap_err().loc, 2..4);
    assert_eq!(interpret("*").unwrap_err().loc, 0..1);
}

#[test]
fn first_failing_operator_is_reported() {
    assert_eq!(interpret("1 B * 1 B + 2 B / 1 B").unwrap_err().loc, 4..5);
    assert_eq!(interpret("1 + 2 B / 1 B * 3 b").unwrap_err().loc, 8..9);
    assert_eq!(interpret("(1 B / 1 B) * (2 B * 2 B)").unwrap_err().loc, 5..6);
}

#[test]
fn arithmetic_follows_precedence() {
    assert_eq!(result("1 + 2 * 3"), (7.0, None));
    assert_eq!(result("(1 + 2) * 3"), (9.0, None));
    assert_eq!(result("8 / 4 / 2"), (1.0, None));
    assert_eq!(result("8 - 4 - 2"), (2.0, None));
    assert_eq!(result("2 * 3 - 4 / 8"), (5.5, None));
    assert_eq!(result("--5"), (5.0, None));
    assert_eq!(result("---5"), (-5.0, None));
    assert_eq!(result("1 - -1"), (2.0, None));
    assert_eq!(result("-2 * -3"), (6.0, None));
}

#[test]
fn units_follow_the_values() {
    assert_eq!(result("2 * 3 KiB"), (6.0, Some(FullUnit(UnitPrefix::Kibi, Unit::Byte))));
    assert_eq!(result("6 MB / 3"), (2.0, Some(FullUnit(UnitPrefix::Mega, Unit::Byte))));
    assert_eq!(result("-6 MB"), (-6.0, Some(FullUnit(UnitPrefix::Mega, Unit::Byte))));
    assert_eq!(result("1 B as b"), (8.0, Some(FullUnit::bit())));
    assert_eq!(result("1 KiB as B"), (1024.0, Some(FullUnit::byte())));
    assert_eq!(result("1 MiB - 1 KiB"), (1023.0, Some(FullUnit(UnitPrefix::Kibi, Unit::Byte))));
    assert_eq!(result("(1 B + 8 b) as b"), (16.0, Some(FullUnit::bit())));
    assert_eq!(result("1 kB + 1 KiB"), (1.0 + 1.024, Some(FullUnit(UnitPrefix::Kilo, Unit::Byte))));
    assert_eq!(result("0x10 KiB as MiB"), (16.0 / 1024.0, Some(FullUnit(UnitPrefix::Mebi, Unit::Byte))));
}

#[test]
fn cast_applies_to_the_nearest_operand() {
    assert_eq!(result("2 * 3 as B"), (6.0, Some(FullUnit::byte())));
    assert_eq!(result("1 + 2 as B"), (3.0, Some(FullUnit::byte())));
    assert_eq!(result("-1 KiB as B"), (-1024.0, Some(FullUnit::byte())));
}

#[test]
fn large_literals_round_to_the_nearest_double() {
    assert_eq!(result("18446744073709551615"), (18446744073709551616.0, None));
    assert_eq!(result("0xffffffffffffffff"), (u64::MAX as f64, None));
}

#[test]
fn interpretation_returns_the_term_that_states_the_arithmetic() {
    let value = interpret("1 + 2 KiB").unwrap();
    assert_eq!(
        value,
        Value::new(
            Magnitude::Sum(Box::new(Magnitude::Integer(1)), Box::new(Magnitude::Integer(2))),
            Some(FullUnit(UnitPrefix::Kibi, Unit::Byte))
        )
    );
}

#[test]
fn evaluate_walks_a_tree_built_by_hand() {
    let integer = |number, loc| Expr::Literal { kind: Token::new(TokenKind::Integer(number), loc), unit: None };
    let tree = Expr::Operator(OperatorExpr::ArithmeticOrLogical {
        left: Box::new(Expr::Grouping(Box::new(integer(6, 1..2)))),
        operator: Token::new(TokenKind::Slash, 4..5),
        right: Box::new(Expr::Operator(OperatorExpr::Unary {
            operator: Token::new(TokenKind::Minus, 6..7),
            right: Box::new(integer(4, 7..8)),
        })),
    });
    let value = evaluate(&tree).unwrap();
    assert_eq!(number(value.value()), -1.5);
    assert_eq!(value.unit(), None);
}

#[test]
fn errors_locate_themselves() {
    let lex = SyntaxErrorKind::from(LexError::new(LexErrorKind::UnexpectedCharacter, 4));
    assert_eq!(lex.loc(), 4..5);
    assert_eq!(SyntaxError::from(lex.clone()), SyntaxError::new(lex, 4..5));
    let edge = SyntaxErrorKind::from(LexError::new(LexErrorKind::UnexpectedCharacter, usize::MAX));
    assert_eq!(edge.loc(), usize::MAX..usize::MAX);
    let parse = SyntaxErrorKind::from(ParseError::new(
        ParseErrorKind::ExpectedEof,
        Token::new(TokenKind::Integer(7), 2..3),
    ));
    assert_eq!(parse.loc(), 2..3);
    let value = ValueError::new(ValueErrorKind::DivisionByUnit, Token::new(TokenKind::Slash, 9..10));
    assert_eq!(value.token(), &Token::new(TokenKind::Slash, 9..10));
    assert_eq!(SyntaxErrorKind::from(value.clone()).loc(), 9..10);
    assert_eq!(
        SyntaxError::from(value.clone()),
        SyntaxError::new(SyntaxErrorKind::Value(value), 9..10)
    );
}

#[test]
fn interpreter_holds_no_state() {
    let interpreter = Interpreter::new();
    assert!(interpreter.interpret("1 +").is_err());
    assert_eq!(interpreter.interpret("1 + 1").unwrap(), interpreter.interpret("1 + 1").unwrap());
}
