use bytecalc::interpreter::expr::{Expr, OperatorExpr as OE};
use bytecalc::interpreter::lexer::{LexError, LexErrorKind, Lexer};
use bytecalc::interpreter::num::ParseIntError;
use bytecalc::interpreter::parser::{ParseError, ParseErrorKind, Parser};
use bytecalc::interpreter::token::{FullUnit, Token, TokenKind, Unit};
use bytecalc::interpreter::SyntaxErrorKind;
use bytecalc::unit_prefix::UnitPrefix;

fn parse(input: &str) -> Result<Expr, SyntaxErrorKind> {
    Parser::new(Lexer::new(input)).parse()
}

fn integer(number: u64, loc: std::ops::Range<usize>) -> Expr {
    Expr::Literal { kind: Token::new(TokenKind::Integer(number), loc), unit: None }
}

fn binary(left: Expr, operator: Token, right: Expr) -> Expr {
    Expr::Operator(OE::ArithmeticOrLogical { left: Box::new(left), operator, right: Box::new(right) })
}

fn minus(operator: Token, right: Expr) -> Expr {
    Expr::Operator(OE::Unary { operator, right: Box::new(right) })
}

fn syntax(kind: ParseErrorKind, token: Token) -> SyntaxErrorKind {
    SyntaxErrorKind::Parse(ParseError::new(kind, token))
}

#[test]
fn test_parser_single_token() {
    let expr = parse("1234").unwrap();
    assert_eq!(
        expr,
        Expr::Literal { kind: Token::new(TokenKind::Integer(1234), 0..4), unit: None }
    );
}

#[test]
fn test_parser_binary_expr() {
    let expr = parse("1234 + 5678").unwrap();
    assert_eq!(
        expr,
        Expr::Operator(OE::ArithmeticOrLogical {
            left: Box::new(Expr::Literal {
                kind: Token::new(TokenKind::Integer(1234), 0..4),
                unit: None
            }),
            operator: Token::new(TokenKind::Plus, 5..6),
            right: Box::new(Expr::Literal {
                kind: Token::new(TokenKind::Integer(5678), 7..11),
                unit: None
            })
        })
    );
}

#[test]
fn test_parser_binary_expr_with_precedence() {
    let expr = parse("1234 * 5678 + 91011").unwrap();
    assert_eq!(
        expr,
        Expr::Operator(OE::ArithmeticOrLogical {
            left: Box::new(Expr::Operator(OE::ArithmeticOrLogical {
                left: Box::new(Expr::Literal {
                    kind: Token::new(TokenKind::Integer(1234), 0..4),
                    unit: None
                }),
                operator: Token::new(TokenKind::Star, 5..6),
                right: Box::new(Expr::Literal {
                    kind: Token::new(TokenKind::Integer(5678), 7..11),
                    unit: None
                }),
            })),
            operator: Token::new(TokenKind::Plus, 12..13),
            right: Box::new(Expr::Literal {
                kind: Token::new(TokenKind::Integer(91011), 14..19),
                unit: None
            })
        })
    );
}

#[test]
fn test_parser_nested_binary_expr() {
    let expr = parse("1234 + 5678 * 91011 / 121314").unwrap();
    assert_eq!(
        expr,
        Expr::Operator(OE::ArithmeticOrLogical {
            left: Box::new(Expr::Literal {
                kind: Token::new(TokenKind::Integer(1234), 0..4),
                unit: None
            }),
            operator: Token::new(TokenKind::Plus, 5..6),
            right: Box::new(Expr::Operator(OE::ArithmeticOrLogical {
                left: Box::new(Expr::Operator(OE::ArithmeticOrLogical {
                    left: Box::new(Expr::Literal {
                        kind: Token::new(TokenKind::Integer(5678), 7..11),
                        unit: None
                    }),
                    operator: Token::new(TokenKind::Star, 12..13),
                    right: Box::new(Expr::Literal {
                        kind: Token::new(TokenKind::Integer(91011), 14..19),
                        unit: None
                    }),
                })),
                operator: Token::new(TokenKind::Slash, 20..21),
                right: Box::new(Expr::Literal {
                    kind: Token::new(TokenKind::Integer(121314), 22..28),
                    unit: None
                })
            }))
        })
    );
}

#[test]
fn test_parser_unary_expr() {
    let expr = parse("-1234").unwrap();
    assert_eq!(
        expr,
        Expr::Operator(OE::Unary {
            operator: Token::new(TokenKind::Minus, 0..1),
            right: Box::new(Expr::Literal {
                kind: Token::new(TokenKind::Integer(1234), 1..5),
                unit: None
            })
        })
    );
}

#[test]
fn test_parser_grouped_expr() {
    let expr = parse("(1234 + 5678)").unwrap();
    assert_eq!(
        expr,
        Expr::Grouping(Box::new(Expr::Operator(OE::ArithmeticOrLogical {
            left: Box::new(Expr::Literal {
                kind: Token::new(TokenKind::Integer(1234), 1..5),
                unit: None
            }),
            operator: Token::new(TokenKind::Plus, 6..7),
            right: Box::new(Expr::Literal {
                kind: Token::new(TokenKind::Integer(5678), 8..12),
                unit: None
            })
        })))
    );
}

#[test]
fn test_parser_type_cast_expr() {
    let expr = parse("1234 as KiB").unwrap();
    assert_eq!(
        expr,
        Expr::Operator(OE::TypeCast {
            left: Box::new(Expr::Literal {
                kind: Token::new(TokenKind::Integer(1234), 0..4),
                unit: None
            }),
            unit: Token::new(TokenKind::Unit(FullUnit(UnitPrefix::Kibi, Unit::Byte)), 8..11),
        })
    );
}

#[test]
fn test_parser_int_literal_with_unit() {
    let expr = parse("1234 KiB").unwrap();
    assert_eq!(
        expr,
        Expr::Literal {
            kind: Token::new(TokenKind::Integer(1234), 0..4),
            unit: Some(Token::new(
                TokenKind::Unit(FullUnit(UnitPrefix::Kibi, Unit::Byte)),
                5..8
            )),
        }
    );
}

#[test]
fn product_binds_tighter_than_sum_on_either_side() {
    assert_eq!(
        parse("1+2*3").unwrap(),
        binary(
            integer(1, 0..1),
            Token::new(TokenKind::Plus, 1..2),
            binary(integer(2, 2..3), Token::new(TokenKind::Star, 3..4), integer(3, 4..5)),
        )
    );
    assert_eq!(
        parse("1/2-3").unwrap(),
        binary(
            binary(integer(1, 0..1), Token::new(TokenKind::Slash, 1..2), integer(2, 2..3)),
            Token::new(TokenKind::Minus, 3..4),
            integer(3, 4..5),
        )
    );
}

#[test]
fn sums_group_from_the_left() {
    assert_eq!(
        parse("1-2+3").unwrap(),
        binary(
            binary(integer(1, 0..1), Token::new(TokenKind::Minus, 1..2), integer(2, 2..3)),
            Token::new(TokenKind::Plus, 3..4),
            integer(3, 4..5),
        )
    );
}

#[test]
fn products_group_from_the_left() {
    assert_eq!(
        parse("8/4*2").unwrap(),
        binary(
            binary(integer(8, 0..1), Token::new(TokenKind::Slash, 1..2), integer(4, 2..3)),
            Token::new(TokenKind::Star, 3..4),
            integer(2, 4..5),
        )
    );
}

#[test]
fn signs_stack_to_the_right() {
    assert_eq!(
        parse("--5").unwrap(),
        minus(
            Token::new(TokenKind::Minus, 0..1),
            minus(Token::new(TokenKind::Minus, 1..2), integer(5, 2..3)),
        )
    );
    assert_eq!(
        parse("1 - -2").unwrap(),
        binary(
            integer(1, 0..1),
            Token::new(TokenKind::Minus, 2..3),
            minus(Token::new(TokenKind::Minus, 4..5), integer(2, 5..6)),
        )
    );
}

#[test]
fn cast_binds_tighter_than_product_and_looser_than_sign() {
    let bit = Token::new(TokenKind::Unit(FullUnit::bit()), 8..9);
    assert_eq!(
        parse("2*-3 as b").unwrap(),
        binary(
            integer(2, 0..1),
            Token::new(TokenKind::Star, 1..2),
            Expr::Operator(OE::TypeCast {
                left: Box::new(minus(Token::new(TokenKind::Minus, 2..3), integer(3, 3..4))),
                unit: bit,
            }),
        )
    );
}

#[test]
fn parentheses_override_precedence() {
    assert_eq!(
        parse("(1+2)*3").unwrap(),
        binary(
            Expr::Grouping(Box::new(binary(
                integer(1, 1..2),
                Token::new(TokenKind::Plus, 2..3),
                integer(2, 3..4),
            ))),
            Token::new(TokenKind::Star, 5..6),
            integer(3, 6..7),
        )
    );
    assert_eq!(
        parse("((7))").unwrap(),
        Expr::Grouping(Box::new(Expr::Grouping(Box::new(integer(7, 2..3)))))
    );
}

#[test]
fn input_after_the_expression_expects_eof() {
    assert_eq!(
        parse("1 2").unwrap_err(),
        syntax(ParseErrorKind::ExpectedEof, Token::new(TokenKind::Integer(2), 2..3))
    );
    assert_eq!(
        parse("(1)2").unwrap_err(),
        syntax(ParseErrorKind::ExpectedEof, Token::new(TokenKind::Integer(2), 3..4))
    );
    assert_eq!(
        parse("1 as B as b").unwrap_err(),
        syntax(ParseErrorKind::ExpectedEof, Token::new(TokenKind::As, 7..9))
    );
    assert_eq!(
        parse("1 B B").unwrap_err(),
        syntax(
            ParseErrorKind::ExpectedEof,
            Token::new(TokenKind::Unit(FullUnit::byte()), 4..5)
        )
    );
    assert_eq!(
        parse("1)").unwrap_err(),
        syntax(ParseErrorKind::ExpectedEof, Token::new(TokenKind::RightParen, 1..2))
    );
}

#[test]
fn missing_operand_expects_an_expression() {
    assert_eq!(
        parse("").unwrap_err(),
        syntax(ParseErrorKind::ExpectedExpression, Token::new(TokenKind::Eof, 0..0))
    );
    assert_eq!(
        parse("1 +").unwrap_err(),
        syntax(ParseErrorKind::ExpectedExpression, Token::new(TokenKind::Eof, 3..3))
    );
    assert_eq!(
        parse("1 * * 2").unwrap_err(),
        syntax(ParseErrorKind::ExpectedExpression, Token::new(TokenKind::Star, 4..5))
    );
    assert_eq!(
        parse("()").unwrap_err(),
        syntax(ParseErrorKind::ExpectedExpression, Token::new(TokenKind::RightParen, 1..2))
    );
    assert_eq!(
        parse("KiB").unwrap_err(),
        syntax(
            ParseErrorKind::ExpectedExpression,
            Token::new(TokenKind::Unit(FullUnit(UnitPrefix::Kibi, Unit::Byte)), 0..3)
        )
    );
    assert_eq!(
        parse("-").unwrap_err(),
        syntax(ParseErrorKind::ExpectedExpression, Token::new(TokenKind::Eof, 1..1))
    );
}

#[test]
fn missing_closing_parenthesis_is_reported_at_what_was_found() {
    assert_eq!(
        parse("(1 + 2").unwrap_err(),
        syntax(ParseErrorKind::UnexpectedToken(")"), Token::new(TokenKind::Eof, 6..6))
    );
    assert_eq!(
        parse("(1 2)").unwrap_err(),
        syntax(ParseErrorKind::UnexpectedToken(")"), Token::new(TokenKind::Integer(2), 3..4))
    );
}

#[test]
fn cast_without_unit_expects_a_unit() {
    assert_eq!(
        parse("1 as").unwrap_err(),
        syntax(ParseErrorKind::ExpectedUnit, Token::new(TokenKind::Eof, 4..4))
    );
    assert_eq!(
        parse("1 as 2").unwrap_err(),
        syntax(ParseErrorKind::ExpectedUnit, Token::new(TokenKind::Integer(2), 5..6))
    );
}

#[test]
fn lexical_error_halts_parsing_where_the_parser_meets_it() {
    let unexpected = |loc| SyntaxErrorKind::Lex(LexError::new(LexErrorKind::UnexpectedCharacter, loc));
    assert_eq!(parse("?").unwrap_err(), unexpected(0));
    assert_eq!(parse("1 ?").unwrap_err(), unexpected(2));
    assert_eq!(parse("1 + ?").unwrap_err(), unexpected(4));
    assert_eq!(parse("(1 ?").unwrap_err(), unexpected(3));
    assert_eq!(parse("1 as ?").unwrap_err(), unexpected(5));
    assert_eq!(parse("-?").unwrap_err(), unexpected(1));
    assert_eq!(
        parse("0x").unwrap_err(),
        SyntaxErrorKind::Lex(LexError::new(LexErrorKind::InvalidDigit(ParseIntError::Empty), 2))
    );
}

#[test]
fn syntactic_error_comes_before_a_later_lexical_one() {
    assert_eq!(
        parse("1 2 ?").unwrap_err(),
        syntax(ParseErrorKind::ExpectedEof, Token::new(TokenKind::Integer(2), 2..3))
    );
    assert_eq!(
        parse("* ?").unwrap_err(),
        syntax(ParseErrorKind::ExpectedExpression, Token::new(TokenKind::Star, 0..1))
    );
}

#[test]
fn parse_error_keeps_its_token() {
    let error = ParseError::new(ParseErrorKind::ExpectedUnit, Token::new(TokenKind::Eof, 4..4));
    assert_eq!(error.token(), &Token::new(TokenKind::Eof, 4..4));
    assert_eq!(error.kind, ParseErrorKind::ExpectedUnit);
}

#[test]
fn expressions_render_in_prefix_notation() {
    assert_eq!(parse("1 + 2 * 3").unwrap().to_string(), "(+ 1 (* 2 3))");
    assert_eq!(parse("(1 + 2) * 3").unwrap().to_string(), "(* (group (+ 1 2)) 3)");
    assert_eq!(parse("-4 KiB as b").unwrap().to_string(), "(as (- 4KiB) b)");
    assert_eq!(parse("0x10").unwrap().to_string(), "16");
    assert_eq!(parse("8 / 2 - 1").unwrap().to_string(), "(- (/ 8 2) 1)");
}

#[test]
fn cloned_expression_is_equal() {
    let expr = parse("-(1 + 2 KiB) * 3 as MB").unwrap();
    assert_eq!(expr.clone(), expr);
}
