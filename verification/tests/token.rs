use bytecalc::interpreter::token::{FullUnit, Token, TokenKind, Unit};
use bytecalc::unit_prefix::UnitPrefix;

#[test]
fn test_display_token() {
    let token = Token::new(TokenKind::Integer(42), 0..2);
    assert_eq!(token.to_string(), "42");
}

#[test]
fn test_display_token_kind() {
    assert_eq!(TokenKind::Minus.to_string(), "-");
    assert_eq!(TokenKind::Plus.to_string(), "+");
    assert_eq!(TokenKind::Star.to_string(), "*");
    assert_eq!(TokenKind::Slash.to_string(), "/");
    assert_eq!(TokenKind::LeftParen.to_string(), "(");
    assert_eq!(TokenKind::RightParen.to_string(), ")");
    assert_eq!(TokenKind::Unit(FullUnit(UnitPrefix::Kilo, Unit::Byte)).to_string(), "kB");
    assert_eq!(TokenKind::Integer(42).to_string(), "42");
    assert_eq!(TokenKind::As.to_string(), "as");
    assert_eq!(TokenKind::Eof.to_string(), "EOF");
}

#[test]
fn test_display_unit() {
    assert_eq!(Unit::Bit.to_string(), "b");
    assert_eq!(Unit::Byte.to_string(), "B");
}

#[test]
fn test_display_full_unit() {
    assert_eq!(FullUnit(UnitPrefix::Kilo, Unit::Byte).to_string(), "kB");
}

#[test]
fn test_display_unit_prefix() {
    assert_eq!(UnitPrefix::One.to_string(), "");
    assert_eq!(UnitPrefix::Kilo.to_string(), "k");
    assert_eq!(UnitPrefix::Mega.to_string(), "M");
    assert_eq!(UnitPrefix::Giga.to_string(), "G");
    assert_eq!(UnitPrefix::Tera.to_string(), "T");
    assert_eq!(UnitPrefix::Peta.to_string(), "P");
    assert_eq!(UnitPrefix::Exa.to_string(), "E");
    assert_eq!(UnitPrefix::Kibi.to_string(), "Ki");
    assert_eq!(UnitPrefix::Mebi.to_string(), "Mi");
    assert_eq!(UnitPrefix::Gibi.to_string(), "Gi");
    assert_eq!(UnitPrefix::Tebi.to_string(), "Ti");
    assert_eq!(UnitPrefix::Pebi.to_string(), "Pi");
    assert_eq!(UnitPrefix::Exbi.to_string(), "Ei");
}

#[test]
fn test_from_unit() {
    assert_eq!(u64::from(Unit::Bit), 1);
    assert_eq!(u64::from(Unit::Byte), 8);
}

#[test]
fn test_from_full_unit() {
    assert_eq!(u64::from(FullUnit(UnitPrefix::Kilo, Unit::Byte)), 8000);
}

#[test]
fn test_ord_full_unit() {
    assert!(FullUnit(UnitPrefix::Kilo, Unit::Byte) < FullUnit(UnitPrefix::Mega, Unit::Byte));
    assert!(FullUnit(UnitPrefix::Kilo, Unit::Byte) > FullUnit(UnitPrefix::Kilo, Unit::Bit));
}

#[test]
fn units_render_as_prefix_and_letter() {
    assert_eq!(FullUnit(UnitPrefix::Kibi, Unit::Byte).to_string(), "KiB");
    assert_eq!(FullUnit(UnitPrefix::Kilo, Unit::Byte).to_string(), "kB");
    assert_eq!(FullUnit::bit().to_string(), "b");
    assert_eq!(FullUnit::byte().to_string(), "B");
    assert_eq!(FullUnit(UnitPrefix::Exbi, Unit::Bit).to_string(), "Eib");
}

#[test]
fn full_unit_constructors_agree() {
    assert_eq!(FullUnit::new(UnitPrefix::One, Unit::Bit), FullUnit::bit());
    assert_eq!(FullUnit::new(UnitPrefix::One, Unit::Byte), FullUnit::byte());
    assert_eq!(FullUnit::new(UnitPrefix::Gibi, Unit::Byte), FullUnit(UnitPrefix::Gibi, Unit::Byte));
}

#[test]
fn full_unit_multiplier_is_prefix_times_size() {
    assert_eq!(u64::from(FullUnit::bit()), 1);
    assert_eq!(u64::from(FullUnit::byte()), 8);
    assert_eq!(u64::from(FullUnit(UnitPrefix::Kibi, Unit::Bit)), 1024);
    assert_eq!(u64::from(FullUnit(UnitPrefix::Kibi, Unit::Byte)), 8192);
    assert_eq!(u64::from(FullUnit(UnitPrefix::Exa, Unit::Byte)), 8_000_000_000_000_000_000);
    assert_eq!(u64::from(FullUnit(UnitPrefix::Exbi, Unit::Byte)), 1 << 63);
}

#[test]
fn no_two_units_hold_the_same_number_of_bits() {
    let prefixes = [
        UnitPrefix::One,
        UnitPrefix::Kilo,
        UnitPrefix::Mega,
        UnitPrefix::Giga,
        UnitPrefix::Tera,
        UnitPrefix::Peta,
        UnitPrefix::Exa,
        UnitPrefix::Kibi,
        UnitPrefix::Mebi,
        UnitPrefix::Gibi,
        UnitPrefix::Tebi,
        UnitPrefix::Pebi,
        UnitPrefix::Exbi,
    ];
    let mut units = Vec::new();
    for prefix in prefixes {
        units.push(FullUnit(prefix, Unit::Bit));
        units.push(FullUnit(prefix, Unit::Byte));
    }
    for a in &units {
        for b in &units {
            assert_eq!(u64::from(*a) == u64::from(*b), a == b);
            assert_eq!(a < b, u64::from(*a) < u64::from(*b));
            assert_eq!(a.partial_cmp(b), u64::from(*a).partial_cmp(&u64::from(*b)));
        }
    }
}

#[test]
fn unit_orders_bit_before_byte() {
    assert!(Unit::Bit < Unit::Byte);
}

#[test]
fn token_knows_its_span() {
    let token = Token::new(TokenKind::As, 3..5);
    assert_eq!(token.kind(), TokenKind::As);
    assert_eq!(token.loc(), 3..5);
    assert_eq!(token.len(), 2);
    assert_eq!(Token::new(TokenKind::Eof, 7..7).len(), 0);
    assert_eq!(Token::new(TokenKind::Eof, 7..3).len(), 0);
    assert_eq!(token.clone(), token);
}
