//! Units of storage, and the tokens of an expression.

use super::num::{ascii, digits_of, to_decimal};
use crate::unit_prefix::UnitPrefix;
use std::cmp::Ordering;
use std::ops::Range;
use vstd::prelude::*;

verus! {

/// What is counted: bits, or bytes of eight bits.
#[derive(Debug, Clone, Copy, PartialEq, Eq, PartialOrd, Ord, Structural)]
pub enum Unit {
    Bit,
    Byte,
}

impl Unit {
    /// The number of bits in one of the unit.
    pub open spec fn size(self) -> u64 {
        match self {
            Unit::Bit => 1,
            Unit::Byte => 8,
        }
    }

    /// The letter that stands for the unit.
    pub open spec fn text(self) -> Seq<char> {
        match self {
            Unit::Bit => seq!['b'],
            Unit::Byte => seq!['B'],
        }
    }

    /// The unit as text.
    pub fn to_string(&self) -> (text: String)
        ensures
            text@ == self.text(),
    {
        proof {
            reveal_strlit("b");
            reveal_strlit("B");
        }
        let letter = match self {
            Unit::Bit => "b",
            Unit::Byte => "B",
        };
        String::from_str(letter)
    }
}

impl From<Unit> for u64 {
    fn from(unit: Unit) -> (size: u64) {
        match unit {
            Unit::Bit => 1,
            Unit::Byte => 8,
        }
    }
}

impl vstd::std_specs::convert::FromSpecImpl<Unit> for u64 {
    open spec fn obeys_from_spec() -> bool {
        true
    }

    open spec fn from_spec(unit: Unit) -> u64 {
        unit.size()
    }
}

/// A prefix and a unit: a concrete unit of storage, such as the kibibyte.
#[derive(Debug, Clone, Copy, PartialEq, Eq, Structural)]
pub struct FullUnit(pub UnitPrefix, pub Unit);

impl FullUnit {
    /// The number of bits in one of the unit: the prefix's factor times the unit's size.
    pub open spec fn multiplier(self) -> u64 {
        match self.1 {
            Unit::Bit => self.0.multiplier(),
            Unit::Byte => (8 * self.0.multiplier()) as u64,
        }
    }

    /// The prefix's letters, then the unit's letter.
    pub open spec fn text(self) -> Seq<char> {
        self.0.text() + self.1.text()
    }

    pub fn new(prefix: UnitPrefix, unit: Unit) -> (full: FullUnit)
        ensures
            full == FullUnit(prefix, unit),
    {
        FullUnit(prefix, unit)
    }

    /// The bit, without a prefix.
    pub fn bit() -> (full: FullUnit)
        ensures
            full == FullUnit(UnitPrefix::One, Unit::Bit),
    {
        FullUnit(UnitPrefix::One, Unit::Bit)
    }

    /// The byte, without a prefix.
    pub fn byte() -> (full: FullUnit)
        ensures
            full == FullUnit(UnitPrefix::One, Unit::Byte),
    {
        FullUnit(UnitPrefix::One, Unit::Byte)
    }

    /// The unit as text.
    pub fn to_string(&self) -> (text: String)
        ensures
            text@ == self.text(),
    {
        let mut text = self.0.to_string();
        let unit = self.1.to_string();
        text.append(unit.as_str());
        text
    }
}

/// The number of bits in a unit is the prefix's factor times the unit's size. It is at
/// least one and at most two to the sixty-third, so it fits in 64 bits.
pub proof fn lemma_multiplier_fits(unit: FullUnit)
    ensures
        unit.multiplier() == unit.0.multiplier() * unit.1.size(),
        1 <= unit.multiplier() <= 0x8000_0000_0000_0000,
{
}

/// No two units hold the same number of bits: ordering units by their size in bits
/// calls two units equal only when prefix and unit both agree.
pub proof fn lemma_multiplier_tells_units_apart(a: FullUnit, b: FullUnit)
    ensures
        a.multiplier() == b.multiplier() <==> a == b,
{
}

impl From<FullUnit> for u64 {
    fn from(unit: FullUnit) -> (bits: u64) {
        u64::from(unit.0) * u64::from(unit.1)
    }
}

impl vstd::std_specs::convert::FromSpecImpl<FullUnit> for u64 {
    open spec fn obeys_from_spec() -> bool {
        true
    }

    open spec fn from_spec(unit: FullUnit) -> u64 {
        unit.multiplier()
    }
}

impl PartialOrd for FullUnit {
    fn partial_cmp(&self, other: &FullUnit) -> (order: Option<Ordering>) {
        let ours = u64::from(*self);
        let theirs = u64::from(*other);
        if ours < theirs {
            Some(Ordering::Less)
        } else if ours == theirs {
            Some(Ordering::Equal)
        } else {
            Some(Ordering::Greater)
        }
    }
}

impl vstd::std_specs::cmp::PartialOrdSpecImpl for FullUnit {
    open spec fn obeys_partial_cmp_spec() -> bool {
        true
    }

    open spec fn partial_cmp_spec(&self, other: &FullUnit) -> Option<Ordering> {
        if self.multiplier() < other.multiplier() {
            Some(Ordering::Less)
        } else if self.multiplier() == other.multiplier() {
            Some(Ordering::Equal)
        } else {
            Some(Ordering::Greater)
        }
    }
}

/// What a token is.
#[derive(Debug, Clone, Copy, PartialEq, Eq, Structural)]
pub enum TokenKind {
    Minus,
    Plus,
    Star,
    Slash,
    LeftParen,
    RightParen,
    Unit(FullUnit),
    Integer(u64),
    As,
    Eof,
}

impl TokenKind {
    /// How the token is shown: an operator as its symbol, a unit as its letters, an
    /// integer in decimal digits, the end of the input as `EOF`.
    pub open spec fn text(self) -> Seq<char> {
        match self {
            TokenKind::Minus => seq!['-'],
            TokenKind::Plus => seq!['+'],
            TokenKind::Star => seq!['*'],
            TokenKind::Slash => seq!['/'],
            TokenKind::LeftParen => seq!['('],
            TokenKind::RightParen => seq![')'],
            TokenKind::Unit(unit) => unit.text(),
            TokenKind::Integer(number) => ascii(digits_of(number as nat, 10)),
            TokenKind::As => seq!['a', 's'],
            TokenKind::Eof => seq!['E', 'O', 'F'],
        }
    }

    /// The token as text.
    pub fn to_string(&self) -> (text: String)
        ensures
            text@ == self.text(),
    {
        proof {
            reveal_strlit("-");
            reveal_strlit("+");
            reveal_strlit("*");
            reveal_strlit("/");
            reveal_strlit("(");
            reveal_strlit(")");
            reveal_strlit("as");
            reveal_strlit("EOF");
        }
        let symbol = match self {
            TokenKind::Unit(unit) => {
                return unit.to_string();
            },
            TokenKind::Integer(number) => {
                return to_decimal(*number);
            },
            TokenKind::Minus => "-",
            TokenKind::Plus => "+",
            TokenKind::Star => "*",
            TokenKind::Slash => "/",
            TokenKind::LeftParen => "(",
            TokenKind::RightParen => ")",
            TokenKind::As => "as",
            TokenKind::Eof => "EOF",
        };
        String::from_str(symbol)
    }
}

/// A token and the bytes of the input that it was read from: from `loc.start` up to, not
/// including, `loc.end`.
#[derive(Debug, PartialEq, Eq)]
pub struct Token {
    pub kind: TokenKind,
    pub loc: Range<usize>,
}

impl Clone for Token {
    fn clone(&self) -> (token: Token)
        ensures
            token == *self,
    {
        Token { kind: self.kind, loc: self.loc.start..self.loc.end }
    }
}

impl Token {
    pub fn new(kind: TokenKind, loc: Range<usize>) -> (token: Token)
        ensures
            token == (Token { kind, loc }),
    {
        Token { kind, loc }
    }

    pub fn kind(&self) -> (kind: TokenKind)
        ensures
            kind == self.kind,
    {
        self.kind
    }

    pub fn loc(&self) -> (loc: Range<usize>)
        ensures
            loc == self.loc,
    {
        self.loc.start..self.loc.end
    }

    /// The number of bytes that the token spans; none where the span ends before it starts.
    pub fn len(&self) -> (len: usize)
        ensures
            len == if self.loc.start <= self.loc.end {
                self.loc.end - self.loc.start
            } else {
                0
            },
    {
        if self.loc.start <= self.loc.end {
            self.loc.end - self.loc.start
        } else {
            0
        }
    }

    /// The token as text: that of its kind.
    pub fn to_string(&self) -> (text: String)
        ensures
            text@ == self.kind.text(),
    {
        self.kind.to_string()
    }
}

} // verus!
