//! From the bytes of an expression to its tokens.

use super::num::{
    all_digits, digits_of, from_slice_radix, is_digit, lemma_digits_round_trip, lemma_run_end,
    lemma_run_end_is, parsed, run_end, value_of, ParseIntError,
};
use super::token::{FullUnit, Token, TokenKind, Unit};
use crate::unit_prefix::UnitPrefix;
use std::ops::Range;
use vstd::prelude::*;
use vstd::slice::slice_subrange;
use vstd::string::StringSliceAdditionalSpecFns;

verus! {

/// What the lexer could not read.
#[derive(Debug, Clone, Copy, PartialEq, Eq, Structural)]
pub enum LexErrorKind {
    /// No token starts with this byte, or the token that does is cut short.
    UnexpectedCharacter,
    /// An integer literal has no digits, or too many.
    InvalidDigit(ParseIntError),
}

/// A lexical error and the offset of the byte at which it was found.
#[derive(Debug, Clone, Copy, PartialEq, Eq, Structural)]
pub struct LexError {
    pub kind: LexErrorKind,
    pub loc: usize,
}

impl LexError {
    pub fn new(kind: LexErrorKind, loc: usize) -> (error: LexError)
        ensures
            error == (LexError { kind, loc }),
    {
        LexError { kind, loc }
    }

    pub fn loc(&self) -> (loc: usize)
        ensures
            loc == self.loc,
    {
        self.loc
    }
}

/// Space, tab, line feed, form feed or carriage return.
pub open spec fn is_whitespace(c: u8) -> bool {
    c == ' ' as u8 || c == '\t' as u8 || c == '\n' as u8 || c == 0x0c || c == '\r' as u8
}

/// Where the whitespace that starts at `from` ends: the index of the first byte from
/// there on that is no whitespace, or the length if there is none.
pub open spec fn whitespace_end(bytes: Seq<u8>, from: int) -> int
    decreases bytes.len() - from,
{
    if 0 <= from < bytes.len() && is_whitespace(bytes[from]) {
        whitespace_end(bytes, from + 1)
    } else {
        from
    }
}

/// The first `end` bytes read as a number in the radix, and what follows them; or why
/// they are no number.
pub open spec fn literal_until(bytes: Seq<u8>, radix: nat, end: int) -> Result<
    (u64, Seq<u8>),
    ParseIntError,
> {
    match parsed(bytes.take(end), radix) {
        Ok(value) => Ok((value, bytes.skip(end))),
        Err(error) => Err(error),
    }
}

/// The digits at the head of `bytes` read as a number in the radix, and what follows
/// them; or why they are no number.
pub open spec fn literal(bytes: Seq<u8>, radix: nat) -> Result<(u64, Seq<u8>), ParseIntError> {
    literal_until(bytes, radix, run_end(bytes, radix, 0))
}

/// What a number parser hands back, with the rest as the bytes that it holds.
pub open spec fn viewed(number: Result<(u64, &[u8]), ParseIntError>) -> Result<
    (u64, Seq<u8>),
    ParseIntError,
> {
    match number {
        Ok((value, rest)) => Ok((value, rest@)),
        Err(error) => Err(error),
    }
}

/// `end` is where `invalid_digit` first says yes, or the length if it never does.
pub open spec fn stops_at<F: Fn(&u8) -> bool>(bytes: Seq<u8>, invalid_digit: F, end: int) -> bool {
    &&& 0 <= end <= bytes.len()
    &&& forall|i: int| 0 <= i < end ==> call_ensures(invalid_digit, (&#[trigger] bytes[i],), false)
    &&& end < bytes.len() ==> call_ensures(invalid_digit, (&bytes[end],), true)
}

/// The decimal prefix that the letter stands for, in either case.
pub open spec fn decimal_prefix(c: u8) -> Option<UnitPrefix> {
    if c == 'k' as u8 || c == 'K' as u8 {
        Some(UnitPrefix::Kilo)
    } else if c == 'm' as u8 || c == 'M' as u8 {
        Some(UnitPrefix::Mega)
    } else if c == 'g' as u8 || c == 'G' as u8 {
        Some(UnitPrefix::Giga)
    } else if c == 't' as u8 || c == 'T' as u8 {
        Some(UnitPrefix::Tera)
    } else if c == 'p' as u8 || c == 'P' as u8 {
        Some(UnitPrefix::Peta)
    } else if c == 'e' as u8 || c == 'E' as u8 {
        Some(UnitPrefix::Exa)
    } else {
        None
    }
}

/// The binary prefix that goes with a decimal one: the same power, of 1024.
pub open spec fn binary_of(prefix: UnitPrefix) -> UnitPrefix {
    match prefix {
        UnitPrefix::Kilo => UnitPrefix::Kibi,
        UnitPrefix::Mega => UnitPrefix::Mebi,
        UnitPrefix::Giga => UnitPrefix::Gibi,
        UnitPrefix::Tera => UnitPrefix::Tebi,
        UnitPrefix::Peta => UnitPrefix::Pebi,
        UnitPrefix::Exa => UnitPrefix::Exbi,
        other => other,
    }
}

/// The unit that the letter stands for: `b` the bit, `B` the byte.
pub open spec fn unit_letter(c: u8) -> Option<Unit> {
    if c == 'b' as u8 {
        Some(Unit::Bit)
    } else if c == 'B' as u8 {
        Some(Unit::Byte)
    } else {
        None
    }
}

/// The token of one byte that `c` is, if it is one: an operator, a parenthesis, or a
/// unit letter without a prefix.
pub open spec fn single(c: u8) -> Option<TokenKind> {
    if c == '-' as u8 {
        Some(TokenKind::Minus)
    } else if c == '+' as u8 {
        Some(TokenKind::Plus)
    } else if c == '*' as u8 {
        Some(TokenKind::Star)
    } else if c == '/' as u8 {
        Some(TokenKind::Slash)
    } else if c == '(' as u8 {
        Some(TokenKind::LeftParen)
    } else if c == ')' as u8 {
        Some(TokenKind::RightParen)
    } else {
        match unit_letter(c) {
            Some(unit) => Some(TokenKind::Unit(FullUnit(UnitPrefix::One, unit))),
            None => None,
        }
    }
}

/// The radix that the letter after a leading `0` announces: `b` two, `o` eight, `x` sixteen.
pub open spec fn radix_letter(c: u8) -> Option<nat> {
    if c == 'b' as u8 {
        Some(2)
    } else if c == 'o' as u8 {
        Some(8)
    } else if c == 'x' as u8 {
        Some(16)
    } else {
        None
    }
}

/// An integer literal at the head of `bytes`, whose digits start `skip` bytes in: the
/// number and the length of the whole literal, or the error and where it lies.
pub open spec fn scan_integer(bytes: Seq<u8>, radix: nat, skip: nat) -> Result<
    (TokenKind, nat),
    (LexErrorKind, nat),
> {
    let digits = bytes.skip(skip as int);
    match literal(digits, radix) {
        Ok((value, rest)) => Ok((TokenKind::Integer(value), (bytes.len() - rest.len()) as nat)),
        Err(error) => Err((LexErrorKind::InvalidDigit(error), skip)),
    }
}

/// A unit with a prefix at the head of `bytes`: the prefix letter, an `i` or `I` for
/// the binary prefix, and the unit letter, which must follow.
pub open spec fn scan_unit(bytes: Seq<u8>, prefix: UnitPrefix) -> Result<
    (TokenKind, nat),
    (LexErrorKind, nat),
> {
    let binary = bytes.len() >= 2 && (bytes[1] == 'i' as u8 || bytes[1] == 'I' as u8);
    let letters: nat = if binary {
        2
    } else {
        1
    };
    let unit = if bytes.len() > letters {
        unit_letter(bytes[letters as int])
    } else {
        None
    };
    match unit {
        Some(unit) => Ok(
            (
                TokenKind::Unit(
                    FullUnit(
                        if binary {
                            binary_of(prefix)
                        } else {
                            prefix
                        },
                        unit,
                    ),
                ),
                letters + 1,
            ),
        ),
        None => Err((LexErrorKind::UnexpectedCharacter, 0)),
    }
}

/// The token at the head of `bytes` and its length in bytes, or the error and its
/// offset from the head. `bytes` is not empty and starts with no whitespace.
///
/// In this order: a token of one byte; the keyword `as`; an integer literal, with a
/// radix prefix or in decimal; a unit with a prefix. Anything else is an unexpected
/// character.
pub open spec fn scan(bytes: Seq<u8>) -> Result<(TokenKind, nat), (LexErrorKind, nat)> {
    let c = bytes[0];
    if single(c) is Some {
        Ok((single(c).unwrap(), 1))
    } else if c == 'a' as u8 && bytes.len() >= 2 && bytes[1] == 's' as u8 {
        Ok((TokenKind::As, 2))
    } else if c == '0' as u8 && bytes.len() >= 2 && radix_letter(bytes[1]) is Some {
        scan_integer(bytes, radix_letter(bytes[1]).unwrap(), 2)
    } else if is_digit(c, 10) {
        scan_integer(bytes, 10, 0)
    } else if decimal_prefix(c) is Some {
        scan_unit(bytes, decimal_prefix(c).unwrap())
    } else {
        Err((LexErrorKind::UnexpectedCharacter, 0))
    }
}

/// Reads the digits at the head of `s`, as far as `invalid_digit` lets them go, as a
/// number in the radix, and hands back the number and the rest of `s`.
pub fn parse_nr<'a, const RADIX: u32, F: Fn(&u8) -> bool>(s: &'a [u8], invalid_digit: F) -> (number:
    Result<(u64, &'a [u8]), ParseIntError>)
    requires
        2 <= RADIX <= 36,
        forall|c: u8| call_requires(invalid_digit, (&c,)),
    ensures
        exists|end: int|
            #![trigger stops_at(s@, invalid_digit, end)]
            stops_at(s@, invalid_digit, end) && viewed(number) == literal_until(
                s@,
                RADIX as nat,
                end,
            ),
{
    let mut end: usize = 0;
    while end < s.len()
        invariant
            end <= s@.len(),
            forall|c: u8| call_requires(invalid_digit, (&c,)),
            forall|i: int| 0 <= i < end ==> call_ensures(invalid_digit, (&#[trigger] s@[i],), false),
        ensures
            stops_at(s@, invalid_digit, end as int),
        decreases s@.len() - end,
    {
        if invalid_digit(&s[end]) {
            break ;
        }
        end += 1;
    }
    let num = slice_subrange(s, 0, end);
    let rest = slice_subrange(s, end, s.len());
    assert(num@ =~= s@.take(end as int));
    assert(rest@ =~= s@.skip(end as int));
    match from_slice_radix::<RADIX>(num) {
        Ok(value) => Ok((value, rest)),
        Err(error) => Err(error),
    }
}

/// What `parse_nr` gives when `invalid_digit` says no to the digits of the radix and
/// yes to every other byte.
proof fn lemma_parse_nr<F: Fn(&u8) -> bool>(
    bytes: Seq<u8>,
    radix: nat,
    invalid_digit: F,
    end: int,
)
    requires
        forall|c: u8, invalid: bool|
            call_ensures(invalid_digit, (&c,), invalid) ==> invalid == !is_digit(c, radix),
        stops_at(bytes, invalid_digit, end),
    ensures
        end == run_end(bytes, radix, 0),
{
    assert forall|i: int| 0 <= i < end implies is_digit(bytes[i], radix) by {
        assert(call_ensures(invalid_digit, (&bytes[i],), false));
    }
    lemma_run_end_is(bytes, radix, 0, end);
}

/// Reads a binary number at the head of `s`.
pub fn parse_bin_nr(s: &[u8]) -> (number: Result<(u64, &[u8]), ParseIntError>)
    ensures
        viewed(number) == literal(s@, 2),
{
    let invalid_digit = |c: &u8| -> (invalid: bool)
        ensures
            invalid == !is_digit(*c, 2),
        { !(*c == '0' as u8 || *c == '1' as u8) };
    let number = parse_nr::<2, _>(s, invalid_digit);
    proof {
        let end = choose|end: int| #[trigger]
            stops_at(s@, invalid_digit, end) && viewed(number) == literal_until(s@, 2, end);
        lemma_parse_nr(s@, 2, invalid_digit, end);
    }
    number
}

/// Reads an octal number at the head of `s`.
pub fn parse_oct_nr(s: &[u8]) -> (number: Result<(u64, &[u8]), ParseIntError>)
    ensures
        viewed(number) == literal(s@, 8),
{
    let invalid_digit = |c: &u8| -> (invalid: bool)
        ensures
            invalid == !is_digit(*c, 8),
        { !('0' as u8 <= *c && *c <= '7' as u8) };
    let number = parse_nr::<8, _>(s, invalid_digit);
    proof {
        let end = choose|end: int| #[trigger]
            stops_at(s@, invalid_digit, end) && viewed(number) == literal_until(s@, 8, end);
        lemma_parse_nr(s@, 8, invalid_digit, end);
    }
    number
}

/// Reads a decimal number at the head of `s`.
pub fn parse_dec_nr(s: &[u8]) -> (number: Result<(u64, &[u8]), ParseIntError>)
    ensures
        viewed(number) == literal(s@, 10),
{
    let invalid_digit = |c: &u8| -> (invalid: bool)
        ensures
            invalid == !is_digit(*c, 10),
        { !('0' as u8 <= *c && *c <= '9' as u8) };
    let number = parse_nr::<10, _>(s, invalid_digit);
    proof {
        let end = choose|end: int| #[trigger]
            stops_at(s@, invalid_digit, end) && viewed(number) == literal_until(s@, 10, end);
        lemma_parse_nr(s@, 10, invalid_digit, end);
    }
    number
}

/// Reads a hexadecimal number, in digits of either case, at the head of `s`.
pub fn parse_hex_nr(s: &[u8]) -> (number: Result<(u64, &[u8]), ParseIntError>)
    ensures
        viewed(number) == literal(s@, 16),
{
    let invalid_digit = |c: &u8| -> (invalid: bool)
        ensures
            invalid == !is_digit(*c, 16),
        { !(('0' as u8 <= *c && *c <= '9' as u8) || ('a' as u8 <= *c && *c <= 'f' as u8) || ('A' as u8 <= *c && *c <= 'F' as u8)) };
    let number = parse_nr::<16, _>(s, invalid_digit);
    proof {
        let end = choose|end: int| #[trigger]
            stops_at(s@, invalid_digit, end) && viewed(number) == literal_until(s@, 16, end);
        lemma_parse_nr(s@, 16, invalid_digit, end);
    }
    number
}

/// The bytes from `at` up to, not including, `at + len`.
pub open spec fn span(at: nat, len: nat) -> Range<usize> {
    Range { start: at as usize, end: (at + len) as usize }
}

/// Where a lexer stands: the bytes still to be read, unless the end of the input has
/// been reported, and how many bytes of the input lie before them.
pub struct LexerState {
    pub rest: Option<Seq<u8>>,
    pub offset: nat,
}

impl LexerState {
    /// The state with the whitespace at the head of the rest left behind.
    pub open spec fn trimmed(self) -> LexerState {
        match self.rest {
            Some(bytes) => {
                let skipped = whitespace_end(bytes, 0);
                LexerState {
                    rest: Some(bytes.skip(skipped)),
                    offset: self.offset + skipped as nat,
                }
            },
            None => self,
        }
    }

    /// Where a lexer stands before the first token of `bytes`.
    pub open spec fn start(bytes: Seq<u8>) -> LexerState {
        (LexerState { rest: Some(bytes), offset: 0 }).trimmed()
    }

    /// What the lexer yields next, and where it then stands.
    ///
    /// Whitespace is passed over. At the end of the input the token `Eof` is yielded,
    /// once and with an empty span; after it nothing is. A token moves the lexer
    /// behind it; an error leaves it before the bytes that it could not read.
    pub open spec fn step(self) -> (Option<Result<Token, LexError>>, LexerState) {
        let here = self.trimmed();
        match here.rest {
            None => (None, here),
            Some(bytes) => if bytes.len() == 0 {
                (
                    Some(Ok(Token { kind: TokenKind::Eof, loc: span(here.offset, 0) })),
                    LexerState { rest: None, offset: here.offset },
                )
            } else {
                match scan(bytes) {
                    Ok((kind, len)) => (
                        Some(Ok(Token { kind, loc: span(here.offset, len) })),
                        LexerState { rest: Some(bytes.skip(len as int)), offset: here.offset + len },
                    ),
                    Err((kind, at)) => (
                        Some(Err(LexError { kind, loc: (here.offset + at) as usize })),
                        here,
                    ),
                }
            },
        }
    }

    /// A bound on the items that the lexer still yields.
    pub open spec fn remaining(self) -> nat {
        match self.rest {
            Some(bytes) => bytes.len() + 1,
            None => 0,
        }
    }

    /// What the lexer yields from here on, up to and including the end of the input or
    /// the first error, whichever comes first.
    pub open spec fn stream(self) -> Seq<Result<Token, LexError>>
        decreases self.remaining(),
    {
        match self.step() {
            (None, _) => seq![],
            (Some(Err(error)), _) => seq![Err(error)],
            (Some(Ok(token)), then) => {
                proof {
                    lemma_step_advances(self);
                }
                seq![Ok(token)] + then.stream()
            },
        }
    }
}

/// A stream of tokens that ends where it should: with the end of the input or an error,
/// and with neither before.
pub open spec fn terminated(items: Seq<Result<Token, LexError>>) -> bool {
    forall|i: int|
        0 <= i < items.len() ==> ((#[trigger] items[i] matches Ok(token) && token.kind != TokenKind::Eof)
            <==> i + 1 < items.len())
}

/// The tokens of a stream, or the error that it ends with.
pub open spec fn collected(items: Seq<Result<Token, LexError>>) -> Result<Seq<Token>, LexError> {
    if items.len() > 0 && items.last() is Err {
        Err(items.last()->Err_0)
    } else {
        Ok(Seq::new(items.len(), |i: int| items[i]->Ok_0))
    }
}

/// The whitespace from `from` on consists of whitespace and ends before a byte that is none.
pub proof fn lemma_whitespace_end(bytes: Seq<u8>, from: int)
    requires
        0 <= from <= bytes.len(),
    ensures
        from <= whitespace_end(bytes, from) <= bytes.len(),
        forall|i: int| from <= i < whitespace_end(bytes, from) ==> is_whitespace(bytes[i]),
        whitespace_end(bytes, from) < bytes.len() ==> !is_whitespace(
            bytes[whitespace_end(bytes, from)],
        ),
    decreases bytes.len() - from,
{
    if from < bytes.len() && is_whitespace(bytes[from]) {
        lemma_whitespace_end(bytes, from + 1);
    }
}

/// A token is at least one byte long and no longer than the bytes it was read from; an
/// error lies within them or right behind them.
pub proof fn lemma_scan_within(bytes: Seq<u8>)
    requires
        bytes.len() > 0,
    ensures
        scan(bytes) matches Ok((_, len)) ==> 1 <= len <= bytes.len(),
        scan(bytes) matches Err((_, at)) ==> at <= bytes.len(),
{
    let c = bytes[0];
    if c == '0' as u8 && bytes.len() >= 2 && radix_letter(bytes[1]) is Some {
        let radix = radix_letter(bytes[1]).unwrap();
        lemma_run_end(bytes.skip(2), radix, 0);
    } else if is_digit(c, 10) {
        lemma_run_end(bytes.skip(0), 10, 0);
        assert(bytes.skip(0) =~= bytes);
        assert(run_end(bytes, 10, 0) == run_end(bytes, 10, 1));
    }
}

/// A token takes the lexer nearer to the end of its input.
pub proof fn lemma_step_advances(state: LexerState)
    ensures
        state.step().0 matches Some(Ok(_)) ==> state.step().1.remaining() < state.remaining(),
        state.step().0 matches Some(Err(_)) ==> state.step().1.remaining() <= state.remaining(),
        state.step().0 is None ==> state.step().1 == state,
{
    if let Some(bytes) = state.rest {
        lemma_whitespace_end(bytes, 0);
        let rest = bytes.skip(whitespace_end(bytes, 0));
        if rest.len() > 0 {
            lemma_scan_within(rest);
        }
    }
}

/// A token spans the bytes that it was read from. It starts where the whitespace before
/// it ends, and it ends where the lexer stands afterwards. Only the end of the input is
/// reported with an empty span, and that lies at the end. An error lies at a byte from
/// the lexer's place on, or right behind the last one.
pub proof fn lemma_spans_are_exact(state: LexerState)
    requires
        state.rest is Some,
        state.offset + state.rest.unwrap().len() <= usize::MAX,
    ensures
        match state.step() {
            (Some(Ok(token)), then) => {
                &&& token.loc.start == state.offset + whitespace_end(state.rest.unwrap(), 0)
                &&& token.loc.start <= token.loc.end <= state.offset + state.rest.unwrap().len()
                &&& token.loc.end == then.offset
                &&& token.kind is Eof <==> token.loc.start == token.loc.end
                &&& token.kind is Eof <==> then.rest is None
                &&& then.rest matches Some(rest) ==> then.offset + rest.len() == state.offset
                    + state.rest.unwrap().len()
            },
            (Some(Err(error)), then) => {
                &&& state.offset <= error.loc <= state.offset + state.rest.unwrap().len()
                &&& then == state.trimmed()
            },
            (None, _) => false,
        },
{
    let bytes = state.rest.unwrap();
    lemma_whitespace_end(bytes, 0);
    let rest = bytes.skip(whitespace_end(bytes, 0));
    if rest.len() > 0 {
        lemma_scan_within(rest);
    }
}

/// Where the end of the input has not been reported yet, the lexer yields something.
/// The end of the input and an error end the stream, and nothing else does.
pub proof fn lemma_stream_terminated(state: LexerState)
    ensures
        terminated(state.stream()),
        state.rest is Some <==> state.stream().len() > 0,
    decreases state.remaining(),
{
    let items = state.stream();
    match state.step() {
        (Some(Ok(token)), then) => {
            lemma_step_advances(state);
            lemma_stream_terminated(then);
            let rest = then.stream();
            assert(items =~= seq![Ok(token)] + rest);
            assert forall|i: int| 0 <= i < items.len() implies ((#[trigger] items[i] matches Ok(
                token,
            ) && token.kind != TokenKind::Eof) <==> i + 1 < items.len()) by {
                if i > 0 {
                    assert(items[i] == rest[i - 1]);
                }
            }
        },
        _ => {},
    }
}

/// The radix of the integer literal at the head of `bytes`, and where its digits start:
/// behind `0b`, `0o` or `0x`, or at the head of a decimal literal.
pub open spec fn announced(bytes: Seq<u8>) -> (nat, nat) {
    if bytes.len() >= 2 && bytes[0] == '0' as u8 && radix_letter(bytes[1]) is Some {
        (radix_letter(bytes[1]).unwrap(), 2)
    } else {
        (10, 0)
    }
}

/// An integer literal as it is written: the digits, behind `0b`, `0o` or `0x` unless the
/// radix is ten.
pub open spec fn written(number: u64, radix: nat) -> Seq<u8> {
    let digits = digits_of(number as nat, radix);
    if radix == 2 {
        seq!['0' as u8, 'b' as u8] + digits
    } else if radix == 8 {
        seq!['0' as u8, 'o' as u8] + digits
    } else if radix == 16 {
        seq!['0' as u8, 'x' as u8] + digits
    } else {
        digits
    }
}

/// The number in an integer token is the number that the digits of the literal stand
/// for, in the radix that the literal announces. There is at least one digit, and every
/// byte of the token behind the radix prefix is one.
pub proof fn lemma_integer_is_value_of_digits(bytes: Seq<u8>)
    requires
        bytes.len() > 0,
    ensures
        scan(bytes) matches Ok((TokenKind::Integer(number), len)) ==> {
            let (radix, skip) = announced(bytes);
            let digits = bytes.subrange(skip as int, len as int);
            &&& skip < len <= bytes.len()
            &&& all_digits(digits, radix)
            &&& number == value_of(digits, radix)
        },
{
    if let Ok((TokenKind::Integer(number), len)) = scan(bytes) {
        let (radix, skip) = announced(bytes);
        let behind = bytes.skip(skip as int);
        let end = run_end(behind, radix, 0);
        lemma_run_end(behind, radix, 0);
        assert(behind.take(end) =~= bytes.subrange(skip as int, skip + end));
        assert(behind.take(end).take(end) =~= behind.take(end));
        lemma_run_end_is(behind.take(end), radix, 0, end);
    }
}

/// Every 64-bit number, written in radix 2, 8, 10 or 16, is read back as itself: the
/// lexer makes one integer token of the whole literal, and the token holds the number.
pub proof fn lemma_written_number_is_read_back(number: u64, radix: nat)
    requires
        radix == 2 || radix == 8 || radix == 10 || radix == 16,
    ensures
        scan(written(number, radix)) == Ok::<_, (LexErrorKind, nat)>(
            (TokenKind::Integer(number), written(number, radix).len()),
        ),
{
    let digits = digits_of(number as nat, radix);
    let text = written(number, radix);
    lemma_digits_round_trip(number as nat, radix);
    lemma_run_end_is(digits, radix, 0, digits.len() as int);
    assert(digits.take(digits.len() as int) =~= digits);
    if radix == 10 {
        assert(text.skip(0) =~= digits);
        assert(is_digit(text[0], 10));
        if text.len() >= 2 {
            assert(is_digit(text[1], 10));
        }
    } else {
        assert(text.skip(2) =~= digits);
    }
}

/// The tokens of an input, one at a time.
pub struct Lexer<'a> {
    input: Option<&'a [u8]>,
    current: usize,
}

impl<'a> View for Lexer<'a> {
    type V = LexerState;

    closed spec fn view(&self) -> LexerState {
        LexerState {
            rest: match self.input {
                Some(bytes) => Some(bytes@),
                None => None,
            },
            offset: self.current as nat,
        }
    }
}

/// How many of the first bytes are whitespace.
fn leading_whitespace(bytes: &[u8]) -> (skipped: usize)
    ensures
        skipped == whitespace_end(bytes@, 0),
{
    let mut skipped: usize = 0;
    proof {
        lemma_whitespace_end(bytes@, 0);
    }
    while skipped < bytes.len() && (bytes[skipped] == ' ' as u8 || bytes[skipped] == '\t' as u8
        || bytes[skipped] == '\n' as u8 || bytes[skipped] == 0x0c || bytes[skipped] == '\r' as u8)
        invariant
            skipped <= bytes@.len(),
            whitespace_end(bytes@, skipped as int) == whitespace_end(bytes@, 0),
        decreases bytes@.len() - skipped,
    {
        skipped += 1;
    }
    skipped
}

impl<'a> Lexer<'a> {
    /// The end of the input lies within the range of offsets.
    #[verifier::type_invariant]
    spec fn in_range(self) -> bool {
        match self.input {
            Some(bytes) => self.current + bytes@.len() <= usize::MAX,
            None => true,
        }
    }

    /// A lexer before the first token of `input`.
    pub fn new(input: &'a str) -> (lexer: Lexer<'a>)
        ensures
            lexer@ == LexerState::start(input.spec_bytes()),
    {
        let bytes = input.as_bytes();
        let skipped = leading_whitespace(bytes);
        proof {
            lemma_whitespace_end(bytes@, 0);
        }
        Lexer { input: Some(slice_subrange(bytes, skipped, bytes.len())), current: skipped }
    }

    /// Leaves the whitespace at the head of the input behind.
    fn trim_whitespace(&mut self)
        ensures
            final(self)@ == old(self)@.trimmed(),
    {
        proof {
            use_type_invariant(&*self);
        }
        if let Some(input) = self.input {
            let skipped = leading_whitespace(input);
            proof {
                lemma_whitespace_end(input@, 0);
            }
            self.input = Some(slice_subrange(input, skipped, input.len()));
            self.current += skipped;
        }
    }

    /// The span of the next `len` bytes.
    fn span(&self, len: usize) -> (loc: Range<usize>)
        requires
            self@.rest matches Some(bytes) && len <= bytes.len(),
        ensures
            loc == span(self@.offset, len as nat),
    {
        proof {
            use_type_invariant(self);
        }
        self.current..(self.current + len)
    }
    /// The next token, or why there is none; nothing once `Eof` has been yielded.
    pub fn next(&mut self) -> (item: Option<Result<Token, LexError>>)
        ensures
            item == old(self)@.step().0,
            final(self)@ == old(self)@.step().1,
    {
        self.trim_whitespace();
        proof {
            use_type_invariant(&*self);
        }
        let input = match self.input {
            Some(input) => input,
            None => {
                return None;
            },
        };
        if input.len() == 0 {
            let loc = self.span(0);
            self.input = None;
            return Some(Ok(Token::new(TokenKind::Eof, loc)));
        }
        proof {
            lemma_scan_within(input@);
        }
        let c = input[0];
        let (kind, len): (TokenKind, usize) = if c == '-' as u8 {
            (TokenKind::Minus, 1)
        } else if c == '+' as u8 {
            (TokenKind::Plus, 1)
        } else if c == '*' as u8 {
            (TokenKind::Star, 1)
        } else if c == '/' as u8 {
            (TokenKind::Slash, 1)
        } else if c == '(' as u8 {
            (TokenKind::LeftParen, 1)
        } else if c == ')' as u8 {
            (TokenKind::RightParen, 1)
        } else if c == 'b' as u8 {
            (TokenKind::Unit(FullUnit(UnitPrefix::One, Unit::Bit)), 1)
        } else if c == 'B' as u8 {
            (TokenKind::Unit(FullUnit(UnitPrefix::One, Unit::Byte)), 1)
        } else if c == 'a' as u8 && input.len() >= 2 && input[1] == 's' as u8 {
            (TokenKind::As, 2)
        } else if c == '0' as u8 && input.len() >= 2 && (input[1] == 'b' as u8 || input[1]
            == 'o' as u8 || input[1] == 'x' as u8) {
            let digits = slice_subrange(input, 2, input.len());
            assert(digits@ =~= input@.skip(2));
            proof {
                lemma_run_end(digits@, radix_letter(input@[1]).unwrap(), 0);
            }
            let number = if input[1] == 'b' as u8 {
                parse_bin_nr(digits)
            } else if input[1] == 'o' as u8 {
                parse_oct_nr(digits)
            } else {
                parse_hex_nr(digits)
            };
            match number {
                Ok((value, rest)) => (TokenKind::Integer(value), input.len() - rest.len()),
                Err(error) => {
                    return Some(Err(LexError::new(LexErrorKind::InvalidDigit(error), self.current + 2)));
                },
            }
        } else if '0' as u8 <= c && c <= '9' as u8 {
            assert(input@ =~= input@.skip(0));
            proof {
                lemma_run_end(input@, 10, 0);
            }
            match parse_dec_nr(input) {
                Ok((value, rest)) => (TokenKind::Integer(value), input.len() - rest.len()),
                Err(error) => {
                    return Some(Err(LexError::new(LexErrorKind::InvalidDigit(error), self.current)));
                },
            }
        } else {
            let prefix = if c == 'k' as u8 || c == 'K' as u8 {
                UnitPrefix::Kilo
            } else if c == 'm' as u8 || c == 'M' as u8 {
                UnitPrefix::Mega
            } else if c == 'g' as u8 || c == 'G' as u8 {
                UnitPrefix::Giga
            } else if c == 't' as u8 || c == 'T' as u8 {
                UnitPrefix::Tera
            } else if c == 'p' as u8 || c == 'P' as u8 {
                UnitPrefix::Peta
            } else if c == 'e' as u8 || c == 'E' as u8 {
                UnitPrefix::Exa
            } else {
                return Some(Err(LexError::new(LexErrorKind::UnexpectedCharacter, self.current)));
            };
            let binary = input.len() >= 2 && (input[1] == 'i' as u8 || input[1] == 'I' as u8);
            let letters: usize = if binary {
                2
            } else {
                1
            };
            let unit = if input.len() > letters && input[letters] == 'b' as u8 {
                Unit::Bit
            } else if input.len() > letters && input[letters] == 'B' as u8 {
                Unit::Byte
            } else {
                return Some(Err(LexError::new(LexErrorKind::UnexpectedCharacter, self.current)));
            };
            let prefix = if binary {
                match prefix {
                    UnitPrefix::Kilo => UnitPrefix::Kibi,
                    UnitPrefix::Mega => UnitPrefix::Mebi,
                    UnitPrefix::Giga => UnitPrefix::Gibi,
                    UnitPrefix::Tera => UnitPrefix::Tebi,
                    UnitPrefix::Peta => UnitPrefix::Pebi,
                    _ => UnitPrefix::Exbi,
                }
            } else {
                prefix
            };
            (TokenKind::Unit(FullUnit(prefix, unit)), letters + 1)
        };
        let token = Token::new(kind, self.span(len));
        let rest = slice_subrange(input, len, input.len());
        assert(rest@ =~= input@.skip(len as int));
        self.input = Some(rest);
        self.current += len;
        Some(Ok(token))
    }
    /// All the tokens of the input that is left, the end of the input last; or the first
    /// lexical error.
    pub fn tokens(self) -> (tokens: Result<Vec<Token>, LexError>)
        ensures
            match tokens {
                Ok(tokens) => collected(self@.stream()) == Ok::<_, LexError>(tokens@),
                Err(error) => collected(self@.stream()) == Err::<Seq<Token>, _>(error),
            },
    {
        let mut lexer = self;
        let mut tokens: Vec<Token> = Vec::new();
        let ghost items = self@.stream();
        proof {
            lemma_stream_terminated(self@);
        }
        loop
            invariant
                terminated(items),
                items == self@.stream(),
                tokens@.len() <= items.len(),
                lexer@.stream() =~= items.skip(tokens@.len() as int),
                forall|i: int| 0 <= i < tokens@.len() ==> items[i] == Ok::<_, LexError>(tokens@[i]),
            decreases lexer@.remaining(),
        {
            proof {
                lemma_step_advances(lexer@);
                lemma_stream_terminated(lexer@);
            }
            let ghost before = lexer@;
            match lexer.next() {
                Some(Ok(token)) => {
                    proof {
                        let k = tokens@.len() as int;
                        assert(before.stream() =~= seq![Ok(token)] + lexer@.stream());
                        assert(before.stream() == items.skip(k));
                        assert(items.skip(k).len() > 0);
                        assert(items[k] == items.skip(k)[0]);
                        assert(lexer@.stream() =~= before.stream().skip(1));
                        assert(items.skip(k).skip(1) =~= items.skip(k + 1));
                    }
                    tokens.push(token);
                },
                Some(Err(error)) => {
                    proof {
                        let k = tokens@.len() as int;
                        assert(before.stream() =~= seq![Err(error)]);
                        assert(before.stream() == items.skip(k));
                        assert(items[k] == items.skip(k)[0]);
                    }
                    return Err(error);
                },
                None => {
                    proof {
                        assert(before.stream() =~= seq![]);
                        assert(tokens@.len() == items.len());
                        if items.len() > 0 {
                            assert(items.last() == Ok::<_, LexError>(tokens@[items.len() - 1]));
                        }
                        assert(collected(items)->Ok_0 =~= tokens@);
                    }
                    return Ok(tokens);
                },
            }
        }
    }
}

} // verus!
