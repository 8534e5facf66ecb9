//! Decimal and binary scaling prefixes.

use vstd::arithmetic::power::pow;
use vstd::prelude::*;

verus! {

/// One thousand.
pub const KILO: u64 = 1_000;

/// One thousand to the second.
pub const MEGA: u64 = 1_000_000;

/// One thousand to the third.
pub const GIGA: u64 = 1_000_000_000;

/// One thousand to the fourth.
pub const TERA: u64 = 1_000_000_000_000;

/// One thousand to the fifth.
pub const PETA: u64 = 1_000_000_000_000_000;

/// One thousand to the sixth.
pub const EXA: u64 = 1_000_000_000_000_000_000;

/// 1024, which is two to the tenth.
pub const KIBI: u64 = 0x400;

/// 1024 to the second.
pub const MEBI: u64 = 0x10_0000;

/// 1024 to the third.
pub const GIBI: u64 = 0x4000_0000;

/// 1024 to the fourth.
pub const TEBI: u64 = 0x100_0000_0000;

/// 1024 to the fifth.
pub const PEBI: u64 = 0x4_0000_0000_0000;

/// 1024 to the sixth.
pub const EXBI: u64 = 0x1000_0000_0000_0000;

/// A scaling factor: a power of 1000 (decimal) or of 1024 (binary), up to the sixth.
#[derive(Debug, Clone, Copy, PartialEq, Eq, Structural)]
pub enum UnitPrefix {
    /// No prefix: the factor one.
    One,
    Kilo,
    Mega,
    Giga,
    Tera,
    Peta,
    Exa,
    Kibi,
    Mebi,
    Gibi,
    Tebi,
    Pebi,
    Exbi,
}

/// The text did not name a prefix, or the number was not a prefix's multiplier.
#[derive(Debug, Clone, Copy, PartialEq, Eq, Structural)]
pub struct InvalidUnitPrefix {}

impl UnitPrefix {
    /// The factor by which the prefix scales a unit.
    pub open spec fn multiplier(self) -> u64 {
        match self {
            UnitPrefix::One => 1,
            UnitPrefix::Kilo => KILO,
            UnitPrefix::Mega => MEGA,
            UnitPrefix::Giga => GIGA,
            UnitPrefix::Tera => TERA,
            UnitPrefix::Peta => PETA,
            UnitPrefix::Exa => EXA,
            UnitPrefix::Kibi => KIBI,
            UnitPrefix::Mebi => MEBI,
            UnitPrefix::Gibi => GIBI,
            UnitPrefix::Tebi => TEBI,
            UnitPrefix::Pebi => PEBI,
            UnitPrefix::Exbi => EXBI,
        }
    }

    /// How often the base (1000 or 1024) is taken: zero for `One`, six for `Exa` and `Exbi`.
    pub open spec fn exponent(self) -> nat {
        match self {
            UnitPrefix::One => 0,
            UnitPrefix::Kilo | UnitPrefix::Kibi => 1,
            UnitPrefix::Mega | UnitPrefix::Mebi => 2,
            UnitPrefix::Giga | UnitPrefix::Gibi => 3,
            UnitPrefix::Tera | UnitPrefix::Tebi => 4,
            UnitPrefix::Peta | UnitPrefix::Pebi => 5,
            UnitPrefix::Exa | UnitPrefix::Exbi => 6,
        }
    }

    /// A power of 1000; `One` is the zeroth.
    pub open spec fn is_decimal(self) -> bool {
        match self {
            UnitPrefix::One
            | UnitPrefix::Kilo
            | UnitPrefix::Mega
            | UnitPrefix::Giga
            | UnitPrefix::Tera
            | UnitPrefix::Peta
            | UnitPrefix::Exa => true,
            _ => false,
        }
    }

    /// A power of 1024; `One` is the zeroth.
    pub open spec fn is_binary(self) -> bool {
        match self {
            UnitPrefix::One
            | UnitPrefix::Kibi
            | UnitPrefix::Mebi
            | UnitPrefix::Gibi
            | UnitPrefix::Tebi
            | UnitPrefix::Pebi
            | UnitPrefix::Exbi => true,
            _ => false,
        }
    }

    /// The letters of the prefix as they are written before a unit letter.
    pub open spec fn text(self) -> Seq<char> {
        match self {
            UnitPrefix::One => seq![],
            UnitPrefix::Kilo => seq!['k'],
            UnitPrefix::Mega => seq!['M'],
            UnitPrefix::Giga => seq!['G'],
            UnitPrefix::Tera => seq!['T'],
            UnitPrefix::Peta => seq!['P'],
            UnitPrefix::Exa => seq!['E'],
            UnitPrefix::Kibi => seq!['K', 'i'],
            UnitPrefix::Mebi => seq!['M', 'i'],
            UnitPrefix::Gibi => seq!['G', 'i'],
            UnitPrefix::Tebi => seq!['T', 'i'],
            UnitPrefix::Pebi => seq!['P', 'i'],
            UnitPrefix::Exbi => seq!['E', 'i'],
        }
    }

    /// The prefix that a lower-case name stands for.
    pub open spec fn named(name: Seq<char>) -> Option<UnitPrefix> {
        if name == Seq::<char>::empty() {
            Some(UnitPrefix::One)
        } else if name == seq!['k'] {
            Some(UnitPrefix::Kilo)
        } else if name == seq!['m'] {
            Some(UnitPrefix::Mega)
        } else if name == seq!['g'] {
            Some(UnitPrefix::Giga)
        } else if name == seq!['t'] {
            Some(UnitPrefix::Tera)
        } else if name == seq!['p'] {
            Some(UnitPrefix::Peta)
        } else if name == seq!['e'] {
            Some(UnitPrefix::Exa)
        } else if name == seq!['k', 'i'] {
            Some(UnitPrefix::Kibi)
        } else if name == seq!['m', 'i'] {
            Some(UnitPrefix::Mebi)
        } else if name == seq!['g', 'i'] {
            Some(UnitPrefix::Gibi)
        } else if name == seq!['t', 'i'] {
            Some(UnitPrefix::Tebi)
        } else if name == seq!['p', 'i'] {
            Some(UnitPrefix::Pebi)
        } else if name == seq!['e', 'i'] {
            Some(UnitPrefix::Exbi)
        } else {
            Option::None
        }
    }

    /// The multiplier as a machine integer.
    pub fn factor(self) -> (factor: u64)
        ensures
            factor == self.multiplier(),
    {
        match self {
            UnitPrefix::One => 1,
            UnitPrefix::Kilo => KILO,
            UnitPrefix::Mega => MEGA,
            UnitPrefix::Giga => GIGA,
            UnitPrefix::Tera => TERA,
            UnitPrefix::Peta => PETA,
            UnitPrefix::Exa => EXA,
            UnitPrefix::Kibi => KIBI,
            UnitPrefix::Mebi => MEBI,
            UnitPrefix::Gibi => GIBI,
            UnitPrefix::Tebi => TEBI,
            UnitPrefix::Pebi => PEBI,
            UnitPrefix::Exbi => EXBI,
        }
    }

    /// The largest decimal prefix that does not exceed `num`; `One` below one thousand.
    pub fn dec_from_num(num: u64) -> (prefix: UnitPrefix)
        ensures
            prefix.is_decimal(),
            prefix != UnitPrefix::One ==> prefix.multiplier() <= num,
            prefix != UnitPrefix::Exa ==> num < 1000 * prefix.multiplier(),
    {
        if num < KILO {
            UnitPrefix::One
        } else if num < MEGA {
            UnitPrefix::Kilo
        } else if num < GIGA {
            UnitPrefix::Mega
        } else if num < TERA {
            UnitPrefix::Giga
        } else if num < PETA {
            UnitPrefix::Tera
        } else if num < EXA {
            UnitPrefix::Peta
        } else {
            UnitPrefix::Exa
        }
    }

    /// The largest binary prefix that does not exceed `num`; `One` below 1024.
    pub fn bin_from_num(num: u64) -> (prefix: UnitPrefix)
        ensures
            prefix.is_binary(),
            prefix != UnitPrefix::One ==> prefix.multiplier() <= num,
            prefix != UnitPrefix::Exbi ==> num < 1024 * prefix.multiplier(),
    {
        if num < KIBI {
            UnitPrefix::One
        } else if num < MEBI {
            UnitPrefix::Kibi
        } else if num < GIBI {
            UnitPrefix::Mebi
        } else if num < TEBI {
            UnitPrefix::Gibi
        } else if num < PEBI {
            UnitPrefix::Tebi
        } else if num < EXBI {
            UnitPrefix::Pebi
        } else {
            UnitPrefix::Exbi
        }
    }

    /// The number of letters in the prefix.
    pub fn len(&self) -> (len: usize)
        ensures
            len == self.text().len(),
    {
        match self {
            UnitPrefix::One => 0,
            UnitPrefix::Kilo
            | UnitPrefix::Mega
            | UnitPrefix::Giga
            | UnitPrefix::Tera
            | UnitPrefix::Peta
            | UnitPrefix::Exa => 1,
            UnitPrefix::Kibi
            | UnitPrefix::Mebi
            | UnitPrefix::Gibi
            | UnitPrefix::Tebi
            | UnitPrefix::Pebi
            | UnitPrefix::Exbi => 2,
        }
    }

    /// The prefix that `name` stands for, where `name` is already in lower case.
    pub fn from_lowercase(name: &str) -> (prefix: Option<UnitPrefix>)
        ensures
            prefix == UnitPrefix::named(name@),
    {
        let len = name.unicode_len();
        if len == 0 {
            assert(name@ =~= Seq::<char>::empty());
            return Some(UnitPrefix::One);
        }
        if len > 2 {
            return Option::None;
        }
        let first = name.get_char(0);
        if len == 1 {
            assert(name@ =~= seq![first]);
            if first == 'k' {
                Some(UnitPrefix::Kilo)
            } else if first == 'm' {
                Some(UnitPrefix::Mega)
            } else if first == 'g' {
                Some(UnitPrefix::Giga)
            } else if first == 't' {
                Some(UnitPrefix::Tera)
            } else if first == 'p' {
                Some(UnitPrefix::Peta)
            } else if first == 'e' {
                Some(UnitPrefix::Exa)
            } else {
                Option::None
            }
        } else {
            let second = name.get_char(1);
            assert(name@ =~= seq![first, second]);
            if second != 'i' {
                Option::None
            } else if first == 'k' {
                Some(UnitPrefix::Kibi)
            } else if first == 'm' {
                Some(UnitPrefix::Mebi)
            } else if first == 'g' {
                Some(UnitPrefix::Gibi)
            } else if first == 't' {
                Some(UnitPrefix::Tebi)
            } else if first == 'p' {
                Some(UnitPrefix::Pebi)
            } else if first == 'e' {
                Some(UnitPrefix::Exbi)
            } else {
                Option::None
            }
        }
    }

    /// The prefix as text.
    pub fn to_string(&self) -> (text: String)
        ensures
            text@ == self.text(),
    {
        proof {
            reveal_strlit("");
            reveal_strlit("k");
            reveal_strlit("M");
            reveal_strlit("G");
            reveal_strlit("T");
            reveal_strlit("P");
            reveal_strlit("E");
            reveal_strlit("Ki");
            reveal_strlit("Mi");
            reveal_strlit("Gi");
            reveal_strlit("Ti");
            reveal_strlit("Pi");
            reveal_strlit("Ei");
        }
        let letters = match self {
            UnitPrefix::One => "",
            UnitPrefix::Kilo => "k",
            UnitPrefix::Mega => "M",
            UnitPrefix::Giga => "G",
            UnitPrefix::Tera => "T",
            UnitPrefix::Peta => "P",
            UnitPrefix::Exa => "E",
            UnitPrefix::Kibi => "Ki",
            UnitPrefix::Mebi => "Mi",
            UnitPrefix::Gibi => "Gi",
            UnitPrefix::Tebi => "Ti",
            UnitPrefix::Pebi => "Pi",
            UnitPrefix::Exbi => "Ei",
        };
        String::from_str(letters)
    }
}

/// The factor of a prefix is its base, 1000 or 1024, taken as often as its exponent says.
pub proof fn lemma_multiplier_is_power(prefix: UnitPrefix)
    ensures
        prefix.is_decimal() ==> prefix.multiplier() == pow(1000, prefix.exponent()),
        prefix.is_binary() ==> prefix.multiplier() == pow(1024, prefix.exponent()),
{
    reveal_with_fuel(pow, 7);
}

/// No two prefixes scale by the same factor.
pub proof fn lemma_multipliers_differ()
    ensures
        forall|a: UnitPrefix, b: UnitPrefix| a.multiplier() == b.multiplier() ==> a == b,
{
}

impl From<UnitPrefix> for u64 {
    fn from(value: UnitPrefix) -> (factor: u64) {
        value.factor()
    }
}

impl vstd::std_specs::convert::FromSpecImpl<UnitPrefix> for u64 {
    open spec fn obeys_from_spec() -> bool {
        true
    }

    open spec fn from_spec(value: UnitPrefix) -> u64 {
        value.multiplier()
    }
}

impl TryFrom<u64> for UnitPrefix {
    type Error = InvalidUnitPrefix;

    fn try_from(value: u64) -> (prefix: Result<UnitPrefix, InvalidUnitPrefix>) {
        let prefix = if value == 1 {
            Ok(UnitPrefix::One)
        } else if value == KILO {
            Ok(UnitPrefix::Kilo)
        } else if value == MEGA {
            Ok(UnitPrefix::Mega)
        } else if value == GIGA {
            Ok(UnitPrefix::Giga)
        } else if value == TERA {
            Ok(UnitPrefix::Tera)
        } else if value == PETA {
            Ok(UnitPrefix::Peta)
        } else if value == EXA {
            Ok(UnitPrefix::Exa)
        } else if value == KIBI {
            Ok(UnitPrefix::Kibi)
        } else if value == MEBI {
            Ok(UnitPrefix::Mebi)
        } else if value == GIBI {
            Ok(UnitPrefix::Gibi)
        } else if value == TEBI {
            Ok(UnitPrefix::Tebi)
        } else if value == PEBI {
            Ok(UnitPrefix::Pebi)
        } else if value == EXBI {
            Ok(UnitPrefix::Exbi)
        } else {
            Err(InvalidUnitPrefix {  })
        };
        proof {
            match prefix {
                Ok(found) => {
                    assert(found.multiplier() == value);
                },
                Err(_) => {
                    assert forall|other: UnitPrefix| other.multiplier() != value by {}
                },
            }
        }
        prefix
    }
}

impl vstd::std_specs::convert::TryFromSpecImpl<u64> for UnitPrefix {
    open spec fn obeys_try_from_spec() -> bool {
        true
    }

    open spec fn try_from_spec(value: u64) -> Result<UnitPrefix, InvalidUnitPrefix> {
        if exists|prefix: UnitPrefix| prefix.multiplier() == value {
            Ok(choose|prefix: UnitPrefix| prefix.multiplier() == value)
        } else {
            Err(InvalidUnitPrefix {  })
        }
    }
}

/// What `str::to_lowercase` makes of a text.
pub uninterp spec fn lowercase_of(text: Seq<char>) -> Seq<char>;

/// `str::to_lowercase`: the text with every character replaced by its lower-case form.
/// Nothing more is claimed than that the result is a function of the text.
#[verifier::external_body]
fn to_lowercase(text: &str) -> (lower: String)
    ensures
        lower@ == lowercase_of(text@),
{
    text.to_lowercase()
}

impl<'a> TryFrom<&'a str> for UnitPrefix {
    type Error = InvalidUnitPrefix;

    fn try_from(value: &'a str) -> (prefix: Result<UnitPrefix, InvalidUnitPrefix>) {
        let lower = to_lowercase(value);
        match UnitPrefix::from_lowercase(lower.as_str()) {
            Some(found) => Ok(found),
            Option::None => Err(InvalidUnitPrefix {  }),
        }
    }
}

impl<'a> vstd::std_specs::convert::TryFromSpecImpl<&'a str> for UnitPrefix {
    open spec fn obeys_try_from_spec() -> bool {
        true
    }

    open spec fn try_from_spec(value: &'a str) -> Result<UnitPrefix, InvalidUnitPrefix> {
        match UnitPrefix::named(lowercase_of(value@)) {
            Some(found) => Ok(found),
            Option::None => Err(InvalidUnitPrefix {  }),
        }
    }
}

} // verus!
