//! Values with units, and what may be done with them.
//!
//! The magnitude of a value is a number in double precision. This library decides which
//! arithmetic makes up a magnitude, and in which unit it counts; it does not round. So a
//! magnitude is kept as the arithmetic that is still to be carried out, a `Magnitude`,
//! and whoever wants the number carries it out.

use super::token::FullUnit;
use std::ops::{Add, Neg, Sub};
use vstd::prelude::*;

verus! {

/// Why two values cannot be combined.
#[derive(Debug, Clone, Copy, PartialEq, Eq, Structural)]
pub enum ValueErrorKind {
    /// The divisor carries a unit.
    DivisionByUnit,
    /// Both factors carry a unit.
    MultiplicationByUnit,
}

/// Arithmetic in double precision that is still to be carried out.
#[derive(Debug, PartialEq, Eq)]
pub enum Magnitude {
    /// The double nearest to a whole number.
    Integer(u64),
    /// The magnitude with its sign changed.
    Negated(Box<Magnitude>),
    /// The first magnitude plus the second.
    Sum(Box<Magnitude>, Box<Magnitude>),
    /// The first magnitude minus the second.
    Difference(Box<Magnitude>, Box<Magnitude>),
    /// The first magnitude times the second.
    Product(Box<Magnitude>, Box<Magnitude>),
    /// The first magnitude divided by the second.
    Quotient(Box<Magnitude>, Box<Magnitude>),
    /// The magnitude times the quotient of `from` by `to`, each taken as a double: what
    /// was counted in units of `from` bits, counted in units of `to` bits.
    Rescaled { magnitude: Box<Magnitude>, from: u64, to: u64 },
}

impl Clone for Magnitude {
    fn clone(&self) -> (copy: Magnitude)
        ensures
            copy == *self,
        decreases self,
    {
        match self {
            Magnitude::Integer(number) => Magnitude::Integer(*number),
            Magnitude::Negated(inner) => Magnitude::Negated(Box::new((&**inner).clone())),
            Magnitude::Sum(left, right) => Magnitude::Sum(
                Box::new((&**left).clone()),
                Box::new((&**right).clone()),
            ),
            Magnitude::Difference(left, right) => Magnitude::Difference(
                Box::new((&**left).clone()),
                Box::new((&**right).clone()),
            ),
            Magnitude::Product(left, right) => Magnitude::Product(
                Box::new((&**left).clone()),
                Box::new((&**right).clone()),
            ),
            Magnitude::Quotient(left, right) => Magnitude::Quotient(
                Box::new((&**left).clone()),
                Box::new((&**right).clone()),
            ),
            Magnitude::Rescaled { magnitude, from, to } => Magnitude::Rescaled {
                magnitude: Box::new((&**magnitude).clone()),
                from: *from,
                to: *to,
            },
        }
    }
}

impl Magnitude {
    /// The number that the arithmetic comes to where nothing is rounded, as a fraction:
    /// its numerator and its denominator. The denominator is zero where the arithmetic
    /// divides by zero.
    pub open spec fn exact(self) -> (int, int)
        decreases self,
    {
        match self {
            Magnitude::Integer(number) => (number as int, 1),
            Magnitude::Negated(inner) => (-inner.exact().0, inner.exact().1),
            Magnitude::Sum(left, right) => (
                left.exact().0 * right.exact().1 + right.exact().0 * left.exact().1,
                left.exact().1 * right.exact().1,
            ),
            Magnitude::Difference(left, right) => (
                left.exact().0 * right.exact().1 - right.exact().0 * left.exact().1,
                left.exact().1 * right.exact().1,
            ),
            Magnitude::Product(left, right) => (
                left.exact().0 * right.exact().0,
                left.exact().1 * right.exact().1,
            ),
            Magnitude::Quotient(left, right) => (
                left.exact().0 * right.exact().1,
                left.exact().1 * right.exact().0,
            ),
            Magnitude::Rescaled { magnitude, from, to } => (
                magnitude.exact().0 * from,
                magnitude.exact().1 * to,
            ),
        }
    }
}

/// The two fractions are one number.
pub open spec fn same_number(a: (int, int), b: (int, int)) -> bool {
    a.1 != 0 && b.1 != 0 && a.0 * b.1 == b.0 * a.1
}

/// A magnitude and the unit that it counts. Without a unit the value is a plain number,
/// not a quantity whose unit is unknown.
#[derive(Debug, PartialEq, Eq)]
pub struct Value {
    pub value: Magnitude,
    pub unit: Option<FullUnit>,
}

/// The unit in which two values are combined: the one unit there is, or of two the one
/// that holds fewer bits.
pub open spec fn common_unit(left: Option<FullUnit>, right: Option<FullUnit>) -> Option<FullUnit> {
    match (left, right) {
        (Some(ours), Some(theirs)) => if ours.multiplier() <= theirs.multiplier() {
            Some(ours)
        } else {
            Some(theirs)
        },
        (Some(ours), None) => Some(ours),
        (None, theirs) => theirs,
    }
}

impl Value {
    /// The value counted in `unit`.
    ///
    /// A value in that unit stays as it is. A plain number takes the unit and keeps its
    /// magnitude. A value in another unit is rescaled by the bits in one of its unit
    /// over the bits in one of `unit`.
    pub open spec fn converted(self, unit: FullUnit) -> Value {
        match self.unit {
            Some(own) => if own == unit {
                self
            } else {
                Value {
                    value: Magnitude::Rescaled {
                        magnitude: Box::new(self.value),
                        from: own.multiplier(),
                        to: unit.multiplier(),
                    },
                    unit: Some(unit),
                }
            },
            None => Value { value: self.value, unit: Some(unit) },
        }
    }

    /// The magnitude as it enters a sum or difference that is counted in `unit`.
    pub open spec fn magnitude_in(self, unit: Option<FullUnit>) -> Magnitude {
        match unit {
            Some(unit) => self.converted(unit).value,
            None => self.value,
        }
    }

    /// The sum: both values counted in their common unit, and the magnitudes added.
    pub open spec fn sum(self, rhs: Value) -> Value {
        let unit = common_unit(self.unit, rhs.unit);
        Value {
            value: Magnitude::Sum(Box::new(self.magnitude_in(unit)), Box::new(rhs.magnitude_in(unit))),
            unit,
        }
    }

    /// The difference: both values counted in their common unit, and the magnitudes
    /// subtracted.
    pub open spec fn difference(self, rhs: Value) -> Value {
        let unit = common_unit(self.unit, rhs.unit);
        Value {
            value: Magnitude::Difference(
                Box::new(self.magnitude_in(unit)),
                Box::new(rhs.magnitude_in(unit)),
            ),
            unit,
        }
    }

    /// The product, unless both values carry a unit; its unit is the one unit there is.
    pub open spec fn product(self, rhs: Value) -> Result<Value, ValueErrorKind> {
        if self.unit is Some && rhs.unit is Some {
            Err(ValueErrorKind::MultiplicationByUnit)
        } else {
            Ok(
                Value {
                    value: Magnitude::Product(Box::new(self.value), Box::new(rhs.value)),
                    unit: if self.unit is Some {
                        self.unit
                    } else {
                        rhs.unit
                    },
                },
            )
        }
    }

    /// The quotient, unless the divisor carries a unit; its unit is that of the dividend.
    pub open spec fn quotient(self, rhs: Value) -> Result<Value, ValueErrorKind> {
        if rhs.unit is Some {
            Err(ValueErrorKind::DivisionByUnit)
        } else {
            Ok(
                Value {
                    value: Magnitude::Quotient(Box::new(self.value), Box::new(rhs.value)),
                    unit: self.unit,
                },
            )
        }
    }

    /// The value with its sign changed, in the same unit.
    pub open spec fn negated(self) -> Value {
        Value { value: Magnitude::Negated(Box::new(self.value)), unit: self.unit }
    }

    pub fn new(value: Magnitude, unit: Option<FullUnit>) -> (made: Value)
        ensures
            made == (Value { value, unit }),
    {
        Value { value, unit }
    }

    pub fn value(&self) -> (value: &Magnitude)
        ensures
            *value == self.value,
    {
        &self.value
    }

    pub fn unit(&self) -> (unit: Option<FullUnit>)
        ensures
            unit == self.unit,
    {
        self.unit
    }

    /// Counts the value in `unit`. Any value can be counted in any unit.
    pub fn convert_to(self, unit: FullUnit) -> (converted: Value)
        ensures
            converted == self.converted(unit),
    {
        let our_unit = match self.unit {
            Some(own) => own,
            None => {
                return Value::new(self.value, Some(unit));
            },
        };
        if our_unit == unit {
            return self;
        }
        Value::new(
            Magnitude::Rescaled {
                magnitude: Box::new(self.value),
                from: u64::from(our_unit),
                to: u64::from(unit),
            },
            Some(unit),
        )
    }

    /// Multiplies by `rhs`. Fails if and only if both values carry a unit.
    pub fn try_mul(&self, rhs: Value) -> (product: Result<Value, ValueErrorKind>)
        ensures
            product == self.product(rhs),
            product is Err <==> self.unit is Some && rhs.unit is Some,
    {
        if self.unit.is_some() && rhs.unit.is_some() {
            return Err(ValueErrorKind::MultiplicationByUnit);
        }
        let unit = if self.unit.is_some() {
            self.unit
        } else {
            rhs.unit
        };
        Ok(Value::new(Magnitude::Product(Box::new(self.value.clone()), Box::new(rhs.value)), unit))
    }

    /// Divides by `rhs`. Fails if and only if `rhs` carries a unit.
    pub fn try_div(&self, rhs: Value) -> (quotient: Result<Value, ValueErrorKind>)
        ensures
            quotient == self.quotient(rhs),
            quotient is Err <==> rhs.unit is Some,
    {
        if rhs.unit.is_some() {
            return Err(ValueErrorKind::DivisionByUnit);
        }
        Ok(
            Value::new(
                Magnitude::Quotient(Box::new(self.value.clone()), Box::new(rhs.value)),
                self.unit,
            ),
        )
    }

    /// The two magnitudes as they enter a sum or difference, and the unit of the result.
    fn aligned(self, rhs: Value) -> (parts: (Magnitude, Magnitude, Option<FullUnit>))
        ensures
            parts.2 == common_unit(self.unit, rhs.unit),
            parts.0 == self.magnitude_in(parts.2),
            parts.1 == rhs.magnitude_in(parts.2),
    {
        let (left, right) = match (self.unit, rhs.unit) {
            (Some(left), Some(right)) => (left, right),
            (Some(left), None) => {
                return (self.value, rhs.value, Some(left));
            },
            (None, right) => {
                return (self.value, rhs.value, right);
            },
        };
        let precise = if u64::from(left) <= u64::from(right) {
            left
        } else {
            right
        };
        (self.convert_to(precise).value, rhs.convert_to(precise).value, Some(precise))
    }
}

impl Add for Value {
    type Output = Value;

    fn add(self, rhs: Value) -> (sum: Value) {
        let (left, right, unit) = self.aligned(rhs);
        Value::new(Magnitude::Sum(Box::new(left), Box::new(right)), unit)
    }
}

impl vstd::std_specs::ops::AddSpecImpl for Value {
    open spec fn obeys_add_spec() -> bool {
        true
    }

    open spec fn add_req(self, rhs: Value) -> bool {
        true
    }

    open spec fn add_spec(self, rhs: Value) -> Value {
        self.sum(rhs)
    }
}

impl Sub for Value {
    type Output = Value;

    fn sub(self, rhs: Value) -> (difference: Value) {
        let (left, right, unit) = self.aligned(rhs);
        Value::new(Magnitude::Difference(Box::new(left), Box::new(right)), unit)
    }
}

impl vstd::std_specs::ops::SubSpecImpl for Value {
    open spec fn obeys_sub_spec() -> bool {
        true
    }

    open spec fn sub_req(self, rhs: Value) -> bool {
        true
    }

    open spec fn sub_spec(self, rhs: Value) -> Value {
        self.difference(rhs)
    }
}

impl Neg for Value {
    type Output = Value;

    fn neg(self) -> (negated: Value) {
        Value::new(Magnitude::Negated(Box::new(self.value)), self.unit)
    }
}

impl vstd::std_specs::ops::NegSpecImpl for Value {
    open spec fn obeys_neg_spec() -> bool {
        true
    }

    open spec fn neg_req(self) -> bool {
        true
    }

    open spec fn neg_spec(self) -> Value {
        self.negated()
    }
}

/// A value that is counted in another unit and then in its own again has, where
/// nothing is rounded, the magnitude that it had. (In double precision each of the two
/// conversions rounds.)
pub proof fn lemma_converted_there_and_back(value: Value, own: FullUnit, other: FullUnit)
    requires
        value.unit == Some(own),
        value.value.exact().1 != 0,
    ensures
        value.converted(other).converted(own).unit == Some(own),
        same_number(value.converted(other).converted(own).value.exact(), value.value.exact()),
{
    let (p, q) = value.value.exact();
    if own != other {
        let a = own.multiplier() as int;
        let b = other.multiplier() as int;
        assert(value.converted(other).value.exact() == (p * a, q * b));
        assert((q * b) * a != 0 && ((p * a) * b) * q == p * ((q * b) * a)) by (nonlinear_arith)
            requires
                q != 0,
                a >= 1,
                b >= 1,
        ;
    }
}

} // verus!
