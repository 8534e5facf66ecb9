//! The tree of an expression.

use super::token::Token;
use vstd::prelude::*;

verus! {

/// An expression. The tokens stay in the tree, so that each node knows where in the
/// input it came from.
#[derive(Debug, PartialEq)]
pub enum Expr {
    Operator(OperatorExpr),
    /// An expression in parentheses.
    Grouping(Box<Expr>),
    /// An integer, and the unit written behind it, if any.
    Literal { kind: Token, unit: Option<Token> },
}

/// An operator and what it is applied to.
#[derive(Debug, PartialEq)]
pub enum OperatorExpr {
    /// `left + right`, `left - right`, `left * right` or `left / right`.
    ArithmeticOrLogical { left: Box<Expr>, operator: Token, right: Box<Expr> },
    /// `left as unit`.
    TypeCast { left: Box<Expr>, unit: Token },
    /// `-right`.
    Unary { operator: Token, right: Box<Expr> },
}

impl Clone for Expr {
    fn clone(&self) -> (copy: Expr)
        ensures
            copy == *self,
        decreases self,
    {
        match self {
            Expr::Operator(operation) => Expr::Operator(operation.clone()),
            Expr::Grouping(inner) => Expr::Grouping(Box::new((&**inner).clone())),
            Expr::Literal { kind, unit } => Expr::Literal {
                kind: kind.clone(),
                unit: match unit {
                    Some(unit) => Some(unit.clone()),
                    None => None,
                },
            },
        }
    }
}

impl Clone for OperatorExpr {
    fn clone(&self) -> (copy: OperatorExpr)
        ensures
            copy == *self,
        decreases self,
    {
        match self {
            OperatorExpr::ArithmeticOrLogical { left, operator, right } => {
                OperatorExpr::ArithmeticOrLogical {
                    left: Box::new((&**left).clone()),
                    operator: operator.clone(),
                    right: Box::new((&**right).clone()),
                }
            },
            OperatorExpr::TypeCast { left, unit } => OperatorExpr::TypeCast {
                left: Box::new((&**left).clone()),
                unit: unit.clone(),
            },
            OperatorExpr::Unary { operator, right } => OperatorExpr::Unary {
                operator: operator.clone(),
                right: Box::new((&**right).clone()),
            },
        }
    }
}

impl Expr {
    /// Every token is of a kind that can stand where it stands: an integer and perhaps
    /// a unit in a literal, one of `+ - * /` between two operands, `-` before one, a
    /// unit behind `as`.
    pub open spec fn well_formed(self) -> bool
        decreases self,
    {
        match self {
            Expr::Operator(operation) => operation.well_formed(),
            Expr::Grouping(inner) => inner.well_formed(),
            Expr::Literal { kind, unit } => {
                &&& kind.kind is Integer
                &&& unit matches Some(unit) ==> unit.kind is Unit
            },
        }
    }

    /// A literal or an expression in parentheses: what binds tightest.
    pub open spec fn is_primary(self) -> bool {
        self is Grouping || self is Literal
    }

    /// A primary expression, or one with a sign before it.
    pub open spec fn is_unary(self) -> bool {
        self.is_primary() || (self matches Expr::Operator(operation) && operation is Unary)
    }

    /// A unary expression, or one cast to a unit.
    pub open spec fn is_type_cast(self) -> bool {
        self.is_unary() || (self matches Expr::Operator(operation) && operation is TypeCast)
    }

    /// A cast expression, or a product or quotient.
    pub open spec fn is_factor(self) -> bool {
        self.is_type_cast() || (self matches Expr::Operator(
            OperatorExpr::ArithmeticOrLogical { operator, .. },
        ) && (operator.kind is Star || operator.kind is Slash))
    }

    /// The tree is one that the grammar gives, with nothing but parentheses to override
    /// how tightly the operators bind:
    ///
    /// - the operand of a sign or of a cast is a primary expression or a signed one, so
    ///   signs stack to the right and a cast takes what is nearest to it;
    /// - the left operand of `*` or `/` is no sum or difference and the right one no
    ///   product, quotient, sum or difference, so `*` and `/` bind tighter than `+` and
    ///   `-` and group from the left;
    /// - the right operand of `+` or `-` is no sum or difference, so they too group
    ///   from the left.
    pub open spec fn follows_grammar(self) -> bool
        decreases self,
    {
        match self {
            Expr::Operator(operation) => operation.follows_grammar(),
            Expr::Grouping(inner) => inner.follows_grammar(),
            Expr::Literal { kind, unit } => {
                &&& kind.kind is Integer
                &&& unit matches Some(unit) ==> unit.kind is Unit
            },
        }
    }

    /// The expression in prefix notation.
    pub open spec fn text(self) -> Seq<char>
        decreases self,
    {
        match self {
            Expr::Operator(operation) => operation.text(),
            Expr::Grouping(inner) => seq!['(', 'g', 'r', 'o', 'u', 'p', ' '] + inner.text() + seq![
                ')',
            ],
            Expr::Literal { kind, unit } => kind.kind.text() + match unit {
                Some(unit) => unit.kind.text(),
                None => seq![],
            },
        }
    }

    /// The expression as text, in prefix notation.
    pub fn to_string(&self) -> (text: String)
        ensures
            text@ == self.text(),
        decreases self,
    {
        match self {
            Expr::Operator(operation) => operation.to_string(),
            Expr::Grouping(inner) => {
                proof {
                    reveal_strlit("(group ");
                    reveal_strlit(")");
                }
                let mut text = String::from_str("(group ");
                let inner = inner.to_string();
                text.append(inner.as_str());
                text.append(")");
                text
            },
            Expr::Literal { kind, unit } => {
                let mut text = kind.to_string();
                if let Some(unit) = unit {
                    let unit = unit.to_string();
                    text.append(unit.as_str());
                }
                text
            },
        }
    }
}

impl OperatorExpr {
    /// See `Expr::well_formed`.
    pub open spec fn well_formed(self) -> bool
        decreases self,
    {
        match self {
            OperatorExpr::ArithmeticOrLogical { left, operator, right } => {
                &&& operator.kind is Plus || operator.kind is Minus || operator.kind is Star
                    || operator.kind is Slash
                &&& left.well_formed()
                &&& right.well_formed()
            },
            OperatorExpr::TypeCast { left, unit } => unit.kind is Unit && left.well_formed(),
            OperatorExpr::Unary { operator, right } => operator.kind is Minus && right.well_formed(),
        }
    }

    /// See `Expr::follows_grammar`.
    pub open spec fn follows_grammar(self) -> bool
        decreases self,
    {
        match self {
            OperatorExpr::ArithmeticOrLogical { left, operator, right } => {
                &&& left.follows_grammar()
                &&& right.follows_grammar()
                &&& if operator.kind is Star || operator.kind is Slash {
                    left.is_factor() && right.is_type_cast()
                } else {
                    (operator.kind is Plus || operator.kind is Minus) && right.is_factor()
                }
            },
            OperatorExpr::TypeCast { left, unit } => {
                &&& unit.kind is Unit
                &&& left.is_unary()
                &&& left.follows_grammar()
            },
            OperatorExpr::Unary { operator, right } => {
                &&& operator.kind is Minus
                &&& right.is_unary()
                &&& right.follows_grammar()
            },
        }
    }

    /// The operation in prefix notation.
    pub open spec fn text(self) -> Seq<char>
        decreases self,
    {
        match self {
            OperatorExpr::ArithmeticOrLogical { left, operator, right } => seq!['(']
                + operator.kind.text() + seq![' '] + left.text() + seq![' '] + right.text() + seq![
                ')',
            ],
            OperatorExpr::TypeCast { left, unit } => seq!['(', 'a', 's', ' '] + left.text() + seq![
                ' ',
            ] + unit.kind.text() + seq![')'],
            OperatorExpr::Unary { operator, right } => seq!['('] + operator.kind.text() + seq![' ']
                + right.text() + seq![')'],
        }
    }

    /// The operation as text, in prefix notation.
    pub fn to_string(&self) -> (text: String)
        ensures
            text@ == self.text(),
        decreases self,
    {
        proof {
            reveal_strlit("(");
            reveal_strlit("(as ");
            reveal_strlit(" ");
            reveal_strlit(")");
        }
        match self {
            OperatorExpr::ArithmeticOrLogical { left, operator, right } => {
                let mut text = String::from_str("(");
                let operator = operator.to_string();
                text.append(operator.as_str());
                text.append(" ");
                let left = left.to_string();
                text.append(left.as_str());
                text.append(" ");
                let right = right.to_string();
                text.append(right.as_str());
                text.append(")");
                text
            },
            OperatorExpr::TypeCast { left, unit } => {
                let mut text = String::from_str("(as ");
                let left = left.to_string();
                text.append(left.as_str());
                text.append(" ");
                let unit = unit.to_string();
                text.append(unit.as_str());
                text.append(")");
                text
            },
            OperatorExpr::Unary { operator, right } => {
                let mut text = String::from_str("(");
                let operator = operator.to_string();
                text.append(operator.as_str());
                text.append(" ");
                let right = right.to_string();
                text.append(right.as_str());
                text.append(")");
                text
            },
        }
    }
}

/// A tree that the grammar gives holds only tokens that can stand where they stand.
pub proof fn lemma_grammar_is_well_formed(expr: Expr)
    requires
        expr.follows_grammar(),
    ensures
        expr.well_formed(),
    decreases expr,
{
    match expr {
        Expr::Operator(operation) => {
            assert(operation.follows_grammar());
            match operation {
                OperatorExpr::ArithmeticOrLogical { left, operator, right } => {
                    lemma_grammar_is_well_formed(*left);
                    lemma_grammar_is_well_formed(*right);
                },
                OperatorExpr::TypeCast { left, unit } => {
                    lemma_grammar_is_well_formed(*left);
                },
                OperatorExpr::Unary { operator, right } => {
                    lemma_grammar_is_well_formed(*right);
                },
            }
            assert(operation.well_formed());
        },
        Expr::Grouping(inner) => {
            lemma_grammar_is_well_formed(*inner);
        },
        Expr::Literal { .. } => {},
    }
}

} // verus!
