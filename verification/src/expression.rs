//! Expressions, and the parameters that stand for the common ones.
//!
//! An [`Expression`] is a symbolic arithmetic tree. A [`Parameter`] is the
//! convenient form in which callers hand numbers and references in and get
//! them back: every parameter becomes an expression, and every expression
//! comes back as the simplest parameter that holds it.

use crate::double::{
    is_nearest_double, lemma_nearest_beyond_signed, lemma_whole_double_unique,
    lemma_whole_is_exact, nearest_double, nearest_integer, Double,
};
use vstd::prelude::*;

verus! {

/// A place in a named memory region.
#[derive(Debug, PartialEq, Eq)]
pub struct MemoryReference {
    pub name: String,
    pub index: u64,
}

/// What a [`MemoryReference`] holds.
pub struct MemoryReferenceView {
    pub name: Seq<char>,
    pub index: u64,
}

impl View for MemoryReference {
    type V = MemoryReferenceView;

    open spec fn view(&self) -> MemoryReferenceView {
        MemoryReferenceView { name: self.name@, index: self.index }
    }
}

impl Clone for MemoryReference {
    fn clone(&self) -> (r: Self)
        ensures
            r@ == self@,
    {
        MemoryReference { name: self.name.clone(), index: self.index }
    }
}

/// A complex number, real and imaginary part.
#[derive(Clone, Copy, Debug, PartialEq, Eq, Structural)]
pub struct Complex {
    pub re: Double,
    pub im: Double,
}

/// The functions that an expression can apply.
#[derive(Clone, Copy, Debug, PartialEq, Eq, Structural)]
pub enum ExpressionFunction {
    Cis,
    Cosine,
    Exponent,
    Sine,
    SquareRoot,
}

/// The operators that stand in front of an expression.
#[derive(Clone, Copy, Debug, PartialEq, Eq, Structural)]
pub enum PrefixOperator {
    Plus,
    Minus,
}

/// The operators that stand between two expressions.
#[derive(Clone, Copy, Debug, PartialEq, Eq, Structural)]
pub enum InfixOperator {
    Caret,
    Plus,
    Minus,
    Slash,
    Star,
}

/// A symbolic arithmetic tree.
#[allow(inconsistent_fields)]
#[derive(Debug, PartialEq, Eq)]
pub enum Expression {
    Address(MemoryReference),
    FunctionCall { function: ExpressionFunction, expression: Box<Expression> },
    Infix { left: Box<Expression>, operator: InfixOperator, right: Box<Expression> },
    Number(Complex),
    PiConstant,
    Prefix { operator: PrefixOperator, expression: Box<Expression> },
    Variable(String),
}

/// What an [`Expression`] holds.
#[allow(inconsistent_fields)]
pub enum ExpressionView {
    Address(MemoryReferenceView),
    FunctionCall { function: ExpressionFunction, expression: Box<ExpressionView> },
    Infix { left: Box<ExpressionView>, operator: InfixOperator, right: Box<ExpressionView> },
    Number(Complex),
    PiConstant,
    Prefix { operator: PrefixOperator, expression: Box<ExpressionView> },
    Variable(Seq<char>),
}

impl View for Expression {
    type V = ExpressionView;

    open spec fn view(&self) -> ExpressionView
        decreases self,
    {
        match self {
            Expression::Address(reference) => ExpressionView::Address(reference@),
            Expression::FunctionCall { function, expression } => ExpressionView::FunctionCall {
                function: *function,
                expression: Box::new((**expression).view()),
            },
            Expression::Infix { left, operator, right } => ExpressionView::Infix {
                left: Box::new((**left).view()),
                operator: *operator,
                right: Box::new((**right).view()),
            },
            Expression::Number(number) => ExpressionView::Number(*number),
            Expression::PiConstant => ExpressionView::PiConstant,
            Expression::Prefix { operator, expression } => ExpressionView::Prefix {
                operator: *operator,
                expression: Box::new((**expression).view()),
            },
            Expression::Variable(name) => ExpressionView::Variable(name@),
        }
    }
}

impl Clone for Expression {
    fn clone(&self) -> (r: Self)
        ensures
            r@ == self@,
        decreases self,
    {
        match self {
            Expression::Address(reference) => Expression::Address(reference.clone()),
            Expression::FunctionCall { function, expression } => Expression::FunctionCall {
                function: *function,
                expression: Box::new((**expression).clone()),
            },
            Expression::Infix { left, operator, right } => Expression::Infix {
                left: Box::new((**left).clone()),
                operator: *operator,
                right: Box::new((**right).clone()),
            },
            Expression::Number(number) => Expression::Number(*number),
            Expression::PiConstant => Expression::PiConstant,
            Expression::Prefix { operator, expression } => Expression::Prefix {
                operator: *operator,
                expression: Box::new((**expression).clone()),
            },
            Expression::Variable(name) => Expression::Variable(name.clone()),
        }
    }
}

/// A number, a memory reference or an expression, in the forms in which
/// callers hand them in. Read back, a number has its simplest form and
/// everything else is an expression.
#[derive(Debug, PartialEq, Eq)]
pub enum Parameter {
    Expression(Expression),
    MemoryReference(MemoryReference),
    I64(i64),
    F64(Double),
    Complex(Complex),
    U64(u64),
}

/// What a [`Parameter`] holds.
pub enum ParameterView {
    Expression(ExpressionView),
    MemoryReference(MemoryReferenceView),
    I64(i64),
    F64(Double),
    Complex(Complex),
    U64(u64),
}

impl View for Parameter {
    type V = ParameterView;

    open spec fn view(&self) -> ParameterView {
        match self {
            Parameter::Expression(expression) => ParameterView::Expression(expression@),
            Parameter::MemoryReference(reference) => ParameterView::MemoryReference(reference@),
            Parameter::I64(number) => ParameterView::I64(*number),
            Parameter::F64(number) => ParameterView::F64(*number),
            Parameter::Complex(number) => ParameterView::Complex(*number),
            Parameter::U64(number) => ParameterView::U64(*number),
        }
    }
}

impl Clone for Parameter {
    fn clone(&self) -> (r: Self)
        ensures
            r@ == self@,
    {
        match self {
            Parameter::Expression(expression) => Parameter::Expression(expression.clone()),
            Parameter::MemoryReference(reference) => Parameter::MemoryReference(reference.clone()),
            Parameter::I64(number) => Parameter::I64(*number),
            Parameter::F64(number) => Parameter::F64(*number),
            Parameter::Complex(number) => Parameter::Complex(*number),
            Parameter::U64(number) => Parameter::U64(*number),
        }
    }
}

/// Whether `expression` is the expression that stands for `parameter`: an
/// expression as it is, a memory reference as its address, an integer as the
/// nearest binary64 number, every number with the imaginary part that it has
/// or positive zero.
pub open spec fn expresses(expression: ExpressionView, parameter: ParameterView) -> bool {
    match parameter {
        ParameterView::Expression(inner) => expression == inner,
        ParameterView::MemoryReference(reference) => expression == ExpressionView::Address(
            reference,
        ),
        ParameterView::I64(n) => {
            &&& expression is Number
            &&& expression->Number_0.im.bits == 0
            &&& is_nearest_double(expression->Number_0.re, n as int)
        },
        ParameterView::U64(n) => {
            &&& expression is Number
            &&& expression->Number_0.im.bits == 0
            &&& is_nearest_double(expression->Number_0.re, n as int)
        },
        ParameterView::F64(number) => expression == ExpressionView::Number(
            Complex { re: number, im: Double { bits: 0 } },
        ),
        ParameterView::Complex(number) => expression == ExpressionView::Number(number),
    }
}

/// The simplest parameter that holds `number`: with a zero imaginary part the
/// real part alone, as a signed integer if it is exactly one, else as an
/// unsigned integer if it is exactly one, else as it is; with any other
/// imaginary part the complex number.
pub open spec fn canonical_number(number: Complex) -> Parameter {
    if number.im.is_zero_spec() {
        match number.re.as_i64() {
            Some(n) => Parameter::I64(n),
            None => match number.re.as_u64() {
                Some(n) => Parameter::U64(n),
                None => Parameter::F64(number.re),
            },
        }
    } else {
        Parameter::Complex(number)
    }
}

/// The parameter that an expression comes back as: a number as the simplest
/// parameter that holds it, every other expression as it is.
pub open spec fn parameter_of(expression: ExpressionView) -> ParameterView {
    match expression {
        ExpressionView::Number(number) => canonical_number(number)@,
        _ => ParameterView::Expression(expression),
    }
}

/// Whether a parameter is one that `parameter_of` gives: an expression that
/// is no number, an integer that a binary64 number holds exactly and that
/// has no simpler form, a double that is no such integer, a complex number
/// with an imaginary part. A memory reference comes back as the expression
/// that is its address, so it is not canonical.
pub open spec fn is_canonical(parameter: ParameterView) -> bool {
    match parameter {
        ParameterView::Expression(inner) => !(inner is Number),
        ParameterView::MemoryReference(_) => false,
        ParameterView::I64(n) => nearest_integer(n as int) == n,
        ParameterView::U64(n) => n > i64::MAX && nearest_integer(n as int) == n,
        ParameterView::F64(number) => number.as_i64() is None && number.as_u64() is None,
        ParameterView::Complex(number) => !number.im.is_zero_spec(),
    }
}

impl vstd::std_specs::convert::FromSpecImpl<Parameter> for Expression {
    open spec fn obeys_from_spec() -> bool {
        true
    }

    /// The expression that stands for a parameter: it is the one of which
    /// `expresses` holds.
    open spec fn from_spec(value: Parameter) -> Expression {
        match value {
            Parameter::Expression(expression) => expression,
            Parameter::MemoryReference(reference) => Expression::Address(reference),
            Parameter::I64(number) => Expression::Number(
                Complex { re: nearest_double(number as int), im: Double { bits: 0 } },
            ),
            Parameter::U64(number) => Expression::Number(
                Complex { re: nearest_double(number as int), im: Double { bits: 0 } },
            ),
            Parameter::F64(number) => Expression::Number(
                Complex { re: number, im: Double { bits: 0 } },
            ),
            Parameter::Complex(number) => Expression::Number(number),
        }
    }
}

impl From<Parameter> for Expression {
    /// The expression that stands for a parameter.
    fn from(value: Parameter) -> (r: Expression)
        ensures
            expresses(r@, value@),
    {
        match value {
            Parameter::Expression(expression) => expression,
            Parameter::MemoryReference(reference) => Expression::Address(reference),
            Parameter::I64(number) => Expression::Number(
                Complex { re: Double::from_i64(number), im: Double::zero() },
            ),
            Parameter::U64(number) => Expression::Number(
                Complex { re: Double::from_u64(number), im: Double::zero() },
            ),
            Parameter::F64(number) => Expression::Number(
                Complex { re: number, im: Double::zero() },
            ),
            Parameter::Complex(number) => Expression::Number(number),
        }
    }
}

impl vstd::std_specs::convert::FromSpecImpl<Expression> for Parameter {
    open spec fn obeys_from_spec() -> bool {
        true
    }

    /// The parameter that an expression comes back as; its view is
    /// `parameter_of` of the expression's view.
    open spec fn from_spec(value: Expression) -> Parameter {
        match value {
            Expression::Number(number) => canonical_number(number),
            _ => Parameter::Expression(value),
        }
    }
}

impl From<Expression> for Parameter {
    /// The parameter that an expression comes back as.
    fn from(value: Expression) -> (r: Parameter)
        ensures
            r@ == parameter_of(value@),
    {
        match value {
            Expression::Number(number) => {
                if number.im.is_zero() {
                    match number.re.to_i64() {
                        Some(n) => Parameter::I64(n),
                        None => match number.re.to_u64() {
                            Some(n) => Parameter::U64(n),
                            None => Parameter::F64(number.re),
                        },
                    }
                } else {
                    Parameter::Complex(number)
                }
            },
            other => Parameter::Expression(other),
        }
    }
}

/// A canonical parameter survives the way through its expression: whatever
/// expression stands for it comes back as the same parameter.
pub proof fn lemma_canonical_round_trip(parameter: ParameterView, expression: ExpressionView)
    requires
        is_canonical(parameter),
        expresses(expression, parameter),
    ensures
        parameter_of(expression) == parameter,
{
}

/// An unsigned integer beyond the signed range never comes back as a signed
/// one: it comes back unsigned, or as the binary64 number nearest to it.
pub proof fn lemma_unsigned_stays_unsigned(n: u64, expression: ExpressionView)
    requires
        n > i64::MAX,
        expresses(expression, ParameterView::U64(n)),
    ensures
        !(parameter_of(expression) is I64),
        parameter_of(expression) is U64 || parameter_of(expression) is F64,
{
    lemma_nearest_beyond_signed(n);
}

/// Every expression comes back as a canonical parameter.
pub proof fn lemma_parameter_of_is_canonical(expression: ExpressionView)
    ensures
        is_canonical(parameter_of(expression)),
{
    if let ExpressionView::Number(number) = expression {
        if number.re.whole_magnitude() is Some {
            lemma_whole_is_exact(number.re);
        }
    }
}

/// Reading back is idempotent: the parameter that an expression comes back
/// as comes back as itself from whatever expression stands for it.
pub proof fn lemma_parameter_of_idempotent(expression: ExpressionView, again: ExpressionView)
    requires
        expresses(again, parameter_of(expression)),
    ensures
        parameter_of(again) == parameter_of(expression),
{
    lemma_parameter_of_is_canonical(expression);
    lemma_canonical_round_trip(parameter_of(expression), again);
}

/// One parameter has one expression: two expressions that stand for the same
/// parameter are the same.
pub proof fn lemma_expression_unique(
    parameter: ParameterView,
    first: ExpressionView,
    second: ExpressionView,
)
    requires
        expresses(first, parameter),
        expresses(second, parameter),
    ensures
        first == second,
{
    if parameter is I64 || parameter is U64 {
        lemma_whole_double_unique(first->Number_0.re, second->Number_0.re);
    }
}

} // verus!
