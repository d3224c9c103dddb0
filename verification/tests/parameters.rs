use quil_ir::double::Double;
use quil_ir::expression::{
    Complex, Expression, ExpressionFunction, InfixOperator, MemoryReference, Parameter,
    PrefixOperator,
};

fn double(x: f64) -> Double {
    Double { bits: x.to_bits() }
}

fn complex(re: f64, im: f64) -> Complex {
    Complex { re: double(re), im: double(im) }
}

fn number(re: f64, im: f64) -> Expression {
    Expression::Number(complex(re, im))
}

fn round_trip(parameter: Parameter) -> Parameter {
    Parameter::from(Expression::from(parameter))
}

#[test]
fn a_signed_integer_survives_the_round_trip() {
    assert_eq!(round_trip(Parameter::I64(5)), Parameter::I64(5));
    assert_eq!(round_trip(Parameter::I64(0)), Parameter::I64(0));
    assert_eq!(round_trip(Parameter::I64(-17)), Parameter::I64(-17));
    assert_eq!(round_trip(Parameter::I64(i64::MIN)), Parameter::I64(i64::MIN));
    assert_eq!(round_trip(Parameter::I64(1 << 53)), Parameter::I64(1 << 53));
}

#[test]
fn canonical_parameters_survive_the_round_trip() {
    assert_eq!(round_trip(Parameter::F64(double(2.5))), Parameter::F64(double(2.5)));
    assert_eq!(round_trip(Parameter::F64(double(1e300))), Parameter::F64(double(1e300)));
    assert_eq!(round_trip(Parameter::Complex(complex(1.0, 2.0))), Parameter::Complex(complex(1.0, 2.0)));
    assert_eq!(round_trip(Parameter::U64(1 << 63)), Parameter::U64(1 << 63));
    let reference = MemoryReference { name: "theta".to_string(), index: 2 };
    assert_eq!(
        round_trip(Parameter::Expression(Expression::Address(reference.clone()))),
        Parameter::Expression(Expression::Address(reference))
    );
    assert_eq!(
        round_trip(Parameter::Expression(Expression::PiConstant)),
        Parameter::Expression(Expression::PiConstant)
    );
}

#[test]
fn a_memory_reference_comes_back_as_its_address() {
    let reference = MemoryReference { name: "theta".to_string(), index: 2 };
    assert_eq!(
        round_trip(Parameter::MemoryReference(reference.clone())),
        Parameter::Expression(Expression::Address(reference))
    );
}

#[test]
fn a_whole_double_collapses_to_a_signed_integer() {
    assert_eq!(round_trip(Parameter::F64(double(5.0))), Parameter::I64(5));
    assert_eq!(Parameter::from(number(5.0, 0.0)), Parameter::I64(5));
    assert_eq!(Parameter::from(number(-3.0, -0.0)), Parameter::I64(-3));
    assert_eq!(Parameter::from(number(-0.0, 0.0)), Parameter::I64(0));
}

#[test]
fn a_fractional_double_stays_a_double() {
    assert_eq!(round_trip(Parameter::F64(double(2.5))), Parameter::F64(double(2.5)));
    assert_eq!(Parameter::from(number(2.5, 0.0)), Parameter::F64(double(2.5)));
}

#[test]
fn a_complex_number_without_imaginary_part_collapses() {
    assert_eq!(round_trip(Parameter::Complex(complex(3.0, 0.0))), Parameter::I64(3));
    assert_eq!(round_trip(Parameter::Complex(complex(2.5, 0.0))), Parameter::F64(double(2.5)));
    assert_eq!(round_trip(Parameter::Complex(complex(3.0, -0.0))), Parameter::I64(3));
}

#[test]
fn a_complex_number_with_imaginary_part_stays_complex() {
    assert_eq!(
        round_trip(Parameter::Complex(complex(1.0, 2.0))),
        Parameter::Complex(complex(1.0, 2.0))
    );
    assert_eq!(
        Parameter::from(number(0.0, f64::NAN)),
        Parameter::Complex(complex(0.0, f64::NAN))
    );
    assert_eq!(
        Parameter::from(number(4.0, 1e-300)),
        Parameter::Complex(complex(4.0, 1e-300))
    );
}

#[test]
fn a_large_unsigned_integer_stays_unsigned() {
    let large: u64 = 1 << 63;
    assert_eq!(round_trip(Parameter::U64(large)), Parameter::U64(large));
    let larger: u64 = (1 << 63) + (1 << 11);
    assert_eq!(round_trip(Parameter::U64(larger)), Parameter::U64(larger));
    assert_eq!(round_trip(Parameter::U64(3 << 62)), Parameter::U64(3 << 62));
    assert_eq!(Parameter::from(number(9223372036854775808.0, 0.0)), Parameter::U64(large));
}

#[test]
fn a_small_unsigned_integer_comes_back_signed() {
    assert_eq!(round_trip(Parameter::U64(5)), Parameter::I64(5));
    assert_eq!(round_trip(Parameter::U64(0)), Parameter::I64(0));
}

#[test]
fn an_integer_that_no_double_holds_comes_back_rounded() {
    assert_eq!(
        round_trip(Parameter::I64((1 << 53) + 1)),
        Parameter::I64(1 << 53)
    );
    // The nearest double to the largest unsigned integer is two to the 64,
    // which no 64-bit integer holds.
    assert_eq!(
        round_trip(Parameter::U64(u64::MAX)),
        Parameter::F64(double(18446744073709551616.0))
    );
    assert_eq!(round_trip(Parameter::I64(i64::MAX)), Parameter::U64(1 << 63));
}

#[test]
fn numbers_that_are_no_integers_stay_doubles() {
    assert_eq!(Parameter::from(number(f64::NAN, 0.0)), Parameter::F64(double(f64::NAN)));
    assert_eq!(
        Parameter::from(number(f64::INFINITY, 0.0)),
        Parameter::F64(double(f64::INFINITY))
    );
    assert_eq!(Parameter::from(number(-1e19, 0.0)), Parameter::F64(double(-1e19)));
    assert_eq!(
        Parameter::from(number(18446744073709551616.0, 0.0)),
        Parameter::F64(double(18446744073709551616.0))
    );
}

#[test]
fn every_parameter_becomes_its_expression() {
    assert_eq!(Expression::from(Parameter::I64(5)), number(5.0, 0.0));
    assert_eq!(Expression::from(Parameter::I64(-5)), number(-5.0, 0.0));
    assert_eq!(Expression::from(Parameter::U64(7)), number(7.0, 0.0));
    assert_eq!(Expression::from(Parameter::U64(u64::MAX)), number(18446744073709551616.0, 0.0));
    assert_eq!(Expression::from(Parameter::F64(double(2.5))), number(2.5, 0.0));
    assert_eq!(Expression::from(Parameter::F64(double(-0.0))), number(-0.0, 0.0));
    assert_eq!(Expression::from(Parameter::Complex(complex(1.0, 2.0))), number(1.0, 2.0));
    let reference = MemoryReference { name: "ro".to_string(), index: 1 };
    assert_eq!(
        Expression::from(Parameter::MemoryReference(reference.clone())),
        Expression::Address(reference)
    );
    assert_eq!(
        Expression::from(Parameter::Expression(Expression::Variable("x".to_string()))),
        Expression::Variable("x".to_string())
    );
}

#[test]
fn an_address_comes_back_unchanged() {
    let reference = MemoryReference { name: "ro".to_string(), index: 3 };
    assert_eq!(
        Parameter::from(Expression::Address(reference.clone())),
        Parameter::Expression(Expression::Address(reference))
    );
}

#[test]
fn other_expressions_come_back_unchanged() {
    let tree = Expression::Infix {
        left: Box::new(Expression::Prefix {
            operator: PrefixOperator::Minus,
            expression: Box::new(Expression::PiConstant),
        }),
        operator: InfixOperator::Slash,
        right: Box::new(Expression::FunctionCall {
            function: ExpressionFunction::Cosine,
            expression: Box::new(Expression::Variable("theta".to_string())),
        }),
    };
    assert_eq!(Parameter::from(tree.clone()), Parameter::Expression(tree.clone()));
    assert_eq!(round_trip(Parameter::Expression(tree.clone())), Parameter::Expression(tree));
    assert_eq!(
        Parameter::from(Expression::PiConstant),
        Parameter::Expression(Expression::PiConstant)
    );
    assert_eq!(
        Parameter::from(Expression::Variable("x".to_string())),
        Parameter::Expression(Expression::Variable("x".to_string()))
    );
}

#[test]
fn an_expression_that_a_simpler_parameter_holds_collapses() {
    assert_eq!(round_trip(Parameter::Expression(number(5.0, 0.0))), Parameter::I64(5));
    assert_eq!(
        round_trip(Parameter::Expression(number(2.5, 0.0))),
        Parameter::F64(double(2.5))
    );
    assert_eq!(
        round_trip(Parameter::Expression(number(1.0, 2.0))),
        Parameter::Complex(complex(1.0, 2.0))
    );
}

#[test]
fn copies_are_equal_and_apart() {
    let source = Parameter::MemoryReference(MemoryReference { name: "ro".to_string(), index: 1 });
    let mut copy = source.clone();
    assert_eq!(copy, source);
    if let Parameter::MemoryReference(reference) = &mut copy {
        reference.index = 2;
    }
    assert_ne!(copy, source);
}
