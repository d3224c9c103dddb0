use quil_ir::double::Double;
use quil_ir::expression::{Complex, Expression, MemoryReference, Parameter};
use quil_ir::instruction::{
    ConstructionError, DefCalibration, DefMeasureCalibration, Gate, GateModifier, Instruction,
    QubitDesignator,
};

fn double(x: f64) -> Double {
    Double { bits: x.to_bits() }
}

fn gate(name: &str, qubit: u64) -> Instruction {
    Instruction::Gate(Gate {
        name: name.to_string(),
        parameters: vec![],
        qubits: vec![QubitDesignator::Fixed(qubit)],
        modifiers: vec![],
    })
}

fn rx() -> DefCalibration {
    DefCalibration::new(
        "RX",
        vec![Parameter::Expression(Expression::Variable("theta".to_string()))],
        vec![QubitDesignator::Fixed(0)],
        vec![gate("X", 0)],
        None,
    )
    .unwrap()
}

#[test]
fn a_calibration_keeps_what_it_was_made_from() {
    let calibration = DefCalibration::new(
        "RX",
        vec![Parameter::I64(5), Parameter::MemoryReference(MemoryReference {
            name: "theta".to_string(),
            index: 0,
        })],
        vec![QubitDesignator::Fixed(0), QubitDesignator::Variable("q".to_string())],
        vec![gate("X", 0), Instruction::Other("NOP".to_string())],
        Some(vec![GateModifier::Dagger, GateModifier::Controlled]),
    )
    .unwrap();
    assert_eq!(calibration.name(), "RX");
    assert_eq!(
        calibration.parameters(),
        vec![
            Parameter::I64(5),
            Parameter::Expression(Expression::Address(MemoryReference {
                name: "theta".to_string(),
                index: 0,
            }))
        ]
    );
    assert_eq!(
        calibration.qubits(),
        vec![QubitDesignator::Fixed(0), QubitDesignator::Variable("q".to_string())]
    );
    assert_eq!(calibration.instrs(), vec![gate("X", 0), Instruction::Other("NOP".to_string())]);
    assert_eq!(calibration.modifiers(), vec![GateModifier::Dagger, GateModifier::Controlled]);
}

#[test]
fn a_calibration_without_modifiers_has_none() {
    assert_eq!(rx().modifiers(), vec![]);
}

#[test]
fn identifiers_are_accepted_as_names() {
    for name in ["Good_Ident1f1er-0", "H", "RX", "_", "_x", "a-b", "a--b", "x9", "x_"] {
        let made = DefCalibration::new(name, vec![], vec![], vec![], None);
        assert_eq!(made.unwrap().name(), name);
    }
}

#[test]
fn other_names_are_turned_down_with_the_message_of_the_rule() {
    for name in [
        "-Cant-start-with-dash",
        "Cant-end-with-dash-",
        "1-Cant-start-with-number",
        "",
        "-",
        "9",
        "a b",
        "a\n",
        "\u{e9}t\u{e9}",
        "a.b",
    ] {
        let made = DefCalibration::new(name, vec![], vec![], vec![], None);
        assert_eq!(
            made,
            Err(ConstructionError { message: format!("{name} is not a valid identifier") })
        );
    }
}

#[test]
fn parameters_are_read_back_in_their_simplest_form() {
    let calibration = DefCalibration::new(
        "RX",
        vec![
            Parameter::F64(double(5.0)),
            Parameter::F64(double(2.5)),
            Parameter::Complex(Complex { re: double(3.0), im: double(0.0) }),
            Parameter::Complex(Complex { re: double(1.0), im: double(2.0) }),
            Parameter::U64(7),
            Parameter::U64(1 << 63),
        ],
        vec![],
        vec![],
        None,
    )
    .unwrap();
    let expected = vec![
        Parameter::I64(5),
        Parameter::F64(double(2.5)),
        Parameter::I64(3),
        Parameter::Complex(Complex { re: double(1.0), im: double(2.0) }),
        Parameter::I64(7),
        Parameter::U64(1 << 63),
    ];
    assert_eq!(calibration.parameters(), expected);
    assert_eq!(calibration.parameters(), expected);
}

#[test]
fn setting_parameters_replaces_them_all() {
    let mut calibration = rx();
    calibration.set_parameters(vec![Parameter::I64(1), Parameter::F64(double(0.5))]);
    assert_eq!(calibration.parameters(), vec![Parameter::I64(1), Parameter::F64(double(0.5))]);
    calibration.set_parameters(vec![]);
    assert_eq!(calibration.parameters(), vec![]);
    assert_eq!(calibration.name(), "RX");
    assert_eq!(calibration.qubits(), vec![QubitDesignator::Fixed(0)]);
    assert_eq!(calibration.instrs(), vec![gate("X", 0)]);
}

#[test]
fn setting_no_qubits_leaves_none() {
    let mut calibration = rx();
    calibration.set_qubits(vec![]);
    assert_eq!(calibration.qubits(), vec![]);
}

#[test]
fn setting_qubits_replaces_them_all() {
    let mut calibration = rx();
    calibration.set_qubits(vec![QubitDesignator::Fixed(3), QubitDesignator::Fixed(4)]);
    assert_eq!(calibration.qubits(), vec![QubitDesignator::Fixed(3), QubitDesignator::Fixed(4)]);
    calibration.set_qubits(vec![QubitDesignator::Variable("q".to_string())]);
    assert_eq!(calibration.qubits(), vec![QubitDesignator::Variable("q".to_string())]);
    assert_eq!(calibration.name(), "RX");
    assert_eq!(calibration.instrs(), vec![gate("X", 0)]);
    assert_eq!(
        calibration.parameters(),
        vec![Parameter::Expression(Expression::Variable("theta".to_string()))]
    );
}

#[test]
fn setting_instructions_replaces_them_all() {
    let mut calibration = rx();
    calibration.set_instrs(vec![gate("Y", 1), gate("Z", 2)]);
    assert_eq!(calibration.instrs(), vec![gate("Y", 1), gate("Z", 2)]);
    calibration.set_instrs(vec![]);
    assert_eq!(calibration.instrs(), vec![]);
    assert_eq!(calibration.qubits(), vec![QubitDesignator::Fixed(0)]);
}

#[test]
fn what_is_read_is_a_copy() {
    let calibration = rx();
    let mut read = calibration.instrs();
    read.push(gate("Y", 1));
    assert_eq!(calibration.instrs(), vec![gate("X", 0)]);
    let mut qubits = calibration.qubits();
    qubits.clear();
    assert_eq!(calibration.qubits(), vec![QubitDesignator::Fixed(0)]);
}

#[test]
fn a_calibration_can_hold_calibrations() {
    let inner = rx();
    let outer = DefCalibration::new(
        "OUTER",
        vec![],
        vec![],
        vec![Instruction::CalibrationDefinition(inner.clone())],
        None,
    )
    .unwrap();
    assert_eq!(outer.instrs(), vec![Instruction::CalibrationDefinition(inner)]);
    assert_eq!(outer.clone(), outer);
}

#[test]
fn a_measure_calibration_without_qubit_has_none() {
    let calibration = DefMeasureCalibration::new(
        None,
        MemoryReference { name: "ro".to_string(), index: 0 },
        vec![],
    );
    assert_eq!(calibration.qubit(), None);
}

#[test]
fn a_measure_calibration_keeps_what_it_was_made_from() {
    let calibration = DefMeasureCalibration::new(
        Some(QubitDesignator::Fixed(2)),
        MemoryReference { name: "ro".to_string(), index: 3 },
        vec![gate("X", 2)],
    );
    assert_eq!(calibration.qubit(), Some(QubitDesignator::Fixed(2)));
    assert_eq!(calibration.parameter(), "ro[3]");
    assert_eq!(calibration.instrs(), vec![gate("X", 2)]);
}

#[test]
fn a_measure_calibration_from_a_text_keeps_the_text() {
    let calibration = DefMeasureCalibration::from_parameter(
        Some(QubitDesignator::Variable("q".to_string())),
        "addr".to_string(),
        vec![gate("X", 2)],
    );
    assert_eq!(calibration.qubit(), Some(QubitDesignator::Variable("q".to_string())));
    assert_eq!(calibration.parameter(), "addr");
    assert_eq!(calibration.instrs(), vec![gate("X", 2)]);
    let same = DefMeasureCalibration::from_parameter(None, "ro[3]".to_string(), vec![]);
    let made = DefMeasureCalibration::new(
        None,
        MemoryReference { name: "ro".to_string(), index: 3 },
        vec![],
    );
    assert_eq!(same, made);
}

#[test]
fn a_memory_reference_is_kept_as_its_text() {
    let text = |name: &str, index: u64| {
        DefMeasureCalibration::new(None, MemoryReference { name: name.to_string(), index }, vec![])
            .parameter()
    };
    assert_eq!(text("ro", 0), "ro[0]");
    assert_eq!(text("ro", 9), "ro[9]");
    assert_eq!(text("ro", 10), "ro[10]");
    assert_eq!(text("theta", 1234567890), "theta[1234567890]");
    assert_eq!(text("x", u64::MAX), "x[18446744073709551615]");
    assert_eq!(text("", 7), "[7]");
}

#[test]
fn setting_the_qubit_replaces_it() {
    let mut calibration = DefMeasureCalibration::new(
        Some(QubitDesignator::Fixed(2)),
        MemoryReference { name: "ro".to_string(), index: 0 },
        vec![gate("X", 2)],
    );
    calibration.set_qubit(Some(QubitDesignator::Variable("q".to_string())));
    assert_eq!(calibration.qubit(), Some(QubitDesignator::Variable("q".to_string())));
    calibration.set_qubit(None);
    assert_eq!(calibration.qubit(), None);
    assert_eq!(calibration.parameter(), "ro[0]");
    assert_eq!(calibration.instrs(), vec![gate("X", 2)]);
}

#[test]
fn setting_the_instructions_of_a_measure_calibration_replaces_them() {
    let mut calibration = DefMeasureCalibration::new(
        None,
        MemoryReference { name: "ro".to_string(), index: 0 },
        vec![gate("X", 2)],
    );
    calibration.set_instrs(vec![gate("Y", 0), gate("Z", 1)]);
    assert_eq!(calibration.instrs(), vec![gate("Y", 0), gate("Z", 1)]);
    calibration.set_instrs(vec![]);
    assert_eq!(calibration.instrs(), vec![]);
    assert_eq!(calibration.qubit(), None);
    assert_eq!(calibration.parameter(), "ro[0]");
}
