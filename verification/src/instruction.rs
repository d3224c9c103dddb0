//! Instructions and the calibration definitions among them.
//!
//! An [`Instruction`] is one of a closed set of kinds, and each kind owns what
//! it holds. A [`DefCalibration`] says how a gate expands into instructions, a
//! [`DefMeasureCalibration`] how a measurement does; both are held by the
//! instruction of their kind and can be read and replaced list by list.

use crate::expression::{
    expresses, parameter_of, Expression, ExpressionView, MemoryReference, Parameter,
    ParameterView,
};
use crate::quil::{
    invalid_identifier_message, is_identifier, memory_reference_text,
    memory_reference_to_string, validate_identifier,
};
use crate::seq_view::views;
use vstd::prelude::*;

verus! {

/// A qubit, by its fixed index or by the name that stands for it in a
/// calibration.
#[derive(Debug, PartialEq, Eq)]
pub enum QubitDesignator {
    Fixed(u64),
    Variable(String),
}

/// What a [`QubitDesignator`] holds.
pub enum QubitView {
    Fixed(u64),
    Variable(Seq<char>),
}

impl View for QubitDesignator {
    type V = QubitView;

    open spec fn view(&self) -> QubitView {
        match self {
            QubitDesignator::Fixed(index) => QubitView::Fixed(*index),
            QubitDesignator::Variable(name) => QubitView::Variable(name@),
        }
    }
}

impl Clone for QubitDesignator {
    fn clone(&self) -> (r: Self)
        ensures
            r@ == self@,
    {
        match self {
            QubitDesignator::Fixed(index) => QubitDesignator::Fixed(*index),
            QubitDesignator::Variable(name) => QubitDesignator::Variable(name.clone()),
        }
    }
}

/// A qualifier on a gate.
#[derive(Clone, Copy, Debug, PartialEq, Eq, Structural)]
pub enum GateModifier {
    Controlled,
    Dagger,
    Forked,
}

/// The type of the items of a memory region.
#[derive(Clone, Copy, Debug, PartialEq, Eq, Structural)]
pub enum ScalarType {
    Bit,
    Integer,
    Octet,
    Real,
}

/// A step into a region that another region shares.
#[derive(Clone, Copy, Debug, PartialEq, Eq, Structural)]
pub struct Offset {
    pub offset: u64,
    pub data_type: ScalarType,
}

/// The region that a declared region shares, and where in it.
#[derive(Debug, PartialEq, Eq)]
pub struct Sharing {
    pub name: String,
    pub offsets: Vec<Offset>,
}

/// What a [`Sharing`] holds.
pub struct SharingView {
    pub name: Seq<char>,
    pub offsets: Seq<Offset>,
}

impl View for Sharing {
    type V = SharingView;

    open spec fn view(&self) -> SharingView {
        SharingView { name: self.name@, offsets: self.offsets@ }
    }
}

impl Clone for Sharing {
    fn clone(&self) -> (r: Self)
        ensures
            r@ == self@,
    {
        let offsets = self.offsets.clone();
        assert(offsets@ =~= self.offsets@);
        Sharing { name: self.name.clone(), offsets }
    }
}

/// The view of an optional sharing.
pub open spec fn sharing_view(sharing: Option<Sharing>) -> Option<SharingView> {
    match sharing {
        Some(shared) => Some(shared@),
        None => None,
    }
}

/// A named memory region: the type and number of its items, and the region it
/// shares, if any.
#[derive(Debug, PartialEq, Eq)]
pub struct Declaration {
    pub name: String,
    pub data_type: ScalarType,
    pub length: u64,
    pub sharing: Option<Sharing>,
}

/// What a [`Declaration`] holds.
pub struct DeclarationView {
    pub name: Seq<char>,
    pub data_type: ScalarType,
    pub length: u64,
    pub sharing: Option<SharingView>,
}

impl View for Declaration {
    type V = DeclarationView;

    open spec fn view(&self) -> DeclarationView {
        DeclarationView {
            name: self.name@,
            data_type: self.data_type,
            length: self.length,
            sharing: sharing_view(self.sharing),
        }
    }
}

impl Clone for Declaration {
    fn clone(&self) -> (r: Self)
        ensures
            r@ == self@,
    {
        let sharing = match &self.sharing {
            Some(shared) => Some(shared.clone()),
            None => None,
        };
        Declaration {
            name: self.name.clone(),
            data_type: self.data_type,
            length: self.length,
            sharing,
        }
    }
}

/// The application of a gate to qubits.
#[derive(Debug, PartialEq, Eq)]
pub struct Gate {
    pub name: String,
    pub parameters: Vec<Expression>,
    pub qubits: Vec<QubitDesignator>,
    pub modifiers: Vec<GateModifier>,
}

/// What a [`Gate`] holds.
pub struct GateView {
    pub name: Seq<char>,
    pub parameters: Seq<ExpressionView>,
    pub qubits: Seq<QubitView>,
    pub modifiers: Seq<GateModifier>,
}

impl View for Gate {
    type V = GateView;

    open spec fn view(&self) -> GateView {
        GateView {
            name: self.name@,
            parameters: views(self.parameters@),
            qubits: views(self.qubits@),
            modifiers: self.modifiers@,
        }
    }
}

/// A copy of a list of expressions.
fn clone_expressions(items: &Vec<Expression>) -> (r: Vec<Expression>)
    ensures
        views(r@) == views(items@),
{
    let r = items.clone();
    assert(views(r@) =~= views(items@));
    r
}

/// A copy of a list of qubits.
fn clone_qubits(items: &Vec<QubitDesignator>) -> (r: Vec<QubitDesignator>)
    ensures
        views(r@) == views(items@),
{
    let r = items.clone();
    assert(views(r@) =~= views(items@));
    r
}

/// A copy of a list of gate modifiers.
fn clone_modifiers(items: &Vec<GateModifier>) -> (r: Vec<GateModifier>)
    ensures
        r@ == items@,
{
    let r = items.clone();
    assert(r@ =~= items@);
    r
}

impl Clone for Gate {
    fn clone(&self) -> (r: Self)
        ensures
            r@ == self@,
    {
        Gate {
            name: self.name.clone(),
            parameters: clone_expressions(&self.parameters),
            qubits: clone_qubits(&self.qubits),
            modifiers: clone_modifiers(&self.modifiers),
        }
    }
}

/// The failure to construct a calibration definition: the message of the
/// rule that turned it down, as it came.
#[derive(Debug, PartialEq, Eq)]
pub struct ConstructionError {
    pub message: String,
}

/// How a gate, by name, parameters and qubits, expands into instructions.
#[derive(Debug, PartialEq, Eq)]
pub struct DefCalibration {
    name: String,
    parameters: Vec<Expression>,
    qubits: Vec<QubitDesignator>,
    instructions: Vec<Instruction>,
    modifiers: Vec<GateModifier>,
}

/// What a [`DefCalibration`] holds.
pub struct DefCalibrationView {
    pub name: Seq<char>,
    pub parameters: Seq<ExpressionView>,
    pub qubits: Seq<QubitView>,
    pub instructions: Seq<InstructionView>,
    pub modifiers: Seq<GateModifier>,
}

/// How a measurement, of one fixed qubit or of any, expands into
/// instructions.
#[derive(Debug, PartialEq, Eq)]
pub struct DefMeasureCalibration {
    qubit: Option<QubitDesignator>,
    parameter: String,
    instructions: Vec<Instruction>,
}

/// What a [`DefMeasureCalibration`] holds.
pub struct DefMeasureCalibrationView {
    pub qubit: Option<QubitView>,
    pub parameter: Seq<char>,
    pub instructions: Seq<InstructionView>,
}

/// One instruction of a program.
#[derive(Debug, PartialEq, Eq)]
pub enum Instruction {
    Gate(Gate),
    Declaration(Declaration),
    CalibrationDefinition(DefCalibration),
    MeasureCalibrationDefinition(DefMeasureCalibration),
    /// An instruction of any other kind, as its Quil text.
    Other(String),
}

/// What an [`Instruction`] holds.
pub enum InstructionView {
    Gate(GateView),
    Declaration(DeclarationView),
    CalibrationDefinition(DefCalibrationView),
    MeasureCalibrationDefinition(DefMeasureCalibrationView),
    Other(Seq<char>),
}

/// The view of an optional qubit.
pub open spec fn qubit_view(qubit: Option<QubitDesignator>) -> Option<QubitView> {
    match qubit {
        Some(q) => Some(q@),
        None => None,
    }
}

/// The views of a list of instructions, in the same order.
pub open spec fn instruction_views(items: Seq<Instruction>) -> Seq<InstructionView>
    decreases items,
{
    if items.len() == 0 {
        Seq::empty()
    } else {
        instruction_views(items.drop_last()).push(items.last().view())
    }
}

/// `instruction_views` is `views` on instructions.
pub proof fn lemma_instruction_views(items: Seq<Instruction>)
    ensures
        instruction_views(items) == views(items),
    decreases items.len(),
{
    if items.len() == 0 {
        assert(views(items) =~= Seq::empty());
    } else {
        lemma_instruction_views(items.drop_last());
        assert(views(items) =~= views(items.drop_last()).push(items.last()@));
    }
}

impl View for Instruction {
    type V = InstructionView;

    open spec fn view(&self) -> InstructionView
        decreases self,
    {
        match self {
            Instruction::Gate(gate) => InstructionView::Gate(gate@),
            Instruction::Declaration(declaration) => InstructionView::Declaration(declaration@),
            Instruction::CalibrationDefinition(calibration) => {
                InstructionView::CalibrationDefinition(calibration.view())
            },
            Instruction::MeasureCalibrationDefinition(calibration) => {
                InstructionView::MeasureCalibrationDefinition(calibration.view())
            },
            Instruction::Other(text) => InstructionView::Other(text@),
        }
    }
}

impl View for DefCalibration {
    type V = DefCalibrationView;

    closed spec fn view(&self) -> DefCalibrationView
        decreases self,
    {
        DefCalibrationView {
            name: self.name@,
            parameters: views(self.parameters@),
            qubits: views(self.qubits@),
            instructions: instruction_views(self.instructions@),
            modifiers: self.modifiers@,
        }
    }
}

impl View for DefMeasureCalibration {
    type V = DefMeasureCalibrationView;

    closed spec fn view(&self) -> DefMeasureCalibrationView
        decreases self,
    {
        DefMeasureCalibrationView {
            qubit: qubit_view(self.qubit),
            parameter: self.parameter@,
            instructions: instruction_views(self.instructions@),
        }
    }
}

impl DefCalibration {
    /// The instructions of the view are the views of the instructions.
    proof fn lemma_view_instructions(&self)
        ensures
            self@.instructions == views(self.instructions@),
    {
        lemma_instruction_views(self.instructions@);
    }
}

impl DefMeasureCalibration {
    /// The instructions of the view are the views of the instructions.
    proof fn lemma_view_instructions(&self)
        ensures
            self@.instructions == views(self.instructions@),
    {
        lemma_instruction_views(self.instructions@);
    }
}

impl Instruction {
    /// A copy of the instruction, with copies of all it holds.
    fn duplicate(&self) -> (r: Self)
        ensures
            r@ == self@,
        decreases self,
    {
        match self {
            Instruction::Gate(gate) => Instruction::Gate(gate.clone()),
            Instruction::Declaration(declaration) => Instruction::Declaration(declaration.clone()),
            Instruction::CalibrationDefinition(calibration) => Instruction::CalibrationDefinition(
                calibration.duplicate(),
            ),
            Instruction::MeasureCalibrationDefinition(calibration) => {
                Instruction::MeasureCalibrationDefinition(calibration.duplicate())
            },
            Instruction::Other(text) => Instruction::Other(text.clone()),
        }
    }
}

/// A copy of a list of instructions.
pub(crate) fn clone_instructions(items: &Vec<Instruction>) -> (r: Vec<Instruction>)
    ensures
        views(r@) == views(items@),
    decreases items,
{
    let mut r: Vec<Instruction> = Vec::new();
    let mut i: usize = 0;
    while i < items.len()
        invariant
            i <= items.len(),
            r.len() == i,
            forall|j: int| 0 <= j < i ==> r[j]@ == items[j]@,
        decreases items.len() - i,
    {
        r.push(items[i].duplicate());
        i = i + 1;
    }
    assert(views(r@) =~= views(items@));
    r
}

impl DefCalibration {
    /// A copy of the definition, with copies of all it holds.
    fn duplicate(&self) -> (r: Self)
        ensures
            r@ == self@,
        decreases self,
    {
        let r = DefCalibration {
            name: self.name.clone(),
            parameters: clone_expressions(&self.parameters),
            qubits: clone_qubits(&self.qubits),
            instructions: clone_instructions(&self.instructions),
            modifiers: clone_modifiers(&self.modifiers),
        };
        proof {
            r.lemma_view_instructions();
            self.lemma_view_instructions();
        }
        r
    }
}

impl DefMeasureCalibration {
    /// A copy of the definition, with copies of all it holds.
    fn duplicate(&self) -> (r: Self)
        ensures
            r@ == self@,
        decreases self,
    {
        let qubit = match &self.qubit {
            Some(q) => Some(q.clone()),
            None => None,
        };
        let r = DefMeasureCalibration {
            qubit,
            parameter: self.parameter.clone(),
            instructions: clone_instructions(&self.instructions),
        };
        proof {
            r.lemma_view_instructions();
            self.lemma_view_instructions();
        }
        r
    }
}

impl Clone for Instruction {
    fn clone(&self) -> (r: Self)
        ensures
            r@ == self@,
    {
        self.duplicate()
    }
}

impl Clone for DefCalibration {
    fn clone(&self) -> (r: Self)
        ensures
            r@ == self@,
    {
        self.duplicate()
    }
}

impl Clone for DefMeasureCalibration {
    fn clone(&self) -> (r: Self)
        ensures
            r@ == self@,
    {
        self.duplicate()
    }
}

/// Whether each expression of a list stands for the parameter at its place
/// in another.
pub open spec fn express_all(
    expressions: Seq<ExpressionView>,
    parameters: Seq<ParameterView>,
) -> bool {
    &&& expressions.len() == parameters.len()
    &&& forall|i: int|
        0 <= i < expressions.len() ==> expresses(#[trigger] expressions[i], parameters[i])
}

/// The parameters that a list of expressions comes back as.
pub open spec fn parameters_of(expressions: Seq<ExpressionView>) -> Seq<ParameterView> {
    expressions.map_values(|expression: ExpressionView| parameter_of(expression))
}

/// The modifiers of a gate on which none were named: none.
pub open spec fn modifiers_or_none(modifiers: Option<Vec<GateModifier>>) -> Seq<GateModifier> {
    match modifiers {
        Some(list) => list@,
        None => Seq::empty(),
    }
}

/// The expressions that stand for a list of parameters.
pub fn expressions_from(parameters: Vec<Parameter>) -> (r: Vec<Expression>)
    ensures
        express_all(views(r@), views(parameters@)),
{
    let mut r: Vec<Expression> = Vec::new();
    let mut i: usize = 0;
    while i < parameters.len()
        invariant
            i <= parameters.len(),
            r.len() == i,
            forall|j: int| 0 <= j < i ==> expresses(r[j]@, parameters[j]@),
        decreases parameters.len() - i,
    {
        r.push(Expression::from(parameters[i].clone()));
        i = i + 1;
    }
    r
}

/// The parameters that a list of expressions comes back as.
pub fn parameters_from(expressions: &Vec<Expression>) -> (r: Vec<Parameter>)
    ensures
        views(r@) == parameters_of(views(expressions@)),
{
    let mut r: Vec<Parameter> = Vec::new();
    let mut i: usize = 0;
    while i < expressions.len()
        invariant
            i <= expressions.len(),
            r.len() == i,
            forall|j: int| 0 <= j < i ==> r[j]@ == parameter_of(expressions[j]@),
        decreases expressions.len() - i,
    {
        r.push(Parameter::from(expressions[i].clone()));
        i = i + 1;
    }
    assert(views(r@) =~= parameters_of(views(expressions@)));
    r
}

impl DefCalibration {
    /// Whether the definition is one that `new` gives: its name is an
    /// identifier.
    pub open spec fn well_formed(&self) -> bool {
        is_identifier(self@.name)
    }

    /// A calibration definition for gates called `name`. The parameters are kept
    /// as the expressions that stand for them; without modifiers there are
    /// none. Fails, with the message of the rule, exactly when the name is
    /// not an identifier.
    pub fn new(
        name: &str,
        parameters: Vec<Parameter>,
        qubits: Vec<QubitDesignator>,
        instructions: Vec<Instruction>,
        modifiers: Option<Vec<GateModifier>>,
    ) -> (r: Result<DefCalibration, ConstructionError>)
        ensures
            r is Ok <==> is_identifier(name@),
            r is Ok ==> {
                let made = r->Ok_0@;
                &&& r->Ok_0.well_formed()
                &&& made.name == name@
                &&& express_all(made.parameters, views(parameters@))
                &&& made.qubits == views(qubits@)
                &&& made.instructions == views(instructions@)
                &&& made.modifiers == modifiers_or_none(modifiers)
            },
            r is Err ==> r->Err_0.message@ == invalid_identifier_message(name@),
    {
        match validate_identifier(name) {
            Err(message) => Err(ConstructionError { message }),
            Ok(()) => {
                let modifiers = match modifiers {
                    Some(list) => list,
                    None => Vec::new(),
                };
                let made = DefCalibration {
                    name: name.to_owned(),
                    parameters: expressions_from(parameters),
                    qubits,
                    instructions,
                    modifiers,
                };
                proof {
                    made.lemma_view_instructions();
                }
                Ok(made)
            },
        }
    }

    /// The name under which gates match, fixed at construction.
    pub fn name(&self) -> (r: String)
        ensures
            r@ == self@.name,
    {
        self.name.clone()
    }

    /// The modifiers under which gates match, fixed at construction.
    pub fn modifiers(&self) -> (r: Vec<GateModifier>)
        ensures
            r@ == self@.modifiers,
    {
        clone_modifiers(&self.modifiers)
    }

    /// The parameters, each as the parameter that its expression comes back
    /// as.
    pub fn parameters(&self) -> (r: Vec<Parameter>)
        ensures
            views(r@) == parameters_of(self@.parameters),
    {
        parameters_from(&self.parameters)
    }

    /// Replaces all parameters by the expressions that stand for the given
    /// ones.
    pub fn set_parameters(&mut self, parameters: Vec<Parameter>)
        ensures
            express_all(final(self)@.parameters, views(parameters@)),
            final(self)@.name == old(self)@.name,
            final(self)@.qubits == old(self)@.qubits,
            final(self)@.instructions == old(self)@.instructions,
            final(self)@.modifiers == old(self)@.modifiers,
    {
        self.parameters = expressions_from(parameters);
    }

    /// The qubits.
    pub fn qubits(&self) -> (r: Vec<QubitDesignator>)
        ensures
            views(r@) == self@.qubits,
    {
        clone_qubits(&self.qubits)
    }

    /// Replaces all qubits by the given ones.
    pub fn set_qubits(&mut self, qubits: Vec<QubitDesignator>)
        ensures
            final(self)@.qubits == views(qubits@),
            final(self)@.name == old(self)@.name,
            final(self)@.parameters == old(self)@.parameters,
            final(self)@.instructions == old(self)@.instructions,
            final(self)@.modifiers == old(self)@.modifiers,
    {
        self.qubits = qubits;
    }

    /// The instructions that a matching gate expands into.
    pub fn instrs(&self) -> (r: Vec<Instruction>)
        ensures
            views(r@) == self@.instructions,
    {
        proof {
            self.lemma_view_instructions();
        }
        clone_instructions(&self.instructions)
    }

    /// Replaces all instructions by the given ones.
    pub fn set_instrs(&mut self, instructions: Vec<Instruction>)
        ensures
            final(self)@.instructions == views(instructions@),
            final(self)@.name == old(self)@.name,
            final(self)@.parameters == old(self)@.parameters,
            final(self)@.qubits == old(self)@.qubits,
            final(self)@.modifiers == old(self)@.modifiers,
    {
        self.instructions = instructions;
        proof {
            self.lemma_view_instructions();
        }
    }
}

impl DefMeasureCalibration {
    /// A calibration definition for the measurement of `qubit`, or of any
    /// qubit where none is given. The memory reference is kept as its text.
    pub fn new(
        qubit: Option<QubitDesignator>,
        memory_reference: MemoryReference,
        instrs: Vec<Instruction>,
    ) -> (r: DefMeasureCalibration)
        ensures
            r@.qubit == qubit_view(qubit),
            r@.parameter == memory_reference_text(
                memory_reference@.name,
                memory_reference@.index,
            ),
            r@.instructions == views(instrs@),
    {
        let parameter = memory_reference_to_string(
            memory_reference.name.as_str(),
            memory_reference.index,
        );
        let made = DefMeasureCalibration { qubit, parameter, instructions: instrs };
        proof {
            made.lemma_view_instructions();
        }
        made
    }

    /// A calibration definition whose memory reference is given as the text
    /// that is kept, which may be a bare name: the form in which a definition
    /// read from a program text has it.
    pub fn from_parameter(
        qubit: Option<QubitDesignator>,
        parameter: String,
        instrs: Vec<Instruction>,
    ) -> (r: DefMeasureCalibration)
        ensures
            r@.qubit == qubit_view(qubit),
            r@.parameter == parameter@,
            r@.instructions == views(instrs@),
    {
        let made = DefMeasureCalibration { qubit, parameter, instructions: instrs };
        proof {
            made.lemma_view_instructions();
        }
        made
    }

    /// The text of the memory reference that the measurement writes to.
    pub fn parameter(&self) -> (r: String)
        ensures
            r@ == self@.parameter,
    {
        self.parameter.clone()
    }

    /// The qubit, if the definition is for one.
    pub fn qubit(&self) -> (r: Option<QubitDesignator>)
        ensures
            qubit_view(r) == self@.qubit,
    {
        match &self.qubit {
            Some(q) => Some(q.clone()),
            None => None,
        }
    }

    /// Replaces the qubit by the given one, or by none.
    pub fn set_qubit(&mut self, qubit: Option<QubitDesignator>)
        ensures
            final(self)@.qubit == qubit_view(qubit),
            final(self)@.parameter == old(self)@.parameter,
            final(self)@.instructions == old(self)@.instructions,
    {
        self.qubit = qubit;
    }

    /// The instructions that the measurement expands into.
    pub fn instrs(&self) -> (r: Vec<Instruction>)
        ensures
            views(r@) == self@.instructions,
    {
        proof {
            self.lemma_view_instructions();
        }
        clone_instructions(&self.instructions)
    }

    /// Replaces all instructions by the given ones.
    pub fn set_instrs(&mut self, instructions: Vec<Instruction>)
        ensures
            final(self)@.instructions == views(instructions@),
            final(self)@.qubit == old(self)@.qubit,
            final(self)@.parameter == old(self)@.parameter,
    {
        self.instructions = instructions;
        proof {
            self.lemma_view_instructions();
        }
    }
}

} // verus!
