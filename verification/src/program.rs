//! Whole programs.
//!
//! A [`Program`] keeps the declared memory regions, the calibration
//! definitions and the remaining instructions apart. Regions are kept by name,
//! in the order in which their names were first declared; a later declaration
//! of a name takes the place of the earlier one. The instructions of a program,
//! read back, are its declarations followed by its body.

use crate::instruction::{
    clone_instructions, DeclarationView, DefCalibration, DefCalibrationView,
    DefMeasureCalibration, DefMeasureCalibrationView, Declaration, Instruction, InstructionView,
};
use crate::ordered_map::{index_map_entries, index_map_insert, index_map_new};
use crate::seq_view::views;
use indexmap::IndexMap;
use vstd::prelude::*;
use vstd::string::StringExecFns;

verus! {

/// A program: its regions, its calibration definitions, its body, and how
/// often it is to run.
#[derive(Debug, PartialEq, Eq)]
pub struct Program {
    declarations: Vec<Declaration>,
    calibrations: Vec<DefCalibration>,
    measure_calibrations: Vec<DefMeasureCalibration>,
    body: Vec<Instruction>,
    num_shots: u64,
}

/// What a [`Program`] holds.
pub struct ProgramView {
    pub declarations: Seq<DeclarationView>,
    pub calibrations: Seq<DefCalibrationView>,
    pub measure_calibrations: Seq<DefMeasureCalibrationView>,
    pub body: Seq<InstructionView>,
    pub num_shots: u64,
}

/// What a program is made from.
#[derive(Debug, PartialEq, Eq)]
pub enum InstructionDesignator {
    /// One instruction.
    Instruction(Instruction),
    /// A program text, as what the parser made of it: the instructions that
    /// it read, or its message where it could not read the text.
    Serialized(Result<Vec<Instruction>, String>),
    /// Another program.
    Program(Program),
}

/// The failure to read a program text.
#[derive(Debug, PartialEq, Eq)]
pub struct ParseError {
    pub message: String,
}

/// No two declarations have the same name.
pub open spec fn distinct_names(declarations: Seq<DeclarationView>) -> bool {
    forall|i: int, j: int|
        0 <= i < j < declarations.len() ==> (#[trigger] declarations[i]).name != (
        #[trigger] declarations[j]).name
}

/// Whether an instruction belongs to the body of a program: it is neither a
/// declaration nor a calibration definition.
pub open spec fn is_body_instruction(instruction: InstructionView) -> bool {
    &&& !(instruction is Declaration)
    &&& !(instruction is CalibrationDefinition)
    &&& !(instruction is MeasureCalibrationDefinition)
}

/// What holds of every program: region names are distinct, and the body
/// holds body instructions only.
pub open spec fn well_formed(program: ProgramView) -> bool {
    &&& distinct_names(program.declarations)
    &&& forall|i: int|
        0 <= i < program.body.len() ==> is_body_instruction(#[trigger] program.body[i])
}

/// The program without regions, definitions or instructions.
pub open spec fn empty_program(num_shots: u64) -> ProgramView {
    ProgramView {
        declarations: Seq::empty(),
        calibrations: Seq::empty(),
        measure_calibrations: Seq::empty(),
        body: Seq::empty(),
        num_shots,
    }
}

/// The regions after one more declaration: it takes the place of the
/// declaration of the same name, or comes last where there is none.
pub open spec fn declare(
    declarations: Seq<DeclarationView>,
    declaration: DeclarationView,
) -> Seq<DeclarationView>
    decreases declarations.len(),
{
    if declarations.len() == 0 {
        seq![declaration]
    } else if declarations[0].name == declaration.name {
        declarations.update(0, declaration)
    } else {
        seq![declarations[0]] + declare(declarations.drop_first(), declaration)
    }
}

/// The program after one more instruction: a declaration goes to the regions,
/// a calibration definition to the definitions of its kind, any other
/// instruction to the end of the body.
pub open spec fn with_instruction(program: ProgramView, instruction: InstructionView) -> ProgramView {
    match instruction {
        InstructionView::Declaration(declaration) => ProgramView {
            declarations: declare(program.declarations, declaration),
            ..program
        },
        InstructionView::CalibrationDefinition(calibration) => ProgramView {
            calibrations: program.calibrations.push(calibration),
            ..program
        },
        InstructionView::MeasureCalibrationDefinition(calibration) => ProgramView {
            measure_calibrations: program.measure_calibrations.push(calibration),
            ..program
        },
        _ => ProgramView { body: program.body.push(instruction), ..program },
    }
}

/// The program after a list of instructions, one after the other.
pub open spec fn with_instructions(
    program: ProgramView,
    instructions: Seq<InstructionView>,
) -> ProgramView
    decreases instructions.len(),
{
    if instructions.len() == 0 {
        program
    } else {
        with_instruction(
            with_instructions(program, instructions.drop_last()),
            instructions.last(),
        )
    }
}

/// The instructions of a program as they are read back: one declaration for
/// each region, in the order of the regions, then the body.
pub open spec fn hoisted(program: ProgramView) -> Seq<InstructionView> {
    program.declarations.map_values(
        |declaration: DeclarationView| InstructionView::Declaration(declaration),
    ) + program.body
}

/// The regions of a program as entries of a map: each under its name.
pub open spec fn region_entries(program: ProgramView) -> Seq<(Seq<char>, DeclarationView)> {
    program.declarations.map_values(
        |declaration: DeclarationView| (declaration.name, declaration),
    )
}

/// The message of the failure to read a program text.
pub open spec fn parse_failure_message(message: Seq<char>) -> Seq<char> {
    "Failed to parse Quil program: "@ + message
}

/// Where the name is not declared, the declaration comes last.
pub proof fn lemma_declare_new(declarations: Seq<DeclarationView>, declaration: DeclarationView)
    requires
        forall|i: int|
            0 <= i < declarations.len() ==> (#[trigger] declarations[i]).name != declaration.name,
    ensures
        declare(declarations, declaration) == declarations.push(declaration),
    decreases declarations.len(),
{
    if declarations.len() > 0 {
        lemma_declare_new(declarations.drop_first(), declaration);
        assert(seq![declarations[0]] + declarations.drop_first().push(declaration)
            =~= declarations.push(declaration));
    }
}

/// Where the name is declared, the declaration takes the first place that
/// has the name.
pub proof fn lemma_declare_again(
    declarations: Seq<DeclarationView>,
    declaration: DeclarationView,
    place: int,
)
    requires
        0 <= place < declarations.len(),
        declarations[place].name == declaration.name,
        forall|i: int| 0 <= i < place ==> (#[trigger] declarations[i]).name != declaration.name,
    ensures
        declare(declarations, declaration) == declarations.update(place, declaration),
    decreases declarations.len(),
{
    if place > 0 {
        lemma_declare_again(declarations.drop_first(), declaration, place - 1);
        assert(seq![declarations[0]] + declarations.drop_first().update(place - 1, declaration)
            =~= declarations.update(place, declaration));
    }
}

/// Declaring keeps the names distinct.
pub proof fn lemma_declare_distinct(
    declarations: Seq<DeclarationView>,
    declaration: DeclarationView,
)
    requires
        distinct_names(declarations),
    ensures
        distinct_names(declare(declarations, declaration)),
{
    if exists|i: int| 0 <= i < declarations.len() && (#[trigger] declarations[i]).name
        == declaration.name {
        let place = choose|i: int| 0 <= i < declarations.len() && (#[trigger] declarations[i]).name
            == declaration.name;
        lemma_declare_again(declarations, declaration, place);
    } else {
        lemma_declare_new(declarations, declaration);
    }
}

/// One more instruction keeps a program well formed.
pub proof fn lemma_with_instruction_well_formed(program: ProgramView, instruction: InstructionView)
    requires
        well_formed(program),
    ensures
        well_formed(with_instruction(program, instruction)),
{
    if let InstructionView::Declaration(declaration) = instruction {
        lemma_declare_distinct(program.declarations, declaration);
    }
}

/// The given shot count, or another where none is given.
pub open spec fn shots_or(num_shots: Option<u64>, otherwise: u64) -> u64 {
    match num_shots {
        Some(shots) => shots,
        None => otherwise,
    }
}

/// The shot count of a program on which none is named: one.
pub open spec fn shots_or_one(num_shots: Option<u64>) -> u64 {
    shots_or(num_shots, 1)
}

impl View for Program {
    type V = ProgramView;

    closed spec fn view(&self) -> ProgramView {
        ProgramView {
            declarations: views(self.declarations@),
            calibrations: views(self.calibrations@),
            measure_calibrations: views(self.measure_calibrations@),
            body: views(self.body@),
            num_shots: self.num_shots,
        }
    }
}

/// A copy of a list of declarations.
fn clone_declarations(items: &Vec<Declaration>) -> (r: Vec<Declaration>)
    ensures
        views(r@) == views(items@),
{
    let r = items.clone();
    assert(views(r@) =~= views(items@));
    r
}

/// A copy of a list of calibration definitions.
fn clone_calibrations(items: &Vec<DefCalibration>) -> (r: Vec<DefCalibration>)
    ensures
        views(r@) == views(items@),
{
    let r = items.clone();
    assert(views(r@) =~= views(items@));
    r
}

/// A copy of a list of measurement calibration definitions.
fn clone_measure_calibrations(items: &Vec<DefMeasureCalibration>) -> (r: Vec<
    DefMeasureCalibration,
>)
    ensures
        views(r@) == views(items@),
{
    let r = items.clone();
    assert(views(r@) =~= views(items@));
    r
}

/// The regions after one more declaration.
fn declare_region(declarations: Vec<Declaration>, declaration: Declaration) -> (r: Vec<
    Declaration,
>)
    ensures
        views(r@) == declare(views(declarations@), declaration@),
{
    let mut declarations = declarations;
    let ghost before = views(declarations@);
    let mut place: usize = 0;
    while place < declarations.len() && declarations[place].name != declaration.name
        invariant
            place <= declarations.len(),
            views(declarations@) == before,
            forall|i: int| 0 <= i < place ==> (#[trigger] before[i]).name != declaration@.name,
        decreases declarations.len() - place,
    {
        place = place + 1;
    }
    if place < declarations.len() {
        proof {
            lemma_declare_again(before, declaration@, place as int);
        }
        declarations.set(place, declaration);
        assert(views(declarations@) =~= before.update(place as int, declaration@));
    } else {
        proof {
            lemma_declare_new(before, declaration@);
        }
        declarations.push(declaration);
        assert(views(declarations@) =~= before.push(declaration@));
    }
    declarations
}

impl Program {
    #[verifier::type_invariant]
    spec fn valid(&self) -> bool {
        well_formed(self@)
    }

    /// The program without regions, definitions or instructions.
    fn empty(num_shots: u64) -> (r: Program)
        ensures
            r@ == empty_program(num_shots),
    {
        let declarations: Vec<Declaration> = Vec::new();
        let calibrations: Vec<DefCalibration> = Vec::new();
        let measure_calibrations: Vec<DefMeasureCalibration> = Vec::new();
        let body: Vec<Instruction> = Vec::new();
        proof {
            assert(views(declarations@) =~= Seq::empty());
            assert(views(calibrations@) =~= Seq::empty());
            assert(views(measure_calibrations@) =~= Seq::empty());
            assert(views(body@) =~= Seq::empty());
        }
        Program { declarations, calibrations, measure_calibrations, body, num_shots }
    }

    /// A program from nothing, from one instruction, from what the parser
    /// made of a text, or from another program, of which it takes everything
    /// but the shot count. The shot count is the given one. Where none is
    /// given it is one, but for a program from another program, which then
    /// keeps the shot count of its source. Fails exactly when the parser
    /// failed, with its message behind a fixed prefix.
    pub fn new(instructions: Option<InstructionDesignator>, num_shots: Option<u64>) -> (r: Result<
        Program,
        ParseError,
    >)
        ensures
            match instructions {
                None => r is Ok && r->Ok_0@ == empty_program(shots_or_one(num_shots)),
                Some(InstructionDesignator::Instruction(instruction)) => {
                    &&& r is Ok
                    &&& r->Ok_0@ == with_instruction(
                        empty_program(shots_or_one(num_shots)),
                        instruction@,
                    )
                },
                Some(InstructionDesignator::Serialized(Ok(list))) => {
                    &&& r is Ok
                    &&& r->Ok_0@ == with_instructions(
                        empty_program(shots_or_one(num_shots)),
                        views(list@),
                    )
                },
                Some(InstructionDesignator::Serialized(Err(message))) => {
                    &&& r is Err
                    &&& r->Err_0.message@ == parse_failure_message(message@)
                },
                Some(InstructionDesignator::Program(program)) => {
                    &&& r is Ok
                    &&& r->Ok_0@ == (ProgramView {
                        num_shots: shots_or(num_shots, program@.num_shots),
                        ..program@
                    })
                },
            },
            r is Ok ==> well_formed(r->Ok_0@),
    {
        let shots: u64 = match num_shots {
            Some(shots) => shots,
            None => 1,
        };
        match instructions {
            None => {
                let made = Program::empty(shots);
                proof {
                    use_type_invariant(&made);
                }
                Ok(made)
            },
            Some(InstructionDesignator::Instruction(instruction)) => {
                let made = Program::empty(shots).with_instruction(instruction);
                Ok(made)
            },
            Some(InstructionDesignator::Serialized(Ok(list))) => {
                let mut made = Program::empty(shots);
                let mut i: usize = 0;
                while i < list.len()
                    invariant
                        i <= list.len(),
                        made@ == with_instructions(
                            empty_program(shots),
                            views(list@).take(i as int),
                        ),
                    decreases list.len() - i,
                {
                    proof {
                        assert(views(list@).take(i + 1).drop_last() =~= views(list@).take(
                            i as int,
                        ));
                    }
                    made = made.with_instruction(list[i].clone());
                    i = i + 1;
                }
                proof {
                    assert(views(list@).take(i as int) =~= views(list@));
                    use_type_invariant(&made);
                }
                Ok(made)
            },
            Some(InstructionDesignator::Serialized(Err(message))) => {
                let text = String::from_str("Failed to parse Quil program: ").concat(
                    message.as_str(),
                );
                Err(ParseError { message: text })
            },
            Some(InstructionDesignator::Program(program)) => {
                let mut made = program;
                match num_shots {
                    Some(given) => {
                        made.set_num_shots(given);
                    },
                    None => {},
                }
                proof {
                    use_type_invariant(&made);
                }
                Ok(made)
            },
        }
    }

    /// The program after one more instruction.
    ///
    /// A declaration goes to the regions: it takes the place of the region of
    /// the same name, or comes last where no region has the name. A
    /// calibration definition goes to the end of the definitions of its kind,
    /// whatever they hold already. Every other instruction goes to the end of
    /// the body: a gate, and whatever is held as text, definitions of frames,
    /// waveforms and gates among it.
    ///
    /// That regions keep the order in which their names were first declared,
    /// and not the order of their names, is this library's choice; so is
    /// that every instruction held as text stays in the body.
    pub fn with_instruction(self, instruction: Instruction) -> (r: Program)
        ensures
            r@ == with_instruction(self@, instruction@),
            well_formed(r@),
    {
        proof {
            use_type_invariant(&self);
            lemma_with_instruction_well_formed(self@, instruction@);
        }
        let Program { declarations, calibrations, measure_calibrations, body, num_shots } = self;
        match instruction {
            Instruction::Declaration(declaration) => {
                let declarations = declare_region(declarations, declaration);
                Program { declarations, calibrations, measure_calibrations, body, num_shots }
            },
            Instruction::CalibrationDefinition(calibration) => {
                let mut calibrations = calibrations;
                let ghost before = views(calibrations@);
                calibrations.push(calibration);
                assert(views(calibrations@) =~= before.push(calibration@));
                Program { declarations, calibrations, measure_calibrations, body, num_shots }
            },
            Instruction::MeasureCalibrationDefinition(calibration) => {
                let mut measure_calibrations = measure_calibrations;
                let ghost before = views(measure_calibrations@);
                measure_calibrations.push(calibration);
                assert(views(measure_calibrations@) =~= before.push(calibration@));
                Program { declarations, calibrations, measure_calibrations, body, num_shots }
            },
            other => {
                let mut body = body;
                let ghost before = views(body@);
                body.push(other);
                assert(views(body@) =~= before.push(other@));
                Program { declarations, calibrations, measure_calibrations, body, num_shots }
            },
        }
    }

    /// How often the program is to run.
    pub fn num_shots(&self) -> (r: u64)
        ensures
            r == self@.num_shots,
    {
        self.num_shots
    }

    /// Sets how often the program is to run, and nothing else.
    pub fn set_num_shots(&mut self, num_shots: u64)
        ensures
            final(self)@ == (ProgramView { num_shots, ..old(self)@ }),
    {
        proof {
            use_type_invariant(&*self);
        }
        self.num_shots = num_shots;
    }

    /// The calibration definitions for gates, in their order.
    pub fn calibrations(&self) -> (r: Vec<DefCalibration>)
        ensures
            views(r@) == self@.calibrations,
    {
        clone_calibrations(&self.calibrations)
    }

    /// The calibration definitions for measurements, in their order.
    pub fn measure_calibrations(&self) -> (r: Vec<DefMeasureCalibration>)
        ensures
            views(r@) == self@.measure_calibrations,
    {
        clone_measure_calibrations(&self.measure_calibrations)
    }

    /// One declaration for each region, in the order of the regions.
    pub fn iter_declarations(&self) -> (r: Vec<Declaration>)
        ensures
            views(r@) == self@.declarations,
            distinct_names(views(r@)),
    {
        proof {
            use_type_invariant(self);
        }
        clone_declarations(&self.declarations)
    }

    /// The regions by name, in the order of the regions.
    pub fn declarations(&self) -> (r: IndexMap<String, Declaration>)
        ensures
            index_map_entries(r) == region_entries(self@),
            index_map_entries(r).len() == self@.declarations.len(),
    {
        proof {
            use_type_invariant(self);
        }
        let mut map = index_map_new();
        let mut i: usize = 0;
        while i < self.declarations.len()
            invariant
                i <= self.declarations.len(),
                distinct_names(views(self.declarations@)),
                index_map_entries(map) == region_entries(self@).take(i as int),
            decreases self.declarations.len() - i,
        {
            let declaration = self.declarations[i].clone();
            let name = declaration.name.clone();
            proof {
                let entries = index_map_entries(map);
                assert forall|j: int| 0 <= j < entries.len() implies (#[trigger] entries[j]).0
                    != name@ by {
                    assert(entries[j].0 == views(self.declarations@)[j].name);
                    assert(name@ == views(self.declarations@)[i as int].name);
                }
                assert(region_entries(self@).take(i + 1) =~= region_entries(self@).take(
                    i as int,
                ).push((name@, declaration@)));
            }
            index_map_insert(&mut map, name, declaration);
            i = i + 1;
        }
        assert(region_entries(self@).take(i as int) =~= region_entries(self@));
        map
    }

    /// The instructions of the program: one declaration for each region, in
    /// the order of the regions, then the body in its order.
    pub fn instructions(&self) -> (r: Vec<Instruction>)
        ensures
            views(r@) == hoisted(self@),
            r.len() == self@.declarations.len() + self@.body.len(),
    {
        let mut r: Vec<Instruction> = Vec::new();
        let mut i: usize = 0;
        while i < self.declarations.len()
            invariant
                i <= self.declarations.len(),
                r.len() == i,
                forall|j: int|
                    0 <= j < i ==> r[j]@ == InstructionView::Declaration(self.declarations[j]@),
            decreases self.declarations.len() - i,
        {
            r.push(Instruction::Declaration(self.declarations[i].clone()));
            i = i + 1;
        }
        let mut k: usize = 0;
        while k < self.body.len()
            invariant
                k <= self.body.len(),
                r.len() == self.declarations.len() + k,
                forall|j: int|
                    0 <= j < self.declarations.len() ==> r[j]@ == InstructionView::Declaration(
                        self.declarations[j]@,
                    ),
                forall|j: int| 0 <= j < k ==> r[self.declarations.len() + j]@ == self.body[j]@,
            decreases self.body.len() - k,
        {
            r.push(self.body[k].clone());
            k = k + 1;
        }
        assert(views(r@) =~= hoisted(self@));
        r
    }
}

impl Clone for Program {
    fn clone(&self) -> (r: Self)
        ensures
            r@ == self@,
    {
        proof {
            use_type_invariant(self);
        }
        Program {
            declarations: clone_declarations(&self.declarations),
            calibrations: clone_calibrations(&self.calibrations),
            measure_calibrations: clone_measure_calibrations(&self.measure_calibrations),
            body: clone_instructions(&self.body),
            num_shots: self.num_shots,
        }
    }
}

/// The instructions read back are as many as the regions and the body
/// together; the declarations come first, in the order of the regions, and
/// the body follows in its order. In a well-formed program every declaration
/// among them stands before everything else.
pub proof fn lemma_hoisted_shape(program: ProgramView)
    ensures
        hoisted(program).len() == region_entries(program).len() + program.body.len(),
        region_entries(program).len() == program.declarations.len(),
        forall|i: int|
            0 <= i < program.declarations.len() ==> #[trigger] hoisted(program)[i]
                == InstructionView::Declaration(program.declarations[i]),
        forall|i: int|
            0 <= i < program.body.len() ==> #[trigger] hoisted(program)[program.declarations.len()
                + i] == program.body[i],
        well_formed(program) ==> forall|i: int, j: int|
            0 <= i < hoisted(program).len() && 0 <= j < hoisted(program).len() && (
            #[trigger] hoisted(program)[i]) is Declaration && !((
            #[trigger] hoisted(program)[j]) is Declaration) ==> i < j,
{
    if well_formed(program) {
        assert forall|i: int, j: int|
            0 <= i < hoisted(program).len() && 0 <= j < hoisted(program).len() && (
            #[trigger] hoisted(program)[i]) is Declaration && !((
            #[trigger] hoisted(program)[j]) is Declaration) implies i < j by {
            if i >= program.declarations.len() {
                assert(hoisted(program)[i] == program.body[i - program.declarations.len()]);
            }
        }
    }
}

/// A program made from one body instruction reads back as that instruction
/// alone.
pub proof fn lemma_single_instruction(instruction: InstructionView, num_shots: u64)
    requires
        is_body_instruction(instruction),
    ensures
        hoisted(with_instruction(empty_program(num_shots), instruction)) == seq![instruction],
{
    assert(hoisted(with_instruction(empty_program(num_shots), instruction)) =~= seq![instruction]);
}

/// A program made from an empty list of instructions is the empty program,
/// and reads back as no instructions.
pub proof fn lemma_no_instructions(num_shots: u64)
    ensures
        with_instructions(empty_program(num_shots), Seq::empty()) == empty_program(num_shots),
        hoisted(empty_program(num_shots)) == Seq::<InstructionView>::empty(),
        region_entries(empty_program(num_shots)) == Seq::<(Seq<char>, DeclarationView)>::empty(),
{
    assert(hoisted(empty_program(num_shots)) =~= Seq::<InstructionView>::empty());
    assert(region_entries(empty_program(num_shots)) =~= Seq::<
        (Seq<char>, DeclarationView),
    >::empty());
}

/// Two reads of the calibration definitions of one program, with nothing
/// changed between them, hold the same definitions in the same order.
pub proof fn lemma_calibration_reads_agree(
    program: Program,
    first: Vec<DefCalibration>,
    second: Vec<DefCalibration>,
)
    requires
        views(first@) == program@.calibrations,
        views(second@) == program@.calibrations,
    ensures
        views(first@) == views(second@),
        first.len() == second.len(),
{
    assert(views(first@).len() == first.len());
    assert(views(second@).len() == second.len());
}

} // verus!
