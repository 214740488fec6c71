//! Mapping tables and conversion plans: for one sender, where each receiver field comes
//! from, and the instructions that fill it.

use vstd::prelude::*;
use crate::resolve::{ImplData, ImplDataView, MappingEntry, MappingEntryView};
use crate::text::{texts, views};

verus! {

/// The source of one receiver field.
#[derive(Clone, Debug, PartialEq, Eq)]
pub struct Mapping {
    /// The receiver field.
    pub field: String,
    pub entry: MappingEntry,
}

/// What a [`Mapping`] holds, as mathematical values.
pub struct MappingView {
    pub field: Seq<char>,
    pub entry: MappingEntryView,
}

impl View for Mapping {
    type V = MappingView;

    open spec fn view(&self) -> MappingView {
        MappingView { field: self.field@, entry: self.entry@ }
    }
}

/// For one sender, the source of every receiver field, in the receiver's declaration
/// order.
#[derive(Clone, Debug, PartialEq, Eq)]
pub struct MappingTable {
    pub sender: String,
    pub mappings: Vec<Mapping>,
}

/// What a [`MappingTable`] holds, as mathematical values.
pub struct MappingTableView {
    pub sender: Seq<char>,
    pub mappings: Seq<MappingView>,
}

impl View for MappingTable {
    type V = MappingTableView;

    open spec fn view(&self) -> MappingTableView {
        MappingTableView { sender: self.sender@, mappings: views(self.mappings@) }
    }
}

/// Whether the data has, for each field, one place for each of `senders` senders.
pub open spec fn well_formed(data: ImplDataView, senders: int) -> bool {
    &&& data.field_attrs.len() == data.fields.len()
    &&& forall|i: int| 0 <= i < data.field_attrs.len() ==> (#[trigger] data.field_attrs[i]).len() == senders
}

/// The source of field `i` for sender `s`: what the field's directive for that sender
/// asks for, and the sender's field of the same name if there is no such directive.
pub open spec fn mapping_of(data: ImplDataView, s: int, i: int) -> MappingView {
    MappingView {
        field: data.fields[i],
        entry: match data.field_attrs[i][s] {
            Some(entry) => entry,
            None => MappingEntryView::FromSenderField(data.fields[i]),
        },
    }
}

/// The mapping table of sender `s`.
pub open spec fn table_of(data: ImplDataView, senders: Seq<Seq<char>>, s: int) -> MappingTableView {
    MappingTableView {
        sender: senders[s],
        mappings: Seq::new(data.fields.len(), |i: int| mapping_of(data, s, i)),
    }
}

impl MappingTable {
    /// The mapping table of the sender at position `sender`.
    pub fn resolve(data: &ImplData, from_idents: &Vec<String>, sender: usize) -> (r: MappingTable)
        requires
            sender < from_idents.len(),
            well_formed(data@, from_idents.len() as int),
        ensures
            r@ == table_of(data@, texts(from_idents@), sender as int),
    {
        let mut mappings: Vec<Mapping> = Vec::new();
        let mut i: usize = 0;
        assert(data@.fields.len() == data.fields.len());
        assert(data@.field_attrs.len() == data.field_attrs.overrides.len());
        while i < data.fields.len()
            invariant
                i <= data.fields.len(),
                sender < from_idents.len(),
                well_formed(data@, from_idents.len() as int),
                data.field_attrs.overrides.len() == data.fields.len(),
                mappings.len() == i,
                forall|k: int| 0 <= k < i ==> (#[trigger] mappings[k])@ == mapping_of(
                    data@,
                    sender as int,
                    k,
                ),
            decreases data.fields.len() - i,
        {
            let field = data.fields[i].clone();
            let row = &data.field_attrs.overrides[i];
            assert(data@.field_attrs[i as int].len() == row.len());
            let entry = match &row[sender] {
                Some(entry) => entry.duplicate(),
                None => MappingEntry::FromSenderField(field.clone()),
            };
            mappings.push(Mapping { field, entry });
            i = i + 1;
        }
        let table = MappingTable { sender: from_idents[sender].clone(), mappings };
        assert(table@.mappings =~= table_of(data@, texts(from_idents@), sender as int).mappings);
        table
    }
}

/// How one receiver field is filled.
#[derive(Clone, Debug, PartialEq, Eq)]
pub enum Instruction {
    /// Read `source` from the sender's value and convert it into the type of `target`.
    ReadAndConvert { target: String, source: String },
    /// Evaluate `expression` in place.
    Evaluate { target: String, expression: String },
}

/// What a [`Instruction`] holds, as mathematical values.
pub enum InstructionView {
    ReadAndConvert { target: Seq<char>, source: Seq<char> },
    Evaluate { target: Seq<char>, expression: Seq<char> },
}

impl View for Instruction {
    type V = InstructionView;

    open spec fn view(&self) -> InstructionView {
        match *self {
            Instruction::ReadAndConvert { target, source } => InstructionView::ReadAndConvert {
                target: target@,
                source: source@,
            },
            Instruction::Evaluate { target, expression } => InstructionView::Evaluate {
                target: target@,
                expression: expression@,
            },
        }
    }
}

/// The receiver field that an instruction fills.
pub open spec fn instruction_target(instruction: InstructionView) -> Seq<char> {
    match instruction {
        InstructionView::ReadAndConvert { target, .. } => target,
        InstructionView::Evaluate { target, .. } => target,
    }
}

/// The instruction that fills a field from its source.
pub open spec fn instruction_of(mapping: MappingView) -> InstructionView {
    match mapping.entry {
        MappingEntryView::FromSenderField(source) => InstructionView::ReadAndConvert {
            target: mapping.field,
            source,
        },
        MappingEntryView::DefaultExpression(expression) => InstructionView::Evaluate {
            target: mapping.field,
            expression,
        },
    }
}

/// The conversion from one sender: an instruction for every receiver field, in the
/// receiver's declaration order.
#[derive(Clone, Debug, PartialEq, Eq)]
pub struct ConversionPlan {
    pub sender: String,
    pub instructions: Vec<Instruction>,
}

/// What a [`ConversionPlan`] holds, as mathematical values.
pub struct ConversionPlanView {
    pub sender: Seq<char>,
    pub instructions: Seq<InstructionView>,
}

impl View for ConversionPlan {
    type V = ConversionPlanView;

    open spec fn view(&self) -> ConversionPlanView {
        ConversionPlanView { sender: self.sender@, instructions: views(self.instructions@) }
    }
}

/// The plan that a mapping table gives.
pub open spec fn plan_of(table: MappingTableView) -> ConversionPlanView {
    ConversionPlanView {
        sender: table.sender,
        instructions: Seq::new(table.mappings.len(), |i: int| instruction_of(table.mappings[i])),
    }
}

impl Instruction {
    /// The instruction that fills a field from its source.
    pub fn from_mapping(mapping: &Mapping) -> (r: Instruction)
        ensures
            r@ == instruction_of(mapping@),
    {
        match &mapping.entry {
            MappingEntry::FromSenderField(source) => Instruction::ReadAndConvert {
                target: mapping.field.clone(),
                source: source.clone(),
            },
            MappingEntry::DefaultExpression(expression) => Instruction::Evaluate {
                target: mapping.field.clone(),
                expression: expression.clone(),
            },
        }
    }
}

impl ConversionPlan {
    /// The plan that a mapping table gives.
    pub fn emit(table: &MappingTable) -> (r: ConversionPlan)
        ensures
            r@ == plan_of(table@),
    {
        let mut instructions: Vec<Instruction> = Vec::new();
        let mut i: usize = 0;
        while i < table.mappings.len()
            invariant
                i <= table.mappings.len(),
                instructions.len() == i,
                forall|k: int| 0 <= k < i ==> (#[trigger] instructions[k])@ == instruction_of(
                    table.mappings[k]@,
                ),
            decreases table.mappings.len() - i,
        {
            instructions.push(Instruction::from_mapping(&table.mappings[i]));
            i = i + 1;
        }
        let plan = ConversionPlan { sender: table.sender.clone(), instructions };
        assert(plan@.instructions =~= plan_of(table@).instructions);
        plan
    }
}

} // verus!
