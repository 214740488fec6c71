//! The whole pass: from the senders and the receiver to one conversion plan for each
//! sender, or to everything that is wrong.

use vstd::prelude::*;
use crate::diagnostic::{diagnostic, Accumulator, Diagnostic, DiagnosticView, Location};
use crate::model::{ReceiverDescription, ReceiverDescriptionView};
use crate::plan::{
    plan_of, table_of, well_formed, ConversionPlan, ConversionPlanView, MappingTable,
    MappingTableView,
};
use crate::resolve::{fields_diagnostics, impl_data_of, stripped_receiver, ImplData};
use crate::text::{same_text, texts, views};

verus! {

/// The message for an invocation that names no sender.
pub const MSG_NO_SENDER: &'static str = "at least one `from` struct must be specified";

/// The message for a sender that is named again further on.
pub const MSG_DUPLICATE_SENDER: &'static str = "duplicate identifier";

/// What resolution hands out.
#[derive(Clone, Debug, PartialEq, Eq)]
pub struct Resolution {
    /// The receiver without the directives on its fields.
    pub receiver: ReceiverDescription,
    /// One mapping table for each sender, in the order of the senders.
    pub tables: Vec<MappingTable>,
}

/// What a [`Resolution`] holds, as mathematical values.
pub struct ResolutionView {
    pub receiver: ReceiverDescriptionView,
    pub tables: Seq<MappingTableView>,
}

impl View for Resolution {
    type V = ResolutionView;

    open spec fn view(&self) -> ResolutionView {
        ResolutionView { receiver: self.receiver@, tables: views(self.tables@) }
    }
}

/// What a successful pass hands out.
#[derive(Clone, Debug, PartialEq, Eq)]
pub struct Expansion {
    /// The receiver without the directives on its fields.
    pub receiver: ReceiverDescription,
    /// One plan for each sender, in the order of the senders.
    pub conversions: Vec<ConversionPlan>,
}

/// What a [`Expansion`] holds, as mathematical values.
pub struct ExpansionView {
    pub receiver: ReceiverDescriptionView,
    pub conversions: Seq<ConversionPlanView>,
}

impl View for Expansion {
    type V = ExpansionView;

    open spec fn view(&self) -> ExpansionView {
        ExpansionView { receiver: self.receiver@, conversions: views(self.conversions@) }
    }
}

/// Whether the sender at position `i` is named again further on.
pub open spec fn named_again(senders: Seq<Seq<char>>, i: int) -> bool {
    exists|j: int| i < j < senders.len() && senders[j] == senders[i]
}

/// What is wrong with the sender at position `i`: that it is named again further on.
pub open spec fn sender_diagnostics(senders: Seq<Seq<char>>, i: int) -> Seq<DiagnosticView> {
    if named_again(senders, i) {
        seq![diagnostic(MSG_DUPLICATE_SENDER@, Location::Sender { index: i as usize })]
    } else {
        Seq::<DiagnosticView>::empty()
    }
}

/// What is wrong with the first `n` senders, in their order.
pub open spec fn senders_diagnostics(senders: Seq<Seq<char>>, n: int) -> Seq<DiagnosticView>
    decreases n,
{
    if n <= 0 {
        Seq::<DiagnosticView>::empty()
    } else {
        senders_diagnostics(senders, n - 1) + sender_diagnostics(senders, n - 1)
    }
}

/// Everything that is wrong with an invocation that names at least one sender: first the
/// senders, then the receiver's fields.
pub open spec fn all_diagnostics(senders: Seq<Seq<char>>, receiver: ReceiverDescriptionView) -> Seq<
    DiagnosticView,
> {
    senders_diagnostics(senders, senders.len() as int) + fields_diagnostics(
        receiver.fields,
        senders,
        receiver.fields.len() as int,
    )
}

/// The mapping tables of a receiver that nothing is wrong with.
pub open spec fn tables_of(senders: Seq<Seq<char>>, receiver: ReceiverDescriptionView) -> Seq<
    MappingTableView,
> {
    Seq::new(senders.len(), |s: int| table_of(impl_data_of(receiver, senders), senders, s))
}

/// The plans of a receiver that nothing is wrong with.
pub open spec fn conversions_of(senders: Seq<Seq<char>>, receiver: ReceiverDescriptionView) -> Seq<
    ConversionPlanView,
> {
    Seq::new(
        senders.len(),
        |s: int| plan_of(table_of(impl_data_of(receiver, senders), senders, s)),
    )
}

/// What resolution hands out. Without a sender it fails with one diagnostic. If anything
/// is wrong with the senders or the fields it fails with everything that is wrong. Else
/// it hands out the receiver without its directives and one mapping table for each
/// sender.
pub open spec fn resolution_of(senders: Seq<Seq<char>>, receiver: ReceiverDescriptionView) -> Result<
    ResolutionView,
    Seq<DiagnosticView>,
> {
    if senders.len() == 0 {
        Err(seq![diagnostic(MSG_NO_SENDER@, Location::Invocation)])
    } else if all_diagnostics(senders, receiver).len() > 0 {
        Err(all_diagnostics(senders, receiver))
    } else {
        Ok(
            ResolutionView {
                receiver: stripped_receiver(receiver),
                tables: tables_of(senders, receiver),
            },
        )
    }
}

/// What the whole pass hands out: what resolution fails with where it fails, else the
/// receiver without its directives and, for each sender, the plan of its mapping table.
pub open spec fn expansion_of(senders: Seq<Seq<char>>, receiver: ReceiverDescriptionView) -> Result<
    ExpansionView,
    Seq<DiagnosticView>,
> {
    if senders.len() == 0 {
        Err(seq![diagnostic(MSG_NO_SENDER@, Location::Invocation)])
    } else if all_diagnostics(senders, receiver).len() > 0 {
        Err(all_diagnostics(senders, receiver))
    } else {
        Ok(
            ExpansionView {
                receiver: stripped_receiver(receiver),
                conversions: conversions_of(senders, receiver),
            },
        )
    }
}

/// The view of what resolution handed out.
pub open spec fn resolved_view(outcome: Result<Resolution, Vec<Diagnostic>>) -> Result<
    ResolutionView,
    Seq<DiagnosticView>,
> {
    match outcome {
        Ok(resolution) => Ok(resolution@),
        Err(errors) => Err(views(errors@)),
    }
}

/// The view of what a pass handed out.
pub open spec fn outcome_view(outcome: Result<Expansion, Vec<Diagnostic>>) -> Result<
    ExpansionView,
    Seq<DiagnosticView>,
> {
    match outcome {
        Ok(expansion) => Ok(expansion@),
        Err(errors) => Err(views(errors@)),
    }
}

/// Whether the sender at position `i` is named again further on.
pub fn is_named_again(from_idents: &Vec<String>, i: usize) -> (r: bool)
    requires
        i < from_idents.len(),
    ensures
        r == named_again(texts(from_idents@), i as int),
{
    let mut j: usize = i + 1;
    while j < from_idents.len()
        invariant
            i < j <= from_idents.len(),
            forall|k: int| i < k < j ==> texts(from_idents@)[k] != texts(from_idents@)[i as int],
        decreases from_idents.len() - j,
    {
        if same_text(&from_idents[j], &from_idents[i]) {
            assert(texts(from_idents@)[j as int] == texts(from_idents@)[i as int]);
            return true;
        }
        j = j + 1;
    }
    false
}

/// Resolves, for each sender, where every field of the receiver comes from.
///
/// `from_idents` names the senders; the first is the one that a directive without
/// `from_struct` is for. `into_struct` describes the receiver.
pub fn resolve(from_idents: &Vec<String>, into_struct: ReceiverDescription) -> (r: Result<
    Resolution,
    Vec<Diagnostic>,
>)
    ensures
        resolved_view(r) == resolution_of(texts(from_idents@), into_struct@),
{
    let ghost senders = texts(from_idents@);
    let ghost receiver = into_struct@;
    if from_idents.len() == 0 {
        let mut errors: Vec<Diagnostic> = Vec::new();
        errors.push(Diagnostic::custom(MSG_NO_SENDER, Location::Invocation));
        assert(views(errors@) =~= seq![diagnostic(MSG_NO_SENDER@, Location::Invocation)]);
        return Err(errors);
    }
    let mut errors = Accumulator::new();
    let mut i: usize = 0;
    while i < from_idents.len()
        invariant
            i <= from_idents.len(),
            senders == texts(from_idents@),
            errors@ == senders_diagnostics(senders, i as int),
        decreases from_idents.len() - i,
    {
        let ghost before = errors@;
        if is_named_again(from_idents, i) {
            errors.push(Diagnostic::custom(MSG_DUPLICATE_SENDER, Location::Sender { index: i }));
        }
        assert(errors@ =~= before + sender_diagnostics(senders, i as int));
        i = i + 1;
    }
    let prelim_res = ImplData::from_parsed_input(into_struct, from_idents);
    let final_res = errors.finnish_with_result(prelim_res);
    match final_res {
        Ok(data) => {
            assert(all_diagnostics(senders, receiver).len() == 0);
            assert(well_formed(data@, from_idents.len() as int));
            let mut tables: Vec<MappingTable> = Vec::new();
            let mut s: usize = 0;
            while s < from_idents.len()
                invariant
                    s <= from_idents.len(),
                    senders == texts(from_idents@),
                    data@ == impl_data_of(receiver, senders),
                    well_formed(data@, from_idents.len() as int),
                    tables.len() == s,
                    forall|k: int| 0 <= k < s ==> (#[trigger] tables[k])@ == table_of(
                        data@,
                        senders,
                        k,
                    ),
                decreases from_idents.len() - s,
            {
                tables.push(MappingTable::resolve(&data, from_idents, s));
                s = s + 1;
            }
            let resolution = Resolution { receiver: data.into_struct, tables };
            assert(resolution@.tables =~= tables_of(senders, receiver));
            Ok(resolution)
        },
        Err(all) => {
            assert(views(all@) =~= all_diagnostics(senders, receiver));
            Err(all)
        },
    }
}

/// Resolves the conversions into a receiver from each of the senders: one plan for each
/// sender, or everything that is wrong.
///
/// `from_idents` names the senders; the first is the one that a directive without
/// `from_struct` is for. `into_struct` describes the receiver.
pub fn auto_from(from_idents: Vec<String>, into_struct: ReceiverDescription) -> (r: Result<
    Expansion,
    Vec<Diagnostic>,
>)
    ensures
        outcome_view(r) == expansion_of(texts(from_idents@), into_struct@),
{
    let ghost senders = texts(from_idents@);
    let ghost receiver = into_struct@;
    match resolve(&from_idents, into_struct) {
        Ok(resolution) => {
            let ghost tables = tables_of(senders, receiver);
            assert(views(resolution.tables@) == tables);
            let mut conversions: Vec<ConversionPlan> = Vec::new();
            let mut s: usize = 0;
            while s < resolution.tables.len()
                invariant
                    s <= resolution.tables.len(),
                    views(resolution.tables@) == tables,
                    conversions.len() == s,
                    forall|k: int| 0 <= k < s ==> (#[trigger] conversions[k])@ == plan_of(
                        tables[k],
                    ),
                decreases resolution.tables.len() - s,
            {
                assert(tables[s as int] == resolution.tables[s as int]@);
                conversions.push(ConversionPlan::emit(&resolution.tables[s]));
                s = s + 1;
            }
            assert(tables.len() == resolution.tables.len());
            let expansion = Expansion { receiver: resolution.receiver, conversions };
            assert(expansion@.conversions =~= conversions_of(senders, receiver));
            Ok(expansion)
        },
        Err(errors) => Err(errors),
    }
}

} // verus!
