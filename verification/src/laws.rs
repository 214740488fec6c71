//! What holds of resolution whatever the input.

use vstd::prelude::*;
use crate::diagnostic::{diagnostic, Diagnostic, DiagnosticView, Location};
use crate::directive::{
    attribute_diagnostics, attribute_directive, attribute_values, directive_diagnostics,
    directive_of, first_with, has_key, is_directive, item_diagnostics, items_diagnostics,
    shape_diagnostics, unknown_sender_text, FieldDirectiveView, ItemValueView, Key,
    MSG_EXACTLY_ONE,
};
use crate::expand::{
    all_diagnostics, conversions_of, expansion_of, named_again, outcome_view, resolution_of,
    resolved_view, sender_diagnostics, senders_diagnostics, Expansion, ExpansionView,
    Resolution, MSG_DUPLICATE_SENDER,
};
use crate::field::{
    effective_sender, field_attribute_diagnostics, field_diagnostics, field_directives,
    previous_for, target_of,
};
use crate::model::{
    FieldDescriptionView, RawAttributeView, ReceiverDescription, ReceiverDescriptionView,
};
use crate::plan::{
    instruction_of, instruction_target, mapping_of, plan_of, table_of, ConversionPlanView,
    InstructionView,
};
use crate::resolve::{
    directives_of, entry_of, fields_diagnostics, impl_data_of, kept_attributes, last_for,
    name_of, override_for, receiver_field_diagnostics, stripped_field, stripped_receiver,
    MappingEntryView,
};
use crate::text::texts;

verus! {

/// Whether `part` stands in `whole` from position `start` on.
pub open spec fn stands_at<T>(whole: Seq<T>, start: nat, part: Seq<T>) -> bool {
    &&& start + part.len() <= whole.len()
    &&& whole.subrange(start as int, (start + part.len()) as int) == part
}

/// The whole pass is a function of its input: two passes over senders with the same names
/// and receivers with the same content hand out the same plans, or the same diagnostics.
pub proof fn law_same_input_same_outcome(
    first_idents: Vec<String>,
    first_struct: ReceiverDescription,
    first: Result<Expansion, Vec<Diagnostic>>,
    second_idents: Vec<String>,
    second_struct: ReceiverDescription,
    second: Result<Expansion, Vec<Diagnostic>>,
)
    requires
        texts(first_idents@) == texts(second_idents@),
        first_struct@ == second_struct@,
        outcome_view(first) == expansion_of(texts(first_idents@), first_struct@),
        outcome_view(second) == expansion_of(texts(second_idents@), second_struct@),
    ensures
        outcome_view(first) == outcome_view(second),
{
}

/// Resolution is a function of its input: for senders with the same names and receivers
/// with the same content it hands out the same mapping tables, or the same diagnostics.
pub proof fn law_same_input_same_tables(
    first_idents: Vec<String>,
    first_struct: ReceiverDescription,
    first: Result<Resolution, Vec<Diagnostic>>,
    second_idents: Vec<String>,
    second_struct: ReceiverDescription,
    second: Result<Resolution, Vec<Diagnostic>>,
)
    requires
        texts(first_idents@) == texts(second_idents@),
        first_struct@ == second_struct@,
        resolved_view(first) == resolution_of(texts(first_idents@), first_struct@),
        resolved_view(second) == resolution_of(texts(second_idents@), second_struct@),
    ensures
        resolved_view(first) == resolved_view(second),
{
}

/// The whole pass fails where resolution fails, and with the same diagnostics; where
/// resolution succeeds, the pass hands out the same receiver and, for each sender, the
/// plan of the sender's mapping table.
pub proof fn law_plans_follow_tables(senders: Seq<Seq<char>>, receiver: ReceiverDescriptionView)
    ensures
        match resolution_of(senders, receiver) {
            Ok(resolution) => {
                &&& expansion_of(senders, receiver) matches Ok(expansion)
                &&& expansion.receiver == resolution.receiver
                &&& expansion.conversions.len() == resolution.tables.len()
                &&& forall|s: int|
                    0 <= s < resolution.tables.len() ==> #[trigger] expansion.conversions[s]
                        == plan_of(resolution.tables[s])
            },
            Err(errors) => expansion_of(senders, receiver) == Err::<
                ExpansionView,
                Seq<DiagnosticView>,
            >(errors),
        },
{
}

/// A successful pass hands out one plan for each sender, in the order of the senders, and
/// each plan fills the receiver's fields in their declaration order.
pub proof fn law_declaration_order(senders: Seq<Seq<char>>, receiver: ReceiverDescriptionView)
    requires
        expansion_of(senders, receiver) is Ok,
    ensures
        ({
            let expansion = expansion_of(senders, receiver)->Ok_0;
            &&& expansion.receiver.fields.len() == receiver.fields.len()
            &&& expansion.conversions.len() == senders.len()
            &&& forall|s: int|
                0 <= s < senders.len() ==> {
                    &&& (#[trigger] expansion.conversions[s]).sender == senders[s]
                    &&& expansion.conversions[s].instructions.len() == receiver.fields.len()
                }
            &&& forall|s: int, i: int|
                0 <= s < senders.len() && 0 <= i < receiver.fields.len() ==> instruction_target(
                    #[trigger] expansion.conversions[s].instructions[i],
                ) == name_of(receiver.fields[i])
        }),
{
}

/// What is wrong with one sender stands, whole and in order, in what is wrong with the
/// senders.
pub proof fn law_senders_accumulate(senders: Seq<Seq<char>>, n: int, i: int)
    requires
        0 <= i < n,
    ensures
        stands_at(
            senders_diagnostics(senders, n),
            senders_diagnostics(senders, i).len(),
            sender_diagnostics(senders, i),
        ),
    decreases n,
{
    let whole = senders_diagnostics(senders, n);
    let start = senders_diagnostics(senders, i).len() as int;
    let part = sender_diagnostics(senders, i);
    if i == n - 1 {
        assert(whole.subrange(start, start + part.len()) =~= part);
    } else {
        law_senders_accumulate(senders, n - 1, i);
        let shorter = senders_diagnostics(senders, n - 1);
        assert(whole.subrange(start, start + part.len()) =~= shorter.subrange(
            start,
            start + part.len(),
        ));
    }
}

/// What is wrong with one field stands, whole and in order, in what is wrong with the
/// fields.
pub proof fn law_fields_accumulate(
    fields: Seq<FieldDescriptionView>,
    senders: Seq<Seq<char>>,
    n: int,
    i: int,
)
    requires
        0 <= i < n,
    ensures
        stands_at(
            fields_diagnostics(fields, senders, n),
            fields_diagnostics(fields, senders, i).len(),
            receiver_field_diagnostics(fields[i], senders, i),
        ),
    decreases n,
{
    let whole = fields_diagnostics(fields, senders, n);
    let start = fields_diagnostics(fields, senders, i).len() as int;
    let part = receiver_field_diagnostics(fields[i], senders, i);
    if i == n - 1 {
        assert(whole.subrange(start, start + part.len()) =~= part);
    } else {
        law_fields_accumulate(fields, senders, n - 1, i);
        let shorter = fields_diagnostics(fields, senders, n - 1);
        assert(whole.subrange(start, start + part.len()) =~= shorter.subrange(
            start,
            start + part.len(),
        ));
    }
}

/// What is wrong with one attribute stands, whole and in order, in what is wrong with the
/// field's attributes.
pub proof fn law_attributes_accumulate(
    attrs: Seq<RawAttributeView>,
    senders: Seq<Seq<char>>,
    field: usize,
    n: int,
    i: int,
)
    requires
        0 <= i < n,
    ensures
        stands_at(
            field_diagnostics(attrs, senders, field, n),
            field_diagnostics(attrs, senders, field, i).len(),
            field_attribute_diagnostics(attrs, senders, field, i),
        ),
    decreases n,
{
    let whole = field_diagnostics(attrs, senders, field, n);
    let start = field_diagnostics(attrs, senders, field, i).len() as int;
    let part = field_attribute_diagnostics(attrs, senders, field, i);
    if i == n - 1 {
        assert(whole.subrange(start, start + part.len()) =~= part);
    } else {
        law_attributes_accumulate(attrs, senders, field, n - 1, i);
        let shorter = field_diagnostics(attrs, senders, field, n - 1);
        assert(whole.subrange(start, start + part.len()) =~= shorter.subrange(
            start,
            start + part.len(),
        ));
    }
}

/// What is wrong with one item stands, whole and in order, in what is wrong with the
/// directive's items.
pub proof fn law_items_accumulate(
    values: Seq<ItemValueView>,
    senders: Seq<Seq<char>>,
    field: usize,
    attr: usize,
    n: int,
    i: int,
)
    requires
        0 <= i < n,
    ensures
        stands_at(
            items_diagnostics(values, senders, field, attr, n),
            items_diagnostics(values, senders, field, attr, i).len(),
            item_diagnostics(values, senders, field, attr, i),
        ),
    decreases n,
{
    let whole = items_diagnostics(values, senders, field, attr, n);
    let start = items_diagnostics(values, senders, field, attr, i).len() as int;
    let part = item_diagnostics(values, senders, field, attr, i);
    if i == n - 1 {
        assert(whole.subrange(start, start + part.len()) =~= part);
    } else {
        law_items_accumulate(values, senders, field, attr, n - 1, i);
        let shorter = items_diagnostics(values, senders, field, attr, n - 1);
        assert(whole.subrange(start, start + part.len()) =~= shorter.subrange(
            start,
            start + part.len(),
        ));
    }
}

/// Nothing is lost and nothing hides anything: what is wrong with each sender and with
/// each field stands, whole and in order, in what a failed pass reports, and the pass
/// fails as soon as anything is wrong with any of them.
pub proof fn law_every_defect_is_reported(
    senders: Seq<Seq<char>>,
    receiver: ReceiverDescriptionView,
)
    requires
        senders.len() > 0,
    ensures
        forall|i: int|
            0 <= i < senders.len() ==> stands_at(
                all_diagnostics(senders, receiver),
                senders_diagnostics(senders, i).len(),
                #[trigger] sender_diagnostics(senders, i),
            ),
        forall|i: int|
            0 <= i < receiver.fields.len() ==> stands_at(
                all_diagnostics(senders, receiver),
                senders_diagnostics(senders, senders.len() as int).len() + fields_diagnostics(
                    receiver.fields,
                    senders,
                    i,
                ).len(),
                #[trigger] receiver_field_diagnostics(receiver.fields[i], senders, i),
            ),
        all_diagnostics(senders, receiver).len() > 0 ==> expansion_of(senders, receiver) == Err::<
            ExpansionView,
            Seq<DiagnosticView>,
        >(all_diagnostics(senders, receiver)),
        all_diagnostics(senders, receiver).len() == 0 ==> expansion_of(senders, receiver) is Ok,
{
    let all = all_diagnostics(senders, receiver);
    let from_senders = senders_diagnostics(senders, senders.len() as int);
    let from_fields = fields_diagnostics(receiver.fields, senders, receiver.fields.len() as int);
    assert forall|i: int| 0 <= i < senders.len() implies stands_at(
        all,
        senders_diagnostics(senders, i).len(),
        #[trigger] sender_diagnostics(senders, i),
    ) by {
        law_senders_accumulate(senders, senders.len() as int, i);
        let start = senders_diagnostics(senders, i).len() as int;
        let part = sender_diagnostics(senders, i);
        assert(all.subrange(start, start + part.len()) =~= from_senders.subrange(
            start,
            start + part.len(),
        ));
    }
    assert forall|i: int| 0 <= i < receiver.fields.len() implies stands_at(
        all,
        from_senders.len() + fields_diagnostics(receiver.fields, senders, i).len(),
        #[trigger] receiver_field_diagnostics(receiver.fields[i], senders, i),
    ) by {
        law_fields_accumulate(receiver.fields, senders, receiver.fields.len() as int, i);
        let start = fields_diagnostics(receiver.fields, senders, i).len() as int;
        let part = receiver_field_diagnostics(receiver.fields[i], senders, i);
        assert(all.subrange(from_senders.len() + start, from_senders.len() + start + part.len())
            =~= from_fields.subrange(start, start + part.len()));
    }
}

/// A directive must give exactly one of `default_value` and `from_field`. One that gives
/// both is reported twice, once at each of the two items; one that gives neither is
/// reported once, at the attribute; one that gives exactly one is not reported.
pub proof fn law_exactly_one_of(values: Seq<ItemValueView>, field: usize, attr: usize)
    ensures
        ({
            let directive = directive_of(values);
            let found = shape_diagnostics(values, field, attr);
            let n = values.len() as int;
            &&& directive.default_value is Some && directive.from_field is Some ==> {
                &&& found.len() == 2
                &&& first_with(values, Key::DefaultValue, n) is Some
                &&& first_with(values, Key::FromField, n) is Some
                &&& first_with(values, Key::DefaultValue, n) != first_with(
                    values,
                    Key::FromField,
                    n,
                )
                &&& found[0] == diagnostic(
                    MSG_EXACTLY_ONE@,
                    Location::Item {
                        field,
                        attr,
                        item: first_with(values, Key::DefaultValue, n)->Some_0 as usize,
                    },
                )
                &&& found[1] == diagnostic(
                    MSG_EXACTLY_ONE@,
                    Location::Item {
                        field,
                        attr,
                        item: first_with(values, Key::FromField, n)->Some_0 as usize,
                    },
                )
            }
            &&& directive.default_value is None && directive.from_field is None ==> found == seq![
                diagnostic(MSG_EXACTLY_ONE@, Location::Attribute { field, attr }),
            ]
            &&& (directive.default_value is Some) != (directive.from_field is Some)
                ==> found.len() == 0
        }),
{
    let n = values.len() as int;
    lemma_first_with(values, Key::DefaultValue, n);
    lemma_first_with(values, Key::FromField, n);
}

/// The first item that carries a key carries it, and no item before it does.
pub proof fn lemma_first_with(values: Seq<ItemValueView>, key: Key, n: int)
    ensures
        match first_with(values, key, n) {
            Some(j) => {
                &&& 0 <= j < n
                &&& has_key(values[j], key)
                &&& forall|k: int| 0 <= k < j ==> !has_key(values[k], key)
            },
            None => forall|k: int| 0 <= k < n ==> !has_key(values[k], key),
        },
    decreases n,
{
    if n > 0 {
        lemma_first_with(values, key, n - 1);
    }
}

/// Attributes without directives leave a field as it is and give nothing to report.
pub proof fn lemma_no_directives(
    attrs: Seq<RawAttributeView>,
    senders: Seq<Seq<char>>,
    field: usize,
    n: int,
)
    requires
        0 <= n <= attrs.len(),
        forall|a: int| 0 <= a < attrs.len() ==> !is_directive(#[trigger] attrs[a]),
    ensures
        field_diagnostics(attrs, senders, field, n) == Seq::<DiagnosticView>::empty(),
        field_directives(attrs, n) == Seq::<FieldDirectiveView>::empty(),
        kept_attributes(attrs, n) == attrs.take(n),
    decreases n,
{
    if n > 0 {
        lemma_no_directives(attrs, senders, field, n - 1);
        assert(!is_directive(attrs[n - 1]));
        assert(attrs.take(n) =~= attrs.take(n - 1).push(attrs[n - 1]));
        assert(field_diagnostics(attrs, senders, field, n) =~= Seq::<DiagnosticView>::empty());
    } else {
        assert(attrs.take(n) =~= Seq::<RawAttributeView>::empty());
    }
}

/// Whether every field has a name and none carries a directive.
pub open spec fn plain(receiver: ReceiverDescriptionView) -> bool {
    forall|i: int|
        0 <= i < receiver.fields.len() ==> {
            &&& (#[trigger] receiver.fields[i]).name is Some
            &&& forall|a: int|
                0 <= a < receiver.fields[i].attrs.len() ==> !is_directive(
                    #[trigger] receiver.fields[i].attrs[a],
                )
        }
}

/// Whether no sender is named twice.
pub open spec fn distinct(senders: Seq<Seq<char>>) -> bool {
    forall|i: int, j: int| 0 <= i < j < senders.len() ==> senders[i] != senders[j]
}

/// Senders that are all different give nothing to report.
pub proof fn lemma_distinct_senders(senders: Seq<Seq<char>>, n: int)
    requires
        distinct(senders),
        0 <= n <= senders.len(),
    ensures
        senders_diagnostics(senders, n) == Seq::<DiagnosticView>::empty(),
    decreases n,
{
    if n > 0 {
        lemma_distinct_senders(senders, n - 1);
        assert(!named_again(senders, n - 1));
        assert(senders_diagnostics(senders, n) =~= Seq::<DiagnosticView>::empty());
    }
}

/// Fields that all have a name and carry no directive give nothing to report.
pub proof fn lemma_plain_fields(receiver: ReceiverDescriptionView, senders: Seq<Seq<char>>, n: int)
    requires
        plain(receiver),
        0 <= n <= receiver.fields.len(),
    ensures
        fields_diagnostics(receiver.fields, senders, n) == Seq::<DiagnosticView>::empty(),
    decreases n,
{
    if n > 0 {
        lemma_plain_fields(receiver, senders, n - 1);
        let field = receiver.fields[n - 1];
        lemma_no_directives(field.attrs, senders, (n - 1) as usize, field.attrs.len() as int);
        assert(fields_diagnostics(receiver.fields, senders, n) =~= Seq::<DiagnosticView>::empty());
    }
}

/// The plan that reads every field of the receiver from the sender's field of the same
/// name.
pub open spec fn identity_plan(sender: Seq<char>, receiver: ReceiverDescriptionView) -> ConversionPlanView {
    ConversionPlanView {
        sender,
        instructions: Seq::new(
            receiver.fields.len(),
            |i: int|
                InstructionView::ReadAndConvert {
                    target: name_of(receiver.fields[i]),
                    source: name_of(receiver.fields[i]),
                },
        ),
    }
}

/// Without directives every conversion is the identity by name: if all fields have a name
/// and none carries a directive, and the senders are all different, the pass succeeds,
/// leaves the receiver as it is, and reads every field from the sender's field of the
/// same name.
pub proof fn law_identity_without_directives(
    senders: Seq<Seq<char>>,
    receiver: ReceiverDescriptionView,
)
    requires
        senders.len() > 0,
        distinct(senders),
        plain(receiver),
    ensures
        expansion_of(senders, receiver) == Ok::<ExpansionView, Seq<DiagnosticView>>(
            ExpansionView {
                receiver,
                conversions: Seq::new(senders.len(), |s: int| identity_plan(senders[s], receiver)),
            },
        ),
{
    lemma_distinct_senders(senders, senders.len() as int);
    lemma_plain_fields(receiver, senders, receiver.fields.len() as int);
    let data = impl_data_of(receiver, senders);
    assert forall|i: int| 0 <= i < receiver.fields.len() implies stripped_field(
        #[trigger] receiver.fields[i],
    ) == receiver.fields[i] && forall|s: int|
        0 <= s < senders.len() ==> (#[trigger] data.field_attrs[i][s]) is None by {
        let field = receiver.fields[i];
        lemma_no_directives(field.attrs, senders, i as usize, field.attrs.len() as int);
        assert(field.attrs.take(field.attrs.len() as int) =~= field.attrs);
    }
    assert(stripped_receiver(receiver).fields =~= receiver.fields);
    let plans = Seq::new(senders.len(), |s: int| identity_plan(senders[s], receiver));
    assert forall|s: int| 0 <= s < senders.len() implies (#[trigger] conversions_of(
        senders,
        receiver,
    )[s]) == plans[s] by {
        let table = table_of(data, senders, s);
        assert forall|i: int| 0 <= i < receiver.fields.len() implies instruction_of(
            #[trigger] table.mappings[i],
        ) == identity_plan(senders[s], receiver).instructions[i] by {
            assert(data.field_attrs[i][s] is None);
        }
        assert(plan_of(table).instructions =~= identity_plan(senders[s], receiver).instructions);
    }
    assert(conversions_of(senders, receiver) =~= plans);
}

/// A part that stands in a whole gives the whole each of its elements.
pub proof fn lemma_stands_contains<T>(whole: Seq<T>, start: nat, part: Seq<T>, element: T)
    requires
        stands_at(whole, start, part),
        part.contains(element),
    ensures
        whole.contains(element),
{
    let k = choose|k: int| 0 <= k < part.len() && part[k] == element;
    assert(whole.subrange(start as int, (start + part.len()) as int)[k] == whole[start + k]);
}

/// Directives with nothing to report each ask for an entry, and no two of them are for
/// the same sender.
pub proof fn lemma_clean_directives(
    attrs: Seq<RawAttributeView>,
    senders: Seq<Seq<char>>,
    field: usize,
    n: int,
)
    requires
        0 <= n <= attrs.len(),
        field_diagnostics(attrs, senders, field, n).len() == 0,
    ensures
        forall|j: int|
            0 <= j < field_directives(attrs, n).len() ==> entry_of(
                #[trigger] field_directives(attrs, n)[j],
            ) is Some,
        forall|j: int, k: int|
            0 <= j < k < field_directives(attrs, n).len() ==> effective_sender(
                #[trigger] field_directives(attrs, n)[j],
                senders,
            ) != effective_sender(#[trigger] field_directives(attrs, n)[k], senders),
        forall|s: int, j: int|
            #![trigger previous_for(attrs, senders, s, n), field_directives(attrs, n)[j]]
            previous_for(attrs, senders, s, n) is None && 0 <= j < field_directives(
                attrs,
                n,
            ).len() ==> effective_sender(field_directives(attrs, n)[j], senders) != s,
    decreases n,
{
    if n > 0 {
        let earlier = field_diagnostics(attrs, senders, field, n - 1);
        let last = field_attribute_diagnostics(attrs, senders, field, n - 1);
        assert(field_diagnostics(attrs, senders, field, n) == earlier + last);
        assert(earlier.len() == 0 && last.len() == 0);
        lemma_clean_directives(attrs, senders, field, n - 1);
        let before = field_directives(attrs, n - 1);
        let now = field_directives(attrs, n);
        if is_directive(attrs[n - 1]) {
            let values = attribute_values(attrs[n - 1]);
            let directive = attribute_directive(attrs[n - 1]);
            let target = target_of(attrs[n - 1], senders);
            let of_attribute = attribute_diagnostics(attrs[n - 1], senders, field, (n - 1) as usize);
            assert(of_attribute.len() == 0);
            assert(directive_diagnostics(values, senders, field, (n - 1) as usize).len() == 0);
            assert(shape_diagnostics(values, field, (n - 1) as usize).len() == 0);
            assert(entry_of(directive) is Some);
            assert(previous_for(attrs, senders, target, n - 1) is None);
            assert(now == before.push(directive));
            assert forall|j: int, k: int| 0 <= j < k < now.len() implies effective_sender(
                #[trigger] now[j],
                senders,
            ) != effective_sender(#[trigger] now[k], senders) by {
                assert(now[j] == before[j]);
                if k < before.len() {
                    assert(now[k] == before[k]);
                } else {
                    assert(now[k] == directive);
                    assert(effective_sender(before[j], senders) != target);
                }
            }
            assert forall|s: int, j: int|
                #![trigger previous_for(attrs, senders, s, n), now[j]]
                previous_for(attrs, senders, s, n) is None && 0 <= j < now.len() implies effective_sender(
                now[j],
                senders,
            ) != s by {
                assert(s != target);
                assert(previous_for(attrs, senders, s, n - 1) is None);
                if j < before.len() {
                    assert(now[j] == before[j]);
                    assert(effective_sender(before[j], senders) != s);
                } else {
                    assert(now[j] == directive);
                }
            }
        } else {
            assert(now == before);
            assert forall|s: int, j: int|
                #![trigger previous_for(attrs, senders, s, n), now[j]]
                previous_for(attrs, senders, s, n) is None && 0 <= j < now.len() implies effective_sender(
                now[j],
                senders,
            ) != s by {
                assert(previous_for(attrs, senders, s, n - 1) is None);
                assert(effective_sender(before[j], senders) != s);
            }
        }
    }
}

/// Among directives of which only one is for a sender, that one is the last for it.
pub proof fn lemma_last_for(
    directives: Seq<FieldDirectiveView>,
    senders: Seq<Seq<char>>,
    sender: int,
    n: int,
)
    requires
        0 <= n <= directives.len(),
    ensures
        match last_for(directives, senders, sender, n) {
            Some(j) => {
                &&& 0 <= j < n
                &&& effective_sender(directives[j], senders) == sender
                &&& forall|k: int|
                    j < k < n ==> effective_sender(#[trigger] directives[k], senders) != sender
            },
            None => forall|k: int|
                0 <= k < n ==> effective_sender(#[trigger] directives[k], senders) != sender,
        },
    decreases n,
{
    if n > 0 {
        lemma_last_for(directives, senders, sender, n - 1);
    }
}

/// Which directive a sender's conversion follows. In a pass that succeeds, a field's
/// directive that is for a sender decides how that sender's conversion fills the field;
/// a sender that no directive of the field is for has the field read from its field of
/// the same name. A directive without `from_struct` is for the first sender, one whose
/// `from_struct` names a sender is for that sender.
pub proof fn law_sender_targeting(
    senders: Seq<Seq<char>>,
    receiver: ReceiverDescriptionView,
    i: int,
    s: int,
)
    requires
        expansion_of(senders, receiver) is Ok,
        0 <= i < receiver.fields.len(),
        0 <= s < senders.len(),
    ensures
        ({
            let directives = directives_of(receiver.fields[i]);
            let name = name_of(receiver.fields[i]);
            let instruction = expansion_of(senders, receiver)->Ok_0.conversions[s].instructions[i];
            &&& forall|j: int|
                0 <= j < directives.len() && effective_sender(
                    #[trigger] directives[j],
                    senders,
                ) == s ==> match entry_of(directives[j]) {
                    Some(MappingEntryView::FromSenderField(source)) => instruction
                        == InstructionView::ReadAndConvert { target: name, source },
                    Some(MappingEntryView::DefaultExpression(expression)) => instruction
                        == InstructionView::Evaluate { target: name, expression },
                    None => false,
                }
            &&& (forall|j: int|
                0 <= j < directives.len() ==> effective_sender(
                    #[trigger] directives[j],
                    senders,
                ) != s) ==> instruction == InstructionView::ReadAndConvert {
                target: name,
                source: name,
            }
            &&& forall|j: int|
                0 <= j < directives.len() && (#[trigger] directives[j]).from_struct is None
                    ==> effective_sender(directives[j], senders) == 0
            &&& forall|j: int|
                0 <= j < directives.len() && (#[trigger] directives[j]).from_struct == Some(
                    senders[s],
                ) ==> senders[effective_sender(directives[j], senders)] == senders[s]
        }),
{
    let field = receiver.fields[i];
    let directives = directives_of(field);
    let name = name_of(field);
    let n = field.attrs.len() as int;
    law_every_defect_is_reported(senders, receiver);
    assert(receiver_field_diagnostics(receiver.fields[i], senders, i).len() == 0);
    assert(field.name is Some);
    lemma_clean_directives(field.attrs, senders, i as usize, n);
    lemma_last_for(directives, senders, s, directives.len() as int);
    let data = impl_data_of(receiver, senders);
    let asked = override_for(directives, senders, s, directives.len() as int);
    assert(data.field_attrs[i][s] == asked);
    let mapping = mapping_of(data, s, i);
    let instruction = expansion_of(senders, receiver)->Ok_0.conversions[s].instructions[i];
    assert(table_of(data, senders, s).mappings[i] == mapping);
    assert(instruction == instruction_of(mapping));
    assert(mapping.field == name);
    assert forall|j: int|
        0 <= j < directives.len() && effective_sender(
            #[trigger] directives[j],
            senders,
        ) == s implies asked == entry_of(directives[j]) && asked is Some by {
        let last = last_for(directives, senders, s, directives.len() as int);
        assert(last is Some);
        let k = last->Some_0;
        if k < j {
            assert(effective_sender(directives[k], senders) != effective_sender(
                directives[j],
                senders,
            ));
        } else if j < k {
            assert(effective_sender(directives[j], senders) != effective_sender(
                directives[k],
                senders,
            ));
        }
        assert(k == j);
    }
    if forall|j: int|
        0 <= j < directives.len() ==> effective_sender(#[trigger] directives[j], senders) != s {
        assert(asked is None);
    }
    assert forall|j: int|
        0 <= j < directives.len() && (#[trigger] directives[j]).from_struct == Some(
            senders[s],
        ) implies senders[effective_sender(directives[j], senders)] == senders[s] by {
        assert(senders.contains(senders[s]));
        senders.index_of_first_ensures(senders[s]);
    }
}

/// A sender that is named again further on fails the pass, which reports it at its
/// place in the sender list.
pub proof fn law_duplicate_sender_is_reported(
    senders: Seq<Seq<char>>,
    receiver: ReceiverDescriptionView,
    i: int,
    j: int,
)
    requires
        0 <= i < j < senders.len(),
        senders[i] == senders[j],
    ensures
        expansion_of(senders, receiver) == Err::<ExpansionView, Seq<DiagnosticView>>(
            all_diagnostics(senders, receiver),
        ),
        all_diagnostics(senders, receiver).contains(
            diagnostic(MSG_DUPLICATE_SENDER@, Location::Sender { index: i as usize }),
        ),
{
    let found = diagnostic(MSG_DUPLICATE_SENDER@, Location::Sender { index: i as usize });
    assert(named_again(senders, i));
    assert(sender_diagnostics(senders, i)[0] == found);
    law_every_defect_is_reported(senders, receiver);
    lemma_stands_contains(
        all_diagnostics(senders, receiver),
        senders_diagnostics(senders, i).len(),
        sender_diagnostics(senders, i),
        found,
    );
}

/// A `from_struct` that names no declared sender is reported at its item, with a message
/// that lists the declared senders.
pub proof fn law_unknown_sender_is_reported(
    values: Seq<ItemValueView>,
    senders: Seq<Seq<char>>,
    field: usize,
    attr: usize,
    i: int,
    name: Seq<char>,
)
    requires
        0 <= i < values.len(),
        values[i] == (ItemValueView::Keyed { key: Key::FromStruct, value: Ok(name) }),
        first_with(values, Key::FromStruct, i) is None,
        !senders.contains(name),
    ensures
        item_diagnostics(values, senders, field, attr, i) == seq![
            diagnostic(
                unknown_sender_text(senders),
                Location::Item { field, attr, item: i as usize },
            ),
        ],
        directive_diagnostics(values, senders, field, attr).contains(
            diagnostic(
                unknown_sender_text(senders),
                Location::Item { field, attr, item: i as usize },
            ),
        ),
{
    let found = diagnostic(
        unknown_sender_text(senders),
        Location::Item { field, attr, item: i as usize },
    );
    let part = item_diagnostics(values, senders, field, attr, i);
    assert(part =~= seq![found]);
    assert(part[0] == found);
    let items = items_diagnostics(values, senders, field, attr, values.len() as int);
    law_items_accumulate(values, senders, field, attr, values.len() as int, i);
    lemma_stands_contains(
        items,
        items_diagnostics(values, senders, field, attr, i).len(),
        part,
        found,
    );
    let k = choose|k: int| 0 <= k < items.len() && items[k] == found;
    assert(directive_diagnostics(values, senders, field, attr)[k] == found);
}

/// What is wrong with an attribute of a named field is reported by the pass, which fails.
pub proof fn law_attribute_defects_fail_the_pass(
    senders: Seq<Seq<char>>,
    receiver: ReceiverDescriptionView,
    i: int,
    a: int,
    found: DiagnosticView,
)
    requires
        senders.len() > 0,
        0 <= i < receiver.fields.len(),
        receiver.fields[i].name is Some,
        0 <= a < receiver.fields[i].attrs.len(),
        field_attribute_diagnostics(receiver.fields[i].attrs, senders, i as usize, a).contains(
            found,
        ),
    ensures
        expansion_of(senders, receiver) == Err::<ExpansionView, Seq<DiagnosticView>>(
            all_diagnostics(senders, receiver),
        ),
        all_diagnostics(senders, receiver).contains(found),
{
    let field = receiver.fields[i];
    let attrs = field.attrs;
    let at_attribute = field_attribute_diagnostics(attrs, senders, i as usize, a);
    let of_field = field_diagnostics(attrs, senders, i as usize, attrs.len() as int);
    law_attributes_accumulate(attrs, senders, i as usize, attrs.len() as int, a);
    lemma_stands_contains(
        of_field,
        field_diagnostics(attrs, senders, i as usize, a).len(),
        at_attribute,
        found,
    );
    assert(receiver_field_diagnostics(field, senders, i) == of_field);
    law_every_defect_is_reported(senders, receiver);
    lemma_stands_contains(
        all_diagnostics(senders, receiver),
        senders_diagnostics(senders, senders.len() as int).len() + fields_diagnostics(
            receiver.fields,
            senders,
            i,
        ).len(),
        receiver_field_diagnostics(receiver.fields[i], senders, i),
        found,
    );
}

/// Whether every item gives a known key a value that could be read, no key comes twice,
/// and `from_struct`, if given, names a declared sender.
pub open spec fn sound_items(values: Seq<ItemValueView>, senders: Seq<Seq<char>>) -> bool {
    &&& forall|i: int|
        0 <= i < values.len() ==> (#[trigger] values[i] matches ItemValueView::Keyed {
            value: Ok(_),
            ..
        })
    &&& forall|i: int, j: int, key: Key|
        0 <= i < j < values.len() && #[trigger] has_key(values[i], key) ==> !#[trigger] has_key(
            values[j],
            key,
        )
    &&& forall|i: int|
        0 <= i < values.len() ==> (#[trigger] values[i] matches ItemValueView::Keyed {
            key: Key::FromStruct,
            value: Ok(name),
        } ==> senders.contains(name))
}

/// Sound items give nothing to report.
pub proof fn lemma_sound_items(
    values: Seq<ItemValueView>,
    senders: Seq<Seq<char>>,
    field: usize,
    attr: usize,
    n: int,
)
    requires
        sound_items(values, senders),
        0 <= n <= values.len(),
    ensures
        items_diagnostics(values, senders, field, attr, n) == Seq::<DiagnosticView>::empty(),
    decreases n,
{
    if n > 0 {
        lemma_sound_items(values, senders, field, attr, n - 1);
        let i = n - 1;
        match values[i] {
            ItemValueView::Keyed { key, value } => {
                lemma_first_with(values, key, i);
                assert(has_key(values[i], key));
                if first_with(values, key, i) is Some {
                    let j = first_with(values, key, i)->Some_0;
                    assert(has_key(values[j], key));
                    assert(false);
                }
                assert(first_with(values, key, i + 1) == Some(i));
            },
            _ => {
                assert(false);
            },
        }
        assert(item_diagnostics(values, senders, field, attr, i) =~= Seq::<
            DiagnosticView,
        >::empty());
        assert(items_diagnostics(values, senders, field, attr, n) =~= Seq::<
            DiagnosticView,
        >::empty());
    }
}

/// Of a directive whose items are sound, only the shape can be wrong: with both
/// `default_value` and `from_field` exactly two diagnostics are reported, with neither
/// exactly one, and with exactly one of them none.
pub proof fn law_sound_items_leave_the_shape(
    values: Seq<ItemValueView>,
    senders: Seq<Seq<char>>,
    field: usize,
    attr: usize,
)
    requires
        sound_items(values, senders),
    ensures
        directive_diagnostics(values, senders, field, attr) == shape_diagnostics(
            values,
            field,
            attr,
        ),
        ({
            let directive = directive_of(values);
            let found = directive_diagnostics(values, senders, field, attr);
            &&& directive.default_value is Some && directive.from_field is Some ==> found.len()
                == 2
            &&& directive.default_value is None && directive.from_field is None ==> found.len()
                == 1
            &&& (directive.default_value is Some) != (directive.from_field is Some)
                ==> found.len() == 0
        }),
{
    lemma_sound_items(values, senders, field, attr, values.len() as int);
    law_exactly_one_of(values, field, attr);
    assert(directive_diagnostics(values, senders, field, attr) =~= shape_diagnostics(
        values,
        field,
        attr,
    ));
}

} // verus!
