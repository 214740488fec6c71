//! Resolution: from the receiver's fields and their directives to, for every sender, the
//! source of every field.

use vstd::prelude::*;
use crate::diagnostic::{diagnostic, Accumulator, Diagnostic, DiagnosticView, Location};
use crate::directive::{is_directive, FieldDirective, FieldDirectiveView, ATTRIBUTE_NAME};
use crate::field::{effective_sender, field_diagnostics, field_directives};
use crate::model::{
    FieldDescription, FieldDescriptionView, RawAttribute, RawAttributeView, ReceiverDescription,
    ReceiverDescriptionView,
};
use crate::text::{is_text, texts, views};

verus! {

/// The message for a field without a name.
pub const MSG_UNNAMED_FIELD: &'static str = "unnamed fields are not supported";

/// Where the value of a receiver field comes from.
#[derive(Clone, Debug, PartialEq, Eq)]
pub enum MappingEntry {
    /// Read the named field of the sender and convert it.
    FromSenderField(String),
    /// Evaluate the expression.
    DefaultExpression(String),
}

/// What a [`MappingEntry`] holds, as mathematical values.
pub enum MappingEntryView {
    FromSenderField(Seq<char>),
    DefaultExpression(Seq<char>),
}

impl View for MappingEntry {
    type V = MappingEntryView;

    open spec fn view(&self) -> MappingEntryView {
        match *self {
            MappingEntry::FromSenderField(name) => MappingEntryView::FromSenderField(name@),
            MappingEntry::DefaultExpression(expr) => MappingEntryView::DefaultExpression(expr@),
        }
    }
}

/// The view of an optional entry.
pub open spec fn option_entry(entry: Option<MappingEntry>) -> Option<MappingEntryView> {
    match entry {
        Some(e) => Some(e@),
        None => None,
    }
}

/// The views of a row of optional entries.
pub open spec fn row_view(row: Seq<Option<MappingEntry>>) -> Seq<Option<MappingEntryView>> {
    Seq::new(row.len(), |s: int| option_entry(row[s]))
}

/// The views of rows of optional entries.
pub open spec fn rows_view(rows: Seq<Vec<Option<MappingEntry>>>) -> Seq<
    Seq<Option<MappingEntryView>>,
> {
    Seq::new(rows.len(), |i: int| row_view(rows[i]@))
}

impl MappingEntry {
    /// A copy of this entry.
    pub fn duplicate(&self) -> (r: MappingEntry)
        ensures
            r@ == self@,
    {
        match self {
            MappingEntry::FromSenderField(name) => MappingEntry::FromSenderField(name.clone()),
            MappingEntry::DefaultExpression(expr) => MappingEntry::DefaultExpression(
                expr.clone(),
            ),
        }
    }
}

/// The entry that a directive asks for: the sender field it names, else the expression it
/// gives, else none.
pub open spec fn entry_of(directive: FieldDirectiveView) -> Option<MappingEntryView> {
    match directive.from_field {
        Some(name) => Some(MappingEntryView::FromSenderField(name)),
        None => match directive.default_value {
            Some(expr) => Some(MappingEntryView::DefaultExpression(expr)),
            None => None,
        },
    }
}

/// The last of the first `n` directives that is for `sender`.
pub open spec fn last_for(
    directives: Seq<FieldDirectiveView>,
    senders: Seq<Seq<char>>,
    sender: int,
    n: int,
) -> Option<int>
    decreases n,
{
    if n <= 0 {
        None
    } else if effective_sender(directives[n - 1], senders) == sender {
        Some(n - 1)
    } else {
        last_for(directives, senders, sender, n - 1)
    }
}

/// What the first `n` directives of a field ask for on behalf of `sender`: the entry of
/// the one that is for that sender, if there is one.
pub open spec fn override_for(
    directives: Seq<FieldDirectiveView>,
    senders: Seq<Seq<char>>,
    sender: int,
    n: int,
) -> Option<MappingEntryView> {
    match last_for(directives, senders, sender, n) {
        Some(j) => entry_of(directives[j]),
        None => None,
    }
}

/// What a field's directives ask for, sender by sender.
pub open spec fn overrides_of(directives: Seq<FieldDirectiveView>, senders: Seq<Seq<char>>) -> Seq<
    Option<MappingEntryView>,
> {
    Seq::new(
        senders.len(),
        |s: int| override_for(directives, senders, s, directives.len() as int),
    )
}

/// The directives of a field.
pub open spec fn directives_of(field: FieldDescriptionView) -> Seq<FieldDirectiveView> {
    field_directives(field.attrs, field.attrs.len() as int)
}

/// The name of a field; empty for a positional one.
pub open spec fn name_of(field: FieldDescriptionView) -> Seq<char> {
    match field.name {
        Some(name) => name,
        None => Seq::<char>::empty(),
    }
}

/// What is wrong with a field, which stands at position `i` of the receiver: that it has
/// no name, or what is wrong with its directives.
pub open spec fn receiver_field_diagnostics(
    field: FieldDescriptionView,
    senders: Seq<Seq<char>>,
    i: int,
) -> Seq<DiagnosticView> {
    match field.name {
        None => seq![diagnostic(MSG_UNNAMED_FIELD@, Location::Field { field: i as usize })],
        Some(_) => field_diagnostics(field.attrs, senders, i as usize, field.attrs.len() as int),
    }
}

/// What is wrong with the first `n` fields of the receiver, in their order.
pub open spec fn fields_diagnostics(
    fields: Seq<FieldDescriptionView>,
    senders: Seq<Seq<char>>,
    n: int,
) -> Seq<DiagnosticView>
    decreases n,
{
    if n <= 0 {
        Seq::<DiagnosticView>::empty()
    } else {
        fields_diagnostics(fields, senders, n - 1) + receiver_field_diagnostics(
            fields[n - 1],
            senders,
            n - 1,
        )
    }
}

/// The first `n` attributes of a field without those that carry directives.
pub open spec fn kept_attributes(attrs: Seq<RawAttributeView>, n: int) -> Seq<RawAttributeView>
    decreases n,
{
    if n <= 0 {
        Seq::<RawAttributeView>::empty()
    } else if is_directive(attrs[n - 1]) {
        kept_attributes(attrs, n - 1)
    } else {
        kept_attributes(attrs, n - 1).push(attrs[n - 1])
    }
}

/// A field without its directives.
pub open spec fn stripped_field(field: FieldDescriptionView) -> FieldDescriptionView {
    FieldDescriptionView {
        name: field.name,
        ty: field.ty,
        attrs: kept_attributes(field.attrs, field.attrs.len() as int),
    }
}

/// A receiver without the directives on its fields.
pub open spec fn stripped_receiver(receiver: ReceiverDescriptionView) -> ReceiverDescriptionView {
    ReceiverDescriptionView {
        name: receiver.name,
        fields: Seq::new(receiver.fields.len(), |i: int| stripped_field(receiver.fields[i])),
    }
}

/// For each field of the receiver and each sender, the entry that the field's directives
/// ask for, if any.
#[derive(Clone, Debug, PartialEq, Eq)]
pub struct FieldAttrs {
    /// One row for each field; in a row, one place for each sender.
    pub overrides: Vec<Vec<Option<MappingEntry>>>,
}

impl View for FieldAttrs {
    type V = Seq<Seq<Option<MappingEntryView>>>;

    open spec fn view(&self) -> Seq<Seq<Option<MappingEntryView>>> {
        rows_view(self.overrides@)
    }
}

/// What the directives of the receiver's fields ask for.
pub open spec fn field_attrs_of(fields: Seq<FieldDescriptionView>, senders: Seq<Seq<char>>) -> Seq<
    Seq<Option<MappingEntryView>>,
> {
    Seq::new(fields.len(), |i: int| overrides_of(directives_of(fields[i]), senders))
}

/// What resolution needs of a receiver.
#[derive(Clone, Debug, PartialEq, Eq)]
pub struct ImplData {
    /// The receiver without its directives.
    pub into_struct: ReceiverDescription,
    /// The receiver's name.
    pub into_ident: String,
    /// The names of the receiver's fields, in declaration order.
    pub fields: Vec<String>,
    pub field_attrs: FieldAttrs,
}

/// What a [`ImplData`] holds, as mathematical values.
pub struct ImplDataView {
    pub into_struct: ReceiverDescriptionView,
    pub into_ident: Seq<char>,
    pub fields: Seq<Seq<char>>,
    pub field_attrs: Seq<Seq<Option<MappingEntryView>>>,
}

impl View for ImplData {
    type V = ImplDataView;

    open spec fn view(&self) -> ImplDataView {
        ImplDataView {
            into_struct: self.into_struct@,
            into_ident: self.into_ident@,
            fields: texts(self.fields@),
            field_attrs: self.field_attrs@,
        }
    }
}

/// What resolution needs of the given receiver.
pub open spec fn impl_data_of(receiver: ReceiverDescriptionView, senders: Seq<Seq<char>>) -> ImplDataView {
    ImplDataView {
        into_struct: stripped_receiver(receiver),
        into_ident: receiver.name,
        fields: Seq::new(receiver.fields.len(), |i: int| name_of(receiver.fields[i])),
        field_attrs: field_attrs_of(receiver.fields, senders),
    }
}

/// The entry that a directive asks for.
pub fn directive_entry(directive: &FieldDirective) -> (r: Option<MappingEntry>)
    ensures
        option_entry(r) == entry_of(directive@),
{
    match &directive.from_field {
        Some(name) => Some(MappingEntry::FromSenderField(name.clone())),
        None => match &directive.default_value {
            Some(expr) => Some(MappingEntry::DefaultExpression(expr.clone())),
            None => None,
        },
    }
}

/// What a field's directives ask for, sender by sender.
pub fn overrides_row(directives: &Vec<FieldDirective>, from_idents: &Vec<String>) -> (r: Vec<
    Option<MappingEntry>,
>)
    requires
        from_idents.len() > 0,
    ensures
        row_view(r@) == overrides_of(views(directives@), texts(from_idents@)),
{
    let ghost ds = views(directives@);
    let ghost senders = texts(from_idents@);
    let mut row: Vec<Option<MappingEntry>> = Vec::new();
    let mut s: usize = 0;
    while s < from_idents.len()
        invariant
            s <= from_idents.len(),
            row.len() == s,
            forall|k: int| 0 <= k < s ==> row[k] is None,
        decreases from_idents.len() - s,
    {
        row.push(None);
        s = s + 1;
    }
    let mut j: usize = 0;
    while j < directives.len()
        invariant
            j <= directives.len(),
            ds == views(directives@),
            senders == texts(from_idents@),
            from_idents.len() > 0,
            row.len() == from_idents.len(),
            forall|k: int|
                0 <= k < row.len() ==> option_entry(#[trigger] row[k]) == override_for(
                    ds,
                    senders,
                    k,
                    j as int,
                ),
        decreases directives.len() - j,
    {
        let directive = &directives[j];
        assert(ds[j as int] == directive@);
        let target = directive.target(from_idents);
        row.set(target, directive_entry(directive));
        j = j + 1;
    }
    assert(row_view(row@) =~= overrides_of(ds, senders));
    row
}

impl ImplData {
    /// A field without the attributes that carry directives. Its other attributes stay,
    /// in their order.
    pub fn remove_my_attrs(field: &FieldDescription) -> (r: FieldDescription)
        ensures
            r@ == stripped_field(field@),
    {
        let ghost attrs = field@.attrs;
        let mut kept: Vec<RawAttribute> = Vec::new();
        let mut i: usize = 0;
        assert(views(kept@) =~= kept_attributes(attrs, 0));
        while i < field.attrs.len()
            invariant
                i <= field.attrs.len(),
                attrs == field@.attrs,
                attrs.len() == field.attrs.len(),
                views(kept@) == kept_attributes(attrs, i as int),
            decreases field.attrs.len() - i,
        {
            let attr = &field.attrs[i];
            assert(attrs[i as int] == attr@);
            let ghost before = views(kept@);
            if !is_text(&attr.path, ATTRIBUTE_NAME) {
                kept.push(
                    RawAttribute {
                        path: attr.path.clone(),
                        shape: attr.shape,
                        payload: attr.payload.clone(),
                    },
                );
                assert(views(kept@) =~= before.push(attr@));
            }
            i = i + 1;
        }
        let name = match &field.name {
            Some(name) => Some(name.clone()),
            None => None,
        };
        FieldDescription { name, ty: field.ty.clone(), attrs: kept }
    }

    /// What the directives of the receiver's fields ask for, sender by sender; or, if
    /// anything is wrong with any field, everything that is wrong, in the order of the
    /// fields.
    pub fn extract_field_attributes(input: &ReceiverDescription, from_idents: &Vec<String>) -> (r:
        Result<FieldAttrs, Vec<Diagnostic>>)
        requires
            from_idents.len() > 0,
        ensures
            match r {
                Ok(field_attrs) => {
                    &&& fields_diagnostics(
                        input@.fields,
                        texts(from_idents@),
                        input@.fields.len() as int,
                    ).len() == 0
                    &&& field_attrs@ == field_attrs_of(input@.fields, texts(from_idents@))
                },
                Err(errors) => {
                    &&& errors.len() > 0
                    &&& views(errors@) == fields_diagnostics(
                        input@.fields,
                        texts(from_idents@),
                        input@.fields.len() as int,
                    )
                },
            },
    {
        let ghost fields = input@.fields;
        let ghost senders = texts(from_idents@);
        let mut errors = Accumulator::new();
        let mut overrides: Vec<Vec<Option<MappingEntry>>> = Vec::new();
        let mut i: usize = 0;
        while i < input.fields.len()
            invariant
                i <= input.fields.len(),
                fields == input@.fields,
                fields.len() == input.fields.len(),
                senders == texts(from_idents@),
                from_idents.len() > 0,
                errors@ == fields_diagnostics(fields, senders, i as int),
                errors@.len() == 0 ==> overrides.len() == i,
                errors@.len() == 0 ==> forall|k: int|
                    0 <= k < i ==> row_view(#[trigger] overrides[k]@) == overrides_of(
                        directives_of(fields[k]),
                        senders,
                    ),
            decreases input.fields.len() - i,
        {
            let field = &input.fields[i];
            assert(fields[i as int] == field@);
            let ghost before = errors@;
            match &field.name {
                None => {
                    errors.push(
                        Diagnostic::custom(MSG_UNNAMED_FIELD, Location::Field { field: i }),
                    );
                },
                Some(_) => {
                    let my_attrs_res = FieldDirective::from_field_all(field, from_idents, i);
                    errors.push_result(&my_attrs_res);
                    match my_attrs_res {
                        Ok(my_attrs) => {
                            overrides.push(overrides_row(&my_attrs, from_idents));
                        },
                        Err(_) => {},
                    }
                },
            }
            assert(errors@ =~= before + receiver_field_diagnostics(field@, senders, i as int));
            i = i + 1;
        }
        let field_attrs = FieldAttrs { overrides };
        proof {
            if errors@.len() == 0 {
                assert(field_attrs@ =~= field_attrs_of(fields, senders));
            }
        }
        errors.finish_with(field_attrs)
    }

    /// What resolution needs of the receiver: the receiver without its directives, its
    /// name, the names of its fields, and what the directives ask for; or everything that
    /// is wrong with its fields.
    pub fn from_parsed_input(input: ReceiverDescription, from_idents: &Vec<String>) -> (r: Result<
        ImplData,
        Vec<Diagnostic>,
    >)
        requires
            from_idents.len() > 0,
        ensures
            match r {
                Ok(data) => {
                    &&& fields_diagnostics(
                        input@.fields,
                        texts(from_idents@),
                        input@.fields.len() as int,
                    ).len() == 0
                    &&& data@ == impl_data_of(input@, texts(from_idents@))
                },
                Err(errors) => {
                    &&& errors.len() > 0
                    &&& views(errors@) == fields_diagnostics(
                        input@.fields,
                        texts(from_idents@),
                        input@.fields.len() as int,
                    )
                },
            },
    {
        let field_attrs = match ImplData::extract_field_attributes(&input, from_idents) {
            Ok(field_attrs) => field_attrs,
            Err(errors) => {
                return Err(errors);
            },
        };
        let mut stripped: Vec<FieldDescription> = Vec::new();
        let mut fields: Vec<String> = Vec::new();
        let mut i: usize = 0;
        while i < input.fields.len()
            invariant
                i <= input.fields.len(),
                stripped.len() == i,
                fields.len() == i,
                forall|k: int| 0 <= k < i ==> (#[trigger] stripped[k])@ == stripped_field(
                    input.fields[k]@,
                ),
                forall|k: int| 0 <= k < i ==> (#[trigger] fields[k])@ == name_of(input.fields[k]@),
            decreases input.fields.len() - i,
        {
            let field = &input.fields[i];
            stripped.push(ImplData::remove_my_attrs(field));
            fields.push(
                match &field.name {
                    Some(name) => name.clone(),
                    None => String::new(),
                },
            );
            i = i + 1;
        }
        let data = ImplData {
            into_struct: ReceiverDescription { name: input.name.clone(), fields: stripped },
            into_ident: input.name,
            fields,
            field_attrs,
        };
        assert(data@.into_struct.fields =~= stripped_receiver(input@).fields);
        assert(data@.fields =~= impl_data_of(input@, texts(from_idents@)).fields);
        Ok(data)
    }
}

} // verus!
