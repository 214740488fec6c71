//! The directives of one field: every `auto_from_attr` attribute on it, read in order.

use vstd::prelude::*;
use vstd::string::StringExecFns;
use crate::diagnostic::{diagnostic, Accumulator, Diagnostic, DiagnosticView, Location};
use crate::directive::{
    attribute_diagnostics, attribute_directive, attribute_items, attribute_values, is_directive,
    read_items, FieldDirective, FieldDirectiveView, ATTRIBUTE_NAME, MSG_NAME_VALUE,
};
use crate::model::{AttributeShape, FieldDescription, RawAttribute, RawAttributeView};
use crate::outside::parse_meta_items;
use crate::text::{is_text, position, same_index, texts, views};

verus! {

/// The message for a field with two directives for one sender.
pub const MSG_SAME_SENDER: &'static str =
    "the same `from` struct may may not be used more than once for a given field";

/// The sender that a directive is for, by its position in the sender list: the one that
/// `from_struct` names, and the first one if `from_struct` is absent or names none.
pub open spec fn effective_sender(directive: FieldDirectiveView, senders: Seq<Seq<char>>) -> int {
    match directive.from_struct {
        Some(name) => match senders.index_of_first(name) {
            Some(i) => i,
            None => 0,
        },
        None => 0,
    }
}

/// The sender that a directive attribute is for.
pub open spec fn target_of(attr: RawAttributeView, senders: Seq<Seq<char>>) -> int {
    effective_sender(attribute_directive(attr), senders)
}

/// The last of the first `n` attributes that carries a directive for `sender`.
pub open spec fn previous_for(
    attrs: Seq<RawAttributeView>,
    senders: Seq<Seq<char>>,
    sender: int,
    n: int,
) -> Option<int>
    decreases n,
{
    if n <= 0 {
        None
    } else if is_directive(attrs[n - 1]) && target_of(attrs[n - 1], senders) == sender {
        Some(n - 1)
    } else {
        previous_for(attrs, senders, sender, n - 1)
    }
}

/// What is wrong with the attribute at position `i` of a field: nothing if it carries no
/// directive; else what is wrong with the directive, and, if an earlier attribute is for
/// the same sender, a diagnostic that blames the latest such attribute.
pub open spec fn field_attribute_diagnostics(
    attrs: Seq<RawAttributeView>,
    senders: Seq<Seq<char>>,
    field: usize,
    i: int,
) -> Seq<DiagnosticView> {
    if !is_directive(attrs[i]) {
        Seq::<DiagnosticView>::empty()
    } else {
        let repeated = match previous_for(attrs, senders, target_of(attrs[i], senders), i) {
            Some(j) => seq![
                diagnostic(MSG_SAME_SENDER@, Location::Attribute { field, attr: j as usize }),
            ],
            None => Seq::<DiagnosticView>::empty(),
        };
        attribute_diagnostics(attrs[i], senders, field, i as usize) + repeated
    }
}

/// What is wrong with the first `n` attributes of a field, in their order.
pub open spec fn field_diagnostics(
    attrs: Seq<RawAttributeView>,
    senders: Seq<Seq<char>>,
    field: usize,
    n: int,
) -> Seq<DiagnosticView>
    decreases n,
{
    if n <= 0 {
        Seq::<DiagnosticView>::empty()
    } else {
        field_diagnostics(attrs, senders, field, n - 1) + field_attribute_diagnostics(
            attrs,
            senders,
            field,
            n - 1,
        )
    }
}

/// The directives that the first `n` attributes of a field carry, in their order.
pub open spec fn field_directives(attrs: Seq<RawAttributeView>, n: int) -> Seq<FieldDirectiveView>
    decreases n,
{
    if n <= 0 {
        Seq::<FieldDirectiveView>::empty()
    } else if is_directive(attrs[n - 1]) {
        field_directives(attrs, n - 1).push(attribute_directive(attrs[n - 1]))
    } else {
        field_directives(attrs, n - 1)
    }
}

/// The items of a directive attribute, each as its token text, or the reason why it has
/// none.
pub fn read_attribute(attr: &RawAttribute) -> (r: Result<Vec<String>, String>)
    ensures
        match r {
            Ok(items) => attribute_items(attr@) == Ok::<Seq<Seq<char>>, Seq<char>>(
                texts(items@),
            ),
            Err(message) => attribute_items(attr@) == Err::<Seq<Seq<char>>, Seq<char>>(
                message@,
            ),
        },
{
    match attr.shape {
        AttributeShape::List => parse_meta_items(attr.payload.as_str()),
        AttributeShape::Path => {
            let items: Vec<String> = Vec::new();
            assert(texts(items@) =~= Seq::empty());
            Ok(items)
        },
        AttributeShape::NameValue => Err(String::from_str(MSG_NAME_VALUE)),
    }
}

impl FieldDirective {
    /// The position of the sender that this directive is for.
    pub fn target(&self, from_idents: &Vec<String>) -> (r: usize)
        requires
            from_idents.len() > 0,
        ensures
            r == effective_sender(self@, texts(from_idents@)),
            r < from_idents.len(),
    {
        proof {
            if self@.from_struct is Some {
                texts(from_idents@).index_of_first_ensures(self@.from_struct.unwrap());
            }
        }
        match &self.from_struct {
            Some(name) => match position(from_idents, name) {
                Some(i) => i,
                None => 0,
            },
            None => 0,
        }
    }

    /// The directive that one attribute carries. Everything that is wrong with it goes to
    /// `errors`. `field` and `index` say where the attribute stands.
    pub fn from_attribute(
        attr: &RawAttribute,
        from_idents: &Vec<String>,
        field: usize,
        index: usize,
        errors: &mut Accumulator,
    ) -> (r: FieldDirective)
        ensures
            r@ == attribute_directive(attr@),
            final(errors)@ == old(errors)@ + attribute_diagnostics(
                attr@,
                texts(from_idents@),
                field,
                index,
            ),
    {
        let ghost earlier = errors@;
        let items = match read_attribute(attr) {
            Ok(items) => items,
            Err(message) => {
                errors.push(Diagnostic::new(message, Location::Attribute { field, attr: index }));
                Vec::new()
            },
        };
        let values = read_items(&items);
        assert(views(values@) =~= attribute_values(attr@));
        let directive = FieldDirective::from_items(&values, from_idents, field, index, errors);
        assert(errors@ =~= earlier + attribute_diagnostics(
            attr@,
            texts(from_idents@),
            field,
            index,
        ));
        directive
    }

    /// The directives of a field, one for each `auto_from_attr` attribute on it, in
    /// order; or, if anything is wrong with any of them, everything that is wrong.
    /// `index` is the field's position in the receiver.
    pub fn from_field_all(field: &FieldDescription, from_idents: &Vec<String>, index: usize) -> (r:
        Result<Vec<FieldDirective>, Vec<Diagnostic>>)
        requires
            from_idents.len() > 0,
        ensures
            match r {
                Ok(directives) => {
                    &&& field_diagnostics(
                        field@.attrs,
                        texts(from_idents@),
                        index,
                        field@.attrs.len() as int,
                    ).len() == 0
                    &&& views(directives@) == field_directives(
                        field@.attrs,
                        field@.attrs.len() as int,
                    )
                },
                Err(errors) => {
                    &&& errors.len() > 0
                    &&& views(errors@) == field_diagnostics(
                        field@.attrs,
                        texts(from_idents@),
                        index,
                        field@.attrs.len() as int,
                    )
                },
            },
    {
        let ghost attrs = field@.attrs;
        let ghost senders = texts(from_idents@);
        let mut errors = Accumulator::new();
        let mut my_attrs: Vec<FieldDirective> = Vec::new();
        let mut latest: Vec<Option<usize>> = Vec::new();
        let mut s: usize = 0;
        while s < from_idents.len()
            invariant
                s <= from_idents.len(),
                latest.len() == s,
                forall|k: int| 0 <= k < s ==> latest[k] is None,
            decreases from_idents.len() - s,
        {
            latest.push(None);
            s = s + 1;
        }
        assert(errors@ =~= field_diagnostics(attrs, senders, index, 0));
        assert(views(my_attrs@) =~= field_directives(attrs, 0));
        let mut i: usize = 0;
        while i < field.attrs.len()
            invariant
                i <= field.attrs.len(),
                attrs == field@.attrs,
                attrs.len() == field.attrs.len(),
                senders == texts(from_idents@),
                from_idents.len() > 0,
                latest.len() == from_idents.len(),
                forall|k: int|
                    0 <= k < latest.len() ==> same_index(
                        #[trigger] latest[k],
                        previous_for(attrs, senders, k, i as int),
                    ),
                errors@ == field_diagnostics(attrs, senders, index, i as int),
                views(my_attrs@) == field_directives(attrs, i as int),
            decreases field.attrs.len() - i,
        {
            let attr = &field.attrs[i];
            assert(attrs[i as int] == attr@);
            let ghost before = errors@;
            let ghost directives_before = views(my_attrs@);
            if is_text(&attr.path, ATTRIBUTE_NAME) {
                let directive = FieldDirective::from_attribute(
                    attr,
                    from_idents,
                    index,
                    i,
                    &mut errors,
                );
                let target = directive.target(from_idents);
                match latest[target] {
                    Some(j) => {
                        errors.push(
                            Diagnostic::custom(
                                MSG_SAME_SENDER,
                                Location::Attribute { field: index, attr: j },
                            ),
                        );
                    },
                    None => {},
                }
                latest.set(target, Some(i));
                my_attrs.push(directive);
                assert(views(my_attrs@) =~= directives_before.push(attribute_directive(attr@)));
            }
            assert(errors@ =~= before + field_attribute_diagnostics(
                attrs,
                senders,
                index,
                i as int,
            ));
            i = i + 1;
        }
        errors.finish_with(my_attrs)
    }
}

} // verus!
