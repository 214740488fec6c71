//! Field directives: what one `auto_from_attr` attribute says, and what is wrong with it.

use vstd::prelude::*;
use vstd::string::StringExecFns;
use crate::diagnostic::{diagnostic, Accumulator, Diagnostic, DiagnosticView, Location};
use crate::model::{AttributeShape, RawAttributeView};
use crate::outside::{
    debug_list, debug_text, duplicate_field_message, duplicate_field_text, expr_of, expr_value,
    ident_of, ident_value, item_key, item_key_of, meta_items_of, unknown_field_message,
    unknown_field_text, unsupported_format_message, unsupported_format_text,
};
use crate::text::{is_text, option_text, position, result_text, same_index, texts, views};

verus! {

/// The path of the attributes that carry directives.
pub const ATTRIBUTE_NAME: &'static str = "auto_from_attr";

/// The key that gives a field an expression to evaluate.
pub const KEY_DEFAULT_VALUE: &'static str = "default_value";

/// The key that names the sender's field to read.
pub const KEY_FROM_FIELD: &'static str = "from_field";

/// The key that names the sender that a directive is for.
pub const KEY_FROM_STRUCT: &'static str = "from_struct";

/// The format that a bare literal among a directive's items is reported as.
pub const FORMAT_LITERAL: &'static str = "literal";

/// The message for a directive that gives both or neither of `default_value` and
/// `from_field`.
pub const MSG_EXACTLY_ONE: &'static str =
    "exactly one of `default_value` or `from_field` must be specified for an `auto_from_attr` attribute";

/// The message for a directive attribute of the shape `#[auto_from_attr = value]`.
pub const MSG_NAME_VALUE: &'static str =
    "Name-value arguments are not supported. Use #[auto_from_attr(...)]";

/// The start of the message for a `from_struct` that names no declared sender; the list
/// of the declared senders follows it.
pub const MSG_UNKNOWN_SENDER: &'static str = "`from_struct` value must be one of ";

/// The three keys that a directive knows.
#[derive(Clone, Copy, Debug, PartialEq, Eq, Structural)]
pub enum Key {
    DefaultValue,
    FromField,
    FromStruct,
}

/// The key as it is written in a directive.
pub open spec fn key_text(key: Key) -> Seq<char> {
    match key {
        Key::DefaultValue => KEY_DEFAULT_VALUE@,
        Key::FromField => KEY_FROM_FIELD@,
        Key::FromStruct => KEY_FROM_STRUCT@,
    }
}

/// The keys that an unknown key is compared with.
pub open spec fn known_keys() -> Seq<Seq<char>> {
    seq![KEY_DEFAULT_VALUE@, KEY_FROM_FIELD@, KEY_FROM_STRUCT@]
}

/// One item of a directive, with its value read.
#[derive(Debug, PartialEq, Eq)]
pub enum ItemValue {
    /// A bare literal.
    Literal,
    /// One of the three keys, with its value or the reason why it has none.
    Keyed { key: Key, value: Result<String, String> },
    /// Any other key.
    Unknown { key: String },
}

/// What a [`ItemValue`] holds, as mathematical values.
pub enum ItemValueView {
    Literal,
    Keyed { key: Key, value: Result<Seq<char>, Seq<char>> },
    Unknown { key: Seq<char> },
}

impl View for ItemValue {
    type V = ItemValueView;

    open spec fn view(&self) -> ItemValueView {
        match *self {
            ItemValue::Literal => ItemValueView::Literal,
            ItemValue::Keyed { key, value } => ItemValueView::Keyed {
                key,
                value: result_text(value),
            },
            ItemValue::Unknown { key } => ItemValueView::Unknown { key: key@ },
        }
    }
}

/// What an item says: an expression for `default_value`, an identifier for `from_field`
/// and `from_struct`.
pub open spec fn item_value(item: Seq<char>) -> ItemValueView {
    match item_key_of(item) {
        None => ItemValueView::Literal,
        Some(key) => if key == KEY_DEFAULT_VALUE@ {
            ItemValueView::Keyed { key: Key::DefaultValue, value: expr_of(item) }
        } else if key == KEY_FROM_FIELD@ {
            ItemValueView::Keyed { key: Key::FromField, value: ident_of(item) }
        } else if key == KEY_FROM_STRUCT@ {
            ItemValueView::Keyed { key: Key::FromStruct, value: ident_of(item) }
        } else {
            ItemValueView::Unknown { key }
        },
    }
}

/// The values of a list of items.
pub open spec fn item_values(items: Seq<Seq<char>>) -> Seq<ItemValueView> {
    Seq::new(items.len(), |i: int| item_value(items[i]))
}

/// Whether an item carries the given key.
pub open spec fn has_key(value: ItemValueView, key: Key) -> bool {
    value matches ItemValueView::Keyed { key: k, .. } && k == key
}

/// The position of the first of the first `n` items that carries `key`.
pub open spec fn first_with(values: Seq<ItemValueView>, key: Key, n: int) -> Option<int>
    decreases n,
{
    if n <= 0 {
        None
    } else {
        match first_with(values, key, n - 1) {
            Some(j) => Some(j),
            None => if has_key(values[n - 1], key) {
                Some(n - 1)
            } else {
                None
            },
        }
    }
}

/// The value that the first `n` items give to `key`: that of the first item that carries
/// it, if that item's value could be read.
pub open spec fn value_of(values: Seq<ItemValueView>, key: Key, n: int) -> Option<Seq<char>> {
    match first_with(values, key, n) {
        Some(j) => match values[j] {
            ItemValueView::Keyed { value: Ok(text), .. } => Some(text),
            _ => None,
        },
        None => None,
    }
}

/// One directive: at most one value for each key.
#[derive(Clone, Debug, PartialEq, Eq)]
pub struct FieldDirective {
    pub default_value: Option<String>,
    pub from_field: Option<String>,
    pub from_struct: Option<String>,
}

/// What a [`FieldDirective`] holds, as mathematical values.
pub struct FieldDirectiveView {
    pub default_value: Option<Seq<char>>,
    pub from_field: Option<Seq<char>>,
    pub from_struct: Option<Seq<char>>,
}

impl View for FieldDirective {
    type V = FieldDirectiveView;

    open spec fn view(&self) -> FieldDirectiveView {
        FieldDirectiveView {
            default_value: option_text(self.default_value),
            from_field: option_text(self.from_field),
            from_struct: option_text(self.from_struct),
        }
    }
}

/// The directive that a list of items makes.
pub open spec fn directive_of(values: Seq<ItemValueView>) -> FieldDirectiveView {
    FieldDirectiveView {
        default_value: value_of(values, Key::DefaultValue, values.len() as int),
        from_field: value_of(values, Key::FromField, values.len() as int),
        from_struct: value_of(values, Key::FromStruct, values.len() as int),
    }
}

/// The message for a `from_struct` that names no declared sender.
pub open spec fn unknown_sender_text(senders: Seq<Seq<char>>) -> Seq<char> {
    MSG_UNKNOWN_SENDER@ + debug_text(senders)
}

/// What is wrong with the item at position `i`.
///
/// A literal and an unknown key are reported. A known key is reported as a duplicate if an
/// earlier item carries it, else with the reason why its value could not be read, if any.
/// An item with the key `from_struct` is also reported if the directive's `from_struct`
/// names no declared sender.
pub open spec fn item_diagnostics(
    values: Seq<ItemValueView>,
    senders: Seq<Seq<char>>,
    field: usize,
    attr: usize,
    i: int,
) -> Seq<DiagnosticView> {
    let location = Location::Item { field, attr, item: i as usize };
    match values[i] {
        ItemValueView::Literal => seq![
            diagnostic(unsupported_format_text(FORMAT_LITERAL@), location),
        ],
        ItemValueView::Unknown { key } => seq![
            diagnostic(unknown_field_text(key, known_keys()), location),
        ],
        ItemValueView::Keyed { key, value } => {
            let own = if first_with(values, key, i) is Some {
                seq![diagnostic(duplicate_field_text(key_text(key)), location)]
            } else {
                match value {
                    Ok(_) => Seq::<DiagnosticView>::empty(),
                    Err(message) => seq![diagnostic(message, location)],
                }
            };
            let sender = match value_of(values, key, i + 1) {
                Some(name) => if key == Key::FromStruct && !senders.contains(name) {
                    seq![diagnostic(unknown_sender_text(senders), location)]
                } else {
                    Seq::<DiagnosticView>::empty()
                },
                None => Seq::<DiagnosticView>::empty(),
            };
            own + sender
        },
    }
}

/// What is wrong with the first `n` items, in their order.
pub open spec fn items_diagnostics(
    values: Seq<ItemValueView>,
    senders: Seq<Seq<char>>,
    field: usize,
    attr: usize,
    n: int,
) -> Seq<DiagnosticView>
    decreases n,
{
    if n <= 0 {
        Seq::<DiagnosticView>::empty()
    } else {
        items_diagnostics(values, senders, field, attr, n - 1) + item_diagnostics(
            values,
            senders,
            field,
            attr,
            n - 1,
        )
    }
}

/// What is wrong with a directive as a whole: it must give exactly one of `default_value`
/// and `from_field`. With both, each of the two items is reported; with neither, the
/// attribute.
pub open spec fn shape_diagnostics(values: Seq<ItemValueView>, field: usize, attr: usize) -> Seq<
    DiagnosticView,
> {
    let n = values.len() as int;
    let directive = directive_of(values);
    if directive.default_value is Some && directive.from_field is Some {
        seq![
            diagnostic(
                MSG_EXACTLY_ONE@,
                Location::Item {
                    field,
                    attr,
                    item: first_with(values, Key::DefaultValue, n).unwrap() as usize,
                },
            ),
            diagnostic(
                MSG_EXACTLY_ONE@,
                Location::Item {
                    field,
                    attr,
                    item: first_with(values, Key::FromField, n).unwrap() as usize,
                },
            ),
        ]
    } else if directive.default_value is None && directive.from_field is None {
        seq![diagnostic(MSG_EXACTLY_ONE@, Location::Attribute { field, attr })]
    } else {
        Seq::<DiagnosticView>::empty()
    }
}

/// Everything that is wrong with a directive: its items in order, then its shape.
pub open spec fn directive_diagnostics(
    values: Seq<ItemValueView>,
    senders: Seq<Seq<char>>,
    field: usize,
    attr: usize,
) -> Seq<DiagnosticView> {
    items_diagnostics(values, senders, field, attr, values.len() as int) + shape_diagnostics(
        values,
        field,
        attr,
    )
}

/// Whether an attribute carries a directive.
pub open spec fn is_directive(attr: RawAttributeView) -> bool {
    attr.path == ATTRIBUTE_NAME@
}

/// The items of a directive attribute. A bare path has none; a name-value attribute is
/// refused.
pub open spec fn attribute_items(attr: RawAttributeView) -> Result<Seq<Seq<char>>, Seq<char>> {
    match attr.shape {
        AttributeShape::List => meta_items_of(attr.payload),
        AttributeShape::Path => Ok(Seq::<Seq<char>>::empty()),
        AttributeShape::NameValue => Err(MSG_NAME_VALUE@),
    }
}

/// The values of a directive attribute's items; none if the items could not be had.
pub open spec fn attribute_values(attr: RawAttributeView) -> Seq<ItemValueView> {
    match attribute_items(attr) {
        Ok(items) => item_values(items),
        Err(_) => Seq::<ItemValueView>::empty(),
    }
}

/// The directive that an attribute carries.
pub open spec fn attribute_directive(attr: RawAttributeView) -> FieldDirectiveView {
    directive_of(attribute_values(attr))
}

/// Everything that is wrong with a directive attribute: why its items could not be had,
/// if they could not, then what is wrong with the directive.
pub open spec fn attribute_diagnostics(
    attr: RawAttributeView,
    senders: Seq<Seq<char>>,
    field: usize,
    index: usize,
) -> Seq<DiagnosticView> {
    let unreadable = match attribute_items(attr) {
        Ok(_) => Seq::<DiagnosticView>::empty(),
        Err(message) => seq![diagnostic(message, Location::Attribute { field, attr: index })],
    };
    unreadable + directive_diagnostics(attribute_values(attr), senders, field, index)
}

/// The first item that carries a key and its value, as far as the items were read.
struct Slot {
    at: Option<usize>,
    value: Option<String>,
}

impl Slot {
    /// Whether the slot holds what the first `n` items give to `key`.
    spec fn holds(self, values: Seq<ItemValueView>, key: Key, n: int) -> bool {
        &&& same_index(self.at, first_with(values, key, n))
        &&& option_text(self.value) == value_of(values, key, n)
    }

    /// The slot before any item was read.
    fn empty() -> (r: Slot)
        ensures
            forall|values: Seq<ItemValueView>, key: Key| r.holds(values, key, 0),
    {
        Slot { at: None, value: None }
    }
}

/// The key as it is written in a directive.
fn key_name(key: Key) -> (r: &'static str)
    ensures
        r@ == key_text(key),
{
    match key {
        Key::DefaultValue => KEY_DEFAULT_VALUE,
        Key::FromField => KEY_FROM_FIELD,
        Key::FromStruct => KEY_FROM_STRUCT,
    }
}

/// The keys that an unknown key is compared with.
fn known_key_names() -> (r: Vec<String>)
    ensures
        texts(r@) == known_keys(),
{
    let mut names: Vec<String> = Vec::new();
    names.push(String::from_str(KEY_DEFAULT_VALUE));
    names.push(String::from_str(KEY_FROM_FIELD));
    names.push(String::from_str(KEY_FROM_STRUCT));
    assert(texts(names@) =~= known_keys());
    names
}

/// The message for a `from_struct` that names no declared sender.
fn unknown_sender_message(from_idents: &Vec<String>) -> (r: String)
    ensures
        r@ == unknown_sender_text(texts(from_idents@)),
{
    let mut message = String::from_str(MSG_UNKNOWN_SENDER);
    let list = debug_list(from_idents);
    message.append(list.as_str());
    message
}

/// Takes in the item at position `i`, which carries `key`.
fn record(
    slot: &mut Slot,
    key: Key,
    values: &Vec<ItemValue>,
    i: usize,
    from_idents: &Vec<String>,
    field: usize,
    attr: usize,
    errors: &mut Accumulator,
)
    requires
        i < values.len(),
        has_key(views(values@)[i as int], key),
        old(slot).holds(views(values@), key, i as int),
    ensures
        final(slot).holds(views(values@), key, i + 1),
        final(errors)@ == old(errors)@ + item_diagnostics(
            views(values@),
            texts(from_idents@),
            field,
            attr,
            i as int,
        ),
{
    let ghost vs = views(values@);
    let ghost before = errors@;
    let location = Location::Item { field, attr, item: i };
    match &values[i] {
        ItemValue::Keyed { value, .. } => {
            assert(vs[i as int] == values[i as int]@);
            if slot.at.is_none() {
                slot.at = Some(i);
                match value {
                    Ok(text) => {
                        slot.value = Some(text.clone());
                    },
                    Err(message) => {
                        errors.push(Diagnostic::new(message.clone(), location));
                    },
                }
            } else {
                errors.push(Diagnostic::new(duplicate_field_message(key_name(key)), location));
            }
            assert(slot.holds(vs, key, i + 1));
            match key {
                Key::FromStruct => {
                    match &slot.value {
                        Some(name) => {
                            if position(from_idents, name).is_none() {
                                errors.push(
                                    Diagnostic::new(unknown_sender_message(from_idents), location),
                                );
                            }
                        },
                        None => {},
                    }
                },
                _ => {},
            }
            assert(errors@ =~= before + item_diagnostics(
                vs,
                texts(from_idents@),
                field,
                attr,
                i as int,
            ));
        },
        _ => {},
    }
}

/// What an item says, with its value read.
pub fn read_item(item: &String) -> (r: ItemValue)
    ensures
        r@ == item_value(item@),
{
    match item_key(item.as_str()) {
        None => ItemValue::Literal,
        Some(key) => {
            if is_text(&key, KEY_DEFAULT_VALUE) {
                ItemValue::Keyed { key: Key::DefaultValue, value: expr_value(item.as_str()) }
            } else if is_text(&key, KEY_FROM_FIELD) {
                ItemValue::Keyed { key: Key::FromField, value: ident_value(item.as_str()) }
            } else if is_text(&key, KEY_FROM_STRUCT) {
                ItemValue::Keyed { key: Key::FromStruct, value: ident_value(item.as_str()) }
            } else {
                ItemValue::Unknown { key }
            }
        },
    }
}

/// What each item of a list says.
pub fn read_items(items: &Vec<String>) -> (r: Vec<ItemValue>)
    ensures
        views(r@) == item_values(texts(items@)),
{
    let mut values: Vec<ItemValue> = Vec::new();
    let mut i: usize = 0;
    while i < items.len()
        invariant
            i <= items.len(),
            values.len() == i,
            forall|j: int| 0 <= j < i ==> values[j]@ == item_value(items[j]@),
        decreases items.len() - i,
    {
        values.push(read_item(&items[i]));
        i = i + 1;
    }
    assert(views(values@) =~= item_values(texts(items@)));
    values
}

impl FieldDirective {
    /// The directive that a list of read items makes. Everything that is wrong with it
    /// goes to `errors`. `field` and `attr` say where the directive stands.
    pub fn from_items(
        values: &Vec<ItemValue>,
        from_idents: &Vec<String>,
        field: usize,
        attr: usize,
        errors: &mut Accumulator,
    ) -> (r: FieldDirective)
        ensures
            r@ == directive_of(views(values@)),
            final(errors)@ == old(errors)@ + directive_diagnostics(
                views(values@),
                texts(from_idents@),
                field,
                attr,
            ),
    {
        let ghost vs = views(values@);
        let ghost senders = texts(from_idents@);
        let ghost earlier = errors@;
        let mut default_value = Slot::empty();
        let mut from_field = Slot::empty();
        let mut from_struct = Slot::empty();
        let mut i: usize = 0;
        assert(errors@ =~= earlier + items_diagnostics(vs, senders, field, attr, 0));
        while i < values.len()
            invariant
                i <= values.len(),
                vs == views(values@),
                senders == texts(from_idents@),
                default_value.holds(vs, Key::DefaultValue, i as int),
                from_field.holds(vs, Key::FromField, i as int),
                from_struct.holds(vs, Key::FromStruct, i as int),
                errors@ == earlier + items_diagnostics(vs, senders, field, attr, i as int),
            decreases values.len() - i,
        {
            let ghost before = errors@;
            let location = Location::Item { field, attr, item: i };
            assert(vs[i as int] == values[i as int]@);
            match &values[i] {
                ItemValue::Literal => {
                    errors.push(
                        Diagnostic::new(unsupported_format_message(FORMAT_LITERAL), location),
                    );
                },
                ItemValue::Unknown { key } => {
                    let names = known_key_names();
                    errors.push(
                        Diagnostic::new(unknown_field_message(key.as_str(), &names), location),
                    );
                },
                ItemValue::Keyed { key, .. } => {
                    match key {
                        Key::DefaultValue => record(
                            &mut default_value,
                            Key::DefaultValue,
                            values,
                            i,
                            from_idents,
                            field,
                            attr,
                            errors,
                        ),
                        Key::FromField => record(
                            &mut from_field,
                            Key::FromField,
                            values,
                            i,
                            from_idents,
                            field,
                            attr,
                            errors,
                        ),
                        Key::FromStruct => record(
                            &mut from_struct,
                            Key::FromStruct,
                            values,
                            i,
                            from_idents,
                            field,
                            attr,
                            errors,
                        ),
                    }
                },
            }
            assert(errors@ =~= before + item_diagnostics(vs, senders, field, attr, i as int));
            assert(errors@ =~= earlier + items_diagnostics(vs, senders, field, attr, i + 1));
            i = i + 1;
        }
        if default_value.value.is_some() && from_field.value.is_some() {
            errors.push(
                Diagnostic::custom(
                    MSG_EXACTLY_ONE,
                    Location::Item { field, attr, item: default_value.at.unwrap() },
                ),
            );
            errors.push(
                Diagnostic::custom(
                    MSG_EXACTLY_ONE,
                    Location::Item { field, attr, item: from_field.at.unwrap() },
                ),
            );
        } else if default_value.value.is_none() && from_field.value.is_none() {
            errors.push(Diagnostic::custom(MSG_EXACTLY_ONE, Location::Attribute { field, attr }));
        }
        assert(errors@ =~= earlier + directive_diagnostics(vs, senders, field, attr));
        FieldDirective {
            default_value: default_value.value,
            from_field: from_field.value,
            from_struct: from_struct.value,
        }
    }
}

} // verus!
