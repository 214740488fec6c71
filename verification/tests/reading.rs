use struct_auto_from::diagnostic::{Accumulator, Diagnostic, Location};
use struct_auto_from::directive::{read_item, read_items, FieldDirective, ItemValue, Key};
use struct_auto_from::field::read_attribute;
use struct_auto_from::model::RawAttribute;

fn keyed(key: Key, value: Result<&str, &str>) -> ItemValue {
    ItemValue::Keyed { key, value: value.map(|s| s.to_string()).map_err(|s| s.to_string()) }
}

fn senders(names: &[&str]) -> Vec<String> {
    names.iter().map(|n| n.to_string()).collect()
}

/// The directive that the items make at attribute 5 of field 2, and what is wrong with it.
fn from_items(values: &Vec<ItemValue>, names: &[&str]) -> (FieldDirective, Vec<Diagnostic>) {
    let mut errors = Accumulator::new();
    let directive = FieldDirective::from_items(values, &senders(names), 2, 5, &mut errors);
    (directive, errors.finish().err().unwrap_or_default())
}

fn at_item(message: &str, item: usize) -> Diagnostic {
    Diagnostic::custom(message, Location::Item { field: 2, attr: 5, item })
}

#[test]
fn a_list_is_split_into_its_items() {
    let attr = RawAttribute::list("auto_from_attr", "default_value = f(1, 2), from_field = \"nom\",");
    assert_eq!(
        read_attribute(&attr),
        Ok(vec!["default_value = f (1 , 2)".to_string(), "from_field = \"nom\"".to_string()])
    );
}

#[test]
fn a_bare_path_has_no_items() {
    assert_eq!(read_attribute(&RawAttribute::path("auto_from_attr")), Ok(vec![]));
}

#[test]
fn a_name_value_attribute_is_refused() {
    assert_eq!(
        read_attribute(&RawAttribute::name_value("auto_from_attr", "3")),
        Err("Name-value arguments are not supported. Use #[auto_from_attr(...)]".to_string())
    );
}

#[test]
fn tokens_that_are_no_list_are_refused() {
    assert_eq!(
        read_attribute(&RawAttribute::list("auto_from_attr", "from_field = ")),
        Err("unexpected end of input, expected an expression".to_string())
    );
    assert_eq!(
        read_attribute(&RawAttribute::list("auto_from_attr", "+")),
        Err("expected identifier or literal".to_string())
    );
}

#[test]
fn an_identifier_is_read_from_a_string() {
    assert_eq!(read_item(&"from_field = \"nom\"".to_string()), keyed(Key::FromField, Ok("nom")));
    assert_eq!(read_item(&"from_struct = \"S2\"".to_string()), keyed(Key::FromStruct, Ok("S2")));
}

#[test]
fn an_identifier_is_read_from_a_path() {
    assert_eq!(read_item(&"from_struct = S2".to_string()), keyed(Key::FromStruct, Ok("S2")));
}

#[test]
fn a_number_is_no_identifier() {
    assert_eq!(
        read_item(&"from_field = 3".to_string()),
        keyed(Key::FromField, Err("Unexpected type `int`"))
    );
}

#[test]
fn a_longer_path_is_no_identifier() {
    assert_eq!(
        read_item(&"from_field = a::b".to_string()),
        keyed(Key::FromField, Err("Unexpected type `path`"))
    );
}

#[test]
fn a_key_without_a_value_has_no_value() {
    assert_eq!(
        read_item(&"from_struct".to_string()),
        keyed(Key::FromStruct, Err("Unexpected meta-item format `word`"))
    );
    assert_eq!(
        read_item(&"from_field(a)".to_string()),
        keyed(Key::FromField, Err("Unexpected meta-item format `list`"))
    );
}

#[test]
fn an_expression_is_read_as_it_stands() {
    assert_eq!(read_item(&"default_value = 0".to_string()), keyed(Key::DefaultValue, Ok("0")));
    assert_eq!(
        read_item(&"default_value = Default::default()".to_string()),
        keyed(Key::DefaultValue, Ok("Default :: default ()"))
    );
}

#[test]
fn an_expression_in_a_string_is_unwrapped() {
    assert_eq!(
        read_item(&"default_value = \"\\\"XYZ\\\"\"".to_string()),
        keyed(Key::DefaultValue, Ok("\"XYZ\""))
    );
    assert_eq!(
        read_item(&"default_value = \"1 + 2\"".to_string()),
        keyed(Key::DefaultValue, Ok("1 + 2"))
    );
}

#[test]
fn a_string_that_is_no_expression_has_no_value() {
    assert_eq!(
        read_item(&"default_value = \"a +\"".to_string()),
        keyed(Key::DefaultValue, Err("Unknown literal value `a +`"))
    );
}

#[test]
fn a_literal_has_no_key() {
    assert_eq!(read_item(&"\"lit\"".to_string()), ItemValue::Literal);
    assert_eq!(read_item(&"3".to_string()), ItemValue::Literal);
}

#[test]
fn another_key_is_unknown() {
    assert_eq!(
        read_item(&"bogus = 1".to_string()),
        ItemValue::Unknown { key: "bogus".to_string() }
    );
    assert_eq!(
        read_item(&"serde::rename".to_string()),
        ItemValue::Unknown { key: "serde::rename".to_string() }
    );
}

#[test]
fn items_are_read_in_order() {
    let items = vec!["from_field = x".to_string(), "7".to_string()];
    assert_eq!(read_items(&items), vec![keyed(Key::FromField, Ok("x")), ItemValue::Literal]);
}

#[test]
fn a_repeated_key_is_a_duplicate_field() {
    let values = vec![keyed(Key::DefaultValue, Ok("0")), keyed(Key::DefaultValue, Ok("1"))];
    let (directive, errors) = from_items(&values, &["A"]);
    assert_eq!(directive.default_value, Some("0".to_string()));
    assert_eq!(errors, vec![at_item("Duplicate field `default_value`", 1)]);
}

#[test]
fn a_literal_is_an_unexpected_format() {
    let values = vec![ItemValue::Literal, keyed(Key::FromField, Ok("x"))];
    let (_, errors) = from_items(&values, &["A"]);
    assert_eq!(errors, vec![at_item("Unexpected meta-item format `literal`", 0)]);
}

#[test]
fn an_unknown_key_is_reported_with_the_closest_key() {
    let values = vec![
        keyed(Key::FromField, Ok("x")),
        ItemValue::Unknown { key: "defaultvalue".to_string() },
        ItemValue::Unknown { key: "bogus".to_string() },
    ];
    let (_, errors) = from_items(&values, &["A"]);
    assert_eq!(
        errors,
        vec![
            at_item("Unknown field: `defaultvalue`. Did you mean `default_value`?", 1),
            at_item("Unknown field: `bogus`", 2),
        ]
    );
}

#[test]
fn an_unread_value_is_reported_with_its_reason() {
    let values = vec![keyed(Key::FromField, Err("Unexpected type `int`"))];
    let (directive, errors) = from_items(&values, &["A"]);
    assert_eq!(directive.from_field, None);
    assert_eq!(
        errors,
        vec![
            at_item("Unexpected type `int`", 0),
            Diagnostic::custom(
                "exactly one of `default_value` or `from_field` must be specified for an `auto_from_attr` attribute",
                Location::Attribute { field: 2, attr: 5 }
            ),
        ]
    );
}

#[test]
fn an_undeclared_sender_is_reported_with_the_declared_ones() {
    let values = vec![keyed(Key::FromStruct, Ok("C")), keyed(Key::FromField, Ok("x"))];
    let (directive, errors) = from_items(&values, &["A", "B"]);
    assert_eq!(directive.from_struct, Some("C".to_string()));
    assert_eq!(errors, vec![at_item("`from_struct` value must be one of [\"A\", \"B\"]", 0)]);
    assert_eq!(directive.target(&senders(&["A", "B"])), 0);
}

#[test]
fn a_repeated_from_struct_repeats_the_undeclared_sender() {
    let values = vec![
        keyed(Key::FromStruct, Ok("C")),
        keyed(Key::FromStruct, Ok("A")),
        keyed(Key::FromField, Ok("x")),
    ];
    let (_, errors) = from_items(&values, &["A"]);
    assert_eq!(
        errors,
        vec![
            at_item("`from_struct` value must be one of [\"A\"]", 0),
            at_item("Duplicate field `from_struct`", 1),
            at_item("`from_struct` value must be one of [\"A\"]", 1),
        ]
    );
}

#[test]
fn a_directive_is_for_the_sender_it_names() {
    let names = senders(&["A", "B", "C"]);
    let for_c = FieldDirective {
        default_value: None,
        from_field: Some("x".to_string()),
        from_struct: Some("C".to_string()),
    };
    let for_first =
        FieldDirective { default_value: None, from_field: Some("x".to_string()), from_struct: None };
    assert_eq!(for_c.target(&names), 2);
    assert_eq!(for_first.target(&names), 0);
}
