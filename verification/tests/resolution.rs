use struct_auto_from::{auto_from, resolve};
use struct_auto_from::diagnostic::{Accumulator, Diagnostic, Location};
use struct_auto_from::directive::FieldDirective;
use struct_auto_from::expand::is_named_again;
use struct_auto_from::model::{FieldDescription, RawAttribute, ReceiverDescription};
use struct_auto_from::plan::{ConversionPlan, Instruction, Mapping, MappingTable};
use struct_auto_from::resolve::{directive_entry, overrides_row, ImplData, MappingEntry};
use struct_auto_from::text::{is_text, position, same_text};

const EXACTLY_ONE: &str =
    "exactly one of `default_value` or `from_field` must be specified for an `auto_from_attr` attribute";

const SAME_SENDER: &str =
    "the same `from` struct may may not be used more than once for a given field";

fn attr(payload: &str) -> RawAttribute {
    RawAttribute::list("auto_from_attr", payload)
}

fn senders(names: &[&str]) -> Vec<String> {
    names.iter().map(|n| n.to_string()).collect()
}

fn read(target: &str, source: &str) -> Instruction {
    Instruction::ReadAndConvert { target: target.to_string(), source: source.to_string() }
}

fn evaluate(target: &str, expression: &str) -> Instruction {
    Instruction::Evaluate { target: target.to_string(), expression: expression.to_string() }
}

fn from_field(name: &str) -> MappingEntry {
    MappingEntry::FromSenderField(name.to_string())
}

fn default(expression: &str) -> MappingEntry {
    MappingEntry::DefaultExpression(expression.to_string())
}

fn directive(
    default_value: Option<&str>,
    from_field: Option<&str>,
    from_struct: Option<&str>,
) -> FieldDirective {
    FieldDirective {
        default_value: default_value.map(|s| s.to_string()),
        from_field: from_field.map(|s| s.to_string()),
        from_struct: from_struct.map(|s| s.to_string()),
    }
}

/// The receiver of the full example: two senders, every kind of directive.
fn model3a() -> ReceiverDescription {
    ReceiverDescription::new(
        "Model3a",
        vec![
            FieldDescription::named("id", "i64", vec![attr("default_value = 42")]),
            FieldDescription::named("name", "String", vec![attr("from_field = \"nom\"")]),
            FieldDescription::named("attrs", "Vec<String>", vec![RawAttribute::name_value("doc", "\" The attributes.\"")]),
            FieldDescription::named(
                "metadata",
                "HashMap<String, String>",
                vec![
                    attr("default_value = Default::default()"),
                    attr("from_field = \"meta\", from_struct = \"Model2a\""),
                ],
            ),
            FieldDescription::named(
                "m",
                "Model2a",
                vec![attr("from_struct = \"Model2a\", default_value = Default::default()")],
            ),
        ],
    )
}

#[test]
fn the_full_example_resolves_for_both_senders() {
    let expansion = auto_from(senders(&["Model1a", "Model2a"]), model3a()).unwrap();
    assert_eq!(
        expansion.conversions,
        vec![
            ConversionPlan {
                sender: "Model1a".to_string(),
                instructions: vec![
                    evaluate("id", "42"),
                    read("name", "nom"),
                    read("attrs", "attrs"),
                    evaluate("metadata", "Default :: default ()"),
                    read("m", "m"),
                ],
            },
            ConversionPlan {
                sender: "Model2a".to_string(),
                instructions: vec![
                    read("id", "id"),
                    read("name", "name"),
                    read("attrs", "attrs"),
                    read("metadata", "meta"),
                    evaluate("m", "Default :: default ()"),
                ],
            },
        ]
    );
}

#[test]
fn the_full_example_has_one_table_for_each_sender() {
    let resolution = resolve(&senders(&["Model1a", "Model2a"]), model3a()).unwrap();
    let field = |name: &str, entry: MappingEntry| Mapping { field: name.to_string(), entry };
    assert_eq!(
        resolution.tables,
        vec![
            MappingTable {
                sender: "Model1a".to_string(),
                mappings: vec![
                    field("id", default("42")),
                    field("name", from_field("nom")),
                    field("attrs", from_field("attrs")),
                    field("metadata", default("Default :: default ()")),
                    field("m", from_field("m")),
                ],
            },
            MappingTable {
                sender: "Model2a".to_string(),
                mappings: vec![
                    field("id", from_field("id")),
                    field("name", from_field("name")),
                    field("attrs", from_field("attrs")),
                    field("metadata", from_field("meta")),
                    field("m", default("Default :: default ()")),
                ],
            },
        ]
    );
    let expansion = auto_from(senders(&["Model1a", "Model2a"]), model3a()).unwrap();
    assert_eq!(resolution.receiver, expansion.receiver);
    let plans: Vec<ConversionPlan> = resolution.tables.iter().map(ConversionPlan::emit).collect();
    assert_eq!(plans, expansion.conversions);
}

#[test]
fn resolution_fails_as_the_whole_pass_does() {
    let bad = ReceiverDescription::new(
        "R",
        vec![FieldDescription::named("x", "i32", vec![attr("default_value = ")])],
    );
    let errors = resolve(&senders(&["A", "A"]), bad.clone()).unwrap_err();
    assert_eq!(
        errors,
        vec![
            Diagnostic::custom("duplicate identifier", Location::Sender { index: 0 }),
            Diagnostic::custom(
                "unexpected end of input, expected an expression",
                Location::Attribute { field: 0, attr: 0 }
            ),
            Diagnostic::custom(EXACTLY_ONE, Location::Attribute { field: 0, attr: 0 }),
        ]
    );
    assert_eq!(auto_from(senders(&["A", "A"]), bad), Err(errors));
}

#[test]
fn the_expansion_keeps_the_other_attributes_only() {
    let expansion = auto_from(senders(&["Model1a", "Model2a"]), model3a()).unwrap();
    assert_eq!(expansion.receiver.name, "Model3a");
    let kept: Vec<usize> = expansion.receiver.fields.iter().map(|f| f.attrs.len()).collect();
    assert_eq!(kept, vec![0, 0, 1, 0, 0]);
    assert_eq!(
        expansion.receiver.fields[2].attrs,
        vec![RawAttribute::name_value("doc", "\" The attributes.\"")]
    );
    assert_eq!(expansion.receiver.fields[3].ty, "HashMap<String, String>");
}

#[test]
fn the_same_input_gives_the_same_outcome() {
    let first = auto_from(senders(&["Model1a", "Model2a"]), model3a());
    let second = auto_from(senders(&["Model1a", "Model2a"]), model3a());
    assert_eq!(first, second);
    let bad = ReceiverDescription::new("R", vec![FieldDescription::named("x", "i32", vec![attr("oops, 3")])]);
    assert_eq!(auto_from(senders(&["A"]), bad.clone()), auto_from(senders(&["A"]), bad));
}

#[test]
fn plans_follow_the_declaration_order() {
    let expansion = auto_from(senders(&["Model1a", "Model2a"]), model3a()).unwrap();
    for plan in expansion.conversions.iter() {
        let targets: Vec<&str> = plan
            .instructions
            .iter()
            .map(|i| match i {
                Instruction::ReadAndConvert { target, .. } => target.as_str(),
                Instruction::Evaluate { target, .. } => target.as_str(),
            })
            .collect();
        assert_eq!(targets, vec!["id", "name", "attrs", "metadata", "m"]);
    }
}

#[test]
fn every_defect_is_reported_in_one_pass() {
    let into = ReceiverDescription::new(
        "Model3a",
        vec![
            FieldDescription::named("id", "i32", vec![attr("default_value = 0, default_value = 0")]),
            FieldDescription::named(
                "name",
                "String",
                vec![
                    RawAttribute::list("serde", "rename = \"new_name\""),
                    attr("from_field = \"nom\""),
                    attr("from_field = \"nom\""),
                ],
            ),
            FieldDescription::named(
                "attrs",
                "Vec<String>",
                vec![attr("from_struct = \"Model22b\", default_value = Default::default()")],
            ),
            FieldDescription::named(
                "metadata",
                "HashMap<String, String>",
                vec![
                    attr("default_value = Default::default(), from_field = \"metadata\""),
                    RawAttribute::list("serde", "skip_serializing"),
                    attr("from_struct = \"Model2a\""),
                ],
            ),
            FieldDescription::named(
                "m",
                "Model2a",
                vec![
                    RawAttribute::list("serde", "rename = \"model\""),
                    attr("from_struct = \"Model2a\", from_struct = \"Model2a\", default_value = Default::default()"),
                    attr("from_struct = \"Model2a\", default_value = Default::default()"),
                ],
            ),
        ],
    );
    let errors = auto_from(senders(&["Model1a", "Model2a", "Model1a"]), into).unwrap_err();
    assert_eq!(
        errors,
        vec![
            Diagnostic::custom("duplicate identifier", Location::Sender { index: 0 }),
            Diagnostic::custom(
                "Duplicate field `default_value`",
                Location::Item { field: 0, attr: 0, item: 1 }
            ),
            Diagnostic::custom(SAME_SENDER, Location::Attribute { field: 1, attr: 1 }),
            Diagnostic::custom(
                "`from_struct` value must be one of [\"Model1a\", \"Model2a\", \"Model1a\"]",
                Location::Item { field: 2, attr: 0, item: 0 }
            ),
            Diagnostic::custom(EXACTLY_ONE, Location::Item { field: 3, attr: 0, item: 0 }),
            Diagnostic::custom(EXACTLY_ONE, Location::Item { field: 3, attr: 0, item: 1 }),
            Diagnostic::custom(EXACTLY_ONE, Location::Attribute { field: 3, attr: 2 }),
            Diagnostic::custom(
                "Duplicate field `from_struct`",
                Location::Item { field: 4, attr: 1, item: 1 }
            ),
            Diagnostic::custom(SAME_SENDER, Location::Attribute { field: 4, attr: 1 }),
        ]
    );
}

#[test]
fn a_defect_in_one_field_hides_none_in_another() {
    let bad_first = FieldDescription::named("a", "i32", vec![attr("7")]);
    let bad_second = FieldDescription::named("b", "i32", vec![attr("from_struct = \"A\"")]);
    let good = FieldDescription::named("c", "i32", vec![]);
    let alone_first = auto_from(
        senders(&["A"]),
        ReceiverDescription::new("R", vec![bad_first.clone(), good.clone(), good.clone()]),
    )
    .unwrap_err();
    let alone_second = auto_from(
        senders(&["A"]),
        ReceiverDescription::new("R", vec![good.clone(), good.clone(), bad_second.clone()]),
    )
    .unwrap_err();
    let both = auto_from(
        senders(&["A"]),
        ReceiverDescription::new("R", vec![bad_first, good, bad_second]),
    )
    .unwrap_err();
    assert_eq!(alone_first.len(), 2);
    assert_eq!(alone_second.len(), 1);
    assert_eq!(both, [alone_first, alone_second].concat());
}

#[test]
fn a_positional_field_is_reported() {
    let into = ReceiverDescription::new(
        "R",
        vec![FieldDescription::named("x", "i32", vec![]), FieldDescription::positional("i32", vec![])],
    );
    assert_eq!(
        auto_from(senders(&["A"]), into),
        Err(vec![Diagnostic::custom("unnamed fields are not supported", Location::Field { field: 1 })])
    );
}

#[test]
fn an_explicit_first_sender_and_an_implicit_one_collide() {
    let field = FieldDescription::named(
        "x",
        "i32",
        vec![attr("from_field = a"), RawAttribute::path("derive"), attr("from_struct = A, from_field = b")],
    );
    assert_eq!(
        FieldDirective::from_field_all(&field, &senders(&["A", "B"]), 4),
        Err(vec![Diagnostic::custom(SAME_SENDER, Location::Attribute { field: 4, attr: 0 })])
    );
}

#[test]
fn each_directive_picks_its_own_sender() {
    let field = FieldDescription::named(
        "x",
        "i32",
        vec![attr("from_struct = B, from_field = b"), attr("default_value = 1")],
    );
    let directives = FieldDirective::from_field_all(&field, &senders(&["A", "B"]), 0).unwrap();
    assert_eq!(
        directives,
        vec![directive(None, Some("b"), Some("B")), directive(Some("1"), None, None)]
    );
    assert_eq!(
        overrides_row(&directives, &senders(&["A", "B"])),
        vec![Some(default("1")), Some(from_field("b"))]
    );
    let into = ReceiverDescription::new("R", vec![field]);
    let expansion = auto_from(senders(&["A", "B"]), into).unwrap();
    assert_eq!(expansion.conversions[0].instructions, vec![evaluate("x", "1")]);
    assert_eq!(expansion.conversions[1].instructions, vec![read("x", "b")]);
}

#[test]
fn an_attribute_gives_its_directive_and_its_defects() {
    let mut errors = Accumulator::new();
    errors.push(Diagnostic::custom("earlier", Location::Invocation));
    let found = FieldDirective::from_attribute(
        &RawAttribute::name_value("auto_from_attr", "1"),
        &senders(&["A"]),
        1,
        2,
        &mut errors,
    );
    assert_eq!(found, directive(None, None, None));
    let found =
        FieldDirective::from_attribute(&attr("from_field = nom"), &senders(&["A"]), 1, 3, &mut errors);
    assert_eq!(found, directive(None, Some("nom"), None));
    assert_eq!(
        errors.finish(),
        Err(vec![
            Diagnostic::custom("earlier", Location::Invocation),
            Diagnostic::custom(
                "Name-value arguments are not supported. Use #[auto_from_attr(...)]",
                Location::Attribute { field: 1, attr: 2 }
            ),
            Diagnostic::custom(EXACTLY_ONE, Location::Attribute { field: 1, attr: 2 }),
        ])
    );
}

#[test]
fn a_directive_asks_for_a_field_before_an_expression() {
    assert_eq!(directive_entry(&directive(Some("1"), Some("a"), None)), Some(from_field("a")));
    assert_eq!(directive_entry(&directive(Some("1"), None, None)), Some(default("1")));
    assert_eq!(directive_entry(&directive(None, None, Some("A"))), None);
}

#[test]
fn fields_without_directives_ask_for_nothing() {
    let into = ReceiverDescription::new(
        "R",
        vec![FieldDescription::named("x", "i32", vec![]), FieldDescription::named("y", "i32", vec![attr("default_value = 1")])],
    );
    let field_attrs = ImplData::extract_field_attributes(&into, &senders(&["A", "B"])).unwrap();
    assert_eq!(field_attrs.overrides, vec![vec![None, None], vec![Some(default("1")), None]]);
}

#[test]
fn the_parsed_input_keeps_names_and_drops_directives() {
    let into = ReceiverDescription::new(
        "R",
        vec![
            FieldDescription::named("x", "i32", vec![RawAttribute::path("inline"), attr("default_value = 1")]),
            FieldDescription::named("y", "u8", vec![]),
        ],
    );
    let data = ImplData::from_parsed_input(into, &senders(&["A"])).unwrap();
    assert_eq!(data.into_ident, "R");
    assert_eq!(data.fields, vec!["x".to_string(), "y".to_string()]);
    assert_eq!(
        data.into_struct,
        ReceiverDescription::new(
            "R",
            vec![
                FieldDescription::named("x", "i32", vec![RawAttribute::path("inline")]),
                FieldDescription::named("y", "u8", vec![]),
            ]
        )
    );
    let table = MappingTable::resolve(&data, &senders(&["A"]), 0);
    assert_eq!(
        table,
        MappingTable {
            sender: "A".to_string(),
            mappings: vec![
                Mapping { field: "x".to_string(), entry: default("1") },
                Mapping { field: "y".to_string(), entry: from_field("y") },
            ],
        }
    );
    assert_eq!(
        ConversionPlan::emit(&table),
        ConversionPlan { sender: "A".to_string(), instructions: vec![evaluate("x", "1"), read("y", "y")] }
    );
}

#[test]
fn a_failed_field_fails_the_parsed_input() {
    let into = ReceiverDescription::new("R", vec![FieldDescription::named("x", "i32", vec![attr("")])]);
    assert_eq!(
        ImplData::from_parsed_input(into, &senders(&["A"])),
        Err(vec![Diagnostic::custom(EXACTLY_ONE, Location::Attribute { field: 0, attr: 0 })])
    );
}

#[test]
fn stripping_takes_every_directive_attribute() {
    let field = FieldDescription::named(
        "x",
        "i32",
        vec![
            RawAttribute::path("auto_from_attr"),
            RawAttribute::list("serde", "skip"),
            RawAttribute::name_value("auto_from_attr", "1"),
            attr("default_value = 1"),
            RawAttribute::name_value("doc", "\"x\""),
        ],
    );
    assert_eq!(
        ImplData::remove_my_attrs(&field),
        FieldDescription::named(
            "x",
            "i32",
            vec![RawAttribute::list("serde", "skip"), RawAttribute::name_value("doc", "\"x\"")]
        )
    );
}

#[test]
fn a_sender_is_named_again_only_further_on() {
    let names = senders(&["A", "B", "A", "A"]);
    assert!(is_named_again(&names, 0));
    assert!(!is_named_again(&names, 1));
    assert!(is_named_again(&names, 2));
    assert!(!is_named_again(&names, 3));
    assert_eq!(
        auto_from(names, ReceiverDescription::new("R", vec![])),
        Err(vec![
            Diagnostic::custom("duplicate identifier", Location::Sender { index: 0 }),
            Diagnostic::custom("duplicate identifier", Location::Sender { index: 2 }),
        ])
    );
}

#[test]
fn a_receiver_without_fields_has_empty_plans() {
    let expansion = auto_from(senders(&["A", "B"]), ReceiverDescription::new("R", vec![])).unwrap();
    assert_eq!(
        expansion.conversions,
        vec![
            ConversionPlan { sender: "A".to_string(), instructions: vec![] },
            ConversionPlan { sender: "B".to_string(), instructions: vec![] },
        ]
    );
}

#[test]
fn texts_are_compared_by_their_characters() {
    assert!(same_text(&"abc".to_string(), &"abc".to_string()));
    assert!(!same_text(&"abc".to_string(), &"abd".to_string()));
    assert!(is_text(&"auto_from_attr".to_string(), "auto_from_attr"));
    assert!(!is_text(&"auto_from".to_string(), "auto_from_attr"));
    assert_eq!(position(&senders(&["A", "B", "B"]), &"B".to_string()), Some(1));
    assert_eq!(position(&senders(&["A", "B"]), &"C".to_string()), None);
}
