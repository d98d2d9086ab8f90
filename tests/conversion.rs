use interactive_clap_derive::convert::{from_cli_values, to_cli_values, CliValue, FieldValue};
use interactive_clap_derive::generate::{impl_interactive_clap, Generated};
use interactive_clap_derive::model::{Data, DeriveInput, Directive, Field, FieldType, TypeShape};
use interactive_clap_derive::structs::RecordOutput;

fn s(x: &str) -> String {
    x.to_string()
}

fn field(name: &str, ty: &str, shape: TypeShape, directives: Vec<Directive>) -> Field {
    Field { name: s(name), ty: FieldType { text: s(ty), shape }, directives, docs: vec![] }
}

fn sample() -> RecordOutput {
    let input = DeriveInput {
        name: s("Args"),
        data: Data::Struct(vec![
            field("age", "u64", TypeShape::Other, vec![]),
            field("offline", "bool", TypeShape::Bool, vec![Directive::Long]),
            field("env", "Vec<String>", TypeShape::Sequence, vec![Directive::LongVecMultipleOpt]),
            field("hidden", "u8", TypeShape::Other, vec![Directive::SkipInteractiveInput]),
        ]),
    };
    match impl_interactive_clap(&input) {
        Ok(Generated::Record(o)) => o,
        other => panic!("unexpected {:?}", other),
    }
}

#[test]
fn round_trip_restores_every_field() {
    let out = sample();
    let values = vec![
        FieldValue::Value(s("42")),
        FieldValue::Flag(true),
        FieldValue::Values(vec![s("A=1"), s("B=2")]),
        FieldValue::Value(s("7")),
    ];
    let cli = to_cli_values(&values);
    assert_eq!(
        cli,
        vec![
            CliValue::Optional(Some(s("42"))),
            CliValue::Flag(true),
            CliValue::Values(vec![s("A=1"), s("B=2")]),
            CliValue::Optional(Some(s("7"))),
        ]
    );
    let answers = vec![Some(s("99")), None, None, Some(s("1"))];
    assert_eq!(from_cli_values(&out.mirror, &cli, &answers), Some(values));
}

#[test]
fn missing_value_is_prompted() {
    let out = sample();
    let cli = vec![
        CliValue::Optional(None),
        CliValue::Flag(false),
        CliValue::Values(vec![]),
        CliValue::Optional(Some(s("3"))),
    ];
    let answers = vec![Some(s("18")), None, None, None];
    assert_eq!(
        from_cli_values(&out.mirror, &cli, &answers),
        Some(vec![
            FieldValue::Value(s("18")),
            FieldValue::Flag(false),
            FieldValue::Values(vec![]),
            FieldValue::Value(s("3")),
        ])
    );
}

#[test]
fn cancelled_prompt_gives_no_value() {
    let out = sample();
    let cli = vec![
        CliValue::Optional(None),
        CliValue::Flag(false),
        CliValue::Values(vec![]),
        CliValue::Optional(Some(s("3"))),
    ];
    let answers = vec![None, None, None, None];
    assert_eq!(from_cli_values(&out.mirror, &cli, &answers), None);
}

#[test]
fn skipped_member_is_never_filled_interactively() {
    let out = sample();
    let cli = vec![
        CliValue::Optional(Some(s("1"))),
        CliValue::Flag(false),
        CliValue::Values(vec![]),
        CliValue::Optional(None),
    ];
    let answers = vec![None, None, None, Some(s("5"))];
    assert_eq!(from_cli_values(&out.mirror, &cli, &answers), None);
}
