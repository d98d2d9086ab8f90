use interactive_clap_derive::classify::classify;
use interactive_clap_derive::docs::{contains_text, doc_text, prompt_text};
use interactive_clap_derive::enums::{choose_variant, KeptAttr, VariantChoice};
use interactive_clap_derive::generate::{impl_interactive_clap, Generated};
use interactive_clap_derive::input_args_impl::{token_stream as input_args_token_stream, vec_fn_input_arg, PromptFn};
use interactive_clap_derive::model::{
    CfgBody, Classification, Data, DeriveInput, Directive, Field, FieldFault, FieldType, GenError, TypeShape, Variant,
    VariantAttr, VariantShape,
};
use interactive_clap_derive::names::{cli_name, context_scope_for_enum, input_fn_name, shape_of};
use interactive_clap_derive::structs::{token_stream as struct_token_stream, Fill, MirrorKind, RecordOutput};
use interactive_clap_derive::enums::UnionOutput;

fn s(x: &str) -> String {
    x.to_string()
}

fn field(name: &str, ty: &str, directives: Vec<Directive>, docs: Vec<&str>) -> Field {
    let last = ty.split('<').next().unwrap().trim().to_string();
    Field {
        name: s(name),
        ty: FieldType { text: s(ty), shape: shape_of(&last) },
        directives,
        docs: docs.into_iter().map(s).collect(),
    }
}

fn record(name: &str, fields: Vec<Field>) -> DeriveInput {
    DeriveInput { name: s(name), data: Data::Struct(fields) }
}

fn unit_variant(name: &str, attrs: Vec<VariantAttr>) -> Variant {
    Variant { name: s(name), shape: VariantShape::Unit, attrs }
}

fn union(name: &str, variants: Vec<Variant>) -> DeriveInput {
    DeriveInput { name: s(name), data: Data::Enum(variants) }
}

fn record_output(input: &DeriveInput) -> RecordOutput {
    match impl_interactive_clap(input) {
        Ok(Generated::Record(o)) => o,
        other => panic!("expected a record output, got {:?}", other),
    }
}

fn union_output(input: &DeriveInput) -> UnionOutput {
    match impl_interactive_clap(input) {
        Ok(Generated::Union(o)) => o,
        other => panic!("expected a union output, got {:?}", other),
    }
}

fn prompt(fn_name: &str, field: &str, ty: &str, text: &str) -> PromptFn {
    PromptFn { fn_name: s(fn_name), field: s(field), ty: s(ty), text: s(text) }
}

#[test]
fn test_simple_struct() {
    let input = record(
        "Args",
        vec![
            field("age", "u64", vec![], vec![]),
            field("first_name", "String", vec![], vec![]),
            field("second_name", "String", vec![], vec![]),
        ],
    );
    let out = record_output(&input);
    assert_eq!(out.cli_name, "CliArgs");
    assert_eq!(out.context_scope, "InteractiveClapContextScopeForArgs");
    assert_eq!(out.mirror.len(), 3);
    let names: Vec<&str> = out.mirror.iter().map(|m| m.name.as_str()).collect();
    assert_eq!(names, vec!["age", "first_name", "second_name"]);
    for m in &out.mirror {
        assert_eq!(m.kind, MirrorKind::Optional);
        assert!(m.interactive);
        assert!(!m.long);
    }
    assert_eq!(out.mirror[0].ty, "u64");
    assert_eq!(out.mirror[1].ty, "String");
    assert_eq!(out.mirror[0].fill, Fill::GivenOrPrompt(s("input_age")));
    assert_eq!(out.mirror[2].fill, Fill::GivenOrPrompt(s("input_second_name")));
    assert_eq!(out.input_args.target, "Args");
    assert_eq!(
        out.input_args.fns,
        vec![
            prompt("input_age", "age", "u64", "age"),
            prompt("input_first_name", "first_name", "String", "first_name"),
            prompt("input_second_name", "second_name", "String", "second_name"),
        ]
    );
}

#[test]
fn test_simple_struct_with_named_arg() {
    let input = record("Account", vec![field("field_name", "Sender", vec![Directive::NamedArg], vec![])]);
    let out = record_output(&input);
    assert_eq!(out.cli_name, "CliAccount");
    assert_eq!(out.mirror.len(), 1);
    assert_eq!(out.mirror[0].name, "field_name");
    assert_eq!(out.mirror[0].kind, MirrorKind::Subcommand);
    assert!(out.mirror[0].interactive);
    assert_eq!(out.mirror[0].fill, Fill::GivenOrSubcommand);
    assert!(out.input_args.fns.is_empty());
}

#[test]
fn test_doc_comments_propagate() {
    let docs = |which: &str, aware: &str| {
        vec![
            format!(" short {} field description", which),
            String::new(),
            format!(" a longer paragraph, describing the usage and stuff with {} field's", which),
            format!(" {} of its possible applications", aware),
        ]
    };
    let with_docs = |mut f: Field, lines: Vec<String>| {
        f.docs = lines;
        f
    };
    let input = record(
        "Args",
        vec![
            with_docs(
                field("first_field", "u64", vec![Directive::Long, Directive::SkipInteractiveInput], vec![]),
                docs("first", "awarenes"),
            ),
            with_docs(
                field(
                    "second_field",
                    "String",
                    vec![Directive::Long, Directive::SkipInteractiveInput, Directive::VerbatimDocComment],
                    vec![],
                ),
                docs("second", "awareness"),
            ),
            with_docs(
                field(
                    "third_field",
                    "bool",
                    vec![Directive::Long, Directive::SkipInteractiveInput, Directive::VerbatimDocComment],
                    vec![],
                ),
                docs("third", "awareness"),
            ),
        ],
    );
    let out = record_output(&input);
    assert_eq!(out.cli_name, "CliArgs");
    let kinds: Vec<MirrorKind> = out.mirror.iter().map(|m| m.kind).collect();
    assert_eq!(kinds, vec![MirrorKind::Optional, MirrorKind::Optional, MirrorKind::Flag]);
    for m in &out.mirror {
        assert!(m.long);
        assert!(!m.interactive);
    }
    assert!(!out.mirror[0].verbatim);
    assert!(out.mirror[1].verbatim);
    assert!(out.mirror[2].verbatim);
    assert_eq!(out.mirror[0].docs, docs("first", "awarenes"));
    assert_eq!(out.mirror[0].fill, Fill::GivenOrDefault);
    assert_eq!(out.mirror[2].fill, Fill::AsGiven);
    assert_eq!(out.mirror[1].docs, docs("second", "awareness"));
    assert!(out.input_args.fns.is_empty());
}

#[test]
fn test_flag() {
    let input = record("Args", vec![field("offline", "bool", vec![Directive::Long], vec![" Offline mode"])]);
    let out = record_output(&input);
    assert_eq!(out.mirror.len(), 1);
    assert_eq!(out.mirror[0].kind, MirrorKind::Flag);
    assert!(out.mirror[0].long);
    assert!(!out.mirror[0].interactive);
    assert_eq!(out.mirror[0].docs, vec![s(" Offline mode")]);
    assert!(out.input_args.fns.is_empty());
}

#[test]
fn test_vec_multiple_opt() {
    let input = record("Args", vec![field("env", "Vec<String>", vec![Directive::LongVecMultipleOpt], vec![])]);
    let out = record_output(&input);
    assert_eq!(out.mirror.len(), 1);
    assert_eq!(out.mirror[0].kind, MirrorKind::Multi);
    assert_eq!(out.mirror[0].ty, "Vec<String>");
    assert!(out.mirror[0].long);
    assert_eq!(out.mirror[0].fill, Fill::AsGiven);
    assert!(!out.mirror[0].interactive);
    assert!(out.input_args.fns.is_empty());
}

#[test]
#[should_panic]
fn test_vec_multiple_opt_err() {
    let input = record("Args", vec![field("env", "String", vec![Directive::LongVecMultipleOpt], vec![])]);
    impl_interactive_clap(&input).unwrap();
}

#[test]
fn test_simple_enum() {
    let online = " Prepare and, optionally, submit a new transaction with online mode";
    let offline = " Prepare and, optionally, submit a new transaction with offline mode";
    let input = union(
        "Mode",
        vec![
            unit_variant("Network", vec![VariantAttr::Doc(s(online))]),
            unit_variant("Offline", vec![VariantAttr::Doc(s(offline))]),
        ],
    );
    let out = union_output(&input);
    assert_eq!(out.cli_name, "CliMode");
    assert_eq!(out.context_scope, "InteractiveClapContextScopeForMode");
    assert_eq!(out.discriminants, "ModeDiscriminants");
    assert_eq!(out.variants.len(), 2);
    assert_eq!(out.variants[0].name, "Network");
    assert_eq!(out.variants[0].payload, None);
    assert_eq!(out.variants[0].attrs, vec![KeptAttr::Doc(s(online))]);
    assert_eq!(out.variants[1].name, "Offline");
    assert_eq!(out.variants[1].payload, None);
    assert_eq!(out.variants[1].attrs, vec![KeptAttr::Doc(s(offline))]);
    assert_eq!(choose_variant(&out, None), VariantChoice::Unresolved(vec![s("Network"), s("Offline")]));
}

#[test]
fn chooser_resolves_declared_variant() {
    let input = union("Mode", vec![unit_variant("Network", vec![]), unit_variant("Offline", vec![])]);
    let out = union_output(&input);
    assert_eq!(choose_variant(&out, Some(1)), VariantChoice::Resolved(1));
    assert_eq!(choose_variant(&out, Some(0)), VariantChoice::Resolved(0));
}

#[test]
fn union_with_payloads_keeps_order_and_count() {
    let input = union(
        "Command",
        vec![
            Variant { name: s("Add"), shape: VariantShape::Single(s("AddArgs")), attrs: vec![] },
            unit_variant("List", vec![]),
            Variant { name: s("Remove"), shape: VariantShape::Single(s("RemoveArgs")), attrs: vec![] },
        ],
    );
    let out = union_output(&input);
    let names: Vec<&str> = out.variants.iter().map(|v| v.name.as_str()).collect();
    assert_eq!(names, vec!["Add", "List", "Remove"]);
    assert_eq!(out.variants[0].payload, Some(s("AddArgs")));
    assert_eq!(out.variants[1].payload, None);
    assert_eq!(out.variants[2].payload, Some(s("RemoveArgs")));
    match choose_variant(&out, None) {
        VariantChoice::Unresolved(names) => assert_eq!(names.len(), 3),
        other => panic!("unexpected {:?}", other),
    }
}

#[test]
fn empty_union_offers_no_choice() {
    let out = union_output(&union("Nothing", vec![]));
    assert!(out.variants.is_empty());
    assert_eq!(choose_variant(&out, None), VariantChoice::Unresolved(vec![]));
}

#[test]
fn cfg_annotations_kept_only_for_features() {
    let input = union(
        "Mode",
        vec![unit_variant(
            "Network",
            vec![
                VariantAttr::Cfg(CfgBody::Group(s("feature = \"net\""))),
                VariantAttr::Cfg(CfgBody::Group(s("target_os = \"linux\""))),
                VariantAttr::Other,
                VariantAttr::Doc(s(" Online")),
            ],
        )],
    );
    let out = union_output(&input);
    assert_eq!(
        out.variants[0].attrs,
        vec![KeptAttr::CfgFeature(s("feature = \"net\"")), KeptAttr::Doc(s(" Online"))]
    );
}

#[test]
fn malformed_cfg_fails_generation() {
    let input = union(
        "Mode",
        vec![
            unit_variant("Network", vec![]),
            Variant { name: s("Offline"), shape: VariantShape::Unsupported, attrs: vec![VariantAttr::Cfg(CfgBody::Malformed)] },
        ],
    );
    assert_eq!(impl_interactive_clap(&input), Err(GenError::MalformedCfg { variant: s("Offline") }));
}

#[test]
fn unsupported_variant_fails_generation() {
    let input = union("Mode", vec![Variant { name: s("Pair"), shape: VariantShape::Unsupported, attrs: vec![] }]);
    assert_eq!(impl_interactive_clap(&input), Err(GenError::UnsupportedVariant { variant: s("Pair") }));
}

#[test]
fn untagged_union_is_unsupported() {
    let input = DeriveInput { name: s("Raw"), data: Data::Union };
    assert_eq!(impl_interactive_clap(&input), Err(GenError::UnsupportedDeclaration));
}

#[test]
fn repeated_option_on_non_sequence_fails() {
    let input = record(
        "Args",
        vec![field("ok", "u8", vec![], vec![]), field("env", "String", vec![Directive::LongVecMultipleOpt], vec![])],
    );
    assert_eq!(impl_interactive_clap(&input), Err(GenError::NotASequence { field: s("env") }));
}

#[test]
fn conflicting_directives_fail_on_first_field() {
    let input = record(
        "Args",
        vec![
            field("a", "Sender", vec![Directive::NamedArg, Directive::SkipInteractiveInput], vec![]),
            field("b", "String", vec![Directive::LongVecMultipleOpt], vec![]),
        ],
    );
    assert_eq!(impl_interactive_clap(&input), Err(GenError::ConflictingDirectives { field: s("a") }));
    let both_skips = record(
        "Args",
        vec![field("c", "u8", vec![Directive::SkipDefaultInputArg, Directive::SkipInteractiveInput], vec![])],
    );
    assert_eq!(impl_interactive_clap(&both_skips), Err(GenError::ConflictingDirectives { field: s("c") }));
}

#[test]
fn classification_table() {
    assert_eq!(classify(&vec![], TypeShape::Other), Ok(Classification::Plain));
    assert_eq!(classify(&vec![Directive::Long], TypeShape::Other), Ok(Classification::Plain));
    assert_eq!(classify(&vec![Directive::Long], TypeShape::Bool), Ok(Classification::Flag));
    assert_eq!(classify(&vec![Directive::SkipDefaultInputArg], TypeShape::Other), Ok(Classification::SkipDefault));
    assert_eq!(classify(&vec![Directive::SkipInteractiveInput], TypeShape::Other), Ok(Classification::SkipNoPrompt));
    assert_eq!(classify(&vec![Directive::NamedArg], TypeShape::Other), Ok(Classification::NamedSubcommand));
    assert_eq!(classify(&vec![Directive::NamedArg, Directive::Long], TypeShape::Other), Err(FieldFault::Conflict));
    assert_eq!(
        classify(&vec![Directive::LongVecMultipleOpt], TypeShape::Sequence),
        Ok(Classification::RepeatedMultiOpt)
    );
    assert_eq!(classify(&vec![Directive::LongVecMultipleOpt], TypeShape::Other), Err(FieldFault::NotSequence));
    assert_eq!(
        classify(&vec![Directive::LongVecMultipleOpt, Directive::SkipDefaultInputArg], TypeShape::Sequence),
        Err(FieldFault::Conflict)
    );
}

#[test]
fn skip_default_field_still_gets_prompt_and_skip_no_prompt_does_not() {
    let fields = vec![
        field("a", "u8", vec![Directive::SkipDefaultInputArg], vec![]),
        field("b", "u8", vec![Directive::SkipInteractiveInput], vec![]),
        field("c", "u8", vec![], vec![]),
    ];
    let fns = vec_fn_input_arg(&fields);
    let names: Vec<&str> = fns.iter().map(|p| p.fn_name.as_str()).collect();
    assert_eq!(names, vec!["input_a", "input_c"]);
    let out = record_output(&record("Args", fields.clone()));
    assert!(out.mirror[0].interactive);
    assert!(!out.mirror[1].interactive);
    let again = record_output(&record("Args", fields));
    assert_eq!(out, again);
}

#[test]
fn record_token_stream_and_input_args() {
    let fields = vec![field("x", "u8", vec![], vec![" The x"])];
    let out = struct_token_stream(&s("P"), &s("CliP"), &fields).unwrap();
    assert_eq!(out.input_args.fns, vec![prompt("input_x", "x", "u8", "The x")]);
    let impl_block = input_args_token_stream(&s("P"), &fields);
    assert_eq!(impl_block.target, "P");
    assert_eq!(impl_block.fns, out.input_args.fns);
}

#[test]
fn empty_record_has_no_members() {
    let out = record_output(&record("Empty", vec![]));
    assert!(out.mirror.is_empty());
    assert!(out.input_args.fns.is_empty());
    assert_eq!(out.cli_name, "CliEmpty");
}

#[test]
fn prompt_text_is_trimmed_and_formatted() {
    let lines = vec![s(" short first field description"), s(""), s(" a longer paragraph  ")];
    assert_eq!(doc_text(&lines, false), "short first field description\n\na longer paragraph  ");
    assert_eq!(doc_text(&lines, true), " short first field description a longer paragraph  ");
    assert_eq!(prompt_text(&s("f"), true, &lines, false), "short first field description\n\na longer paragraph");
    assert_eq!(prompt_text(&s("f"), true, &lines, true), "short first field description a longer paragraph");
    assert_eq!(prompt_text(&s("f"), false, &vec![], false), "f");
    assert_eq!(prompt_text(&s("f"), true, &vec![], false), "");
    assert_eq!(prompt_text(&s("f"), true, &vec![], true), "");
    assert_eq!(prompt_text(&s("f"), true, &vec![s("   ")], false), "");
    assert_eq!(prompt_text(&s("f"), true, &vec![s("\u{3000}wide\u{a0}\t")], true), "wide");
}

#[test]
fn documented_field_prompt_uses_docs() {
    let input = record(
        "Args",
        vec![
            field("age", "u64", vec![], vec![" How old", " are you? "]),
            field("name", "String", vec![Directive::VerbatimDocComment], vec![" Your", " name "]),
        ],
    );
    let out = record_output(&input);
    assert_eq!(
        out.input_args.fns,
        vec![prompt("input_age", "age", "u64", "How old\nare you?"), prompt("input_name", "name", "String", "Your name")]
    );
}

#[test]
fn names_are_derived_from_source_names() {
    assert_eq!(cli_name(&s("Args")), "CliArgs");
    assert_eq!(input_fn_name(&s("age")), "input_age");
    assert_eq!(
        context_scope_for_enum(&s("Mode")),
        (s("InteractiveClapContextScopeForMode"), s("ModeDiscriminants"))
    );
}

#[test]
fn shapes_and_text_search() {
    assert_eq!(shape_of(&s("bool")), TypeShape::Bool);
    assert_eq!(shape_of(&s("Vec")), TypeShape::Sequence);
    assert_eq!(shape_of(&s("String")), TypeShape::Other);
    assert!(contains_text("all(feature = \"x\")", "feature"));
    assert!(!contains_text("unix", "feature"));
    assert!(contains_text("abc", ""));
    assert!(!contains_text("", "a"));
}

#[test]
fn annotated_field_without_docs_prompts_with_empty_text() {
    let input = record(
        "Args",
        vec![field("x", "u64", vec![Directive::Long], vec![]), field("y", "u64", vec![], vec![])],
    );
    let out = record_output(&input);
    assert_eq!(out.input_args.fns, vec![prompt("input_x", "x", "u64", ""), prompt("input_y", "y", "u64", "y")]);
    assert!(out.mirror[0].long);
    assert_eq!(out.mirror[0].kind, MirrorKind::Optional);
}

#[test]
fn tuple_struct_is_unsupported() {
    let input = DeriveInput { name: s("Pair"), data: Data::TupleStruct };
    assert_eq!(impl_interactive_clap(&input), Err(GenError::UnsupportedDeclaration));
}
