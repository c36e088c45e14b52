use proc_macro2::Span;
use trivialized_from::derive_trivialization_ready;
use trivialized_from::syntax::{
    Attribute, Data, DeriveInput, Expansion, Field, FieldsKind, Meta, NestedMeta, Variant,
};

fn sp() -> Span {
    Span::call_site()
}

fn segments(path: &str) -> Vec<String> {
    path.split("::").map(String::from).collect()
}

fn word_attr(name: &str) -> Attribute {
    Attribute { path: segments(name), meta: Ok(Meta::Path { span: sp() }), span: sp() }
}

fn list_attr(name: &str, paths: &[&str]) -> Attribute {
    Attribute {
        path: segments(name),
        meta: Ok(Meta::List {
            nested: paths
                .iter()
                .map(|p| NestedMeta::Path { segments: segments(p), span: sp() })
                .collect(),
            span: sp(),
        }),
        span: sp(),
    }
}

fn field(name: &str, ty: &str, attrs: Vec<Attribute>) -> Field {
    Field { ident: Some(name.to_string()), ty_path: Some(segments(ty)), attrs, span: sp() }
}

fn tuple_field(ty: &str, attrs: Vec<Attribute>) -> Field {
    Field { ident: None, ty_path: Some(segments(ty)), attrs, span: sp() }
}

fn structure(name: &str, from: &[&[&str]], fields: Vec<Field>) -> DeriveInput {
    DeriveInput {
        ident: name.to_string(),
        attrs: from.iter().map(|ps| list_attr("From", ps)).collect(),
        data: Data::Struct { fields },
    }
}

fn expand(input: &DeriveInput) -> Expansion {
    derive_trivialization_ready(input).expect("the expansion reaches no refused path")
}

fn messages(e: &Expansion) -> Vec<String> {
    e.errors.iter().map(|e| e.message.clone()).collect()
}

fn assert_code_parses(code: &str) {
    assert!(syn::parse_str::<syn::File>(code).is_ok(), "not Rust: {}", code);
}

#[test]
fn empty_struct_to_empty_struct() {
    let e = expand(&structure("A", &[&["B"]], vec![]));
    assert_eq!(e.code, "impl From<B> for A { fn from(other: B) -> Self { Self { } } }\n");
    assert!(e.errors.is_empty());
    assert_code_parses(&e.code);
}

#[test]
fn from_occurring_more_than_once() {
    let e = expand(&structure(
        "Output",
        &[&["Input1"], &["Input2"]],
        vec![field("field_1", "u128", vec![]), field("field_2", "String", vec![])],
    ));
    assert_eq!(
        e.code,
        "impl From<Input1> for Output { fn from(other: Input1) -> Self { Self { field_1: (other.field_1), field_2: (other.field_2), } } }\n\
         impl From<Input2> for Output { fn from(other: Input2) -> Self { Self { field_1: (other.field_1), field_2: (other.field_2), } } }\n"
    );
    assert!(e.errors.is_empty());
    assert_code_parses(&e.code);
}

#[test]
fn from_ignores_duplicates() {
    let e = expand(&structure("A", &[&["B", "B"], &["C", "B"]], vec![]));
    assert_eq!(
        e.code,
        "impl From<B> for A { fn from(other: B) -> Self { Self { } } }\n\
         impl From<C> for A { fn from(other: C) -> Self { Self { } } }\n"
    );
}

#[test]
fn input_struct_with_exceeding_fields() {
    let e = expand(&structure(
        "Output",
        &[&["Input"]],
        vec![field("field_1", "u128", vec![]), field("field_2", "String", vec![])],
    ));
    assert_eq!(
        e.code,
        "impl From<Input> for Output { fn from(other: Input) -> Self { Self { field_1: (other.field_1), field_2: (other.field_2), } } }\n"
    );
}

#[test]
fn structs_with_into_fields() {
    let e = expand(&structure(
        "Output",
        &[&["Input"]],
        vec![field("age", "u8", vec![]), field("nested", "NestedOutput", vec![word_attr("Into")])],
    ));
    assert_eq!(
        e.code,
        "impl From<Input> for Output { fn from(other: Input) -> Self { Self { age: (other.age), nested: (other.nested.into()), } } }\n"
    );
    assert_code_parses(&e.code);
}

#[test]
fn structs_with_into_option_fields() {
    let e = expand(&structure(
        "Output",
        &[&["Input"]],
        vec![field("nested", "Option", vec![word_attr("Into")])],
    ));
    assert_eq!(
        e.code,
        "impl From<Input> for Output { fn from(other: Input) -> Self { Self { nested: (other.nested.map(Into::into)), } } }\n"
    );
}

#[test]
fn structs_with_into_vec_fields() {
    let e = expand(&structure(
        "Output",
        &[&["Input"]],
        vec![
            field("nested", "Vec", vec![word_attr("Into")]),
            field("set", "std::collections::HashSet", vec![word_attr("Into")]),
        ],
    ));
    assert_eq!(
        e.code,
        "impl From<Input> for Output { fn from(other: Input) -> Self { Self { nested: (other.nested.into_iter().map(Into::into).collect()), set: (other.set.into_iter().map(Into::into).collect()), } } }\n"
    );
    assert_code_parses(&e.code);
}

#[test]
fn structs_with_macrotransform_plain_fields() {
    let e = expand(&structure(
        "Output",
        &[&["Input"]],
        vec![field("age", "Vec", vec![list_attr("MacroTransform", &["vec"])])],
    ));
    assert_eq!(
        e.code,
        "impl From<Input> for Output { fn from(other: Input) -> Self { Self { age: (vec!(other.age)), } } }\n"
    );
    assert_code_parses(&e.code);
}

#[test]
fn structs_with_multiple_annotations_on_plain_fields() {
    let e = expand(&structure(
        "Output",
        &[&["Input"]],
        vec![field(
            "age_1",
            "Option",
            vec![
                list_attr("Transform", &["u8_to_string"]),
                list_attr("MacroTransform", &["vec"]),
                list_attr("Transform", &["Option::Some"]),
            ],
        )],
    ));
    assert_eq!(
        e.code,
        "impl From<Input> for Output { fn from(other: Input) -> Self { Self { age_1: (Option::Some(vec!(u8_to_string(other.age_1)))), } } }\n"
    );
    assert_code_parses(&e.code);
}

#[test]
fn structs_with_transform_plain_fields() {
    let e = expand(&structure(
        "Output",
        &[&["Input"]],
        vec![
            field("age", "String", vec![list_attr("Transform", &["ToString::to_string"])]),
            field("age_1", "String", vec![list_attr("Transform", &["u8_to_string"])]),
        ],
    ));
    assert_eq!(
        e.code,
        "impl From<Input> for Output { fn from(other: Input) -> Self { Self { age: (ToString::to_string(other.age)), age_1: (u8_to_string(other.age_1)), } } }\n"
    );
}

#[test]
fn into_then_transform_is_accepted() {
    let e = expand(&structure(
        "Output",
        &[&["Input"]],
        vec![field("a", "Wrapper", vec![word_attr("Into"), list_attr("Transform", &["wrap"])])],
    ));
    assert_eq!(
        e.code,
        "impl From<Input> for Output { fn from(other: Input) -> Self { Self { a: (wrap(other.a.into())), } } }\n"
    );
}

#[test]
fn into_not_first_is_refused() {
    let e = expand(&structure(
        "Output",
        &[&["Input"]],
        vec![field("a", "T", vec![list_attr("Transform", &["f"]), word_attr("Into")])],
    ));
    assert_eq!(e.code, "");
    assert_eq!(
        messages(&e),
        vec!["Field can be decorated at most one #[Into] and it must be the first one"]
    );
}

#[test]
fn into_twice_is_refused() {
    let e = expand(&structure(
        "Output",
        &[&["Input"]],
        vec![field("a", "T", vec![word_attr("Into"), word_attr("Into")])],
    ));
    assert_eq!(
        messages(&e),
        vec!["Field can be decorated at most one #[Into] and it must be the first one"]
    );
}

#[test]
fn errors_of_every_field_are_reported_and_no_code() {
    let into_list = list_attr("Into", &["x"]);
    let into_value = Attribute {
        path: segments("Into"),
        meta: Ok(Meta::NameValue { span: sp() }),
        span: sp(),
    };
    let e = expand(&structure(
        "Output",
        &[&["Input"]],
        vec![
            field("a", "T", vec![into_list]),
            field("ok", "T", vec![]),
            field("b", "T", vec![into_value]),
            Field { ident: None, ty_path: Some(segments("T")), attrs: vec![], span: sp() },
            Field { ident: Some("c".to_string()), ty_path: None, attrs: vec![], span: sp() },
        ],
    ));
    assert_eq!(e.code, "");
    assert_eq!(
        messages(&e),
        vec![
            "#[Into] attribute does not support List format. Expected format is: #[Into]",
            "#[From] attribute does not support NameValue format. Expected format is: #[Into]",
            "Cannot find Identifier of this token",
            "Unable to extract type from this field",
        ]
    );
}

#[test]
fn path_attribute_errors() {
    let unreadable = Attribute {
        path: segments("Transform"),
        meta: Err("boom".to_string()),
        span: sp(),
    };
    let literal = Attribute {
        path: segments("MacroTransform"),
        meta: Ok(Meta::List { nested: vec![NestedMeta::Lit { span: sp() }], span: sp() }),
        span: sp(),
    };
    let nested = Attribute {
        path: segments("MacroTransform"),
        meta: Ok(Meta::List { nested: vec![NestedMeta::Meta { span: sp() }], span: sp() }),
        span: sp(),
    };
    let e = expand(&structure(
        "Output",
        &[&["Input"]],
        vec![
            field("a", "T", vec![word_attr("Transform")]),
            field("b", "T", vec![list_attr("Transform", &[])]),
            field("c", "T", vec![unreadable]),
            field("d", "T", vec![literal]),
            field("e", "T", vec![nested]),
        ],
    ));
    assert_eq!(
        messages(&e),
        vec![
            "#[Transform] attribute does not support Path format. Expected format is: #[Transform(path)]",
            "Unable to retrieve any Path from this #[Transform]",
            "Unable to successfully parse this attribute because \"boom\". Expected format is: #[Transform(path)]",
            "Literal NestedMeta detected in #[MacroTransform] MetaList. Expected format is: #[MacroTransform(path)]",
            "NestedMeta Path is needed in #[MacroTransform] MetaList. Expected format is: #[MacroTransform(path)]",
        ]
    );
}

#[test]
fn from_attribute_errors_stop_the_expansion() {
    let input = DeriveInput {
        ident: "Output".to_string(),
        attrs: vec![
            word_attr("From"),
            Attribute {
                path: segments("From"),
                meta: Ok(Meta::List {
                    nested: vec![
                        NestedMeta::Lit { span: sp() },
                        NestedMeta::Path { segments: segments("A"), span: sp() },
                        NestedMeta::Meta { span: sp() },
                    ],
                    span: sp(),
                }),
                span: sp(),
            },
        ],
        data: Data::Struct { fields: vec![field("a", "T", vec![list_attr("Transform", &["1x"])])] },
    };
    let e = expand(&input);
    assert_eq!(e.code, "");
    assert_eq!(
        messages(&e),
        vec![
            "#[From] attribute does not support Path format. Expected format is: #[From(path, ...)]",
            "Literal NestedMeta detected in #[From] MetaList. Expected format is: #[From(path, ...)]",
            "NestedMeta Path is needed in #[From] MetaList. Expected format is: #[From(path, ...)]",
        ]
    );
}

#[test]
fn type_that_syn_refuses_is_reported() {
    let e = expand(&structure("Output", &[&["A"], &["1x"]], vec![]));
    assert_eq!(e.code, "");
    assert_eq!(e.errors.len(), 1);
    assert!(e.errors[0].message.starts_with("Unable to parse type from this token: "));
    assert!(e.errors[0].message.len() > "Unable to parse type from this token: ".len());
}

#[test]
fn transform_path_that_syn_refuses_has_no_expansion() {
    let input = structure(
        "Output",
        &[&["Input"]],
        vec![field("a", "T", vec![list_attr("Transform", &["1x"])])],
    );
    assert!(derive_trivialization_ready(&input).is_none());
}

#[test]
fn other_attributes_are_ignored() {
    let input = DeriveInput {
        ident: "Output".to_string(),
        attrs: vec![word_attr("allow"), list_attr("From", &["Input"])],
        data: Data::Struct {
            fields: vec![field("a", "T", vec![list_attr("serde", &["skip"]), word_attr("doc")])],
        },
    };
    let e = expand(&input);
    assert_eq!(
        e.code,
        "impl From<Input> for Output { fn from(other: Input) -> Self { Self { a: (other.a), } } }\n"
    );
}

#[test]
fn struct_without_from_attribute_has_no_code() {
    let e = expand(&structure("Output", &[], vec![field("a", "T", vec![])]));
    assert_eq!(e.code, "");
    assert!(e.errors.is_empty());
}

fn example_enum_input(from: &[&str]) -> DeriveInput {
    DeriveInput {
        ident: "ExampleDomainEnum".to_string(),
        attrs: vec![list_attr("From", from)],
        data: Data::Enum {
            variants: vec![
                Variant {
                    ident: "Empty".to_string(),
                    kind: FieldsKind::Unit,
                    fields: vec![],
                    attrs: vec![],
                    span: sp(),
                },
                Variant {
                    ident: "WithSubRecord".to_string(),
                    kind: FieldsKind::Unnamed,
                    fields: vec![tuple_field("ExampleSubRecord", vec![])],
                    attrs: vec![word_attr("Into")],
                    span: sp(),
                },
                Variant {
                    ident: "WithAgeAndRecord".to_string(),
                    kind: FieldsKind::Unnamed,
                    fields: vec![
                        tuple_field("u8", vec![]),
                        tuple_field("ExampleSubRecord", vec![word_attr("Into")]),
                    ],
                    attrs: vec![],
                    span: sp(),
                },
                Variant {
                    ident: "Another".to_string(),
                    kind: FieldsKind::Named,
                    fields: vec![
                        field("age", "u8", vec![]),
                        field("sub_record", "ExampleSubRecord", vec![word_attr("Into")]),
                    ],
                    attrs: vec![],
                    span: sp(),
                },
            ],
        },
    }
}

#[test]
fn example_domain_enum() {
    let e = expand(&example_enum_input(&["ExampleEnum"]));
    assert_eq!(
        e.code,
        "impl From<ExampleEnum> for ExampleDomainEnum { fn from(other: ExampleEnum) -> Self { match other { \
         ExampleEnum::Empty => Self::Empty, \
         ExampleEnum::WithSubRecord(field_number_0, ) => Self::WithSubRecord(field_number_0.into(), ), \
         ExampleEnum::WithAgeAndRecord(field_number_0, field_number_1, ) => Self::WithAgeAndRecord(field_number_0, field_number_1.into(), ), \
         ExampleEnum::Another{age, sub_record, } => Self::Another{age: (age), sub_record: (sub_record.into()), }, \
         } } }\n"
    );
    assert!(e.errors.is_empty());
    assert_code_parses(&e.code);
}

#[test]
fn enum_variant_transform_takes_the_whole_value() {
    let mut input = example_enum_input(&["Source"]);
    if let Data::Enum { variants } = &mut input.data {
        variants.truncate(1);
        variants.push(Variant {
            ident: "Wrapped".to_string(),
            kind: FieldsKind::Named,
            fields: vec![field("inner", "T", vec![word_attr("Into"), word_attr("Into")])],
            attrs: vec![list_attr("Transform", &["wrap"]), list_attr("MacroTransform", &["boxed"])],
            span: sp(),
        });
    }
    let e = expand(&input);
    assert_eq!(
        e.code,
        "impl From<Source> for ExampleDomainEnum { fn from(other: Source) -> Self { match other { \
         Source::Empty => Self::Empty, \
         Source::Wrapped{ .. } => (boxed!(wrap(other))), \
         } } }\n"
    );
    assert!(e.errors.is_empty());
}

#[test]
fn enum_variant_mixing_into_is_refused_once_per_type() {
    let input = DeriveInput {
        ident: "E".to_string(),
        attrs: vec![list_attr("From", &["A", "B"])],
        data: Data::Enum {
            variants: vec![Variant {
                ident: "V".to_string(),
                kind: FieldsKind::Unit,
                fields: vec![],
                attrs: vec![word_attr("Into"), list_attr("Transform", &["f"])],
                span: sp(),
            }],
        },
    };
    let e = expand(&input);
    let m = "Variant must have an #[Into] only, or a combination of multiple #[Transform] and #[MacroTransform], or without attributes";
    assert_eq!(messages(&e), vec![m, m]);
    assert_eq!(
        e.code,
        "impl From<A> for E { fn from(other: A) -> Self { match other { , } } }\n\
         impl From<B> for E { fn from(other: B) -> Self { match other { , } } }\n"
    );
}

#[test]
fn enum_into_on_variant_and_field_is_refused() {
    let input = DeriveInput {
        ident: "E".to_string(),
        attrs: vec![list_attr("From", &["A"])],
        data: Data::Enum {
            variants: vec![Variant {
                ident: "V".to_string(),
                kind: FieldsKind::Unnamed,
                fields: vec![tuple_field("T", vec![word_attr("Into")])],
                attrs: vec![word_attr("Into")],
                span: sp(),
            }],
        },
    };
    let e = expand(&input);
    assert_eq!(
        messages(&e),
        vec!["Field can be decorated at most one #[Into] and it must be the first one"]
    );
}

#[test]
fn enum_without_types_does_not_render_paths() {
    let input = DeriveInput {
        ident: "E".to_string(),
        attrs: vec![],
        data: Data::Enum {
            variants: vec![Variant {
                ident: "V".to_string(),
                kind: FieldsKind::Unit,
                fields: vec![],
                attrs: vec![list_attr("Transform", &["1x"])],
                span: sp(),
            }],
        },
    };
    let e = derive_trivialization_ready(&input).expect("no type, no rendering");
    assert_eq!(e.code, "");
    assert!(e.errors.is_empty());
    let with_type = DeriveInput { attrs: vec![list_attr("From", &["A"])], ..input };
    assert!(derive_trivialization_ready(&with_type).is_none());
}

#[test]
fn enum_tuple_fields_are_numbered() {
    let fields: Vec<Field> = (0..12).map(|_| tuple_field("u8", vec![])).collect();
    let input = DeriveInput {
        ident: "E".to_string(),
        attrs: vec![list_attr("From", &["A"])],
        data: Data::Enum {
            variants: vec![Variant {
                ident: "V".to_string(),
                kind: FieldsKind::Unnamed,
                fields,
                attrs: vec![],
                span: sp(),
            }],
        },
    };
    let e = expand(&input);
    assert!(e.code.contains("field_number_9, field_number_10, field_number_11, ) => Self::V("));
    assert_code_parses(&e.code);
}

#[test]
fn into_tells_collections_by_the_last_segment() {
    let e = expand(&structure(
        "Output",
        &[&["Input"]],
        vec![
            field("a", "MyVec", vec![word_attr("Into")]),
            field("b", "MyOption", vec![word_attr("Into")]),
            field("c", "collections::MyHashSet", vec![word_attr("Into")]),
            field("d", "std::option::Option", vec![word_attr("Into")]),
            field("e", "VecDeque", vec![word_attr("Into")]),
        ],
    ));
    assert_eq!(
        e.code,
        "impl From<Input> for Output { fn from(other: Input) -> Self { Self { a: (other.a.into()), b: (other.b.into()), c: (other.c.into()), d: (other.d.map(Into::into)), e: (other.e.into()), } } }\n"
    );
    assert_code_parses(&e.code);
}

#[test]
fn enum_tuple_variant_transform_matches_any_field_count() {
    let input = DeriveInput {
        ident: "E".to_string(),
        attrs: vec![list_attr("From", &["S"])],
        data: Data::Enum {
            variants: vec![Variant {
                ident: "Pair".to_string(),
                kind: FieldsKind::Unnamed,
                fields: vec![tuple_field("u8", vec![]), tuple_field("u8", vec![])],
                attrs: vec![list_attr("Transform", &["convert"])],
                span: sp(),
            }],
        },
    };
    let e = expand(&input);
    assert_eq!(
        e.code,
        "impl From<S> for E { fn from(other: S) -> Self { match other { S::Pair(..) => (convert(other)), } } }\n"
    );
    assert_code_parses(&e.code);
}

/// The cases of the derive's compile tests that have an input here: each
/// expands without errors into code that parses as Rust.
#[test]
fn compile_tests() {
    let cases: Vec<DeriveInput> = vec![
        structure("A", &[&["B"]], vec![]),
        structure(
            "Output",
            &[&["Input1"], &["Input2"]],
            vec![field("field_1", "u128", vec![]), field("field_2", "String", vec![])],
        ),
        structure(
            "Output",
            &[&["Input"]],
            vec![field("field_1", "u128", vec![]), field("field_2", "String", vec![])],
        ),
        structure(
            "Output",
            &[&["Input"]],
            vec![field("age", "u8", vec![]), field("nested", "NestedOutput", vec![word_attr("Into")])],
        ),
        structure("NestedOutput", &[&["NestedInput"]], vec![field("field_0", "u128", vec![])]),
        structure("Output", &[&["Input"]], vec![field("nested", "Option", vec![word_attr("Into")])]),
        structure("Output", &[&["Input"]], vec![field("nested", "Vec", vec![word_attr("Into")])]),
        structure(
            "Output",
            &[&["Input"]],
            vec![field("age", "Vec", vec![list_attr("MacroTransform", &["vec"])])],
        ),
        structure(
            "Output",
            &[&["Input"]],
            vec![field(
                "age_1",
                "Option",
                vec![
                    list_attr("Transform", &["u8_to_string"]),
                    list_attr("MacroTransform", &["vec"]),
                    list_attr("Transform", &["Option::Some"]),
                ],
            )],
        ),
        structure(
            "Output",
            &[&["Input"]],
            vec![
                field("age", "String", vec![list_attr("Transform", &["ToString::to_string"])]),
                field("age_1", "String", vec![list_attr("Transform", &["u8_to_string"])]),
            ],
        ),
        structure("B", &[&["A"]], vec![field("age", "Vec", vec![list_attr("MacroTransform", &["vec"])])]),
        example_enum_input(&["ExampleEnum"]),
    ];
    for case in &cases {
        let e = expand(case);
        assert!(e.errors.is_empty(), "errors for {}", case.ident);
        assert!(!e.code.is_empty(), "no code for {}", case.ident);
        assert_code_parses(&e.code);
    }
}

#[test]
fn readme_example_records() {
    let sub = expand(&structure(
        "ExampleDomainSubRecord",
        &[&["ExampleRecord"], &["ExampleSubRecord"]],
        vec![field("name", "String", vec![])],
    ));
    assert_eq!(
        sub.code,
        "impl From<ExampleRecord> for ExampleDomainSubRecord { fn from(other: ExampleRecord) -> Self { Self { name: (other.name), } } }\n\
         impl From<ExampleSubRecord> for ExampleDomainSubRecord { fn from(other: ExampleSubRecord) -> Self { Self { name: (other.name), } } }\n"
    );
    assert_code_parses(&sub.code);

    let record = expand(&structure(
        "ExampleDomainRecord",
        &[&["ExampleRecord"]],
        vec![
            field("name", "String", vec![]),
            field(
                "age",
                "Vec",
                vec![list_attr("Transform", &["example_zerofy"]), list_attr("MacroTransform", &["vec"])],
            ),
            field("maybe_record", "Option", vec![word_attr("Into")]),
            field("records", "Vec", vec![word_attr("Into")]),
            field("sub", "ExampleDomainSubRecord", vec![word_attr("Into")]),
            field("e", "ExampleDomainEnum", vec![word_attr("Into")]),
        ],
    ));
    assert_eq!(
        record.code,
        "impl From<ExampleRecord> for ExampleDomainRecord { fn from(other: ExampleRecord) -> Self { Self { \
         name: (other.name), \
         age: (vec!(example_zerofy(other.age))), \
         maybe_record: (other.maybe_record.map(Into::into)), \
         records: (other.records.into_iter().map(Into::into).collect()), \
         sub: (other.sub.into()), \
         e: (other.e.into()), \
         } } }\n"
    );
    assert!(record.errors.is_empty());
    assert_code_parses(&record.code);

    let b = expand(&structure(
        "B",
        &[&["A"]],
        vec![field("age", "Vec", vec![list_attr("MacroTransform", &["vec"])])],
    ));
    assert_eq!(
        b.code,
        "impl From<A> for B { fn from(other: A) -> Self { Self { age: (vec!(other.age)), } } }\n"
    );
}

#[test]
fn keyword_segments_still_expand_through_syn() {
    let e = expand(&structure(
        "Output",
        &[&["crate::Input"]],
        vec![field("a", "T", vec![list_attr("Transform", &["Self::convert"])])],
    ));
    assert_eq!(
        e.code,
        "impl From<crate::Input> for Output { fn from(other: crate::Input) -> Self { Self { a: (Self::convert(other.a)), } } }\n"
    );
}
