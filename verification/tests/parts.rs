use proc_macro2::Span;
use trivialized_from::attributes::{are_results_invalid, FieldTransformation};
use trivialized_from::from::{types_to_convert, FromMetadata};
use trivialized_from::metadata::{
    as_name, IntoMetadata, MacroTransformMetadata, PathDetection, TransformMetadata,
};
use trivialized_from::syntax::{Attribute, Meta, NestedMeta};
use trivialized_from::text::{decimal, ends_with, str_eq};

fn sp() -> Span {
    Span::call_site()
}

fn segments(path: &str) -> Vec<String> {
    path.split("::").map(String::from).collect()
}

fn list_attr(name: &str, paths: &[&str]) -> Attribute {
    Attribute {
        path: segments(name),
        meta: Ok(Meta::List {
            nested: paths
                .iter()
                .map(|p| NestedMeta::Path { segments: segments(p), span: sp() })
                .collect(),
            span: sp(),
        }),
        span: sp(),
    }
}

fn detection(text: &str) -> PathDetection {
    PathDetection { stringified: text.to_string(), span: sp() }
}

#[test]
fn as_name_joins_segments() {
    assert_eq!(as_name(&segments("std::vec::Vec")), "std::vec::Vec");
    assert_eq!(as_name(&vec!["Into".to_string()]), "Into");
    assert_eq!(as_name(&vec![]), "");
}

#[test]
fn text_helpers() {
    assert!(str_eq("Into", "Into"));
    assert!(!str_eq("Into", "Int"));
    assert!(!str_eq("Into", "Onto"));
    assert!(ends_with("std::vec::Vec", "Vec"));
    assert!(ends_with("MyVec", "Vec"));
    assert!(!ends_with("Vec", "std::Vec"));
    assert!(!ends_with("Vector", "Vec"));
    assert_eq!(decimal(0), "0");
    assert_eq!(decimal(7), "7");
    assert_eq!(decimal(10), "10");
    assert_eq!(decimal(4096), "4096");
}

#[test]
fn path_attributes_read_their_first_path() {
    let t = TransformMetadata::maybe_from(&list_attr("Transform", &["a::b", "c"]))
        .unwrap()
        .unwrap();
    assert_eq!(t.path_detection.stringified, "a::b");
    assert!(TransformMetadata::maybe_from(&list_attr("MacroTransform", &["vec"])).unwrap().is_none());
    let m = MacroTransformMetadata::maybe_from(&list_attr("MacroTransform", &["vec"]))
        .unwrap()
        .unwrap();
    assert_eq!(m.path_detection.stringified, "vec");
    assert!(IntoMetadata::maybe_from(&list_attr("Transform", &["f"])).unwrap().is_none());
}

#[test]
fn transformation_path_checks_with_syn() {
    let good = TransformMetadata { path_detection: detection("Option::Some") };
    assert_eq!(good.transformation_path().ok().unwrap(), "Option::Some");
    let bad = MacroTransformMetadata { path_detection: detection("a b") };
    let err = bad.transformation_path().err().unwrap();
    assert!(err.message.starts_with("Unable to parse type from this token: "));
    assert!(err.message.len() > "Unable to parse type from this token: ".len());
}

#[test]
fn from_metadata_merges_without_repeating() {
    let a = FromMetadata::maybe_from(&list_attr("From", &["A", "B", "A"])).unwrap().unwrap();
    let b = FromMetadata::maybe_from(&list_attr("From", &["C", "B"])).unwrap().unwrap();
    let merged = a.merge(b);
    assert_eq!(merged.types().ok().unwrap(), vec!["A", "B", "C"]);
    assert!(FromMetadata::maybe_from(&list_attr("Into", &["A"])).unwrap().is_none());
    assert!(FromMetadata::new().types().ok().unwrap().is_empty());
}

#[test]
fn types_to_convert_keeps_first_occurrences() {
    let attrs = vec![list_attr("From", &["X"]), list_attr("allow", &["y"]), list_attr("From", &["Y", "X", "a::Z"])];
    assert_eq!(types_to_convert(&attrs).ok().unwrap(), vec!["X", "Y", "a::Z"]);
}

#[test]
fn into_rule_on_transformations() {
    let into = || FieldTransformation::Into(IntoMetadata {});
    let tr = || FieldTransformation::Transform(TransformMetadata { path_detection: detection("f") });
    assert!(!are_results_invalid(&vec![]));
    assert!(!are_results_invalid(&vec![into(), tr(), tr()]));
    assert!(!are_results_invalid(&vec![tr(), tr()]));
    assert!(are_results_invalid(&vec![tr(), into()]));
    assert!(are_results_invalid(&vec![into(), into()]));
}
