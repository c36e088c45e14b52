//! Reading the derive's attributes: names of paths, and the `#[Into]`,
//! `#[Transform(path)]` and `#[MacroTransform(path)]` attributes.

use crate::outside::{is_plain_path, parse_path_text};
use crate::syntax::{Attribute, Meta, NestedMeta, ParseError, SpecError, texts};
use crate::text::{cat, join_with, str_eq};
use proc_macro2::Span;
use vstd::prelude::*;

verus! {

/// The name of a path: its segments joined by `::`.
pub open spec fn name_of(segments: Seq<String>) -> Seq<char> {
    join_with(texts(segments), "::"@)
}

/// The name of a path given by its segments, such as `a::b::C`.
pub fn as_name(segments: &Vec<String>) -> (r: String)
    ensures
        r@ == name_of(segments@),
{
    let mut r = String::new();
    let n = segments.len();
    let ghost parts = texts(segments@);
    let mut i: usize = 0;
    while i < n
        invariant
            n == segments@.len(),
            parts == texts(segments@),
            i <= n,
            r@ == join_with(parts.take(i as int), "::"@),
        decreases n - i,
    {
        proof {
            assert(parts.take(i + 1).drop_last() =~= parts.take(i as int));
        }
        if i > 0 {
            r.append("::");
        }
        r.append(segments[i].as_str());
        i = i + 1;
    }
    assert(parts.take(n as int) =~= parts);
    r
}

/// A path named in an attribute, by its name, with its span.
#[derive(Debug)]
pub struct PathDetection {
    pub stringified: String,
    pub span: Span,
}

/// The mathematical value of a `PathDetection`.
pub struct SpecPath {
    pub text: Seq<char>,
    pub span: Span,
}

impl View for PathDetection {
    type V = SpecPath;

    open spec fn view(&self) -> SpecPath {
        SpecPath { text: self.stringified@, span: self.span }
    }
}

/// The paths of a sequence, by value.
pub open spec fn paths_view(paths: Seq<PathDetection>) -> Seq<SpecPath> {
    paths.map_values(|p: PathDetection| p@)
}

/// The message for an attribute whose arguments could not be read.
pub open spec fn unable_message(error: Seq<char>, expected: Seq<char>) -> Seq<char> {
    "Unable to successfully parse this attribute because \""@ + error + "\". Expected format is: "@
        + expected
}

/// The message for an attribute written in a form that it does not take.
pub open spec fn unsupported_message(
    keyword: Seq<char>,
    format: Seq<char>,
    expected: Seq<char>,
) -> Seq<char> {
    "#["@ + keyword + "] attribute does not support "@ + format + " format. Expected format is: "@
        + expected
}

/// The message for a list attribute with nothing in its brackets.
pub open spec fn no_path_message(keyword: Seq<char>) -> Seq<char> {
    "Unable to retrieve any Path from this #["@ + keyword + "]"@
}

/// The message for a literal inside a list attribute.
pub open spec fn literal_message(keyword: Seq<char>, expected: Seq<char>) -> Seq<char> {
    "Literal NestedMeta detected in #["@ + keyword + "] MetaList. Expected format is: "@ + expected
}

/// The message for a nested list or name-value entry inside a list attribute.
pub open spec fn need_path_message(keyword: Seq<char>, expected: Seq<char>) -> Seq<char> {
    "NestedMeta Path is needed in #["@ + keyword + "] MetaList. Expected format is: "@ + expected
}

/// The message for a path that does not parse again.
pub open spec fn unparsable_message(error: Seq<char>) -> Seq<char> {
    "Unable to parse type from this token: "@ + error
}

/// What one entry of a list attribute gives: its path, or an error.
pub open spec fn spec_nested_path(
    item: NestedMeta,
    keyword: Seq<char>,
    expected: Seq<char>,
) -> Result<SpecPath, SpecError> {
    match item {
        NestedMeta::Path { segments, span } => Ok(SpecPath { text: name_of(segments@), span }),
        NestedMeta::Meta { span } => Err(
            SpecError { message: need_path_message(keyword, expected), span },
        ),
        NestedMeta::Lit { span } => Err(
            SpecError { message: literal_message(keyword, expected), span },
        ),
    }
}

/// What an attribute `#[keyword(path)]` gives: `None` when the attribute has
/// another name, else the first path of its list, or the error that its form
/// causes.
pub open spec fn spec_path_attribute(
    attr: Attribute,
    keyword: Seq<char>,
    expected: Seq<char>,
) -> Result<Option<SpecPath>, SpecError> {
    if name_of(attr.path@) != keyword {
        Ok(None)
    } else {
        match attr.meta {
            Err(e) => Err(SpecError { message: unable_message(e@, expected), span: attr.span }),
            Ok(Meta::Path { span }) => Err(
                SpecError { message: unsupported_message(keyword, "Path"@, expected), span },
            ),
            Ok(Meta::NameValue { span }) => Err(
                SpecError { message: unsupported_message(keyword, "NameValue"@, expected), span },
            ),
            Ok(Meta::List { nested, span }) => {
                if nested@.len() == 0 {
                    Err(SpecError { message: no_path_message(keyword), span })
                } else {
                    match spec_nested_path(nested@[0], keyword, expected) {
                        Ok(p) => Ok(Some(p)),
                        Err(e) => Err(e),
                    }
                }
            },
        }
    }
}

/// What the `#[Into]` attribute gives: `false` for an attribute of another
/// name, `true` for `#[Into]`, or the error that another form causes.
pub open spec fn spec_into(attr: Attribute) -> Result<bool, SpecError> {
    if name_of(attr.path@) != "Into"@ {
        Ok(false)
    } else {
        match attr.meta {
            Err(e) => Err(SpecError { message: unable_message(e@, "#[Into]"@), span: attr.span }),
            Ok(Meta::Path { .. }) => Ok(true),
            Ok(Meta::List { span, .. }) => Err(
                SpecError { message: unsupported_message("Into"@, "List"@, "#[Into]"@), span },
            ),
            Ok(Meta::NameValue { span }) => Err(
                SpecError { message: unsupported_message("From"@, "NameValue"@, "#[Into]"@), span },
            ),
        }
    }
}

pub(crate) fn unable_error(error: &String, expected: &str, span: Span) -> (r: ParseError)
    ensures
        r@ == (SpecError { message: unable_message(error@, expected@), span }),
{
    let mut m = String::from_str("Unable to successfully parse this attribute because \"");
    m.append(error.as_str());
    m.append("\". Expected format is: ");
    m.append(expected);
    ParseError { message: m, span }
}

pub(crate) fn unsupported_error(keyword: &str, format: &str, expected: &str, span: Span) -> (r:
    ParseError)
    ensures
        r@ == (SpecError { message: unsupported_message(keyword@, format@, expected@), span }),
{
    let mut m = String::from_str("#[");
    m.append(keyword);
    m.append("] attribute does not support ");
    m.append(format);
    m.append(" format. Expected format is: ");
    m.append(expected);
    ParseError { message: m, span }
}

/// The path of one entry of a list attribute, or the error it causes.
pub fn nested_path(item: &NestedMeta, keyword: &str, expected: &str) -> (r: Result<
    PathDetection,
    ParseError,
>)
    ensures
        match r {
            Ok(p) => spec_nested_path(*item, keyword@, expected@) == Ok::<SpecPath, SpecError>(p@),
            Err(e) => spec_nested_path(*item, keyword@, expected@) == Err::<SpecPath, SpecError>(e@),
        },
{
    match item {
        NestedMeta::Path { segments, span } => Ok(
            PathDetection { stringified: as_name(segments), span: *span },
        ),
        NestedMeta::Meta { span } => {
            let mut m = String::from_str("NestedMeta Path is needed in #[");
            m.append(keyword);
            m.append("] MetaList. Expected format is: ");
            m.append(expected);
            Err(ParseError { message: m, span: *span })
        },
        NestedMeta::Lit { span } => {
            let mut m = String::from_str("Literal NestedMeta detected in #[");
            m.append(keyword);
            m.append("] MetaList. Expected format is: ");
            m.append(expected);
            Err(ParseError { message: m, span: *span })
        },
    }
}

/// Reads an attribute `#[keyword(path)]`: `Ok(None)` when the attribute has
/// another name, `Ok(Some(path))` for the first path of its list, else the
/// error that its form causes.
pub fn maybe_path_attribute(attr: &Attribute, keyword: &str, expected: &str) -> (r: Result<
    Option<PathDetection>,
    ParseError,
>)
    ensures
        match r {
            Ok(Some(p)) => spec_path_attribute(*attr, keyword@, expected@) == Ok::<
                Option<SpecPath>,
                SpecError,
            >(Some(p@)),
            Ok(None) => spec_path_attribute(*attr, keyword@, expected@) == Ok::<
                Option<SpecPath>,
                SpecError,
            >(None),
            Err(e) => spec_path_attribute(*attr, keyword@, expected@) == Err::<
                Option<SpecPath>,
                SpecError,
            >(e@),
        },
{
    let name = as_name(&attr.path);
    if !str_eq(name.as_str(), keyword) {
        return Ok(None);
    }
    match &attr.meta {
        Err(e) => Err(unable_error(e, expected, attr.span)),
        Ok(Meta::Path { span }) => Err(unsupported_error(keyword, "Path", expected, *span)),
        Ok(Meta::NameValue { span }) => Err(unsupported_error(keyword, "NameValue", expected, *span)),
        Ok(Meta::List { nested, span }) => {
            if nested.len() == 0 {
                let mut m = String::from_str("Unable to retrieve any Path from this #[");
                m.append(keyword);
                m.append("]");
                Err(ParseError { message: m, span: *span })
            } else {
                match nested_path(&nested[0], keyword, expected) {
                    Ok(p) => Ok(Some(p)),
                    Err(e) => Err(e),
                }
            }
        },
    }
}

/// The `#[Into]` attribute.
#[derive(Debug)]
pub struct IntoMetadata {}

impl IntoMetadata {
    /// Reads `attr` as `#[Into]`: `Ok(None)` for an attribute of another
    /// name, `Ok(Some(..))` for `#[Into]`, else the error its form causes.
    pub fn maybe_from(attr: &Attribute) -> (r: Result<Option<IntoMetadata>, ParseError>)
        ensures
            match r {
                Ok(Some(_)) => spec_into(*attr) == Ok::<bool, SpecError>(true),
                Ok(None) => spec_into(*attr) == Ok::<bool, SpecError>(false),
                Err(e) => spec_into(*attr) == Err::<bool, SpecError>(e@),
            },
    {
        let name = as_name(&attr.path);
        if !str_eq(name.as_str(), "Into") {
            return Ok(None);
        }
        match &attr.meta {
            Err(e) => Err(unable_error(e, "#[Into]", attr.span)),
            Ok(Meta::Path { .. }) => Ok(Some(IntoMetadata {  })),
            Ok(Meta::List { span, .. }) => Err(unsupported_error("Into", "List", "#[Into]", *span)),
            Ok(Meta::NameValue { span }) => Err(
                unsupported_error("From", "NameValue", "#[Into]", *span),
            ),
        }
    }
}

/// The `#[Transform(path)]` attribute: the field's value is passed to the
/// unary function or tuple constructor at `path`.
#[derive(Debug)]
pub struct TransformMetadata {
    pub path_detection: PathDetection,
}

/// The `#[MacroTransform(path)]` attribute: the field's value is wrapped in a
/// call of the macro at `path`.
#[derive(Debug)]
pub struct MacroTransformMetadata {
    pub path_detection: PathDetection,
}

/// What `#[Transform(path)]` gives for an attribute.
pub open spec fn spec_transform(attr: Attribute) -> Result<Option<SpecPath>, SpecError> {
    spec_path_attribute(attr, "Transform"@, "#[Transform(path)]"@)
}

/// What `#[MacroTransform(path)]` gives for an attribute.
pub open spec fn spec_macro_transform(attr: Attribute) -> Result<Option<SpecPath>, SpecError> {
    spec_path_attribute(attr, "MacroTransform"@, "#[MacroTransform(path)]"@)
}

impl TransformMetadata {
    /// Reads `attr` as `#[Transform(path)]`.
    pub fn maybe_from(attr: &Attribute) -> (r: Result<Option<TransformMetadata>, ParseError>)
        ensures
            match r {
                Ok(Some(t)) => spec_transform(*attr) == Ok::<Option<SpecPath>, SpecError>(
                    Some(t.path_detection@),
                ),
                Ok(None) => spec_transform(*attr) == Ok::<Option<SpecPath>, SpecError>(None),
                Err(e) => spec_transform(*attr) == Err::<Option<SpecPath>, SpecError>(e@),
            },
    {
        match maybe_path_attribute(attr, "Transform", "#[Transform(path)]") {
            Ok(Some(p)) => Ok(Some(TransformMetadata { path_detection: p })),
            Ok(None) => Ok(None),
            Err(e) => Err(e),
        }
    }

    /// The path to call, once syn has accepted it as a path.
    pub fn transformation_path(&self) -> (r: Result<String, ParseError>)
        ensures
            exists|answer: Result<(), Seq<char>>|
                result_text(r) == #[trigger] spec_path_from_answer(self.path_detection@, answer),
            is_plain_path(self.path_detection.stringified@) ==> (r matches Ok(t) && t@
                == self.path_detection.stringified@),
    {
        transformation_path_of(&self.path_detection)
    }
}

impl MacroTransformMetadata {
    /// Reads `attr` as `#[MacroTransform(path)]`.
    pub fn maybe_from(attr: &Attribute) -> (r: Result<Option<MacroTransformMetadata>, ParseError>)
        ensures
            match r {
                Ok(Some(t)) => spec_macro_transform(*attr) == Ok::<Option<SpecPath>, SpecError>(
                    Some(t.path_detection@),
                ),
                Ok(None) => spec_macro_transform(*attr) == Ok::<Option<SpecPath>, SpecError>(None),
                Err(e) => spec_macro_transform(*attr) == Err::<Option<SpecPath>, SpecError>(e@),
            },
    {
        match maybe_path_attribute(attr, "MacroTransform", "#[MacroTransform(path)]") {
            Ok(Some(p)) => Ok(Some(MacroTransformMetadata { path_detection: p })),
            Ok(None) => Ok(None),
            Err(e) => Err(e),
        }
    }

    /// The path of the macro to call, once syn has accepted it as a path.
    pub fn transformation_path(&self) -> (r: Result<String, ParseError>)
        ensures
            exists|answer: Result<(), Seq<char>>|
                result_text(r) == #[trigger] spec_path_from_answer(self.path_detection@, answer),
            is_plain_path(self.path_detection.stringified@) ==> (r matches Ok(t) && t@
                == self.path_detection.stringified@),
    {
        transformation_path_of(&self.path_detection)
    }
}

/// A text result by value.
pub open spec fn result_text(r: Result<String, ParseError>) -> Result<Seq<char>, SpecError> {
    match r {
        Ok(s) => Ok(s@),
        Err(e) => Err(e@),
    }
}

/// The path to call for a transformation, given syn's answer for its name:
/// the name when syn accepted it as a path, else the error syn gave, at the
/// path's span.
pub open spec fn spec_path_from_answer(p: SpecPath, answer: Result<(), Seq<char>>) -> Result<
    Seq<char>,
    SpecError,
> {
    match answer {
        Ok(()) => Ok(p.text),
        Err(e) => Err(SpecError { message: unparsable_message(e), span: p.span }),
    }
}

/// A syn answer, by value.
pub open spec fn answer_view(answer: Result<(), String>) -> Result<(), Seq<char>> {
    match answer {
        Ok(()) => Ok(()),
        Err(e) => Err(e@),
    }
}

/// The path to call for a transformation, given syn's answer for its name
/// (see `spec_path_from_answer`).
pub fn path_from_answer(p: &PathDetection, answer: Result<(), String>) -> (r: Result<
    String,
    ParseError,
>)
    ensures
        result_text(r) == spec_path_from_answer(p@, answer_view(answer)),
{
    match answer {
        Ok(()) => Ok(p.stringified.clone()),
        Err(e) => Err(
            ParseError { message: cat("Unable to parse type from this token: ", e.as_str()), span: p.span },
        ),
    }
}

fn transformation_path_of(p: &PathDetection) -> (r: Result<String, ParseError>)
    ensures
        exists|answer: Result<(), Seq<char>>| result_text(r) == #[trigger] spec_path_from_answer(p@, answer),
        is_plain_path(p.stringified@) ==> (r matches Ok(t) && t@ == p.stringified@),
{
    let answer = parse_path_text(p.stringified.as_str());
    let ghost a = answer_view(answer);
    let r = path_from_answer(p, answer);
    assert(result_text(r) == spec_path_from_answer(p@, a));
    r
}

} // verus!
