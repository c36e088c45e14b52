//! The transformations of a field: reading them from its attributes,
//! checking their order, and rendering the expression that converts the
//! field's value.

use crate::metadata::{
    result_text, spec_path_from_answer,
    IntoMetadata, MacroTransformMetadata, PathDetection, SpecPath, TransformMetadata, name_of,
    spec_into, spec_macro_transform, spec_transform, as_name,
};
use crate::outside::is_plain_path;
use crate::seqs::{errs, oks};
use crate::syntax::{Attribute, Field, ParseError, SpecError, errors_view};
use crate::text::{cat, ends_with, has_suffix, str_eq};
use proc_macro2::Span;
use vstd::prelude::*;

verus! {

/// What one attribute asks of a field.
#[derive(Debug)]
pub enum FieldTransformation {
    /// An attribute that is none of the library's.
    Nothing,
    /// `#[Into]`
    Into(IntoMetadata),
    /// `#[Transform(path)]`
    Transform(TransformMetadata),
    /// `#[MacroTransform(path)]`
    MacroTransform(MacroTransformMetadata),
}

/// The mathematical value of a `FieldTransformation`.
pub enum SpecTransformation {
    Nothing,
    Into,
    Transform(SpecPath),
    MacroTransform(SpecPath),
}

impl View for FieldTransformation {
    type V = SpecTransformation;

    open spec fn view(&self) -> SpecTransformation {
        match self {
            FieldTransformation::Nothing => SpecTransformation::Nothing,
            FieldTransformation::Into(_) => SpecTransformation::Into,
            FieldTransformation::Transform(t) => SpecTransformation::Transform(t.path_detection@),
            FieldTransformation::MacroTransform(t) => SpecTransformation::MacroTransform(
                t.path_detection@,
            ),
        }
    }
}

/// A sequence of transformations, by value.
pub open spec fn transformations_view(ts: Seq<FieldTransformation>) -> Seq<SpecTransformation> {
    ts.map_values(|t: FieldTransformation| t@)
}

/// One attribute's reading, by value.
pub open spec fn reading_view(r: Result<FieldTransformation, ParseError>) -> Result<
    SpecTransformation,
    SpecError,
> {
    match r {
        Ok(t) => Ok(t@),
        Err(e) => Err(e@),
    }
}

/// The readings of a sequence of attributes, by value.
pub open spec fn readings_view(rs: Seq<Result<FieldTransformation, ParseError>>) -> Seq<
    Result<SpecTransformation, SpecError>,
> {
    rs.map_values(|r: Result<FieldTransformation, ParseError>| reading_view(r))
}

/// What one attribute asks of a field: `#[Into]` is tried first, then
/// `#[Transform]`, then `#[MacroTransform]`; an attribute of another name is
/// `Nothing`.
pub open spec fn spec_classify(attr: Attribute) -> Result<SpecTransformation, SpecError> {
    match spec_into(attr) {
        Err(e) => Err(e),
        Ok(true) => Ok(SpecTransformation::Into),
        Ok(false) => match spec_transform(attr) {
            Err(e) => Err(e),
            Ok(Some(p)) => Ok(SpecTransformation::Transform(p)),
            Ok(None) => match spec_macro_transform(attr) {
                Err(e) => Err(e),
                Ok(Some(p)) => Ok(SpecTransformation::MacroTransform(p)),
                Ok(None) => Ok(SpecTransformation::Nothing),
            },
        },
    }
}

/// The readings of attributes, one per attribute, in order.
pub open spec fn spec_parse_transformations(attrs: Seq<Attribute>) -> Seq<
    Result<SpecTransformation, SpecError>,
> {
    attrs.map_values(|a: Attribute| spec_classify(a))
}

/// The transformations other than `Nothing`, in order.
pub open spec fn meaningful(ts: Seq<SpecTransformation>) -> Seq<SpecTransformation>
    decreases ts.len(),
{
    if ts.len() == 0 {
        Seq::empty()
    } else if ts.last() is Nothing {
        meaningful(ts.drop_last())
    } else {
        meaningful(ts.drop_last()).push(ts.last())
    }
}

/// How many of the transformations are `#[Into]`.
pub open spec fn into_count(ts: Seq<SpecTransformation>) -> nat
    decreases ts.len(),
{
    if ts.len() == 0 {
        0
    } else if ts.last() is Into {
        into_count(ts.drop_last()) + 1
    } else {
        into_count(ts.drop_last())
    }
}

/// A field's transformations are refused when `#[Into]` occurs more than
/// once, or occurs but not first.
pub open spec fn spec_invalid(ts: Seq<SpecTransformation>) -> bool {
    ||| (ts.len() > 0 && !(ts[0] is Into) && into_count(ts) > 0)
    ||| into_count(ts) > 1
}

/// The message for a field whose `#[Into]` is repeated or not first.
pub open spec fn order_message() -> Seq<char> {
    "Field can be decorated at most one #[Into] and it must be the first one"@
}

/// The transformations of a field from the readings of its attributes: all
/// reading errors when there are any; else the order error at the field's
/// span when `spec_invalid` holds; else the transformations other than
/// `Nothing`.
pub open spec fn spec_validate(
    rs: Seq<Result<SpecTransformation, SpecError>>,
    span: Span,
) -> Result<Seq<SpecTransformation>, Seq<SpecError>> {
    let es = errs(rs);
    let ts = meaningful(oks(rs));
    if es.len() > 0 {
        Err(es)
    } else if spec_invalid(ts) {
        Err(seq![SpecError { message: order_message(), span }])
    } else {
        Ok(ts)
    }
}

/// The transformations of a list of readings, by value.
pub open spec fn validated_view(r: Result<Vec<FieldTransformation>, Vec<ParseError>>) -> Result<
    Seq<SpecTransformation>,
    Seq<SpecError>,
> {
    match r {
        Ok(ts) => Ok(transformations_view(ts@)),
        Err(es) => Err(errors_view(es@)),
    }
}

impl PathDetection {
    /// A copy of this path.
    pub fn duplicate(&self) -> (r: PathDetection)
        ensures
            r@ == self@,
    {
        PathDetection { stringified: self.stringified.clone(), span: self.span }
    }
}

impl ParseError {
    /// A copy of this error.
    pub fn duplicate(&self) -> (r: ParseError)
        ensures
            r@ == self@,
    {
        ParseError { message: self.message.clone(), span: self.span }
    }
}

impl FieldTransformation {
    /// A copy of this transformation.
    pub fn duplicate(&self) -> (r: FieldTransformation)
        ensures
            r@ == self@,
    {
        match self {
            FieldTransformation::Nothing => FieldTransformation::Nothing,
            FieldTransformation::Into(_) => FieldTransformation::Into(IntoMetadata {  }),
            FieldTransformation::Transform(t) => FieldTransformation::Transform(
                TransformMetadata { path_detection: t.path_detection.duplicate() },
            ),
            FieldTransformation::MacroTransform(t) => FieldTransformation::MacroTransform(
                MacroTransformMetadata { path_detection: t.path_detection.duplicate() },
            ),
        }
    }
}

/// Reads what one attribute asks of a field.
pub fn classify(attr: &Attribute) -> (r: Result<FieldTransformation, ParseError>)
    ensures
        reading_view(r) == spec_classify(*attr),
{
    match IntoMetadata::maybe_from(attr) {
        Err(e) => return Err(e),
        Ok(Some(i)) => return Ok(FieldTransformation::Into(i)),
        Ok(None) => {},
    }
    match TransformMetadata::maybe_from(attr) {
        Err(e) => return Err(e),
        Ok(Some(t)) => return Ok(FieldTransformation::Transform(t)),
        Ok(None) => {},
    }
    match MacroTransformMetadata::maybe_from(attr) {
        Err(e) => Err(e),
        Ok(Some(t)) => Ok(FieldTransformation::MacroTransform(t)),
        Ok(None) => Ok(FieldTransformation::Nothing),
    }
}

/// Reads what each attribute asks, one reading per attribute, in order.
pub fn parse_transformations(attrs: &Vec<Attribute>) -> (r: Vec<
    Result<FieldTransformation, ParseError>,
>)
    ensures
        readings_view(r@) == spec_parse_transformations(attrs@),
{
    let mut r: Vec<Result<FieldTransformation, ParseError>> = Vec::new();
    let n = attrs.len();
    let mut i: usize = 0;
    while i < n
        invariant
            n == attrs@.len(),
            i <= n,
            readings_view(r@) == spec_parse_transformations(attrs@.take(i as int)),
        decreases n - i,
    {
        let c = classify(&attrs[i]);
        let ghost prev = r@;
        let ghost cv = reading_view(c);
        r.push(c);
        proof {
            assert(readings_view(r@) =~= readings_view(prev).push(cv));
            assert(attrs@.take(i + 1) =~= attrs@.take(i as int).push(attrs@[i as int]));
            assert(spec_parse_transformations(attrs@.take(i + 1)) =~= spec_parse_transformations(
                attrs@.take(i as int),
            ).push(spec_classify(attrs@[i as int])));
        }
        i = i + 1;
    }
    assert(attrs@.take(n as int) =~= attrs@);
    r
}

/// Whether the transformations break the order rule of `#[Into]`.
pub fn are_results_invalid(results: &Vec<FieldTransformation>) -> (r: bool)
    ensures
        r == spec_invalid(transformations_view(results@)),
{
    let ghost ts = transformations_view(results@);
    let n = results.len();
    let mut count: usize = 0;
    let mut i: usize = 0;
    while i < n
        invariant
            n == results@.len(),
            ts == transformations_view(results@),
            i <= n,
            count == into_count(ts.take(i as int)),
            count <= i,
        decreases n - i,
    {
        proof {
            assert(ts.take(i + 1).drop_last() =~= ts.take(i as int));
        }
        match &results[i] {
            FieldTransformation::Into(_) => {
                count = count + 1;
            },
            _ => {},
        }
        i = i + 1;
    }
    assert(ts.take(n as int) =~= ts);
    let first_is_not_into = if n > 0 {
        match &results[0] {
            FieldTransformation::Into(_) => false,
            _ => true,
        }
    } else {
        false
    };
    (first_is_not_into && count > 0) || count > 1
}

/// The transformations other than `Nothing` among the readings, and the
/// reading errors, each in order.
pub fn partition_readings(results: &Vec<Result<FieldTransformation, ParseError>>) -> (r: (
    Vec<FieldTransformation>,
    Vec<ParseError>,
))
    ensures
        transformations_view(r.0@) == meaningful(oks(readings_view(results@))),
        errors_view(r.1@) == errs(readings_view(results@)),
{
    let ghost rs = readings_view(results@);
    let mut ts: Vec<FieldTransformation> = Vec::new();
    let mut es: Vec<ParseError> = Vec::new();
    let n = results.len();
    let mut i: usize = 0;
    while i < n
        invariant
            n == results@.len(),
            rs == readings_view(results@),
            i <= n,
            transformations_view(ts@) == meaningful(oks(rs.take(i as int))),
            errors_view(es@) == errs(rs.take(i as int)),
        decreases n - i,
    {
        proof {
            assert(rs.take(i + 1).drop_last() =~= rs.take(i as int));
            assert(rs.take(i + 1).last() == rs[i as int]);
        }
        match &results[i] {
            Ok(t) => {
                let ghost before = oks(rs.take(i as int));
                proof {
                    assert(oks(rs.take(i + 1)) == before.push(t@));
                    assert(before.push(t@).drop_last() =~= before);
                }
                match t {
                    FieldTransformation::Nothing => {},
                    _ => {
                        ts.push(t.duplicate());
                    },
                }
                proof {
                    assert(transformations_view(ts@) =~= meaningful(oks(rs.take(i + 1))));
                }
            },
            Err(e) => {
                es.push(e.duplicate());
                proof {
                    assert(errors_view(es@) =~= errs(rs.take(i + 1)));
                }
            },
        }
        i = i + 1;
    }
    assert(rs.take(n as int) =~= rs);
    (ts, es)
}

/// Checks the readings of a field's attributes (see `spec_validate`).
pub fn validate_transformations(
    results: &Vec<Result<FieldTransformation, ParseError>>,
    span: Span,
) -> (r: Result<Vec<FieldTransformation>, Vec<ParseError>>)
    ensures
        validated_view(r) == spec_validate(readings_view(results@), span),
{
    let (ts, es) = partition_readings(results);
    if es.len() > 0 {
        Err(es)
    } else if are_results_invalid(&ts) {
        let e = ParseError {
            message: String::from_str(
                "Field can be decorated at most one #[Into] and it must be the first one",
            ),
            span,
        };
        let mut v: Vec<ParseError> = Vec::new();
        v.push(e);
        assert(errors_view(v@) =~= seq![SpecError { message: order_message(), span }]);
        Err(v)
    } else {
        Ok(ts)
    }
}

/// The transformations of a field, checked (see `spec_validate`).
pub fn compute_transformations(field: &Field) -> (r: Result<
    Vec<FieldTransformation>,
    Vec<ParseError>,
>)
    ensures
        validated_view(r) == spec_validate(spec_parse_transformations(field.attrs@), field.span),
{
    let readings = parse_transformations(&field.attrs);
    validate_transformations(&readings, field.span)
}

/// The last segment of the path named `type_path` is `bare`: the name is
/// `bare` itself or ends with `qualified`, which is `::` followed by `bare`
/// (segments are identifiers, so they hold no `::` of their own).
pub open spec fn last_segment_is(type_path: Seq<char>, bare: Seq<char>, qualified: Seq<char>) -> bool {
    type_path == bare || has_suffix(type_path, qualified)
}

/// The type named `type_path` is a `Vec` or a `HashSet`, by its last segment.
pub open spec fn is_collection(type_path: Seq<char>) -> bool {
    last_segment_is(type_path, "Vec"@, "::Vec"@) || last_segment_is(
        type_path,
        "HashSet"@,
        "::HashSet"@,
    )
}

/// The type named `type_path` is an `Option`, by its last segment.
pub open spec fn is_option(type_path: Seq<char>) -> bool {
    last_segment_is(type_path, "Option"@, "::Option"@)
}

/// The expression that applies one transformation to `tokens`, for a field
/// whose type has the name `type_path`: `#[Into]` converts the elements of a
/// `Vec` or `HashSet`, the content of an `Option`, or else the value itself
/// (the kind of type is told by the last segment of its path, so `MyVec` is
/// converted as a whole); `#[Transform(p)]` calls `p`; `#[MacroTransform(p)]`
/// calls the macro `p!`.
pub open spec fn spec_apply(
    tokens: Seq<char>,
    t: SpecTransformation,
    type_path: Seq<char>,
) -> Seq<char> {
    match t {
        SpecTransformation::Nothing => tokens,
        SpecTransformation::Into => if is_collection(type_path) {
            tokens + ".into_iter().map(Into::into).collect()"@
        } else if is_option(type_path) {
            tokens + ".map(Into::into)"@
        } else {
            tokens + ".into()"@
        },
        SpecTransformation::Transform(p) => p.text + "("@ + tokens + ")"@,
        SpecTransformation::MacroTransform(p) => p.text + "!("@ + tokens + ")"@,
    }
}

/// The transformations applied to `base` one after the other: the first
/// one innermost, the last one outermost.
pub open spec fn spec_compose(
    base: Seq<char>,
    ts: Seq<SpecTransformation>,
    type_path: Seq<char>,
) -> Seq<char>
    decreases ts.len(),
{
    if ts.len() == 0 {
        base
    } else {
        spec_apply(spec_compose(base, ts.drop_last(), type_path), ts.last(), type_path)
    }
}

/// The path of a `#[Transform]` or `#[MacroTransform]` is a plain path,
/// which syn accepts (see `is_plain_path`).
pub open spec fn path_plain(t: SpecTransformation) -> bool {
    match t {
        SpecTransformation::Transform(p) => is_plain_path(p.text),
        SpecTransformation::MacroTransform(p) => is_plain_path(p.text),
        _ => true,
    }
}

/// Every path among the transformations is a plain path, so that rendering
/// them goes through whatever else syn does.
pub open spec fn renderable(ts: Seq<SpecTransformation>) -> bool {
    forall|i: int| 0 <= i < ts.len() ==> path_plain(#[trigger] ts[i])
}

/// Whether the last segment of the path named `type_path` is `bare`
/// (see `last_segment_is`).
pub fn last_segment_eq(type_path: &str, bare: &str, qualified: &str) -> (r: bool)
    ensures
        r == last_segment_is(type_path@, bare@, qualified@),
{
    str_eq(type_path, bare) || ends_with(type_path, qualified)
}

/// Applies one transformation to `tokens` (see `spec_apply`). `None` when
/// syn refuses the path of a `#[Transform]` or `#[MacroTransform]`, where
/// unwrapping that path panics; that never happens to a plain path.
pub fn apply_transformation(tokens: String, t: &FieldTransformation, type_path: &str) -> (r:
    Option<String>)
    ensures
        r matches Some(s) ==> s@ == spec_apply(tokens@, t@, type_path@),
        path_plain(t@) ==> r is Some,
{
    match t {
        FieldTransformation::Nothing => Some(tokens),
        FieldTransformation::Into(_) => {
            let mut r = tokens;
            if last_segment_eq(type_path, "Vec", "::Vec") || last_segment_eq(
                type_path,
                "HashSet",
                "::HashSet",
            ) {
                r.append(".into_iter().map(Into::into).collect()");
            } else if last_segment_eq(type_path, "Option", "::Option") {
                r.append(".map(Into::into)");
            } else {
                r.append(".into()");
            }
            Some(r)
        },
        FieldTransformation::Transform(foo) => {
            match foo.transformation_path() {
                Ok(p) => {
                    let ghost a = choose|a: Result<(), Seq<char>>|
                        result_text(Ok::<String, ParseError>(p)) == #[trigger] spec_path_from_answer(
                            foo.path_detection@,
                            a,
                        );
                    let mut r = p;
                    r.append("(");
                    r.append(tokens.as_str());
                    r.append(")");
                    Some(r)
                },
                Err(_) => None,
            }
        },
        FieldTransformation::MacroTransform(foo) => {
            match foo.transformation_path() {
                Ok(p) => {
                    let ghost a = choose|a: Result<(), Seq<char>>|
                        result_text(Ok::<String, ParseError>(p)) == #[trigger] spec_path_from_answer(
                            foo.path_detection@,
                            a,
                        );
                    let mut r = p;
                    r.append("!(");
                    r.append(tokens.as_str());
                    r.append(")");
                    Some(r)
                },
                Err(_) => None,
            }
        },
    }
}

/// Applies the transformations to `base` in order (see `spec_compose`).
/// `None` when syn refuses one of their paths (see `apply_transformation`).
pub fn compose_transformations(
    base: String,
    transformations: &Vec<FieldTransformation>,
    type_path: &str,
) -> (r: Option<String>)
    ensures
        r matches Some(s) ==> s@ == spec_compose(
            base@,
            transformations_view(transformations@),
            type_path@,
        ),
        renderable(transformations_view(transformations@)) ==> r is Some,
{
    let ghost ts = transformations_view(transformations@);
    let n = transformations.len();
    let mut tokens = base;
    let mut i: usize = 0;
    while i < n
        invariant
            n == transformations@.len(),
            ts == transformations_view(transformations@),
            i <= n,
            tokens@ == spec_compose(base@, ts.take(i as int), type_path@),
        decreases n - i,
    {
        proof {
            assert(ts.take(i + 1).drop_last() =~= ts.take(i as int));
        }
        match apply_transformation(tokens, &transformations[i], type_path) {
            Some(t) => {
                tokens = t;
            },
            None => {
                assert(!path_plain(ts[i as int]));
                return None;
            },
        }
        i = i + 1;
    }
    assert(ts.take(n as int) =~= ts);
    Some(tokens)
}

/// An expression's rendering, by value.
pub open spec fn rendering_view(r: Result<String, Vec<ParseError>>) -> Result<
    Seq<char>,
    Seq<SpecError>,
> {
    match r {
        Ok(s) => Ok(s@),
        Err(es) => Err(errors_view(es@)),
    }
}

/// The message for a field whose type is not a path.
pub open spec fn no_type_message() -> Seq<char> {
    "Unable to extract type from this field"@
}

/// The message for a field without a name.
pub open spec fn no_ident_message() -> Seq<char> {
    "Cannot find Identifier of this token"@
}

/// The expression that converts a value written `base`, for a field whose
/// type is `ty_path` and whose attributes read as `rs`: an error when the
/// type is not a path, the errors of `spec_validate`, or the composition of
/// the field's transformations.
pub open spec fn spec_transform_expression(
    base: Seq<char>,
    ty_path: Option<Vec<String>>,
    rs: Seq<Result<SpecTransformation, SpecError>>,
    span: Span,
) -> Result<Seq<char>, Seq<SpecError>> {
    match ty_path {
        None => Err(seq![SpecError { message: no_type_message(), span }]),
        Some(segments) => match spec_validate(rs, span) {
            Err(es) => Err(es),
            Ok(ts) => Ok(spec_compose(base, ts, name_of(segments@))),
        },
    }
}

/// Every path that rendering the expression reaches is a plain path.
pub open spec fn transform_ready(
    ty_path: Option<Vec<String>>,
    rs: Seq<Result<SpecTransformation, SpecError>>,
    span: Span,
) -> bool {
    ty_path is Some ==> match spec_validate(rs, span) {
        Ok(ts) => renderable(ts),
        Err(_) => true,
    }
}

/// Renders the expression that converts a value written `base`
/// (see `spec_transform_expression`). `None` when syn refuses a path that
/// rendering reaches, where unwrapping it panics.
pub fn render_transform_expression(
    base: String,
    ty_path: &Option<Vec<String>>,
    readings: &Vec<Result<FieldTransformation, ParseError>>,
    span: Span,
) -> (r: Option<Result<String, Vec<ParseError>>>)
    ensures
        r matches Some(x) ==> rendering_view(x) == spec_transform_expression(
            base@,
            *ty_path,
            readings_view(readings@),
            span,
        ),
        transform_ready(*ty_path, readings_view(readings@), span) ==> r is Some,
{
    let type_path = match ty_path {
        Some(segments) => as_name(segments),
        None => {
            let mut v: Vec<ParseError> = Vec::new();
            v.push(
                ParseError {
                    message: String::from_str("Unable to extract type from this field"),
                    span,
                },
            );
            assert(errors_view(v@) =~= seq![SpecError { message: no_type_message(), span }]);
            return Some(Err(v));
        },
    };
    match validate_transformations(readings, span) {
        Err(es) => Some(Err(es)),
        Ok(ts) => match compose_transformations(base, &ts, type_path.as_str()) {
            Some(e) => Some(Ok(e)),
            None => None,
        },
    }
}

/// The field assignment that a struct's `From` implementation makes for one
/// field: `name: (expression)`, where the expression converts `other.name`;
/// an error when the field has no name, else the errors of
/// `spec_transform_expression`.
pub open spec fn spec_field_expression(field: Field) -> Result<Seq<char>, Seq<SpecError>> {
    match field.ident {
        None => Err(seq![SpecError { message: no_ident_message(), span: field.span }]),
        Some(name) => match spec_transform_expression(
            "other."@ + name@,
            field.ty_path,
            spec_parse_transformations(field.attrs@),
            field.span,
        ) {
            Err(es) => Err(es),
            Ok(e) => Ok(name@ + ": ("@ + e + ")"@),
        },
    }
}

/// Every path that rendering the field's assignment reaches is a plain path.
pub open spec fn field_ready(field: Field) -> bool {
    field.ident is Some ==> transform_ready(
        field.ty_path,
        spec_parse_transformations(field.attrs@),
        field.span,
    )
}

/// Renders the expression converting `other.name` for a struct's field
/// (see `spec_transform_expression`); `None` when syn refuses a path that
/// rendering reaches.
pub fn render_field_transform_expression(name: &String, field: &Field) -> (r: Option<
    Result<String, Vec<ParseError>>,
>)
    ensures
        r matches Some(x) ==> rendering_view(x) == spec_transform_expression(
            "other."@ + name@,
            field.ty_path,
            spec_parse_transformations(field.attrs@),
            field.span,
        ),
        transform_ready(field.ty_path, spec_parse_transformations(field.attrs@), field.span) ==> r is Some,
{
    let readings = parse_transformations(&field.attrs);
    render_transform_expression(cat("other.", name.as_str()), &field.ty_path, &readings, field.span)
}

/// Renders the assignment of a struct's field (see `spec_field_expression`);
/// `None` when syn refuses a path that rendering reaches.
pub fn render_field_expression(field: &Field) -> (r: Option<Result<String, Vec<ParseError>>>)
    ensures
        r matches Some(x) ==> rendering_view(x) == spec_field_expression(*field),
        field_ready(*field) ==> r is Some,
{
    match &field.ident {
        None => {
            let mut v: Vec<ParseError> = Vec::new();
            v.push(
                ParseError {
                    message: String::from_str("Cannot find Identifier of this token"),
                    span: field.span,
                },
            );
            assert(errors_view(v@) =~= seq![SpecError { message: no_ident_message(), span: field.span }]);
            Some(Err(v))
        },
        Some(name) => {
            match render_field_transform_expression(name, field) {
                None => None,
                Some(Err(es)) => Some(Err(es)),
                Some(Ok(e)) => {
                    let mut r = name.clone();
                    r.append(": (");
                    r.append(e.as_str());
                    r.append(")");
                    Some(Ok(r))
                },
            }
        },
    }
}

} // verus!
