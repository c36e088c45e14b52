//! The expansion of the derive: the `From` implementations for a struct or
//! an enum, and the errors that the attributes cause.

use crate::attributes::{
    FieldTransformation, SpecTransformation, compose_transformations, field_ready, into_count,
    meaningful, parse_transformations, partition_readings, readings_view, render_field_expression,
    render_transform_expression, renderable, rendering_view, spec_compose, spec_field_expression,
    spec_parse_transformations, spec_transform_expression, transform_ready, transformations_view,
};
use crate::from::{from_answers_fit, names_view, spec_types_to_convert, types_to_convert};
use crate::metadata::IntoMetadata;
use crate::seqs::{errs, flatten, oks};
use crate::syntax::{
    Data, DeriveInput, Expansion, Field, FieldsKind, ParseError, SpecError, SpecExpansion, Variant,
    errors_view, texts,
};
use crate::text::{cat, concat_all, decimal, decimal_text, join_terminated, terminated_by};
use vstd::prelude::*;

verus! {

/// The `From<ty>` implementation of a struct named `name`, whose body
/// assigns each field by its mapping.
pub open spec fn struct_block(ty: Seq<char>, name: Seq<char>, mappings: Seq<Seq<char>>) -> Seq<char> {
    "impl From<"@ + ty + "> for "@ + name + " { fn from(other: "@ + ty + ") -> Self { Self { "@
        + terminated_by(mappings, ", "@) + "} } }\n"@
}

/// One `From` implementation per type, in the order of the types.
pub open spec fn spec_struct_implementors(
    types: Seq<Seq<char>>,
    name: Seq<char>,
    mappings: Seq<Seq<char>>,
) -> Seq<char> {
    concat_all(types.map_values(|ty: Seq<char>| struct_block(ty, name, mappings)))
}

/// The field assignments of a struct, one result per field.
pub open spec fn field_results(fields: Seq<Field>) -> Seq<Result<Seq<char>, Seq<SpecError>>> {
    fields.map_values(|f: Field| spec_field_expression(f))
}

/// The expansion for a struct: when some field is in error, no code and the
/// errors of all such fields; else one `From` implementation per type.
pub open spec fn spec_handle_struct_case(
    types: Seq<Seq<char>>,
    name: Seq<char>,
    fields: Seq<Field>,
) -> SpecExpansion {
    let rs = field_results(fields);
    if errs(rs).len() > 0 {
        SpecExpansion { code: Seq::empty(), errors: flatten(errs(rs)) }
    } else {
        SpecExpansion { code: spec_struct_implementors(types, name, oks(rs)), errors: Seq::empty() }
    }
}

/// Renders one `From` implementation per type (see `spec_struct_implementors`).
pub fn render_struct_implementors(
    types: &Vec<String>,
    struct_name: &String,
    field_mappings: &Vec<String>,
) -> (r: String)
    ensures
        r@ == spec_struct_implementors(texts(types@), struct_name@, texts(field_mappings@)),
{
    let ghost tys = texts(types@);
    let ghost blocks = tys.map_values(
        |ty: Seq<char>| struct_block(ty, struct_name@, texts(field_mappings@)),
    );
    let body = join_terminated(field_mappings, ", ");
    let mut r = String::new();
    let n = types.len();
    let mut i: usize = 0;
    while i < n
        invariant
            n == types@.len(),
            tys == texts(types@),
            blocks == tys.map_values(
                |ty: Seq<char>| struct_block(ty, struct_name@, texts(field_mappings@)),
            ),
            body@ == terminated_by(texts(field_mappings@), ", "@),
            i <= n,
            r@ == concat_all(blocks.take(i as int)),
        decreases n - i,
    {
        proof {
            assert(blocks.take(i + 1).drop_last() =~= blocks.take(i as int));
        }
        let ty = types[i].as_str();
        r.append("impl From<");
        r.append(ty);
        r.append("> for ");
        r.append(struct_name.as_str());
        r.append(" { fn from(other: ");
        r.append(ty);
        r.append(") -> Self { Self { ");
        r.append(body.as_str());
        r.append("} } }\n");
        i = i + 1;
    }
    assert(blocks.take(n as int) =~= blocks);
    r
}

/// The expansion for a struct (see `spec_handle_struct_case`); `None` when
/// syn refuses a path that rendering reaches, where unwrapping it panics.
pub fn handle_struct_case(types: &Vec<String>, derive_name: &String, fields: &Vec<Field>) -> (r:
    Option<Expansion>)
    ensures
        r matches Some(e) ==> e@ == spec_handle_struct_case(texts(types@), derive_name@, fields@),
        (forall|i: int| 0 <= i < fields@.len() ==> field_ready(#[trigger] fields@[i])) ==> r is Some,
{
    let ghost rs = field_results(fields@);
    let mut mappings: Vec<String> = Vec::new();
    let mut errors: Vec<ParseError> = Vec::new();
    let mut failed = false;
    let n = fields.len();
    let mut i: usize = 0;
    while i < n
        invariant
            n == fields@.len(),
            rs == field_results(fields@),
            i <= n,
            texts(mappings@) == oks(rs.take(i as int)),
            errors_view(errors@) == flatten(errs(rs.take(i as int))),
            failed == (errs(rs.take(i as int)).len() > 0),
        decreases n - i,
    {
        proof {
            assert(rs.take(i + 1).drop_last() =~= rs.take(i as int));
            assert(rs.take(i + 1).last() == spec_field_expression(fields@[i as int]));
        }
        match render_field_expression(&fields[i]) {
            None => {
                assert(!field_ready(fields@[i as int]));
                return None;
            },
            Some(Ok(m)) => {
                let ghost prev = mappings@;
                mappings.push(m);
                proof {
                    assert(texts(mappings@) =~= texts(prev).push(m@));
                }
            },
            Some(Err(mut es)) => {
                let ghost before = errs(rs.take(i as int));
                let ghost prev = errors@;
                let ghost added = errors_view(es@);
                errors.append(&mut es);
                failed = true;
                proof {
                    assert(errors_view(errors@) =~= errors_view(prev) + added);
                    assert(before.push(added).drop_last() =~= before);
                }
            },
        }
        i = i + 1;
    }
    assert(rs.take(n as int) =~= rs);
    if failed {
        let r = Expansion { code: String::new(), errors };
        Some(r)
    } else {
        let code = render_struct_implementors(types, derive_name, &mappings);
        let r = Expansion { code, errors: Vec::new() };
        assert(errors_view(r.errors@) =~= Seq::<SpecError>::empty());
        Some(r)
    }
}

/// The name a variant's field is bound to in a match arm: its own name, or
/// `field_number_i` for the `i`-th field of a tuple variant.
pub open spec fn spec_field_ident(f: Field, i: int) -> Seq<char> {
    match f.ident {
        Some(n) => n@,
        None => "field_number_"@ + decimal_text(i as nat),
    }
}

/// The readings of a variant field's attributes; when the variant is marked
/// `#[Into]`, an `#[Into]` comes before them.
pub open spec fn spec_field_readings(f: Field, into: bool) -> Seq<
    Result<SpecTransformation, SpecError>,
> {
    if into {
        seq![Ok::<SpecTransformation, SpecError>(SpecTransformation::Into)]
            + spec_parse_transformations(f.attrs@)
    } else {
        spec_parse_transformations(f.attrs@)
    }
}

/// The expression for one field of a variant, converting the value bound to
/// the field's name; for a variant with named fields, written `name: (..)`.
pub open spec fn spec_variant_field(kind: FieldsKind, f: Field, i: int, into: bool) -> Result<
    Seq<char>,
    Seq<SpecError>,
> {
    let id = spec_field_ident(f, i);
    match spec_transform_expression(id, f.ty_path, spec_field_readings(f, into), f.span) {
        Err(es) => Err(es),
        Ok(e) => if kind == FieldsKind::Named {
            Ok(id + ": ("@ + e + ")"@)
        } else {
            Ok(e)
        },
    }
}

/// The expressions for the fields of a variant, one result per field.
pub open spec fn variant_field_results(v: Variant, into: bool) -> Seq<
    Result<Seq<char>, Seq<SpecError>>,
> {
    Seq::new(v.fields@.len(), |i: int| spec_variant_field(v.kind, v.fields@[i], i, into))
}

/// The names the fields of a variant are bound to.
pub open spec fn variant_idents(v: Variant) -> Seq<Seq<char>> {
    Seq::new(v.fields@.len(), |i: int| spec_field_ident(v.fields@[i], i))
}

/// The message for a variant that mixes `#[Into]` with other attributes.
pub open spec fn variant_message() -> Seq<char> {
    "Variant must have an #[Into] only, or a combination of multiple #[Transform] and #[MacroTransform], or without attributes"@
}

/// The arm for a variant whose own attributes transform the whole value: its
/// pattern matches every value of the variant, whatever its fields.
pub open spec fn whole_value_arm(path: Seq<char>, kind: FieldsKind, mapping: Seq<char>) -> Seq<char> {
    match kind {
        FieldsKind::Named => path + "{ .. } => ("@ + mapping + ")"@,
        FieldsKind::Unnamed => path + "(..) => ("@ + mapping + ")"@,
        FieldsKind::Unit => path + " => ("@ + mapping + ")"@,
    }
}

/// The arm for a variant converted field by field.
pub open spec fn field_wise_arm(
    path: Seq<char>,
    ident: Seq<char>,
    kind: FieldsKind,
    idents: Seq<Seq<char>>,
    exprs: Seq<Seq<char>>,
) -> Seq<char> {
    match kind {
        FieldsKind::Named => path + "{"@ + terminated_by(idents, ", "@) + "} => Self::"@ + ident + "{"@
            + terminated_by(exprs, ", "@) + "}"@,
        FieldsKind::Unnamed => path + "("@ + terminated_by(idents, ", "@) + ") => Self::"@ + ident
            + "("@ + terminated_by(exprs, ", "@) + ")"@,
        FieldsKind::Unit => path + " => Self::"@ + ident,
    }
}

/// The match arm for a variant, converting a value of the enum `ty`, with
/// the errors it reports (an arm in error is empty):
/// errors of the variant's attributes; the mixing error when `#[Into]` comes
/// with other attributes; the whole value transformed when the variant has
/// `#[Transform]` or `#[MacroTransform]` attributes; else each field
/// converted, with `#[Into]` added to every field of a variant marked so.
pub open spec fn spec_variant_arm(ty: Seq<char>, v: Variant) -> (Seq<char>, Seq<SpecError>) {
    let rs = spec_parse_transformations(v.attrs@);
    let ts = meaningful(oks(rs));
    let into = into_count(ts) > 0;
    let path = ty + "::"@ + v.ident@;
    if errs(rs).len() > 0 {
        (Seq::empty(), errs(rs))
    } else if into && ts.len() > 1 {
        (Seq::empty(), seq![SpecError { message: variant_message(), span: v.span }])
    } else if !into && ts.len() > 0 {
        (whole_value_arm(path, v.kind, spec_compose("other"@, ts, ty)), Seq::empty())
    } else if v.kind == FieldsKind::Unit {
        (field_wise_arm(path, v.ident@, v.kind, Seq::empty(), Seq::empty()), Seq::empty())
    } else {
        let frs = variant_field_results(v, into);
        if errs(frs).len() > 0 {
            (Seq::empty(), flatten(errs(frs)))
        } else {
            (field_wise_arm(path, v.ident@, v.kind, variant_idents(v), oks(frs)), Seq::empty())
        }
    }
}

/// Rendering the variant's arm reaches no path that syn refuses.
pub open spec fn variant_ready(v: Variant) -> bool {
    let rs = spec_parse_transformations(v.attrs@);
    let ts = meaningful(oks(rs));
    let into = into_count(ts) > 0;
    (errs(rs).len() == 0 && !(into && ts.len() > 1)) ==> if !into && ts.len() > 0 {
        renderable(ts)
    } else {
        v.kind != FieldsKind::Unit ==> forall|i: int|
            0 <= i < v.fields@.len() ==> transform_ready(
                (#[trigger] v.fields@[i]).ty_path,
                spec_field_readings(v.fields@[i], into),
                v.fields@[i].span,
            )
    }
}

/// The `From<ty>` implementation of an enum named `name`, matching on the
/// arms.
pub open spec fn enum_block(ty: Seq<char>, name: Seq<char>, arms: Seq<Seq<char>>) -> Seq<char> {
    "impl From<"@ + ty + "> for "@ + name + " { fn from(other: "@ + ty
        + ") -> Self { match other { "@ + terminated_by(arms, ", "@) + "} } }\n"@
}

/// The implementation for one type, with the errors of its arms.
pub open spec fn spec_enum_for_type(ty: Seq<char>, name: Seq<char>, variants: Seq<Variant>) -> (
    Seq<char>,
    Seq<SpecError>,
) {
    let arms = variants.map_values(|v: Variant| spec_variant_arm(ty, v));
    (
        enum_block(ty, name, arms.map_values(|a: (Seq<char>, Seq<SpecError>)| a.0)),
        flatten(arms.map_values(|a: (Seq<char>, Seq<SpecError>)| a.1)),
    )
}

/// The expansion for an enum: one implementation per type, and the errors
/// of the arms of each.
pub open spec fn spec_handle_enum_case(
    types: Seq<Seq<char>>,
    name: Seq<char>,
    variants: Seq<Variant>,
) -> SpecExpansion {
    let per = types.map_values(|ty: Seq<char>| spec_enum_for_type(ty, name, variants));
    SpecExpansion {
        code: concat_all(per.map_values(|p: (Seq<char>, Seq<SpecError>)| p.0)),
        errors: flatten(per.map_values(|p: (Seq<char>, Seq<SpecError>)| p.1)),
    }
}

fn field_ident(f: &Field, i: usize) -> (r: String)
    ensures
        r@ == spec_field_ident(*f, i as int),
{
    match &f.ident {
        Some(n) => n.clone(),
        None => {
            let d = decimal(i);
            cat("field_number_", d.as_str())
        },
    }
}

fn field_readings(f: &Field, into: bool) -> (r: Vec<Result<FieldTransformation, ParseError>>)
    ensures
        readings_view(r@) == spec_field_readings(*f, into),
{
    let mut rest = parse_transformations(&f.attrs);
    if into {
        let mut r: Vec<Result<FieldTransformation, ParseError>> = Vec::new();
        r.push(Ok(FieldTransformation::Into(IntoMetadata {  })));
        let ghost first = r@;
        let ghost tail = rest@;
        r.append(&mut rest);
        proof {
            assert(readings_view(r@) =~= readings_view(first) + readings_view(tail));
            assert(readings_view(first) =~= seq![
                Ok::<SpecTransformation, SpecError>(SpecTransformation::Into),
            ]);
        }
        r
    } else {
        rest
    }
}

fn render_variant_field(kind: FieldsKind, f: &Field, i: usize, into: bool) -> (r: Option<
    Result<String, Vec<ParseError>>,
>)
    ensures
        r matches Some(x) ==> rendering_view(x) == spec_variant_field(kind, *f, i as int, into),
        transform_ready(f.ty_path, spec_field_readings(*f, into), f.span) ==> r is Some,
{
    let id = field_ident(f, i);
    let readings = field_readings(f, into);
    match render_transform_expression(id.clone(), &f.ty_path, &readings, f.span) {
        None => None,
        Some(Err(es)) => Some(Err(es)),
        Some(Ok(e)) => {
            if kind == FieldsKind::Named {
                let mut r = id;
                r.append(": (");
                r.append(e.as_str());
                r.append(")");
                Some(Ok(r))
            } else {
                Some(Ok(e))
            }
        },
    }
}

fn has_into(ts: &Vec<FieldTransformation>) -> (r: bool)
    ensures
        r == (into_count(transformations_view(ts@)) > 0),
{
    let ghost tv = transformations_view(ts@);
    let n = ts.len();
    let mut found = false;
    let mut i: usize = 0;
    while i < n
        invariant
            n == ts@.len(),
            tv == transformations_view(ts@),
            i <= n,
            found == (into_count(tv.take(i as int)) > 0),
        decreases n - i,
    {
        proof {
            assert(tv.take(i + 1).drop_last() =~= tv.take(i as int));
        }
        match &ts[i] {
            FieldTransformation::Into(_) => {
                found = true;
            },
            _ => {},
        }
        i = i + 1;
    }
    assert(tv.take(n as int) =~= tv);
    found
}

/// Renders the match arm of a variant (see `spec_variant_arm`); `None`
/// when syn refuses a path that rendering reaches.
pub fn variant_arm(ty: &String, v: &Variant) -> (r: Option<(String, Vec<ParseError>)>)
    ensures
        r matches Some(x) ==> (x.0@, errors_view(x.1@)) == spec_variant_arm(ty@, *v),
        variant_ready(*v) ==> r is Some,
{
    let readings = parse_transformations(&v.attrs);
    let (ts, es) = partition_readings(&readings);
    if es.len() > 0 {
        return Some((String::new(), es));
    }
    let into = has_into(&ts);
    if into && ts.len() > 1 {
        let mut errors: Vec<ParseError> = Vec::new();
        errors.push(
            ParseError {
                message: String::from_str(
                    "Variant must have an #[Into] only, or a combination of multiple #[Transform] and #[MacroTransform], or without attributes",
                ),
                span: v.span,
            },
        );
        assert(errors_view(errors@) =~= seq![SpecError { message: variant_message(), span: v.span }]);
        return Some((String::new(), errors));
    }
    let mut path = ty.clone();
    path.append("::");
    path.append(v.ident.as_str());
    let no_errors: Vec<ParseError> = Vec::new();
    assert(errors_view(no_errors@) =~= Seq::<SpecError>::empty());
    if !into && ts.len() > 0 {
        let mapping = match compose_transformations(String::from_str("other"), &ts, ty.as_str()) {
            Some(m) => m,
            None => {
                return None;
            },
        };
        let mut arm = path;
        match v.kind {
            FieldsKind::Named => arm.append("{ .. } => ("),
            FieldsKind::Unnamed => arm.append("(..) => ("),
            FieldsKind::Unit => arm.append(" => ("),
        }
        arm.append(mapping.as_str());
        arm.append(")");
        return Some((arm, no_errors));
    }
    if v.kind == FieldsKind::Unit {
        let mut arm = path;
        arm.append(" => Self::");
        arm.append(v.ident.as_str());
        return Some((arm, no_errors));
    }
    let ghost frs = variant_field_results(*v, into);
    let ghost ids = variant_idents(*v);
    let mut idents: Vec<String> = Vec::new();
    let mut exprs: Vec<String> = Vec::new();
    let mut errors: Vec<ParseError> = Vec::new();
    let mut failed = false;
    let n = v.fields.len();
    let mut i: usize = 0;
    while i < n
        invariant
            n == v.fields@.len(),
            frs == variant_field_results(*v, into),
            ids == variant_idents(*v),
            v.kind != FieldsKind::Unit,
            errs(spec_parse_transformations(v.attrs@)).len() == 0,
            !(into && meaningful(oks(spec_parse_transformations(v.attrs@))).len() > 1),
            !(!into && meaningful(oks(spec_parse_transformations(v.attrs@))).len() > 0),
            into == (into_count(meaningful(oks(spec_parse_transformations(v.attrs@)))) > 0),
            i <= n,
            texts(idents@) == ids.take(i as int),
            texts(exprs@) == oks(frs.take(i as int)),
            errors_view(errors@) == flatten(errs(frs.take(i as int))),
            failed == (errs(frs.take(i as int)).len() > 0),
        decreases n - i,
    {
        proof {
            assert(frs.take(i + 1).drop_last() =~= frs.take(i as int));
            assert(frs.take(i + 1).last() == spec_variant_field(v.kind, v.fields@[i as int], i as int, into));
            assert(ids.take(i + 1) =~= ids.take(i as int).push(ids[i as int]));
        }
        let id = field_ident(&v.fields[i], i);
        let ghost prev_ids = idents@;
        idents.push(id);
        proof {
            assert(texts(idents@) =~= texts(prev_ids).push(ids[i as int]));
        }
        match render_variant_field(v.kind, &v.fields[i], i, into) {
            None => {
                assert(!transform_ready(
                    v.fields@[i as int].ty_path,
                    spec_field_readings(v.fields@[i as int], into),
                    v.fields@[i as int].span,
                ));
                return None;
            },
            Some(Ok(e)) => {
                let ghost prev = exprs@;
                exprs.push(e);
                proof {
                    assert(texts(exprs@) =~= texts(prev).push(e@));
                }
            },
            Some(Err(mut es)) => {
                let ghost before = errs(frs.take(i as int));
                let ghost prev = errors@;
                let ghost added = errors_view(es@);
                errors.append(&mut es);
                failed = true;
                proof {
                    assert(errors_view(errors@) =~= errors_view(prev) + added);
                    assert(before.push(added).drop_last() =~= before);
                }
            },
        }
        i = i + 1;
    }
    assert(frs.take(n as int) =~= frs);
    assert(ids.take(n as int) =~= ids);
    if failed {
        return Some((String::new(), errors));
    }
    let id_list = join_terminated(&idents, ", ");
    let expr_list = join_terminated(&exprs, ", ");
    let mut arm = path;
    if v.kind == FieldsKind::Named {
        arm.append("{");
        arm.append(id_list.as_str());
        arm.append("} => Self::");
        arm.append(v.ident.as_str());
        arm.append("{");
        arm.append(expr_list.as_str());
        arm.append("}");
    } else {
        arm.append("(");
        arm.append(id_list.as_str());
        arm.append(") => Self::");
        arm.append(v.ident.as_str());
        arm.append("(");
        arm.append(expr_list.as_str());
        arm.append(")");
    }
    Some((arm, no_errors))
}

/// Renders the implementation for one type (see `spec_enum_for_type`);
/// `None` when syn refuses a path that rendering reaches.
pub fn enum_for_type(ty: &String, derive_name: &String, variants: &Vec<Variant>) -> (r: Option<
    (String, Vec<ParseError>),
>)
    ensures
        r matches Some(x) ==> (x.0@, errors_view(x.1@)) == spec_enum_for_type(
            ty@,
            derive_name@,
            variants@,
        ),
        (forall|i: int| 0 <= i < variants@.len() ==> variant_ready(#[trigger] variants@[i])) ==> r is Some,
{
    let ghost arms = variants@.map_values(|v: Variant| spec_variant_arm(ty@, v));
    let ghost arm_texts = arms.map_values(|a: (Seq<char>, Seq<SpecError>)| a.0);
    let ghost arm_errors = arms.map_values(|a: (Seq<char>, Seq<SpecError>)| a.1);
    let mut texts_v: Vec<String> = Vec::new();
    let mut errors: Vec<ParseError> = Vec::new();
    let n = variants.len();
    let mut i: usize = 0;
    while i < n
        invariant
            n == variants@.len(),
            arms == variants@.map_values(|v: Variant| spec_variant_arm(ty@, v)),
            arm_texts == arms.map_values(|a: (Seq<char>, Seq<SpecError>)| a.0),
            arm_errors == arms.map_values(|a: (Seq<char>, Seq<SpecError>)| a.1),
            i <= n,
            texts(texts_v@) == arm_texts.take(i as int),
            errors_view(errors@) == flatten(arm_errors.take(i as int)),
        decreases n - i,
    {
        proof {
            assert(arm_errors.take(i + 1).drop_last() =~= arm_errors.take(i as int));
            assert(arm_texts.take(i + 1) =~= arm_texts.take(i as int).push(arm_texts[i as int]));
        }
        let (arm, mut es) = match variant_arm(ty, &variants[i]) {
            Some(x) => x,
            None => {
                assert(!variant_ready(variants@[i as int]));
                return None;
            },
        };
        let ghost prev_t = texts_v@;
        texts_v.push(arm);
        let ghost prev = errors@;
        let ghost added = errors_view(es@);
        errors.append(&mut es);
        proof {
            assert(texts(texts_v@) =~= texts(prev_t).push(arm@));
            assert(errors_view(errors@) =~= errors_view(prev) + added);
        }
        i = i + 1;
    }
    assert(arm_texts.take(n as int) =~= arm_texts);
    assert(arm_errors.take(n as int) =~= arm_errors);
    let body = join_terminated(&texts_v, ", ");
    let mut r = String::from_str("impl From<");
    r.append(ty.as_str());
    r.append("> for ");
    r.append(derive_name.as_str());
    r.append(" { fn from(other: ");
    r.append(ty.as_str());
    r.append(") -> Self { match other { ");
    r.append(body.as_str());
    r.append("} } }\n");
    Some((r, errors))
}

/// The expansion for an enum (see `spec_handle_enum_case`); `None` when
/// syn refuses a path that rendering reaches.
pub fn handle_enum_case(types: &Vec<String>, derive_name: &String, variants: &Vec<Variant>) -> (r:
    Option<Expansion>)
    ensures
        r matches Some(e) ==> e@ == spec_handle_enum_case(texts(types@), derive_name@, variants@),
        (types@.len() > 0 ==> forall|i: int|
            0 <= i < variants@.len() ==> variant_ready(#[trigger] variants@[i])) ==> r is Some,
{
    let ghost tys = texts(types@);
    let ghost per = tys.map_values(|ty: Seq<char>| spec_enum_for_type(ty, derive_name@, variants@));
    let ghost codes = per.map_values(|p: (Seq<char>, Seq<SpecError>)| p.0);
    let ghost errs_per = per.map_values(|p: (Seq<char>, Seq<SpecError>)| p.1);
    let mut code = String::new();
    let mut errors: Vec<ParseError> = Vec::new();
    let n = types.len();
    let mut i: usize = 0;
    while i < n
        invariant
            n == types@.len(),
            tys == texts(types@),
            per == tys.map_values(|ty: Seq<char>| spec_enum_for_type(ty, derive_name@, variants@)),
            codes == per.map_values(|p: (Seq<char>, Seq<SpecError>)| p.0),
            errs_per == per.map_values(|p: (Seq<char>, Seq<SpecError>)| p.1),
            i <= n,
            code@ == concat_all(codes.take(i as int)),
            errors_view(errors@) == flatten(errs_per.take(i as int)),
        decreases n - i,
    {
        proof {
            assert(codes.take(i + 1).drop_last() =~= codes.take(i as int));
            assert(errs_per.take(i + 1).drop_last() =~= errs_per.take(i as int));
        }
        let (block, mut es) = match enum_for_type(&types[i], derive_name, variants) {
            Some(x) => x,
            None => {
                return None;
            },
        };
        code.append(block.as_str());
        let ghost prev = errors@;
        let ghost added = errors_view(es@);
        errors.append(&mut es);
        proof {
            assert(errors_view(errors@) =~= errors_view(prev) + added);
        }
        i = i + 1;
    }
    assert(codes.take(n as int) =~= codes);
    assert(errs_per.take(n as int) =~= errs_per);
    Some(Expansion { code, errors })
}

/// The expansion of the derive for a data structure, given syn's answers
/// for the types of its `#[From]` attributes: the errors of those
/// attributes or of the types syn refused, else the expansion for a struct
/// or for an enum over the types.
pub open spec fn spec_expand(input: DeriveInput, answers: Seq<Result<(), Seq<char>>>) -> SpecExpansion {
    match spec_types_to_convert(input.attrs@, answers) {
        Err(es) => SpecExpansion { code: Seq::empty(), errors: es },
        Ok(tys) => match input.data {
            Data::Struct { fields } => spec_handle_struct_case(tys, input.ident@, fields@),
            Data::Enum { variants } => spec_handle_enum_case(tys, input.ident@, variants@),
        },
    }
}

/// Every `#[Transform]` or `#[MacroTransform]` path that the expansion
/// renders is a plain path, so that syn accepts it and the expansion goes
/// through.
pub open spec fn expansion_ready(input: DeriveInput, answers: Seq<Result<(), Seq<char>>>) -> bool {
    match spec_types_to_convert(input.attrs@, answers) {
        Err(_) => true,
        Ok(tys) => match input.data {
            Data::Struct { fields } => forall|i: int|
                0 <= i < fields@.len() ==> field_ready(#[trigger] fields@[i]),
            Data::Enum { variants } => tys.len() > 0 ==> forall|i: int|
                0 <= i < variants@.len() ==> variant_ready(#[trigger] variants@[i]),
        },
    }
}

/// The derive `TrivializationReady` on a data structure, for the answers
/// syn gave on the types of its `#[From]` attributes (which accept every
/// plain type name): `None` where syn refuses a path that the expansion
/// renders (unwrapping it panics), which never happens when every such path
/// is plain; else the generated code and the errors to report
/// (see `spec_expand`).
pub fn derive_trivialization_ready(input: &DeriveInput) -> (r: Option<Expansion>)
    ensures
        exists|answers: Seq<Result<(), Seq<char>>>|
            {
                &&& #[trigger] from_answers_fit(input.attrs@, answers)
                &&& r matches Some(e) ==> e@ == spec_expand(*input, answers)
                &&& expansion_ready(*input, answers) ==> r is Some
            },
{
    let types_result = types_to_convert(&input.attrs);
    let ghost answers = choose|answers: Seq<Result<(), Seq<char>>>|
        #[trigger] from_answers_fit(input.attrs@, answers) && names_view(types_result)
            == spec_types_to_convert(input.attrs@, answers);
    assert(from_answers_fit(input.attrs@, answers));
    let types = match types_result {
        Ok(types) => types,
        Err(errors) => {
            let r = Some(Expansion { code: String::new(), errors });
            assert(r matches Some(e) && e@ == spec_expand(*input, answers));
            return r;
        },
    };
    let r = match &input.data {
        Data::Struct { fields } => handle_struct_case(&types, &input.ident, fields),
        Data::Enum { variants } => handle_enum_case(&types, &input.ident, variants),
    };
    assert(r matches Some(e) ==> e@ == spec_expand(*input, answers));
    assert(expansion_ready(*input, answers) ==> r is Some);
    r
}

} // verus!
