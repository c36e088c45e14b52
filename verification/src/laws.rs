//! Properties of the expansion as a whole, proved from the definitions that
//! the functions' contracts use.

use crate::attributes::{
    SpecTransformation, into_count, meaningful, spec_apply, spec_compose, spec_invalid,
    spec_parse_transformations, spec_transform_expression, spec_validate, order_message,
    spec_classify, path_plain,
};
use crate::derive::{
    spec_field_ident, spec_field_readings, spec_variant_arm, spec_variant_field, whole_value_arm,
};
use crate::from::{
    distinct_names, has_name, lemma_merged_distinct, lemma_merged_names, merged_all,
    spec_from_attribute, spec_type_check, spec_types, spec_types_to_convert, type_checks,
};
use crate::metadata::{SpecPath, name_of};
use crate::outside::{is_path_segment, is_plain_identifier, is_plain_path, is_plain_type};
use crate::text::{decimal_text, digit_text, has_suffix, join_with};
use crate::seqs::{errs, lemma_no_errs_all_ok, oks};
use crate::syntax::{Attribute, Field, FieldsKind, Meta, NestedMeta, SpecError, Variant};
use proc_macro2::Span;
use vstd::prelude::*;

verus! {

/// Transformations compose in the order they are written: applying a
/// sequence `first + second` to a value is applying `second` to the result
/// of applying `first`. So `#[Transform(a)] #[Transform(b)]
/// #[Transform(c)]` renders `c(b(a(value)))`: the first written is the
/// innermost.
pub proof fn lemma_compose_in_order(
    base: Seq<char>,
    first: Seq<SpecTransformation>,
    second: Seq<SpecTransformation>,
    type_path: Seq<char>,
)
    ensures
        spec_compose(base, first + second, type_path) == spec_compose(
            spec_compose(base, first, type_path),
            second,
            type_path,
        ),
    decreases second.len(),
{
    if second.len() == 0 {
        assert(first + second =~= first);
    } else {
        lemma_compose_in_order(base, first, second.drop_last(), type_path);
        assert((first + second).drop_last() =~= first + second.drop_last());
    }
}

/// A transformation written last is applied last, around all the others.
pub proof fn lemma_compose_last_outermost(
    base: Seq<char>,
    ts: Seq<SpecTransformation>,
    t: SpecTransformation,
    type_path: Seq<char>,
)
    ensures
        spec_compose(base, ts.push(t), type_path) == spec_apply(
            spec_compose(base, ts, type_path),
            t,
            type_path,
        ),
{
    assert(ts.push(t).drop_last() =~= ts);
}

/// The `#[Into]` rule: a field's transformations are accepted only when
/// `#[Into]` occurs at most once and, when it occurs, first. Readings
/// without errors that keep this rule are accepted as they are.
pub proof fn lemma_into_unique_and_first(rs: Seq<Result<SpecTransformation, SpecError>>, span: Span)
    ensures
        spec_validate(rs, span) matches Ok(ts) ==> into_count(ts) <= 1 && (into_count(ts) == 1
            ==> ts[0] is Into),
        errs(rs).len() == 0 && !spec_invalid(meaningful(oks(rs))) ==> spec_validate(rs, span)
            == Ok::<Seq<SpecTransformation>, Seq<SpecError>>(meaningful(oks(rs))),
        errs(rs).len() == 0 && spec_invalid(meaningful(oks(rs))) ==> spec_validate(rs, span)
            == Err::<Seq<SpecTransformation>, Seq<SpecError>>(
            seq![SpecError { message: order_message(), span }],
        ),
{
}


/// The names of the paths, in order.
pub open spec fn path_texts(ps: Seq<SpecPath>) -> Seq<Seq<char>> {
    ps.map_values(|p: SpecPath| p.text)
}

proof fn lemma_types_are_names(ps: Seq<SpecPath>, answers: Seq<Result<(), Seq<char>>>)
    ensures
        spec_types(ps, answers) matches Ok(tys) ==> tys == path_texts(ps),
{
    let rs = type_checks(ps, answers);
    lemma_no_errs_all_ok(rs);
    if errs(rs).len() == 0 {
        assert forall|k: int| 0 <= k < ps.len() implies oks(rs)[k] == path_texts(ps)[k] by {
            assert(rs[k] == spec_type_check(ps[k], answers[k]));
        }
        assert(oks(rs) =~= path_texts(ps));
    }
}

proof fn lemma_merged_all_distinct(ms: Seq<Option<Seq<SpecPath>>>)
    ensures
        distinct_names(merged_all(ms)),
    decreases ms.len(),
{
    if ms.len() > 0 {
        lemma_merged_all_distinct(ms.drop_last());
        match ms.last() {
            Some(m) => lemma_merged_distinct(merged_all(ms.drop_last()), m),
            None => {},
        }
    }
}

proof fn lemma_merged_all_complete(ms: Seq<Option<Seq<SpecPath>>>, k: int, p: SpecPath)
    requires
        0 <= k < ms.len(),
        ms[k] matches Some(m) && m.contains(p),
    ensures
        has_name(merged_all(ms), p.text),
    decreases ms.len(),
{
    let init = ms.drop_last();
    if k < ms.len() - 1 {
        assert(init[k] == ms[k]);
        lemma_merged_all_complete(init, k, p);
        match ms.last() {
            Some(m) => lemma_merged_names(merged_all(init), m),
            None => {},
        }
    } else {
        let m = ms[k]->Some_0;
        lemma_merged_names(merged_all(init), m);
        let j = choose|j: int| 0 <= j < m.len() && m[j] == p;
        assert(has_name(m, p.text));
    }
}

proof fn lemma_merged_all_sound(ms: Seq<Option<Seq<SpecPath>>>, q: SpecPath)
    requires
        merged_all(ms).contains(q),
    ensures
        exists|k: int| 0 <= k < ms.len() && (#[trigger] ms[k]) is Some && ms[k]->Some_0.contains(q),
    decreases ms.len(),
{
    let init = ms.drop_last();
    match ms.last() {
        Some(m) => {
            lemma_merged_names(merged_all(init), m);
            let i = choose|i: int| 0 <= i < merged_all(ms).len() && merged_all(ms)[i] == q;
            if merged_all(init).contains(q) {
                lemma_merged_all_sound(init, q);
                let k = choose|k: int| 0 <= k < init.len() && (#[trigger] init[k]) is Some && init[k]->Some_0.contains(q);
                assert(ms[k] == init[k]);
            } else {
                assert(ms[ms.len() - 1] == ms.last());
            }
        },
        None => {
            lemma_merged_all_sound(init, q);
            let k = choose|k: int| 0 <= k < init.len() && (#[trigger] init[k]) is Some && init[k]->Some_0.contains(q);
            assert(ms[k] == init[k]);
        },
    }
}

/// `#[From]` may be repeated, and every type that any of them names is
/// implemented: when the attributes are accepted, the name of each path of
/// each `#[From]` attribute is among the types.
pub proof fn lemma_from_types_complete(
    attrs: Seq<Attribute>,
    answers: Seq<Result<(), Seq<char>>>,
    i: int,
    j: int,
)
    requires
        0 <= i < attrs.len(),
        spec_types_to_convert(attrs, answers) is Ok,
        spec_from_attribute(attrs[i]) matches Ok(Some(ps)) && 0 <= j < ps.len(),
    ensures
        spec_types_to_convert(attrs, answers)->Ok_0.contains(
            spec_from_attribute(attrs[i])->Ok_0->Some_0[j].text,
        ),
{
    let rs = attrs.map_values(|a: Attribute| spec_from_attribute(a));
    lemma_no_errs_all_ok(rs);
    let ms = oks(rs);
    let ps = spec_from_attribute(attrs[i])->Ok_0->Some_0;
    assert(rs[i] == spec_from_attribute(attrs[i]));
    assert(ms[i] == Some(ps));
    assert(ps.contains(ps[j]));
    lemma_merged_all_complete(ms, i, ps[j]);
    lemma_types_are_names(merged_all(ms), answers);
    let k = choose|k: int| 0 <= k < merged_all(ms).len() && (#[trigger] merged_all(ms)[k]).text
        == ps[j].text;
    assert(path_texts(merged_all(ms))[k] == ps[j].text);
}

/// Types are implemented once each: the accepted types have no repeated
/// names, however often a name occurs in `#[From]` attributes.
pub proof fn lemma_from_types_distinct(attrs: Seq<Attribute>, answers: Seq<Result<(), Seq<char>>>)
    ensures
        spec_types_to_convert(attrs, answers) matches Ok(tys) ==> tys.no_duplicates(),
{
    let rs = attrs.map_values(|a: Attribute| spec_from_attribute(a));
    let ms = oks(rs);
    lemma_merged_all_distinct(ms);
    lemma_types_are_names(merged_all(ms), answers);
}

/// Only named types are implemented: each accepted type is the name of a
/// path of some `#[From]` attribute.
pub proof fn lemma_from_types_sound(
    attrs: Seq<Attribute>,
    answers: Seq<Result<(), Seq<char>>>,
    t: Seq<char>,
)
    requires
        spec_types_to_convert(attrs, answers) matches Ok(tys) && tys.contains(t),
    ensures
        exists|i: int, j: int|
            0 <= i < attrs.len() && (#[trigger] spec_from_attribute(attrs[i])) is Ok
                && spec_from_attribute(attrs[i])->Ok_0 is Some && 0 <= j
                < spec_from_attribute(attrs[i])->Ok_0->Some_0.len() && (
            #[trigger] spec_from_attribute(attrs[i])->Ok_0->Some_0[j]).text == t,
{
    let rs = attrs.map_values(|a: Attribute| spec_from_attribute(a));
    lemma_no_errs_all_ok(rs);
    let ms = oks(rs);
    lemma_types_are_names(merged_all(ms), answers);
    let k = choose|k: int| 0 <= k < path_texts(merged_all(ms)).len() && path_texts(merged_all(ms))[k] == t;
    let q = merged_all(ms)[k];
    lemma_merged_all_sound(ms, q);
    let i = choose|i: int| 0 <= i < ms.len() && (#[trigger] ms[i]) is Some && ms[i]->Some_0.contains(q);
    assert(rs[i] == spec_from_attribute(attrs[i]));
    let ps = ms[i]->Some_0;
    let j = choose|j: int| 0 <= j < ps.len() && ps[j] == q;
    assert(spec_from_attribute(attrs[i]) == Ok::<Option<Seq<SpecPath>>, Seq<SpecError>>(Some(ps)));
    assert(q.text == t);
    assert(spec_from_attribute(attrs[i])->Ok_0->Some_0[j].text == t);
}

proof fn lemma_prepend_ok<A, E>(x: A, rest: Seq<Result<A, E>>)
    ensures
        errs(seq![Ok::<A, E>(x)] + rest) == errs(rest),
        oks(seq![Ok::<A, E>(x)] + rest) == seq![x] + oks(rest),
    decreases rest.len(),
{
    let s = seq![Ok::<A, E>(x)] + rest;
    if rest.len() == 0 {
        let e = Seq::<Result<A, E>>::empty();
        assert(s.drop_last() =~= e);
        assert(s.last() == Ok::<A, E>(x));
        assert(errs(e) == Seq::<E>::empty());
        assert(oks(e) == Seq::<A>::empty());
        assert(errs(s) == errs(s.drop_last()));
        assert(oks(s) == oks(s.drop_last()).push(x));
        assert(Seq::<A>::empty().push(x) =~= seq![x] + oks(rest));
    } else {
        lemma_prepend_ok(x, rest.drop_last());
        assert(s.drop_last() =~= seq![Ok::<A, E>(x)] + rest.drop_last());
        assert(s.last() == rest.last());
        match rest.last() {
            Ok(a) => {
                assert(oks(s) == oks(s.drop_last()).push(a));
                assert(oks(rest) == oks(rest.drop_last()).push(a));
                assert((seq![x] + oks(rest.drop_last())).push(a) =~= seq![x] + oks(
                    rest.drop_last(),
                ).push(a));
                assert(errs(s) == errs(s.drop_last()));
                assert(errs(rest) == errs(rest.drop_last()));
            },
            Err(b) => {
                assert(errs(s) == errs(s.drop_last()).push(b));
                assert(errs(rest) == errs(rest.drop_last()).push(b));
                assert(oks(s) == oks(s.drop_last()));
                assert(oks(rest) == oks(rest.drop_last()));
            },
        }
    }
}

proof fn lemma_prepend_meaningful(t: SpecTransformation, m: Seq<SpecTransformation>)
    requires
        !(t is Nothing),
    ensures
        meaningful(seq![t] + m) == seq![t] + meaningful(m),
        into_count(seq![t] + m) == into_count(m) + (if t is Into { 1nat } else { 0nat }),
    decreases m.len(),
{
    let s = seq![t] + m;
    if m.len() == 0 {
        let e = Seq::<SpecTransformation>::empty();
        assert(s.drop_last() =~= e);
        assert(s.last() == t);
        assert(meaningful(e) == e);
        assert(into_count(e) == 0);
        assert(meaningful(s) == meaningful(s.drop_last()).push(t));
        assert(into_count(s) == into_count(s.drop_last()) + (if t is Into { 1nat } else { 0nat }));
        assert(e.push(t) =~= seq![t] + meaningful(m));
    } else {
        lemma_prepend_meaningful(t, m.drop_last());
        assert(s.drop_last() =~= seq![t] + m.drop_last());
        assert(s.last() == m.last());
        if m.last() is Nothing {
            assert(meaningful(s) == meaningful(s.drop_last()));
            assert(meaningful(m) == meaningful(m.drop_last()));
            assert(into_count(s) == into_count(s.drop_last()));
            assert(into_count(m) == into_count(m.drop_last()));
        } else {
            assert(meaningful(s) == meaningful(s.drop_last()).push(m.last()));
            assert(meaningful(m) == meaningful(m.drop_last()).push(m.last()));
            assert((seq![t] + meaningful(m.drop_last())).push(m.last()) =~= seq![t] + meaningful(
                m.drop_last(),
            ).push(m.last()));
            if m.last() is Into {
                assert(into_count(s) == into_count(s.drop_last()) + 1);
                assert(into_count(m) == into_count(m.drop_last()) + 1);
            } else {
                assert(into_count(s) == into_count(s.drop_last()));
                assert(into_count(m) == into_count(m.drop_last()));
            }
        }
    }
}

proof fn lemma_field_readings_into(f: Field)
    ensures
        errs(spec_field_readings(f, true)) == errs(spec_parse_transformations(f.attrs@)),
        meaningful(oks(spec_field_readings(f, true))) == seq![SpecTransformation::Into] + meaningful(
            oks(spec_parse_transformations(f.attrs@)),
        ),
        into_count(meaningful(oks(spec_field_readings(f, true)))) == into_count(
            meaningful(oks(spec_parse_transformations(f.attrs@))),
        ) + 1,
{
    let own = spec_parse_transformations(f.attrs@);
    lemma_prepend_ok(SpecTransformation::Into, own);
    lemma_prepend_meaningful(SpecTransformation::Into, oks(own));
    lemma_prepend_meaningful(SpecTransformation::Into, meaningful(oks(own)));
}

/// Marking a variant `#[Into]` marks each of its fields: a field with none
/// of the library's attributes of its own is converted with `#[Into]`.
pub proof fn lemma_variant_into_reaches_fields(f: Field, i: int)
    requires
        f.ty_path is Some,
        errs(spec_parse_transformations(f.attrs@)).len() == 0,
        meaningful(oks(spec_parse_transformations(f.attrs@))).len() == 0,
    ensures
        spec_transform_expression(
            spec_field_ident(f, i),
            f.ty_path,
            spec_field_readings(f, true),
            f.span,
        ) == Ok::<Seq<char>, Seq<SpecError>>(
            spec_apply(
                spec_field_ident(f, i),
                SpecTransformation::Into,
                name_of(f.ty_path->Some_0@),
            ),
        ),
{
    lemma_field_readings_into(f);
    let ts = meaningful(oks(spec_field_readings(f, true)));
    assert(ts =~= seq![SpecTransformation::Into]);
    assert(into_count(ts) == 1);
    assert(!spec_invalid(ts));
    assert(ts.drop_last() =~= Seq::<SpecTransformation>::empty());
    let tp = name_of(f.ty_path->Some_0@);
    let id = spec_field_ident(f, i);
    assert(spec_compose(id, ts.drop_last(), tp) == id);
    assert(spec_compose(id, ts, tp) == spec_apply(id, SpecTransformation::Into, tp));
}

/// Marking both a variant and one of its fields `#[Into]` is an error for
/// that field: `#[Into]` then occurs twice.
pub proof fn lemma_into_on_variant_and_field(kind: FieldsKind, f: Field, i: int)
    requires
        f.ty_path is Some,
        errs(spec_parse_transformations(f.attrs@)).len() == 0,
        into_count(meaningful(oks(spec_parse_transformations(f.attrs@)))) > 0,
    ensures
        spec_variant_field(kind, f, i, true) == Err::<Seq<char>, Seq<SpecError>>(
            seq![SpecError { message: order_message(), span: f.span }],
        ),
{
    lemma_field_readings_into(f);
}

/// The `#[Transform]` and `#[MacroTransform]` attributes of a variant take
/// precedence over anything on its fields: the variant's arm then does not
/// depend on its fields.
pub proof fn lemma_variant_transform_precedence(ty: Seq<char>, v: Variant, w: Variant)
    requires
        v.attrs@ == w.attrs@,
        v.ident@ == w.ident@,
        v.kind == w.kind,
        v.span == w.span,
        errs(spec_parse_transformations(v.attrs@)).len() == 0,
        into_count(meaningful(oks(spec_parse_transformations(v.attrs@)))) == 0,
        meaningful(oks(spec_parse_transformations(v.attrs@))).len() > 0,
    ensures
        spec_variant_arm(ty, v) == spec_variant_arm(ty, w),
        spec_variant_arm(ty, v) == (
            whole_value_arm(
                ty + "::"@ + v.ident@,
                v.kind,
                spec_compose("other"@, meaningful(oks(spec_parse_transformations(v.attrs@))), ty),
            ),
            Seq::<SpecError>::empty(),
        ),
{
}

/// The attribute is one of the library's: `#[Into]`, `#[Transform]` or
/// `#[MacroTransform]`.
pub open spec fn is_transformation_attribute(attr: Attribute) -> bool {
    let name = name_of(attr.path@);
    name == "Into"@ || name == "Transform"@ || name == "MacroTransform"@
}

/// The library's attributes among `attrs`, in order.
pub open spec fn transformation_attributes(attrs: Seq<Attribute>) -> Seq<Attribute>
    decreases attrs.len(),
{
    if attrs.len() == 0 {
        Seq::empty()
    } else if is_transformation_attribute(attrs.last()) {
        transformation_attributes(attrs.drop_last()).push(attrs.last())
    } else {
        transformation_attributes(attrs.drop_last())
    }
}

proof fn lemma_parse_push(attrs: Seq<Attribute>, a: Attribute)
    ensures
        spec_parse_transformations(attrs.push(a)) == spec_parse_transformations(attrs).push(
            spec_classify(a),
        ),
        spec_parse_transformations(attrs.push(a)).drop_last() == spec_parse_transformations(attrs),
        spec_parse_transformations(attrs.push(a)).last() == spec_classify(a),
{
    assert(spec_parse_transformations(attrs.push(a)) =~= spec_parse_transformations(attrs).push(
        spec_classify(a),
    ));
    assert(spec_parse_transformations(attrs).push(spec_classify(a)).drop_last()
        =~= spec_parse_transformations(attrs));
}

proof fn lemma_only_transformation_attributes_count(attrs: Seq<Attribute>)
    ensures
        errs(spec_parse_transformations(attrs)) == errs(
            spec_parse_transformations(transformation_attributes(attrs)),
        ),
        meaningful(oks(spec_parse_transformations(attrs))) == meaningful(
            oks(spec_parse_transformations(transformation_attributes(attrs))),
        ),
    decreases attrs.len(),
{
    if attrs.len() == 0 {
        assert(transformation_attributes(attrs) =~= attrs);
    } else {
        let init = attrs.drop_last();
        let a = attrs.last();
        lemma_only_transformation_attributes_count(init);
        assert(init.push(a) =~= attrs);
        lemma_parse_push(init, a);
        let rs = spec_parse_transformations(attrs);
        let rs0 = spec_parse_transformations(init);
        if is_transformation_attribute(a) {
            let rel0 = transformation_attributes(init);
            lemma_parse_push(rel0, a);
            let qs = spec_parse_transformations(rel0.push(a));
            let qs0 = spec_parse_transformations(rel0);
            match spec_classify(a) {
                Ok(t) => {
                    assert(errs(rs) == errs(rs0));
                    assert(errs(qs) == errs(qs0));
                    assert(oks(rs) == oks(rs0).push(t));
                    assert(oks(qs) == oks(qs0).push(t));
                    assert(oks(rs0).push(t).drop_last() =~= oks(rs0));
                    assert(oks(qs0).push(t).drop_last() =~= oks(qs0));
                },
                Err(e) => {
                    assert(errs(rs) == errs(rs0).push(e));
                    assert(errs(qs) == errs(qs0).push(e));
                    assert(oks(rs) == oks(rs0));
                    assert(oks(qs) == oks(qs0));
                },
            }
        } else {
            assert(spec_classify(a) == Ok::<SpecTransformation, SpecError>(SpecTransformation::Nothing));
            assert(errs(rs) == errs(rs0));
            assert(oks(rs) == oks(rs0).push(SpecTransformation::Nothing));
            assert(oks(rs0).push(SpecTransformation::Nothing).drop_last() =~= oks(rs0));
            assert(meaningful(oks(rs)) == meaningful(oks(rs0)));
        }
    }
}

/// Attributes other than `#[Into]`, `#[Transform]` and `#[MacroTransform]`
/// (doc comments, `#[serde(..)]`, ...) do not change a field's
/// transformations: two attribute lists with the same library attributes,
/// in the same order, give the same transformations or the same errors.
pub proof fn lemma_other_attributes_ignored(attrs1: Seq<Attribute>, attrs2: Seq<Attribute>, span: Span)
    requires
        transformation_attributes(attrs1) == transformation_attributes(attrs2),
    ensures
        spec_validate(spec_parse_transformations(attrs1), span) == spec_validate(
            spec_parse_transformations(attrs2),
            span,
        ),
{
    lemma_only_transformation_attributes_count(attrs1);
    lemma_only_transformation_attributes_count(attrs2);
}

/// The same for whole fields: a struct's field assignment does not depend on
/// attributes other than the library's.
pub proof fn lemma_field_expression_ignores_other_attributes(f1: Field, f2: Field)
    requires
        f1.ident == f2.ident,
        f1.ty_path == f2.ty_path,
        f1.span == f2.span,
        transformation_attributes(f1.attrs@) == transformation_attributes(f2.attrs@),
    ensures
        crate::attributes::spec_field_expression(f1) == crate::attributes::spec_field_expression(
            f2,
        ),
{
    lemma_other_attributes_ignored(f1.attrs@, f2.attrs@, f1.span);
}

/// A struct's field assignment is `name: (expression)`, where the
/// expression converts `other.name`; an error in the expression is passed
/// on unchanged.
pub proof fn lemma_field_expression_wraps(f: Field)
    requires
        f.ident is Some,
    ensures
        crate::attributes::spec_field_expression(f) == match spec_transform_expression(
            "other."@ + f.ident->Some_0@,
            f.ty_path,
            spec_parse_transformations(f.attrs@),
            f.span,
        ) {
            Ok(e) => Ok::<Seq<char>, Seq<SpecError>>(f.ident->Some_0@ + ": ("@ + e + ")"@),
            Err(es) => Err(es),
        },
{
}

/// A path read from an attribute parses again: the name of one or more
/// path segments (see `is_path_segment`) is a plain path, which syn accepts,
/// so `transformation_path` gives that name back and never fails on it.
pub proof fn lemma_segments_make_plain_path(segments: Seq<String>)
    requires
        segments.len() > 0,
        forall|i: int| 0 <= i < segments.len() ==> is_path_segment(#[trigger] segments[i]@),
    ensures
        is_plain_path(name_of(segments)),
{
    let ts = crate::syntax::texts(segments);
    assert forall|i: int| 0 <= i < ts.len() implies is_path_segment(#[trigger] ts[i]) by {
        assert(ts[i] == segments[i]@);
    }
    assert(join_with(ts, "::"@) == name_of(segments));
}

/// A type read from a `#[From]` attribute is accepted by syn when its
/// segments are plain identifiers (see `is_plain_identifier`).
pub proof fn lemma_segments_make_plain_type(segments: Seq<String>)
    requires
        segments.len() > 0,
        forall|i: int| 0 <= i < segments.len() ==> is_plain_identifier(#[trigger] segments[i]@),
    ensures
        is_plain_type(name_of(segments)),
{
    let ts = crate::syntax::texts(segments);
    assert forall|i: int| 0 <= i < ts.len() implies is_plain_identifier(#[trigger] ts[i]) by {
        assert(ts[i] == segments[i]@);
    }
    assert(join_with(ts, "::"@) == name_of(segments));
}

/// A `#[Transform(P)]` or `#[MacroTransform(P)]` whose first path `P` is
/// made of path segments renders: the transformation it reads carries a
/// plain path.
pub proof fn lemma_attribute_path_renders(attr: Attribute)
    requires
        spec_classify(attr) is Ok,
        attr.meta matches Ok(Meta::List { nested, .. }) && nested@.len() > 0 && (
        nested@[0] matches NestedMeta::Path { segments, .. } && segments@.len() > 0 && forall|
            i: int,
        |
            0 <= i < segments@.len() ==> is_path_segment(#[trigger] segments@[i]@)),
    ensures
        path_plain(spec_classify(attr)->Ok_0),
{
    match attr.meta {
        Ok(Meta::List { nested, .. }) => match nested@[0] {
            NestedMeta::Path { segments, .. } => lemma_segments_make_plain_path(segments@),
            _ => {},
        },
        _ => {},
    }
}

/// `#[Into]` converts by the last segment of the field's type: a `Vec` or a
/// `HashSet` (bare or qualified) element by element, an `Option` through
/// `map`, and any other type as a whole.
pub proof fn lemma_into_by_type(tokens: Seq<char>, type_path: Seq<char>)
    ensures
        (type_path == "Vec"@ || has_suffix(type_path, "::Vec"@) || type_path == "HashSet"@
            || has_suffix(type_path, "::HashSet"@)) ==> spec_apply(
            tokens,
            SpecTransformation::Into,
            type_path,
        ) == tokens + ".into_iter().map(Into::into).collect()"@,
        (type_path == "Option"@ || has_suffix(type_path, "::Option"@)) ==> spec_apply(
            tokens,
            SpecTransformation::Into,
            type_path,
        ) == tokens + ".map(Into::into)"@,
        !(type_path == "Vec"@ || has_suffix(type_path, "::Vec"@) || type_path == "HashSet"@
            || has_suffix(type_path, "::HashSet"@) || type_path == "Option"@ || has_suffix(
            type_path,
            "::Option"@,
        )) ==> spec_apply(tokens, SpecTransformation::Into, type_path) == tokens + ".into()"@,
{
    reveal_strlit("Vec");
    reveal_strlit("::Vec");
    reveal_strlit("HashSet");
    reveal_strlit("::HashSet");
    reveal_strlit("Option");
    reveal_strlit("::Option");
    if type_path == "Option"@ || has_suffix(type_path, "::Option"@) {
        let last = type_path[type_path.len() - 1];
        if type_path == "Option"@ {
            assert(last == 'n');
        } else {
            let k = type_path.len() - 8;
            assert(type_path.subrange(k, type_path.len() as int)[7] == last);
            assert(last == 'n');
        }
        if has_suffix(type_path, "::Vec"@) {
            assert(type_path.subrange(type_path.len() - 5, type_path.len() as int)[4] == last);
        }
        if has_suffix(type_path, "::HashSet"@) {
            assert(type_path.subrange(type_path.len() - 9, type_path.len() as int)[8] == last);
        }
        assert(type_path != "Vec"@);
        assert(type_path != "HashSet"@);
    }
}

/// A variant whose own `#[Transform]`/`#[MacroTransform]` attributes convert
/// the whole value gets an arm whose pattern matches every value of the
/// variant: `ty::V{ .. }` for named fields, `ty::V(..)` for a tuple variant,
/// the bare `ty::V` for a unit variant; the arm gives the composition
/// applied to `other`, with no error.
pub proof fn lemma_whole_value_patterns(ty: Seq<char>, v: Variant)
    requires
        errs(spec_parse_transformations(v.attrs@)).len() == 0,
        into_count(meaningful(oks(spec_parse_transformations(v.attrs@)))) == 0,
        meaningful(oks(spec_parse_transformations(v.attrs@))).len() > 0,
    ensures
        ({
            let mapping = spec_compose(
                "other"@,
                meaningful(oks(spec_parse_transformations(v.attrs@))),
                ty,
            );
            &&& spec_variant_arm(ty, v).1 == Seq::<SpecError>::empty()
            &&& v.kind == FieldsKind::Named ==> spec_variant_arm(ty, v).0 == ty + "::"@ + v.ident@
                + "{ .. } => ("@ + mapping + ")"@
            &&& v.kind == FieldsKind::Unnamed ==> spec_variant_arm(ty, v).0 == ty + "::"@ + v.ident@
                + "(..) => ("@ + mapping + ")"@
            &&& v.kind == FieldsKind::Unit ==> spec_variant_arm(ty, v).0 == ty + "::"@ + v.ident@
                + " => ("@ + mapping + ")"@
        }),
{
}

/// The text of a decimal numeral: its digits read in base ten.
pub open spec fn decimal_value(s: Seq<char>) -> int
    decreases s.len(),
{
    if s.len() == 0 {
        0
    } else {
        decimal_value(s.drop_last()) * 10 + (s.last() as int - '0' as int)
    }
}

/// The digit `d` is the one character `'0' + d`.
pub proof fn lemma_digit_text(d: nat)
    requires
        d < 10,
    ensures
        digit_text(d).len() == 1,
        digit_text(d)[0] as int == '0' as int + d,
{
    reveal_strlit("0");
    reveal_strlit("1");
    reveal_strlit("2");
    reveal_strlit("3");
    reveal_strlit("4");
    reveal_strlit("5");
    reveal_strlit("6");
    reveal_strlit("7");
    reveal_strlit("8");
    reveal_strlit("9");
}

/// `decimal_text(n)` is the base-ten representation of `n`: one or more
/// characters `'0'..='9'`, without a leading zero unless `n` is 0, whose
/// value in base ten is `n`.
pub proof fn lemma_decimal_text_is_base_ten(n: nat)
    ensures
        decimal_text(n).len() > 0,
        forall|i: int|
            0 <= i < decimal_text(n).len() ==> '0' <= #[trigger] decimal_text(n)[i] <= '9',
        decimal_value(decimal_text(n)) == n,
        decimal_text(n)[0] == '0' ==> n == 0,
    decreases n,
{
    if n < 10 {
        lemma_digit_text(n);
        let s = decimal_text(n);
        assert(s.drop_last() =~= Seq::<char>::empty());
        assert(decimal_value(s.drop_last()) == 0);
        assert(decimal_value(s) == decimal_value(s.drop_last()) * 10 + (s.last() as int - '0' as int));
    } else {
        lemma_decimal_text_is_base_ten(n / 10);
        lemma_digit_text(n % 10);
        let p = decimal_text(n / 10);
        let d = digit_text(n % 10);
        let s = decimal_text(n);
        assert(s == p + d);
        assert(s.drop_last() =~= p);
        assert(s.last() == d[0]);
        assert forall|i: int| 0 <= i < s.len() implies '0' <= #[trigger] s[i] <= '9' by {
            if i < p.len() {
                assert(s[i] == p[i]);
            }
        }
        assert(s[0] == p[0]);
        assert(n / 10 > 0);
        assert(decimal_value(s) == decimal_value(p) * 10 + (s.last() as int - '0' as int));
        assert(decimal_value(p) == n / 10);
        assert(s.last() as int - '0' as int == n % 10);
        assert((n / 10) * 10 + n % 10 == n);
    }
}

/// Different numbers have different decimal texts.
pub proof fn lemma_decimal_text_injective(a: nat, b: nat)
    ensures
        decimal_text(a) == decimal_text(b) ==> a == b,
{
    lemma_decimal_text_is_base_ten(a);
    lemma_decimal_text_is_base_ten(b);
}

/// The fields of a tuple variant are bound to pairwise distinct names
/// `field_number_i`.
pub proof fn lemma_tuple_bindings_distinct(v: Variant, i: int, j: int)
    requires
        0 <= i < j < v.fields@.len(),
        v.fields@[i].ident is None,
        v.fields@[j].ident is None,
    ensures
        crate::derive::variant_idents(v)[i] != crate::derive::variant_idents(v)[j],
{
    let ids = crate::derive::variant_idents(v);
    let pre = "field_number_"@;
    let a = decimal_text(i as nat);
    let b = decimal_text(j as nat);
    assert(ids[i] == pre + a);
    assert(ids[j] == pre + b);
    if pre + a == pre + b {
        assert((pre + a).subrange(pre.len() as int, (pre + a).len() as int) =~= a);
        assert((pre + b).subrange(pre.len() as int, (pre + b).len() as int) =~= b);
        lemma_decimal_text_injective(i as nat, j as nat);
    }
}

/// Marking a variant `#[Into]` puts each field without library attributes
/// of its own through the `#[Into]` conversion, named or tuple: a named
/// field `a` gets `a: (..)` around that conversion of `a`.
pub proof fn lemma_variant_into_converts_each_field(f: Field, i: int)
    requires
        f.ty_path is Some,
        errs(spec_parse_transformations(f.attrs@)).len() == 0,
        meaningful(oks(spec_parse_transformations(f.attrs@))).len() == 0,
    ensures
        ({
            let id = spec_field_ident(f, i);
            let converted = spec_apply(id, SpecTransformation::Into, name_of(f.ty_path->Some_0@));
            &&& spec_variant_field(FieldsKind::Named, f, i, true) == Ok::<Seq<char>, Seq<SpecError>>(
                id + ": ("@ + converted + ")"@,
            )
            &&& spec_variant_field(FieldsKind::Unnamed, f, i, true) == Ok::<
                Seq<char>,
                Seq<SpecError>,
            >(converted)
            &&& converted.len() > id.len()
        }),
{
    lemma_variant_into_reaches_fields(f, i);
    let id = spec_field_ident(f, i);
    let tp = name_of(f.ty_path->Some_0@);
    lemma_into_by_type(id, tp);
    reveal_strlit(".into_iter().map(Into::into).collect()");
    reveal_strlit(".map(Into::into)");
    reveal_strlit(".into()");
}

/// Attributes other than `#[Into]`, `#[Transform]` and `#[MacroTransform]`
/// on a variant (doc comments, `#[serde(..)]`, ...) do not change its arm:
/// two variants that differ only in such attributes get the same arm and
/// the same errors; in particular a variant with only such attributes gets
/// the arm of the same variant with none.
pub proof fn lemma_variant_arm_ignores_other_attributes(ty: Seq<char>, v: Variant, w: Variant)
    requires
        v.ident@ == w.ident@,
        v.kind == w.kind,
        v.fields@ == w.fields@,
        v.span == w.span,
        transformation_attributes(v.attrs@) == transformation_attributes(w.attrs@),
    ensures
        spec_variant_arm(ty, v) == spec_variant_arm(ty, w),
{
    lemma_only_transformation_attributes_count(v.attrs@);
    lemma_only_transformation_attributes_count(w.attrs@);
    assert(crate::derive::variant_field_results(v, true) =~= crate::derive::variant_field_results(
        w,
        true,
    ));
    assert(crate::derive::variant_field_results(v, false) =~= crate::derive::variant_field_results(
        w,
        false,
    ));
    assert(crate::derive::variant_idents(v) =~= crate::derive::variant_idents(w));
}

/// A struct field without library attributes is copied by name: its
/// assignment is `name: (other.name)`.
pub proof fn lemma_plain_field_copied(f: Field)
    requires
        f.ident is Some,
        f.ty_path is Some,
        errs(spec_parse_transformations(f.attrs@)).len() == 0,
        meaningful(oks(spec_parse_transformations(f.attrs@))).len() == 0,
    ensures
        crate::attributes::spec_field_expression(f) == Ok::<Seq<char>, Seq<SpecError>>(
            f.ident->Some_0@ + ": ("@ + ("other."@ + f.ident->Some_0@) + ")"@,
        ),
{
    let ts = meaningful(oks(spec_parse_transformations(f.attrs@)));
    assert(ts =~= Seq::<SpecTransformation>::empty());
}

/// A unit variant without library attributes maps to the variant of the
/// same name: `ty::V => Self::V`.
pub proof fn lemma_plain_unit_variant(ty: Seq<char>, v: Variant)
    requires
        v.kind == FieldsKind::Unit,
        errs(spec_parse_transformations(v.attrs@)).len() == 0,
        meaningful(oks(spec_parse_transformations(v.attrs@))).len() == 0,
    ensures
        spec_variant_arm(ty, v) == (
            ty + "::"@ + v.ident@ + " => Self::"@ + v.ident@,
            Seq::<SpecError>::empty(),
        ),
{
}

/// A variant converted field by field binds its fields in order and builds
/// the variant of the same name from their expressions: `ty::V{a, b, } =>
/// Self::V{e_a, e_b, }` for named fields, `ty::V(x0, x1, ) => Self::V(e0,
/// e1, )` for a tuple variant.
pub proof fn lemma_field_wise_arm(ty: Seq<char>, v: Variant, into: bool)
    requires
        v.kind != FieldsKind::Unit,
        errs(spec_parse_transformations(v.attrs@)).len() == 0,
        into == (into_count(meaningful(oks(spec_parse_transformations(v.attrs@)))) > 0),
        into ==> meaningful(oks(spec_parse_transformations(v.attrs@))).len() == 1,
        !into ==> meaningful(oks(spec_parse_transformations(v.attrs@))).len() == 0,
        errs(crate::derive::variant_field_results(v, into)).len() == 0,
    ensures
        ({
            let ids = crate::text::terminated_by(crate::derive::variant_idents(v), ", "@);
            let exprs = crate::text::terminated_by(
                oks(crate::derive::variant_field_results(v, into)),
                ", "@,
            );
            &&& spec_variant_arm(ty, v).1 == Seq::<SpecError>::empty()
            &&& v.kind == FieldsKind::Named ==> spec_variant_arm(ty, v).0 == ty + "::"@ + v.ident@
                + "{"@ + ids + "} => Self::"@ + v.ident@ + "{"@ + exprs + "}"@
            &&& v.kind == FieldsKind::Unnamed ==> spec_variant_arm(ty, v).0 == ty + "::"@ + v.ident@
                + "("@ + ids + ") => Self::"@ + v.ident@ + "("@ + exprs + ")"@
        }),
{
}

/// A struct's expansion: when a field is in error, no code and the errors
/// of all fields in error, in order; else no error and, for each type in
/// order, `impl From<ty> for Name { fn from(other: ty) -> Self { Self {
/// assignments } } }`, each assignment followed by `, `.
pub proof fn lemma_struct_expansion(types: Seq<Seq<char>>, name: Seq<char>, fields: Seq<Field>)
    ensures
        ({
            let rs = crate::derive::field_results(fields);
            let e = crate::derive::spec_handle_struct_case(types, name, fields);
            &&& errs(rs).len() > 0 ==> e.code == Seq::<char>::empty() && e.errors == crate::seqs::flatten(
                errs(rs),
            )
            &&& errs(rs).len() == 0 ==> e.errors == Seq::<SpecError>::empty() && e.code
                == crate::text::concat_all(
                types.map_values(
                    |ty: Seq<char>|
                        "impl From<"@ + ty + "> for "@ + name + " { fn from(other: "@ + ty
                            + ") -> Self { Self { "@ + crate::text::terminated_by(oks(rs), ", "@)
                            + "} } }\n"@,
                ),
            )
        }),
{
    let rs = crate::derive::field_results(fields);
    if errs(rs).len() == 0 {
        assert(types.map_values(
            |ty: Seq<char>| crate::derive::struct_block(ty, name, oks(rs)),
        ) =~= types.map_values(
            |ty: Seq<char>|
                "impl From<"@ + ty + "> for "@ + name + " { fn from(other: "@ + ty
                    + ") -> Self { Self { "@ + crate::text::terminated_by(oks(rs), ", "@)
                    + "} } }\n"@,
        ));
    }
}

/// An enum's implementation for one type: `impl From<ty> for Name { fn
/// from(other: ty) -> Self { match other { arms } } }`, one arm per variant
/// in order, each followed by `, `, with the errors of the arms in order.
pub proof fn lemma_enum_implementation(ty: Seq<char>, name: Seq<char>, variants: Seq<Variant>)
    ensures
        ({
            let arms = variants.map_values(|v: Variant| spec_variant_arm(ty, v).0);
            let errors = variants.map_values(|v: Variant| spec_variant_arm(ty, v).1);
            let r = crate::derive::spec_enum_for_type(ty, name, variants);
            &&& r.0 == "impl From<"@ + ty + "> for "@ + name + " { fn from(other: "@ + ty
                + ") -> Self { match other { "@ + crate::text::terminated_by(arms, ", "@)
                + "} } }\n"@
            &&& r.1 == crate::seqs::flatten(errors)
        }),
{
    let all = variants.map_values(|v: Variant| spec_variant_arm(ty, v));
    assert(all.map_values(|a: (Seq<char>, Seq<SpecError>)| a.0) =~= variants.map_values(
        |v: Variant| spec_variant_arm(ty, v).0,
    ));
    assert(all.map_values(|a: (Seq<char>, Seq<SpecError>)| a.1) =~= variants.map_values(
        |v: Variant| spec_variant_arm(ty, v).1,
    ));
}

} // verus!
