//! The `#[From(path, ...)]` attribute: which types the derive implements
//! `From` for.

use crate::metadata::{
    answer_view, result_text,
    PathDetection, SpecPath, as_name, name_of, nested_path, paths_view, spec_nested_path,
    unable_error, unable_message, unparsable_message, unsupported_error, unsupported_message,
};
use crate::outside::{is_plain_type, parse_type_text};
use crate::seqs::{errs, flatten, oks};
use crate::syntax::{Attribute, Meta, ParseError, SpecError, errors_view, texts};
use crate::text::{cat, str_eq};
use vstd::prelude::*;

verus! {

/// Some path of `ps` has the name `text`.
pub open spec fn has_name(ps: Seq<SpecPath>, text: Seq<char>) -> bool {
    exists|i: int| 0 <= i < ps.len() && (#[trigger] ps[i]).text == text
}

/// No two paths of `ps` have the same name.
pub open spec fn distinct_names(ps: Seq<SpecPath>) -> bool {
    forall|i: int, j: int| 0 <= i < j < ps.len() ==> (#[trigger] ps[i]).text != (#[trigger] ps[j]).text
}

/// `acc` followed by each path of `items` whose name is not yet present,
/// in order: the first path of a name is the one kept.
pub open spec fn merged(acc: Seq<SpecPath>, items: Seq<SpecPath>) -> Seq<SpecPath>
    decreases items.len(),
{
    if items.len() == 0 {
        acc
    } else {
        let prev = merged(acc, items.drop_last());
        if has_name(prev, items.last().text) {
            prev
        } else {
            prev.push(items.last())
        }
    }
}

/// The types named by `#[From]` attributes, without repeated names.
#[derive(Debug)]
pub struct FromMetadata {
    types: Vec<PathDetection>,
}

impl View for FromMetadata {
    type V = Seq<SpecPath>;

    closed spec fn view(&self) -> Seq<SpecPath> {
        paths_view(self.types@)
    }
}

impl FromMetadata {
    #[verifier::type_invariant]
    closed spec fn wf(self) -> bool {
        distinct_names(paths_view(self.types@))
    }
}

/// Whether some path of `ps` has the name `text`.
fn contains_name(ps: &Vec<PathDetection>, text: &String) -> (r: bool)
    ensures
        r == has_name(paths_view(ps@), text@),
{
    let n = ps.len();
    let mut i: usize = 0;
    while i < n
        invariant
            n == ps@.len(),
            i <= n,
            forall|j: int| 0 <= j < i ==> (#[trigger] ps@[j]).stringified@ != text@,
        decreases n - i,
    {
        if str_eq(ps[i].stringified.as_str(), text.as_str()) {
            assert(paths_view(ps@)[i as int].text == text@);
            return true;
        }
        i = i + 1;
    }
    proof {
        assert forall|j: int| 0 <= j < paths_view(ps@).len() implies #[trigger] paths_view(
            ps@,
        )[j].text != text@ by {
            assert(ps@[j].stringified@ != text@);
        }
    }
    false
}

/// Appends to `acc` each path of `items` whose name is not yet present.
fn merge_paths(acc: Vec<PathDetection>, items: &Vec<PathDetection>) -> (r: Vec<PathDetection>)
    ensures
        paths_view(r@) == merged(paths_view(acc@), paths_view(items@)),
{
    let ghost a = paths_view(acc@);
    let ghost is = paths_view(items@);
    let mut r = acc;
    let n = items.len();
    let mut i: usize = 0;
    while i < n
        invariant
            n == items@.len(),
            is == paths_view(items@),
            i <= n,
            paths_view(r@) == merged(a, is.take(i as int)),
        decreases n - i,
    {
        proof {
            assert(is.take(i + 1).drop_last() =~= is.take(i as int));
        }
        if !contains_name(&r, &items[i].stringified) {
            let ghost prev = r@;
            r.push(items[i].duplicate());
            proof {
                assert(paths_view(r@) =~= paths_view(prev).push(is[i as int]));
            }
        }
        i = i + 1;
    }
    assert(is.take(n as int) =~= is);
    r
}

/// Merging keeps names distinct.
pub proof fn lemma_merged_distinct(acc: Seq<SpecPath>, items: Seq<SpecPath>)
    requires
        distinct_names(acc),
    ensures
        distinct_names(merged(acc, items)),
    decreases items.len(),
{
    if items.len() > 0 {
        lemma_merged_distinct(acc, items.drop_last());
        let prev = merged(acc, items.drop_last());
        if !has_name(prev, items.last().text) {
            let r = prev.push(items.last());
            assert forall|i: int, j: int| 0 <= i < j < r.len() implies (#[trigger] r[i]).text != (
            #[trigger] r[j]).text by {
                if j == r.len() - 1 {
                    assert(prev[i] == r[i]);
                }
            }
        }
    }
}

/// The paths of `acc` stay, first and in order, when others are merged in.
pub proof fn lemma_merged_prefix(acc: Seq<SpecPath>, items: Seq<SpecPath>)
    ensures
        acc.len() <= merged(acc, items).len(),
        merged(acc, items).subrange(0, acc.len() as int) == acc,
    decreases items.len(),
{
    if items.len() > 0 {
        lemma_merged_prefix(acc, items.drop_last());
        let prev = merged(acc, items.drop_last());
        assert(prev.push(items.last()).subrange(0, acc.len() as int) =~= prev.subrange(
            0,
            acc.len() as int,
        ));
    }
}

/// Every name of `acc` and of `items` is a name of the merge, and every path
/// of the merge is a path of `acc` or of `items`.
pub proof fn lemma_merged_names(acc: Seq<SpecPath>, items: Seq<SpecPath>)
    ensures
        forall|t: Seq<char>| has_name(acc, t) || has_name(items, t) ==> has_name(merged(acc, items), t),
        forall|k: int| 0 <= k < merged(acc, items).len() ==> acc.contains(#[trigger] merged(acc, items)[k])
            || items.contains(merged(acc, items)[k]),
    decreases items.len(),
{
    if items.len() > 0 {
        let init = items.drop_last();
        lemma_merged_names(acc, init);
        let prev = merged(acc, init);
        let r = merged(acc, items);
        assert forall|t: Seq<char>| has_name(acc, t) || has_name(items, t) implies has_name(r, t) by {
            if has_name(items, t) && !has_name(acc, t) {
                let i = choose|i: int| 0 <= i < items.len() && (#[trigger] items[i]).text == t;
                if i < items.len() - 1 {
                    assert(init[i] == items[i]);
                    assert(has_name(init, t));
                }
            }
            if has_name(prev, t) {
                let k = choose|k: int| 0 <= k < prev.len() && (#[trigger] prev[k]).text == t;
                if !has_name(prev, items.last().text) {
                    assert(r[k] == prev[k]);
                }
            } else {
                assert(t == items.last().text);
                if !has_name(prev, items.last().text) {
                    assert(r[r.len() - 1].text == t);
                }
            }
        }
        assert forall|k: int| 0 <= k < r.len() implies acc.contains(#[trigger] r[k]) || items.contains(
            r[k],
        ) by {
            if k < prev.len() {
                assert(r[k] == prev[k]);
                if init.contains(prev[k]) {
                    let m = choose|m: int| 0 <= m < init.len() && init[m] == prev[k];
                    assert(items[m] == init[m]);
                }
            } else {
                assert(r[k] == items[items.len() - 1]);
            }
        }
    }
}

impl FromMetadata {
    /// No types.
    pub fn new() -> (r: FromMetadata)
        ensures
            r@ == Seq::<SpecPath>::empty(),
    {
        let r = FromMetadata { types: Vec::new() };
        assert(r@ =~= Seq::<SpecPath>::empty());
        r
    }

    /// The types of `self` followed by those of `other` whose names are not
    /// yet present.
    pub fn merge(self, other: FromMetadata) -> (r: FromMetadata)
        ensures
            r@ == merged(self@, other@),
    {
        proof {
            use_type_invariant(&self);
        }
        let types = merge_paths(self.types, &other.types);
        proof {
            lemma_merged_distinct(paths_view(self.types@), paths_view(other.types@));
        }
        FromMetadata { types }
    }

    /// The types, each checked by syn (see `spec_types`): the result is the
    /// one `spec_types` gives for syn's answers, and syn accepts every plain
    /// type name.
    pub fn types(&self) -> (r: Result<Vec<String>, Vec<ParseError>>)
        ensures
            exists|answers: Seq<Result<(), Seq<char>>>|
                answers_fit(self@, answers) && names_view(r) == #[trigger] spec_types(
                    self@,
                    answers,
                ),
    {
        let ghost ps = paths_view(self.types@);
        let ghost mut answers: Seq<Result<(), Seq<char>>> = Seq::empty();
        let mut ok: Vec<String> = Vec::new();
        let mut bad: Vec<ParseError> = Vec::new();
        let n = self.types.len();
        let mut i: usize = 0;
        while i < n
            invariant
                n == self.types@.len(),
                ps == paths_view(self.types@),
                i <= n,
                answers.len() == i,
                forall|j: int| 0 <= j < i ==> is_plain_type(ps[j].text) ==> (#[trigger] answers[j]) is Ok,
                texts(ok@) == oks(type_checks(ps.take(i as int), answers)),
                errors_view(bad@) == errs(type_checks(ps.take(i as int), answers)),
            decreases n - i,
        {
            let p = &self.types[i];
            let answer = parse_type_text(p.stringified.as_str());
            let ghost prev_answers = answers;
            proof {
                answers = answers.push(answer_view(answer));
                assert(type_checks(ps.take(i + 1), answers).drop_last() =~= type_checks(
                    ps.take(i as int),
                    prev_answers,
                ));
                assert(type_checks(ps.take(i + 1), answers).last() == spec_type_check(
                    ps[i as int],
                    answer_view(answer),
                ));
            }
            match checked_type(p, answer) {
                Ok(t) => {
                    let ghost prev = ok@;
                    ok.push(t);
                    assert(texts(ok@) =~= texts(prev).push(t@));
                },
                Err(e) => {
                    let ghost prev = bad@;
                    bad.push(e);
                    assert(errors_view(bad@) =~= errors_view(prev).push(e@));
                },
            }
            i = i + 1;
        }
        assert(ps.take(n as int) =~= ps);
        let r = if bad.len() > 0 {
            Err(bad)
        } else {
            Ok(ok)
        };
        assert(answers_fit(self@, answers));
        assert(names_view(r) == spec_types(self@, answers));
        r
    }

    /// Reads `attr` as `#[From(path, ...)]` (see `spec_from_attribute`).
    pub fn maybe_from(attr: &Attribute) -> (r: Result<Option<FromMetadata>, Vec<ParseError>>)
        ensures
            from_view(r) == spec_from_attribute(*attr),
    {
        let name = as_name(&attr.path);
        if !str_eq(name.as_str(), "From") {
            return Ok(None);
        }
        let expected = "#[From(path, ...)]";
        match &attr.meta {
            Err(e) => {
                let mut v: Vec<ParseError> = Vec::new();
                v.push(unable_error(e, expected, attr.span));
                assert(errors_view(v@) =~= seq![
                    SpecError { message: unable_message(e@, expected@), span: attr.span },
                ]);
                Err(v)
            },
            Ok(Meta::Path { span }) => {
                let mut v: Vec<ParseError> = Vec::new();
                v.push(unsupported_error("From", "Path", expected, *span));
                assert(errors_view(v@) =~= seq![
                    SpecError { message: unsupported_message("From"@, "Path"@, expected@), span: *span },
                ]);
                Err(v)
            },
            Ok(Meta::NameValue { span }) => {
                let mut v: Vec<ParseError> = Vec::new();
                v.push(unsupported_error("From", "NameValue", expected, *span));
                assert(errors_view(v@) =~= seq![
                    SpecError {
                        message: unsupported_message("From"@, "NameValue"@, expected@),
                        span: *span,
                    },
                ]);
                Err(v)
            },
            Ok(Meta::List { nested, .. }) => {
                let ghost rs = nested@.map_values(
                    |item: crate::syntax::NestedMeta| spec_nested_path(item, "From"@, expected@),
                );
                let mut ok: Vec<PathDetection> = Vec::new();
                let mut bad: Vec<ParseError> = Vec::new();
                let n = nested.len();
                let mut i: usize = 0;
                while i < n
                    invariant
                        n == nested@.len(),
                        rs == nested@.map_values(
                            |item: crate::syntax::NestedMeta| spec_nested_path(item, "From"@, expected@),
                        ),
                        i <= n,
                        paths_view(ok@) == oks(rs.take(i as int)),
                        errors_view(bad@) == errs(rs.take(i as int)),
                    decreases n - i,
                {
                    proof {
                        assert(rs.take(i + 1).drop_last() =~= rs.take(i as int));
                    }
                    match nested_path(&nested[i], "From", expected) {
                        Ok(p) => {
                            let ghost prev = ok@;
                            ok.push(p);
                            assert(paths_view(ok@) =~= paths_view(prev).push(p@));
                        },
                        Err(e) => {
                            let ghost prev = bad@;
                            bad.push(e);
                            assert(errors_view(bad@) =~= errors_view(prev).push(e@));
                        },
                    }
                    i = i + 1;
                }
                assert(rs.take(n as int) =~= rs);
                if bad.len() > 0 {
                    Err(bad)
                } else {
                    let empty: Vec<PathDetection> = Vec::new();
                    proof {
                        assert(paths_view(empty@) =~= Seq::<SpecPath>::empty());
                    }
                    let types = merge_paths(empty, &ok);
                    proof {
                        lemma_merged_distinct(Seq::empty(), paths_view(ok@));
                    }
                    Ok(Some(FromMetadata { types }))
                }
            },
        }
    }
}

/// A list of checked type names, by value.
pub open spec fn names_view(r: Result<Vec<String>, Vec<ParseError>>) -> Result<
    Seq<Seq<char>>,
    Seq<SpecError>,
> {
    match r {
        Ok(v) => Ok(texts(v@)),
        Err(es) => Err(errors_view(es@)),
    }
}

/// A reading of `#[From]`, by value.
pub open spec fn from_view(r: Result<Option<FromMetadata>, Vec<ParseError>>) -> Result<
    Option<Seq<SpecPath>>,
    Seq<SpecError>,
> {
    match r {
        Ok(Some(m)) => Ok(Some(m@)),
        Ok(None) => Ok(None),
        Err(es) => Err(errors_view(es@)),
    }
}

/// One type name checked by syn, given syn's answer: the name when syn
/// accepted it as a type, else the error syn gave, at the path's span.
pub open spec fn spec_type_check(p: SpecPath, answer: Result<(), Seq<char>>) -> Result<
    Seq<char>,
    SpecError,
> {
    match answer {
        Ok(()) => Ok(p.text),
        Err(e) => Err(SpecError { message: unparsable_message(e), span: p.span }),
    }
}

/// The checks of the type names, each with syn's answer at the same place.
pub open spec fn type_checks(ps: Seq<SpecPath>, answers: Seq<Result<(), Seq<char>>>) -> Seq<
    Result<Seq<char>, SpecError>,
> {
    Seq::new(ps.len(), |i: int| spec_type_check(ps[i], answers[i]))
}

/// Syn's answers fit the type names: one per name, and `Ok` for every plain
/// type name (see `is_plain_type`).
pub open spec fn answers_fit(ps: Seq<SpecPath>, answers: Seq<Result<(), Seq<char>>>) -> bool {
    &&& answers.len() == ps.len()
    &&& forall|i: int| 0 <= i < ps.len() ==> is_plain_type(ps[i].text) ==> (#[trigger] answers[i]) is Ok
}

/// The type names given syn's answers: all of them when syn accepted each
/// as a type, else the errors of those it refused.
pub open spec fn spec_types(ps: Seq<SpecPath>, answers: Seq<Result<(), Seq<char>>>) -> Result<
    Seq<Seq<char>>,
    Seq<SpecError>,
> {
    let rs = type_checks(ps, answers);
    if errs(rs).len() > 0 {
        Err(errs(rs))
    } else {
        Ok(oks(rs))
    }
}

/// Checks one type name given syn's answer for it (see `spec_type_check`).
pub fn checked_type(p: &PathDetection, answer: Result<(), String>) -> (r: Result<
    String,
    ParseError,
>)
    ensures
        result_text(r) == spec_type_check(p@, answer_view(answer)),
{
    match answer {
        Ok(()) => Ok(p.stringified.clone()),
        Err(e) => Err(
            ParseError { message: cat("Unable to parse type from this token: ", e.as_str()), span: p.span },
        ),
    }
}

/// What `#[From(path, ...)]` gives for an attribute: `None` for an attribute
/// of another name; the errors of its form or of its entries; else its
/// paths, a repeated name kept once.
pub open spec fn spec_from_attribute(attr: Attribute) -> Result<
    Option<Seq<SpecPath>>,
    Seq<SpecError>,
> {
    let expected = "#[From(path, ...)]"@;
    if name_of(attr.path@) != "From"@ {
        Ok(None)
    } else {
        match attr.meta {
            Err(e) => Err(
                seq![SpecError { message: unable_message(e@, expected), span: attr.span }],
            ),
            Ok(Meta::Path { span }) => Err(
                seq![SpecError { message: unsupported_message("From"@, "Path"@, expected), span }],
            ),
            Ok(Meta::NameValue { span }) => Err(
                seq![SpecError { message: unsupported_message("From"@, "NameValue"@, expected), span }],
            ),
            Ok(Meta::List { nested, .. }) => {
                let rs = nested@.map_values(
                    |item: crate::syntax::NestedMeta| spec_nested_path(item, "From"@, expected),
                );
                if errs(rs).len() > 0 {
                    Err(errs(rs))
                } else {
                    Ok(Some(merged(Seq::empty(), oks(rs))))
                }
            },
        }
    }
}

/// The paths of several `#[From]` attributes merged in order.
pub open spec fn merged_all(ms: Seq<Option<Seq<SpecPath>>>) -> Seq<SpecPath>
    decreases ms.len(),
{
    if ms.len() == 0 {
        Seq::empty()
    } else {
        match ms.last() {
            Some(m) => merged(merged_all(ms.drop_last()), m),
            None => merged_all(ms.drop_last()),
        }
    }
}

/// The paths of the data structure's `#[From]` attributes: the errors of
/// every `#[From]` attribute in error, else the paths of all of them merged
/// in order.
pub open spec fn spec_from_types(attrs: Seq<Attribute>) -> Result<Seq<SpecPath>, Seq<SpecError>> {
    let rs = attrs.map_values(|a: Attribute| spec_from_attribute(a));
    if errs(rs).len() > 0 {
        Err(flatten(errs(rs)))
    } else {
        Ok(merged_all(oks(rs)))
    }
}

/// The types to implement `From` for, given the data structure's attributes
/// and syn's answers for the merged paths: the errors of `spec_from_types`,
/// else the merged paths checked with those answers (see `spec_types`).
pub open spec fn spec_types_to_convert(
    attrs: Seq<Attribute>,
    answers: Seq<Result<(), Seq<char>>>,
) -> Result<Seq<Seq<char>>, Seq<SpecError>> {
    match spec_from_types(attrs) {
        Err(es) => Err(es),
        Ok(ps) => spec_types(ps, answers),
    }
}

/// Syn's answers fit the paths of the `#[From]` attributes (see `answers_fit`).
pub open spec fn from_answers_fit(attrs: Seq<Attribute>, answers: Seq<Result<(), Seq<char>>>) -> bool {
    match spec_from_types(attrs) {
        Err(_) => true,
        Ok(ps) => answers_fit(ps, answers),
    }
}

/// The types to implement `From` for (see `spec_types_to_convert`), for the
/// answers syn gave, which accept every plain type name.
pub fn types_to_convert(attrs: &Vec<Attribute>) -> (r: Result<Vec<String>, Vec<ParseError>>)
    ensures
        exists|answers: Seq<Result<(), Seq<char>>>|
            #[trigger] from_answers_fit(attrs@, answers) && names_view(r) == spec_types_to_convert(
                attrs@,
                answers,
            ),
{
    let ghost rs = attrs@.map_values(|a: Attribute| spec_from_attribute(a));
    let mut acc = FromMetadata::new();
    let mut bad: Vec<ParseError> = Vec::new();
    let mut failed = false;
    let n = attrs.len();
    let mut i: usize = 0;
    while i < n
        invariant
            n == attrs@.len(),
            rs == attrs@.map_values(|a: Attribute| spec_from_attribute(a)),
            i <= n,
            acc@ == merged_all(oks(rs.take(i as int))),
            errors_view(bad@) == flatten(errs(rs.take(i as int))),
            failed == (errs(rs.take(i as int)).len() > 0),
        decreases n - i,
    {
        proof {
            assert(rs.take(i + 1).drop_last() =~= rs.take(i as int));
            assert(rs.take(i + 1).last() == spec_from_attribute(attrs@[i as int]));
        }
        match FromMetadata::maybe_from(&attrs[i]) {
            Ok(Some(m)) => {
                let ghost before = oks(rs.take(i as int));
                proof {
                    assert(before.push(Some(m@)).drop_last() =~= before);
                }
                acc = acc.merge(m);
            },
            Ok(None) => {
                let ghost before = oks(rs.take(i as int));
                proof {
                    assert(before.push(None::<Seq<SpecPath>>).drop_last() =~= before);
                }
            },
            Err(mut es) => {
                let ghost before = errs(rs.take(i as int));
                let ghost prev = bad@;
                let ghost added = errors_view(es@);
                bad.append(&mut es);
                failed = true;
                proof {
                    assert(errors_view(bad@) =~= errors_view(prev) + added);
                    assert(before.push(added).drop_last() =~= before);
                }
            },
        }
        i = i + 1;
    }
    assert(rs.take(n as int) =~= rs);
    if failed {
        let r = Err(bad);
        let ghost answers = Seq::<Result<(), Seq<char>>>::empty();
        assert(names_view(r) == spec_types_to_convert(attrs@, answers));
        assert(from_answers_fit(attrs@, answers));
        r
    } else {
        let r = acc.types();
        let ghost answers = choose|answers: Seq<Result<(), Seq<char>>>|
            answers_fit(acc@, answers) && names_view(r) == #[trigger] spec_types(acc@, answers);
        assert(spec_from_types(attrs@) == Ok::<Seq<SpecPath>, Seq<SpecError>>(acc@));
        assert(from_answers_fit(attrs@, answers));
        assert(names_view(r) == spec_types_to_convert(attrs@, answers));
        r
    }
}

} // verus!
