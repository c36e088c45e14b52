//! The input of the derive, held as plain values: the names, fields,
//! variants and attributes that the expansion reads, each with the span
//! that an error about it points at.

use proc_macro2::Span;
use vstd::prelude::*;

verus! {

/// One entry inside the brackets of a list attribute such as `#[From(A, B)]`.
#[derive(Debug)]
pub enum NestedMeta {
    /// A path, by its segments (`a::b::C` is `["a", "b", "C"]`).
    Path { segments: Vec<String>, span: Span },
    /// A nested list or name-value entry, such as `A(x)` or `a = 1`.
    Meta { span: Span },
    /// A literal, such as `"a"` or `1`.
    Lit { span: Span },
}

/// The shape of an attribute's arguments.
#[derive(Debug)]
pub enum Meta {
    /// `#[Name]`
    Path { span: Span },
    /// `#[Name(..)]`
    List { nested: Vec<NestedMeta>, span: Span },
    /// `#[Name = ..]`
    NameValue { span: Span },
}

/// An outer attribute: its path, its arguments (or the message of the error
/// that reading them gave), and its span.
#[derive(Debug)]
pub struct Attribute {
    pub path: Vec<String>,
    pub meta: Result<Meta, String>,
    pub span: Span,
}

/// A field of a struct or of an enum variant.
#[derive(Debug)]
pub struct Field {
    /// The field's name; `None` for a field of a tuple.
    pub ident: Option<String>,
    /// The segments of the field's type when that type is a path, without
    /// generic arguments (`std::vec::Vec<u8>` is `["std", "vec", "Vec"]`);
    /// `None` for any other type.
    pub ty_path: Option<Vec<String>>,
    pub attrs: Vec<Attribute>,
    pub span: Span,
}

/// How the fields of a variant are written.
#[derive(PartialEq, Eq, Structural, Clone, Copy, Debug)]
pub enum FieldsKind {
    Named,
    Unnamed,
    Unit,
}

/// A variant of an enum.
#[derive(Debug)]
pub struct Variant {
    pub ident: String,
    pub kind: FieldsKind,
    pub fields: Vec<Field>,
    pub attrs: Vec<Attribute>,
    pub span: Span,
}

/// The body of the data structure.
#[derive(Debug)]
pub enum Data {
    Struct { fields: Vec<Field> },
    Enum { variants: Vec<Variant> },
}

/// The data structure that the derive stands on.
#[derive(Debug)]
pub struct DeriveInput {
    pub ident: String,
    pub attrs: Vec<Attribute>,
    pub data: Data,
}

/// An error reported at a span.
#[derive(Debug)]
pub struct ParseError {
    pub message: String,
    pub span: Span,
}

/// The mathematical value of a `ParseError`.
pub struct SpecError {
    pub message: Seq<char>,
    pub span: Span,
}

impl View for ParseError {
    type V = SpecError;

    open spec fn view(&self) -> SpecError {
        SpecError { message: self.message@, span: self.span }
    }
}

/// The errors of a sequence, by value.
pub open spec fn errors_view(errors: Seq<ParseError>) -> Seq<SpecError> {
    errors.map_values(|e: ParseError| e@)
}

/// The texts of a sequence of strings.
pub open spec fn texts(strings: Seq<String>) -> Seq<Seq<char>> {
    strings.map_values(|s: String| s@)
}

/// What the derive emits: the generated code and the errors it reports.
#[derive(Debug)]
pub struct Expansion {
    pub code: String,
    pub errors: Vec<ParseError>,
}

/// The mathematical value of an `Expansion`.
pub struct SpecExpansion {
    pub code: Seq<char>,
    pub errors: Seq<SpecError>,
}

impl View for Expansion {
    type V = SpecExpansion;

    open spec fn view(&self) -> SpecExpansion {
        SpecExpansion { code: self.code@, errors: errors_view(self.errors@) }
    }
}

} // verus!
