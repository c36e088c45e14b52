//! The items of outside crates that the library relies on, and the part of
//! syn's grammar that their contracts speak of.

use crate::text::join_with;
use vstd::prelude::*;

verus! {

/// A source location of `proc_macro2`. The library only carries spans from
/// the input syntax to the errors it reports; it never looks inside one.
#[verifier::external_type_specification]
#[verifier::external_body]
pub struct ExSpan(proc_macro2::Span);

/// `c` may start an ASCII identifier.
pub open spec fn is_ident_start(c: char) -> bool {
    ('a' <= c && c <= 'z') || ('A' <= c && c <= 'Z') || c == '_'
}

/// `c` may continue an ASCII identifier.
pub open spec fn is_ident_continue(c: char) -> bool {
    is_ident_start(c) || ('0' <= c && c <= '9')
}

/// The words that syn 1 refuses as an identifier (`_` and Rust's keywords,
/// strict and reserved), together with `dyn`, which syn reads as the start
/// of a trait object type.
pub open spec fn is_reserved_word(s: Seq<char>) -> bool {
    ||| s == "_"@ || s == "abstract"@ || s == "as"@ || s == "become"@ || s == "box"@
    ||| s == "break"@ || s == "const"@ || s == "continue"@ || s == "crate"@ || s == "do"@
    ||| s == "else"@ || s == "enum"@ || s == "extern"@ || s == "false"@ || s == "final"@
    ||| s == "fn"@ || s == "for"@ || s == "if"@ || s == "impl"@ || s == "in"@ || s == "let"@
    ||| s == "loop"@ || s == "macro"@ || s == "match"@ || s == "mod"@ || s == "move"@
    ||| s == "mut"@ || s == "override"@ || s == "priv"@ || s == "pub"@ || s == "ref"@
    ||| s == "return"@ || s == "Self"@ || s == "self"@ || s == "static"@ || s == "struct"@
    ||| s == "super"@ || s == "trait"@ || s == "true"@ || s == "type"@ || s == "typeof"@
    ||| s == "unsafe"@ || s == "unsized"@ || s == "use"@ || s == "virtual"@ || s == "where"@
    ||| s == "while"@ || s == "yield"@ || s == "dyn"@
}

/// `s` is an ASCII identifier that is no reserved word: `a`, `Vec`, `u8_to_string`.
pub open spec fn is_plain_identifier(s: Seq<char>) -> bool {
    &&& s.len() > 0
    &&& is_ident_start(s[0])
    &&& forall|i: int| 1 <= i < s.len() ==> is_ident_continue(#[trigger] s[i])
    &&& !is_reserved_word(s)
}

/// `s` may stand as a segment of a path: a plain identifier, or one of
/// `self`, `super`, `crate` and `Self`.
pub open spec fn is_path_segment(s: Seq<char>) -> bool {
    is_plain_identifier(s) || s == "self"@ || s == "super"@ || s == "crate"@ || s == "Self"@
}

/// `text` is one or more path segments joined by `::`, such as `Option::Some`.
pub open spec fn is_plain_path(text: Seq<char>) -> bool {
    exists|segments: Seq<Seq<char>>|
        {
            &&& segments.len() > 0
            &&& forall|i: int| 0 <= i < segments.len() ==> is_path_segment(#[trigger] segments[i])
            &&& #[trigger] join_with(segments, "::"@) == text
        }
}

/// `text` is one or more plain identifiers joined by `::`, such as
/// `std::string::String`.
pub open spec fn is_plain_type(text: Seq<char>) -> bool {
    exists|segments: Seq<Seq<char>>|
        {
            &&& segments.len() > 0
            &&& forall|i: int| 0 <= i < segments.len() ==> is_plain_identifier(#[trigger] segments[i])
            &&& #[trigger] join_with(segments, "::"@) == text
        }
}

/// Calls `syn::parse_str::<syn::Path>` on `text` and keeps only whether it
/// succeeded, with the `Display` text of the error. The contract claims that
/// syn accepts every `::`-join of path segments (`is_plain_path`): the text
/// lexes the same way with the compiler's lexer and with proc-macro2's own,
/// and syn's path grammar reads each segment. Whether syn accepts any other
/// text, and the words of its error, are left unsaid.
#[verifier::external_body]
pub(crate) fn parse_path_text(text: &str) -> (r: Result<(), String>)
    ensures
        is_plain_path(text@) ==> r is Ok,
{
    match syn::parse_str::<syn::Path>(text) {
        Ok(_) => Ok(()),
        Err(e) => Err(e.to_string()),
    }
}

/// Calls `syn::parse_str::<syn::Type>` on `text` and keeps only whether it
/// succeeded, with the `Display` text of the error. The contract claims that
/// syn accepts every `::`-join of plain identifiers (`is_plain_type`) as a
/// type (a type path). Whether syn accepts any other text, and the words of
/// its error, are left unsaid.
#[verifier::external_body]
pub(crate) fn parse_type_text(text: &str) -> (r: Result<(), String>)
    ensures
        is_plain_type(text@) ==> r is Ok,
{
    match syn::parse_str::<syn::Type>(text) {
        Ok(_) => Ok(()),
        Err(e) => Err(e.to_string()),
    }
}

} // verus!
