//! The calls into `darling` and `syn`, and the one into std's formatting, that resolution
//! relies on. Their contracts are believed, not proved.

use vstd::prelude::*;
use crate::text::{option_text, texts};

verus! {

/// What `darling::ast::NestedMeta::parse_meta_list` makes of a token text: the token text
/// of each item in order, or the message of the parse error.
pub uninterp spec fn meta_items_of(payload: Seq<char>) -> Result<Seq<Seq<char>>, Seq<char>>;

/// What `darling::util::path_to_string` makes of the path of an item: the key of a meta
/// item; nothing for a literal and for a text that is no item.
pub uninterp spec fn item_key_of(item: Seq<char>) -> Option<Seq<char>>;

/// What `darling::FromMeta::from_meta` for `syn::Ident` makes of a meta item's text: the
/// identifier, or the message of the error.
pub uninterp spec fn ident_of(item: Seq<char>) -> Result<Seq<char>, Seq<char>>;

/// What `darling::FromMeta::from_meta` for `syn::Expr` makes of a meta item's text: the
/// expression's tokens, or the message of the error.
pub uninterp spec fn expr_of(item: Seq<char>) -> Result<Seq<char>, Seq<char>>;

/// The message of `darling::Error::unknown_field_with_alts`.
pub uninterp spec fn unknown_field_text(name: Seq<char>, alternates: Seq<Seq<char>>) -> Seq<char>;

/// How std's `Debug` prints a list of strings.
pub uninterp spec fn debug_text(names: Seq<Seq<char>>) -> Seq<char>;

/// The message of `darling::Error::duplicate_field`.
pub open spec fn duplicate_field_text(name: Seq<char>) -> Seq<char> {
    "Duplicate field `"@ + name + "`"@
}

/// The message of `darling::Error::unsupported_format`.
pub open spec fn unsupported_format_text(format: Seq<char>) -> Seq<char> {
    "Unexpected meta-item format `"@ + format + "`"@
}

/// Splits a directive's argument tokens into its items with
/// `darling::ast::NestedMeta::parse_meta_list` and hands each item out as its token text.
/// The outcome depends on `payload` alone, which is all the contract claims.
#[verifier::external_body]
pub(crate) fn parse_meta_items(payload: &str) -> (r: Result<Vec<String>, String>)
    ensures
        match r {
            Ok(items) => meta_items_of(payload@) == Ok::<Seq<Seq<char>>, Seq<char>>(
                texts(items@),
            ),
            Err(message) => meta_items_of(payload@) == Err::<Seq<Seq<char>>, Seq<char>>(
                message@,
            ),
        },
{
    let tokens = match syn::parse_str::<proc_macro2::TokenStream>(payload) {
        Ok(tokens) => tokens,
        Err(e) => return Err(e.to_string()),
    };
    match darling::ast::NestedMeta::parse_meta_list(tokens) {
        Ok(items) => Ok(
            items.iter().map(|item| quote::ToTokens::to_token_stream(item).to_string()).collect(),
        ),
        Err(e) => Err(e.to_string()),
    }
}

/// Reads the key of an item with `darling::util::path_to_string`. A literal has no key,
/// nor has a text that is no item. The outcome depends on `item` alone, which is all the
/// contract claims.
#[verifier::external_body]
pub(crate) fn item_key(item: &str) -> (r: Option<String>)
    ensures
        item_key_of(item@) == option_text(r),
{
    match syn::parse_str::<darling::ast::NestedMeta>(item) {
        Ok(darling::ast::NestedMeta::Meta(meta)) => {
            Some(darling::util::path_to_string(meta.path()))
        },
        Ok(darling::ast::NestedMeta::Lit(_)) => None,
        Err(_) => None,
    }
}

/// Reads the value of a meta item as an identifier with `darling::FromMeta::from_meta` for
/// `syn::Ident`. The outcome depends on `item` alone, which is all the contract claims.
#[verifier::external_body]
pub(crate) fn ident_value(item: &str) -> (r: Result<String, String>)
    ensures
        match r {
            Ok(ident) => ident_of(item@) == Ok::<Seq<char>, Seq<char>>(ident@),
            Err(message) => ident_of(item@) == Err::<Seq<char>, Seq<char>>(message@),
        },
{
    let meta = match syn::parse_str::<syn::Meta>(item) {
        Ok(meta) => meta,
        Err(e) => return Err(e.to_string()),
    };
    let parsed: darling::Result<syn::Ident> = darling::FromMeta::from_meta(&meta);
    match parsed {
        Ok(ident) => Ok(ident.to_string()),
        Err(e) => Err(e.to_string()),
    }
}

/// Reads the value of a meta item as an expression with `darling::FromMeta::from_meta` for
/// `syn::Expr`. The outcome depends on `item` alone, which is all the contract claims.
#[verifier::external_body]
pub(crate) fn expr_value(item: &str) -> (r: Result<String, String>)
    ensures
        match r {
            Ok(expr) => expr_of(item@) == Ok::<Seq<char>, Seq<char>>(expr@),
            Err(message) => expr_of(item@) == Err::<Seq<char>, Seq<char>>(message@),
        },
{
    let meta = match syn::parse_str::<syn::Meta>(item) {
        Ok(meta) => meta,
        Err(e) => return Err(e.to_string()),
    };
    let parsed: darling::Result<syn::Expr> = darling::FromMeta::from_meta(&meta);
    match parsed {
        Ok(expr) => Ok(quote::ToTokens::to_token_stream(&expr).to_string()),
        Err(e) => Err(e.to_string()),
    }
}

/// The message of `darling::Error::duplicate_field`: the words `Duplicate field` and the
/// name between backticks.
#[verifier::external_body]
pub(crate) fn duplicate_field_message(name: &str) -> (r: String)
    ensures
        r@ == duplicate_field_text(name@),
{
    darling::Error::duplicate_field(name).to_string()
}

/// The message of `darling::Error::unsupported_format`: the words
/// `Unexpected meta-item format` and the format between backticks.
#[verifier::external_body]
pub(crate) fn unsupported_format_message(format: &str) -> (r: String)
    ensures
        r@ == unsupported_format_text(format@),
{
    darling::Error::unsupported_format(format).to_string()
}

/// The message of `darling::Error::unknown_field_with_alts`, which may suggest the
/// alternate closest to `name`. The message depends on the arguments alone, which is all
/// the contract claims.
#[verifier::external_body]
pub(crate) fn unknown_field_message(name: &str, alternates: &Vec<String>) -> (r: String)
    ensures
        r@ == unknown_field_text(name@, texts(alternates@)),
{
    darling::Error::unknown_field_with_alts(name, alternates.iter()).to_string()
}

/// A list of strings as std's `Debug` prints it. The text depends on the strings alone,
/// which is all the contract claims.
#[verifier::external_body]
pub(crate) fn debug_list(names: &Vec<String>) -> (r: String)
    ensures
        r@ == debug_text(texts(names@)),
{
    format!("{:?}", names)
}

} // verus!
