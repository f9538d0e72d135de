//! The host language's parser, asked whether a fragment of a template is an
//! expression or a statement of the host language.
//!
//! The host parser is built with its own lexer alone, so that what it says of
//! a text is the same in every process.
use vstd::prelude::*;

verus! {

/// Whether the host parser takes `src` as one expression.
pub uninterp spec fn host_expr_ok(src: Seq<u8>) -> bool;

/// Whether the host parser takes `src` as one statement.
pub uninterp spec fn host_stmt_ok(src: Seq<u8>) -> bool;

/// `syn::parse_str::<syn::Expr>` on `src` read as UTF-8: whether it returns an
/// expression. Text that is no UTF-8 is no expression. The tokens come from
/// the lexer of `proc-macro2` itself, which is the only one that is built in.
#[verifier::external_body]
pub(crate) fn expr_parses(src: &[u8]) -> (r: bool)
    ensures
        r == host_expr_ok(src@),
{
    match std::str::from_utf8(src) {
        Ok(s) => syn::parse_str::<syn::Expr>(s).is_ok(),
        Err(_) => false,
    }
}

/// `syn::parse_str::<syn::Stmt>` on `src` read as UTF-8: whether it returns a
/// statement. Text that is no UTF-8 is no statement. The tokens come from
/// the lexer of `proc-macro2` itself, which is the only one that is built in.
#[verifier::external_body]
pub(crate) fn stmt_parses(src: &[u8]) -> (r: bool)
    ensures
        r == host_stmt_ok(src@),
{
    match std::str::from_utf8(src) {
        Ok(s) => syn::parse_str::<syn::Stmt>(s).is_ok(),
        Err(_) => false,
    }
}

} // verus!
