//! What `syn` makes of the spelling of tokens: which literals are strings
//! or integers, which words are identifiers, and how far a type reaches.

use crate::token::{clone_range, tokens_text, tokens_to_string, tokens_view, Token, TokenView};
use vstd::prelude::*;

verus! {

/// The kinds of literal that the language tells apart.
#[derive(Clone, Copy, Debug, PartialEq, Eq, Structural)]
pub enum LiteralKind {
    /// A string literal.
    Str,
    /// An integer literal.
    Int,
    /// Any other literal, or no literal at all.
    Other,
}

/// The kind of literal that `syn` reads a text as.
pub uninterp spec fn literal_kind(text: Seq<char>) -> LiteralKind;

/// Whether `syn` accepts a text as an identifier: a word that is no
/// keyword.
pub uninterp spec fn accepted_identifier(text: Seq<char>) -> bool;

/// How many token trees of a text are left behind the type that `syn`
/// parses at its start, or `None` where no type starts the text.
pub uninterp spec fn trees_after_type(text: Seq<char>) -> Option<nat>;

/// Classifies the spelling of a literal.
///
/// Wraps `syn::parse_str::<syn::Lit>` and tells the variants `Lit::Str`
/// and `Lit::Int` apart from the rest and from a failure to parse. The
/// contract names the outcome.
#[verifier::external_body]
pub(crate) fn classify_literal(text: &str) -> (kind: LiteralKind)
    ensures
        kind == literal_kind(text@),
{
    match syn::parse_str::<syn::Lit>(text) {
        Ok(syn::Lit::Str(_)) => LiteralKind::Str,
        Ok(syn::Lit::Int(_)) => LiteralKind::Int,
        _ => LiteralKind::Other,
    }
}

/// Tells whether a word is an identifier.
///
/// Wraps `syn::parse_str::<syn::Ident>`, which accepts a single word
/// that is not a keyword. The contract names the outcome.
#[verifier::external_body]
pub(crate) fn is_identifier(text: &str) -> (accepted: bool)
    ensures
        accepted == accepted_identifier(text@),
{
    syn::parse_str::<syn::Ident>(text).is_ok()
}

/// Parses a type at the start of a text and counts the token trees that
/// follow it.
///
/// Wraps `syn::parse::Parser::parse_str` with a parser that reads one
/// `syn::Type` and then takes the rest of the input as a token stream.
/// The contract names the outcome: the number of trees in that rest, or
/// `None` where lexing or the type fails.
#[verifier::external_body]
pub(crate) fn count_after_type(text: &str) -> (rest: Option<usize>)
    ensures
        match rest {
            Some(n) => trees_after_type(text@) == Some(n as nat),
            None => trees_after_type(text@) is None,
        },
{
    let parser = |input: syn::parse::ParseStream| {
        input.parse::<syn::Type>()?;
        input.parse::<proc_macro2::TokenStream>()
    };
    syn::parse::Parser::parse_str(parser, text).ok().map(|rest| rest.into_iter().count())
}

/// The width of a type, given how many token trees are at hand and how
/// many of them are left behind the type: the difference, or `None`
/// where no type was read or more are said to be left than are at hand.
pub open spec fn width_given(available: int, rest: Option<nat>) -> Option<int> {
    match rest {
        Some(rest) => if rest <= available {
            Some(available - rest)
        } else {
            None
        },
        None => None,
    }
}

/// How many of the tokens from `pos` on make up the type that starts
/// there: the tokens are written out as text, and as many are taken as
/// `syn` reads as one type. `None` where no type starts there.
pub open spec fn type_width(tokens: Seq<TokenView>, pos: int) -> Option<int> {
    if 0 <= pos <= tokens.len() {
        width_given(
            tokens.len() - pos,
            trees_after_type(tokens_text(tokens.subrange(pos, tokens.len() as int))),
        )
    } else {
        None
    }
}

/// Computes the width of a type from the number of token trees at hand
/// and the number left behind the type.
pub fn width_of_type(available: usize, rest: Option<usize>) -> (width: Option<usize>)
    ensures
        match width {
            Some(k) => width_given(
                available as int,
                match rest {
                    Some(n) => Some(n as nat),
                    None => None,
                },
            ) == Some(k as int) && k <= available,
            None => width_given(
                available as int,
                match rest {
                    Some(n) => Some(n as nat),
                    None => None,
                },
            ) is None,
        },
{
    match rest {
        Some(rest) => if rest <= available {
            Some(available - rest)
        } else {
            None
        },
        None => None,
    }
}

/// Measures the type that starts at `pos`.
pub fn measure_type(tokens: &Vec<Token>, pos: usize) -> (width: Option<usize>)
    ensures
        match width {
            Some(k) => type_width(tokens_view(tokens@), pos as int) == Some(k as int) && pos + k
                <= tokens.len(),
            None => type_width(tokens_view(tokens@), pos as int) is None,
        },
{
    if pos > tokens.len() {
        return None;
    }
    let tail = clone_range(tokens, pos, tokens.len());
    let text = tokens_to_string(&tail);
    width_of_type(tokens.len() - pos, count_after_type(text.as_str()))
}

} // verus!
