//! Token trees from source text, through the lexer of `proc_macro2`.
//!
//! `proc_macro2` is built without its `proc-macro` feature, so the lexer
//! at work is always its own and never the compiler's.

use crate::token::{lemma_group_view, tokens_view, Delimiter, Token, TokenView};
use crate::vecs::reversed;
use vstd::prelude::*;

verus! {

/// A token stream of `proc_macro2`, opaque to the verifier.
#[verifier::external_type_specification]
#[verifier::external_body]
pub struct ExTokenStream(proc_macro2::TokenStream);

/// The error of the `proc_macro2` lexer, opaque to the verifier.
#[verifier::external_type_specification]
#[verifier::external_body]
pub struct ExLexError(proc_macro2::LexError);

/// The token trees that a stream holds, in order.
pub uninterp spec fn stream_trees(stream: proc_macro2::TokenStream) -> Seq<TokenView>;

/// The token trees that the lexer of `proc_macro2` makes of a text, or
/// `None` where it rejects the text.
pub uninterp spec fn lexed(source: Seq<char>) -> Option<Seq<TokenView>>;

/// One tree of a stream, taken apart one level: a group still holds its
/// contents as a stream.
pub enum RawTree {
    Group { delimiter: Delimiter, stream: proc_macro2::TokenStream },
    Ident { text: String },
    Punct { ch: char, joint: bool },
    Literal { text: String },
}

impl View for RawTree {
    type V = TokenView;

    open spec fn view(&self) -> TokenView {
        match self {
            RawTree::Group { delimiter, stream } => TokenView::Group {
                delimiter: *delimiter,
                tokens: stream_trees(*stream),
            },
            RawTree::Ident { text } => TokenView::Ident { text: text@ },
            RawTree::Punct { ch, joint } => TokenView::Punct { ch: *ch, joint: *joint },
            RawTree::Literal { text } => TokenView::Literal { text: text@ },
        }
    }
}

/// The views of a sequence of raw trees, in order.
pub open spec fn raw_trees_view(trees: Seq<RawTree>) -> Seq<TokenView> {
    Seq::new(trees.len(), |i: int| trees[i]@)
}

/// Lexes a text.
///
/// Wraps `<proc_macro2::TokenStream as FromStr>::from_str`. The contract
/// names the outcome: a stream whose trees are those that the lexer makes
/// of this text, or an error where the lexer rejects it.
#[verifier::external_body]
fn lex_stream(source: &str) -> (outcome: Result<proc_macro2::TokenStream, proc_macro2::LexError>)
    ensures
        match outcome {
            Ok(stream) => lexed(source@) == Some(stream_trees(stream)),
            Err(_) => lexed(source@) is None,
        },
{
    source.parse::<proc_macro2::TokenStream>()
}

/// Takes a stream apart, one level deep.
///
/// Wraps `proc_macro2::TokenStream::into_iter` and the accessors of the
/// four kinds of tree (`Group::delimiter`, `Group::stream`,
/// `Ident::to_string`, `Punct::as_char`, `Punct::spacing`,
/// `Literal::to_string`). The contract says that the trees come out in
/// order, each with its own delimiter, spelling or character, a group
/// with its contents still as a stream.
#[verifier::external_body]
fn split_stream(stream: proc_macro2::TokenStream) -> (trees: Vec<RawTree>)
    ensures
        raw_trees_view(trees@) == stream_trees(stream),
{
    stream.into_iter().map(|tree| match tree {
        proc_macro2::TokenTree::Group(g) => RawTree::Group { delimiter: match g.delimiter() {
            proc_macro2::Delimiter::Parenthesis => Delimiter::Parenthesis,
            proc_macro2::Delimiter::Brace => Delimiter::Brace,
            proc_macro2::Delimiter::Bracket => Delimiter::Bracket,
            proc_macro2::Delimiter::None => Delimiter::Invisible,
        }, stream: g.stream() },
        proc_macro2::TokenTree::Ident(i) => RawTree::Ident { text: i.to_string() },
        proc_macro2::TokenTree::Punct(p) => RawTree::Punct { ch: p.as_char(), joint: p.spacing() == proc_macro2::Spacing::Joint },
        proc_macro2::TokenTree::Literal(l) => RawTree::Literal { text: l.to_string() },
    }).collect()
}

/// The source text could not be split into tokens.
#[derive(Clone, Copy, Debug, PartialEq, Eq, Structural)]
pub struct SourceError {}

/// Converts a stream of `proc_macro2` into token trees of this library,
/// tree for tree.
pub fn tokens_from_stream(stream: proc_macro2::TokenStream) -> (tokens: Vec<Token>)
    ensures
        tokens_view(tokens@) == stream_trees(stream),
    decreases stream_trees(stream),
{
    let ghost all = stream_trees(stream);
    let trees = split_stream(stream);
    let ghost raw = trees@;
    let mut rest = reversed(trees);
    let mut tokens: Vec<Token> = Vec::new();
    while rest.len() > 0
        invariant
            all == stream_trees(stream),
            raw_trees_view(raw) == all,
            rest@.len() <= raw.len(),
            rest@ == raw.reverse().subrange(0, rest@.len() as int),
            tokens@.len() == raw.len() - rest@.len(),
            forall|j: int| 0 <= j < tokens@.len() ==> tokens@[j]@ == all[j],
        decreases rest.len(),
    {
        let ghost k = tokens@.len() as int;
        let tree = rest.pop().unwrap();
        assert(tree == raw.reverse()[raw.len() - 1 - k]);
        assert(tree == raw[k]);
        assert(all[k] == raw[k]@);
        let token = match tree {
            RawTree::Group { delimiter, stream: inner } => {
                proof {
                    assert(all[k]->tokens == stream_trees(inner));
                    assert(decreases_to!(all => all[k]));
                    assert(decreases_to!(all[k] => all[k]->tokens));
                }
                let tokens = tokens_from_stream(inner);
                let group = Token::Group { delimiter, tokens };
                proof {
                    lemma_group_view(group);
                }
                group
            },
            RawTree::Ident { text } => Token::Ident { text },
            RawTree::Punct { ch, joint } => Token::Punct { ch, joint },
            RawTree::Literal { text } => Token::Literal { text },
        };
        assert(token@ == all[k]);
        tokens.push(token);
        assert(rest@ =~= raw.reverse().subrange(0, rest@.len() as int));
    }
    assert(tokens_view(tokens@) =~= all);
    tokens
}

/// Splits a source text into token trees.
///
/// Succeeds exactly on the texts that the lexer accepts, with the trees
/// that it makes of them.
pub fn lex(source: &str) -> (outcome: Result<Vec<Token>, SourceError>)
    ensures
        match outcome {
            Ok(tokens) => lexed(source@) == Some(tokens_view(tokens@)),
            Err(_) => lexed(source@) is None,
        },
{
    match lex_stream(source) {
        Ok(stream) => Ok(tokens_from_stream(stream)),
        Err(_) => Err(SourceError {  }),
    }
}

} // verus!
