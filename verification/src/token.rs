//! Token trees: the input of the parser and the output of the lowering pass.

use crate::text::push_char;
use vstd::prelude::*;

verus! {

/// How a group of tokens is delimited.
#[derive(Clone, Copy, Debug, PartialEq, Eq, Structural)]
pub enum Delimiter {
    /// `( ... )`
    Parenthesis,
    /// `{ ... }`
    Brace,
    /// `[ ... ]`
    Bracket,
    /// A group without visible delimiters.
    Invisible,
}

/// One token tree.
#[derive(Debug, PartialEq, Eq)]
pub enum Token {
    /// A delimited sequence of token trees.
    Group { delimiter: Delimiter, tokens: Vec<Token> },
    /// A word: an identifier or a keyword.
    Ident { text: String },
    /// One punctuation character; `joint` tells that the next token follows
    /// it immediately and is punctuation too.
    Punct { ch: char, joint: bool },
    /// A literal, held as its source text.
    Literal { text: String },
}

/// The mathematical value of a [`Token`].
pub ghost enum TokenView {
    Group { delimiter: Delimiter, tokens: Seq<TokenView> },
    Ident { text: Seq<char> },
    Punct { ch: char, joint: bool },
    Literal { text: Seq<char> },
}

/// The mathematical value of one token.
pub open spec fn token_view(token: Token) -> TokenView
    decreases token,
{
    match token {
        Token::Group { delimiter, tokens } => TokenView::Group {
            delimiter,
            tokens: Seq::new(
                tokens@.len(),
                |i: int|
                    if 0 <= i < tokens@.len() {
                        token_view(tokens@[i])
                    } else {
                        TokenView::Punct { ch: ' ', joint: false }
                    },
            ),
        },
        Token::Ident { text } => TokenView::Ident { text: text@ },
        Token::Punct { ch, joint } => TokenView::Punct { ch, joint },
        Token::Literal { text } => TokenView::Literal { text: text@ },
    }
}

impl View for Token {
    type V = TokenView;

    open spec fn view(&self) -> TokenView {
        token_view(*self)
    }
}

/// The views of a sequence of tokens, in order.
pub open spec fn tokens_view(tokens: Seq<Token>) -> Seq<TokenView> {
    Seq::new(tokens.len(), |i: int| tokens[i]@)
}

/// The view of an optional token sequence.
pub open spec fn optional_tokens_view(tokens: Option<Vec<Token>>) -> Option<Seq<TokenView>> {
    match tokens {
        Some(v) => Some(tokens_view(v@)),
        None => None,
    }
}

/// The contents of a group, seen through its view, are the views of its
/// tokens.
pub proof fn lemma_group_view(token: Token)
    requires
        token is Group,
    ensures
        token@ is Group,
        token@->delimiter == token->delimiter,
        token@->tokens == tokens_view(token->tokens@),
{
    assert(token@->tokens =~= tokens_view(token->tokens@));
}

/// A prefix of a token sequence, extended by the next token.
pub proof fn lemma_tokens_view_push(tokens: Seq<Token>, token: Token)
    ensures
        tokens_view(tokens.push(token)) == tokens_view(tokens).push(token@),
{
    assert(tokens_view(tokens.push(token)) =~= tokens_view(tokens).push(token@));
}

impl Clone for Token {
    fn clone(&self) -> (out: Self)
        ensures
            out@ == self@,
        decreases self,
    {
        match self {
            Token::Group { delimiter, tokens } => {
                let mut inner: Vec<Token> = Vec::new();
                let mut i: usize = 0;
                while i < tokens.len()
                    invariant
                        i <= tokens.len(),
                        inner@.len() == i,
                        forall|j: int| 0 <= j < i ==> inner@[j]@ == tokens@[j]@,
                        self is Group,
                        *tokens == self->tokens,
                    decreases tokens.len() - i,
                {
                    let t = tokens[i].clone();
                    inner.push(t);
                    i += 1;
                }
                let out = Token::Group { delimiter: *delimiter, tokens: inner };
                proof {
                    lemma_group_view(out);
                    lemma_group_view(*self);
                    assert(tokens_view(inner@) =~= tokens_view(tokens@));
                }
                out
            },
            Token::Ident { text } => Token::Ident { text: text.clone() },
            Token::Punct { ch, joint } => Token::Punct { ch: *ch, joint: *joint },
            Token::Literal { text } => Token::Literal { text: text.clone() },
        }
    }
}

/// Copies the tokens of `tokens` from index `from` up to, not including,
/// index `to`.
pub fn clone_range(tokens: &Vec<Token>, from: usize, to: usize) -> (out: Vec<Token>)
    requires
        from <= to <= tokens.len(),
    ensures
        tokens_view(out@) == tokens_view(tokens@).subrange(from as int, to as int),
{
    let mut out: Vec<Token> = Vec::new();
    let mut i: usize = from;
    while i < to
        invariant
            from <= i <= to <= tokens.len(),
            out@.len() == i - from,
            forall|j: int| 0 <= j < i - from ==> out@[j]@ == tokens@[from + j]@,
        decreases to - i,
    {
        out.push(tokens[i].clone());
        i += 1;
    }
    assert(tokens_view(out@) =~= tokens_view(tokens@).subrange(from as int, to as int));
    out
}

/// Copies a whole token sequence.
pub fn clone_tokens(tokens: &Vec<Token>) -> (out: Vec<Token>)
    ensures
        tokens_view(out@) == tokens_view(tokens@),
{
    let out = clone_range(tokens, 0, tokens.len());
    assert(tokens_view(tokens@).subrange(0, tokens@.len() as int) =~= tokens_view(tokens@));
    out
}

/// Appends copies of the tokens of `more` to `out`.
pub fn extend_tokens(out: &mut Vec<Token>, more: &Vec<Token>)
    ensures
        tokens_view(final(out)@) == tokens_view(old(out)@) + tokens_view(more@),
{
    let mut i: usize = 0;
    while i < more.len()
        invariant
            i <= more.len(),
            tokens_view(out@) == tokens_view(old(out)@) + tokens_view(more@).subrange(0, i as int),
        decreases more.len() - i,
    {
        let ghost before = out@;
        let t = more[i].clone();
        out.push(t);
        proof {
            lemma_tokens_view_push(before, t);
            assert(tokens_view(more@).subrange(0, i as int).push(t@) =~= tokens_view(
                more@,
            ).subrange(0, i + 1));
        }
        i += 1;
    }
    assert(tokens_view(more@).subrange(0, more@.len() as int) =~= tokens_view(more@));
}

/// A punctuation token that stands alone.
pub open spec fn alone(ch: char) -> TokenView {
    TokenView::Punct { ch, joint: false }
}

/// A word.
pub open spec fn word(text: Seq<char>) -> TokenView {
    TokenView::Ident { text }
}

/// A group.
pub open spec fn group(delimiter: Delimiter, tokens: Seq<TokenView>) -> TokenView {
    TokenView::Group { delimiter, tokens }
}

/// Appends a punctuation token that stands alone.
pub fn push_alone(out: &mut Vec<Token>, ch: char)
    ensures
        tokens_view(final(out)@) == tokens_view(old(out)@).push(alone(ch)),
{
    let token = Token::Punct { ch, joint: false };
    proof {
        lemma_tokens_view_push(out@, token);
    }
    out.push(token);
}

/// Appends a word.
pub fn push_word(out: &mut Vec<Token>, text: &str)
    ensures
        tokens_view(final(out)@) == tokens_view(old(out)@).push(word(text@)),
{
    let token = Token::Ident { text: text.to_owned() };
    proof {
        lemma_tokens_view_push(out@, token);
    }
    out.push(token);
}

/// Appends a group.
pub fn push_group(out: &mut Vec<Token>, delimiter: Delimiter, tokens: Vec<Token>)
    ensures
        tokens_view(final(out)@) == tokens_view(old(out)@).push(
            group(delimiter, tokens_view(tokens@)),
        ),
{
    let token = Token::Group { delimiter, tokens };
    proof {
        lemma_group_view(token);
        lemma_tokens_view_push(out@, token);
    }
    out.push(token);
}

/// The sequence of one token.
pub fn single(token: Token) -> (out: Vec<Token>)
    ensures
        tokens_view(out@) == seq![token@],
{
    let mut out: Vec<Token> = Vec::new();
    out.push(token);
    assert(tokens_view(out@) =~= seq![token@]);
    out
}

/// The opening character of a delimiter, if it has one.
pub open spec fn opening_text(delimiter: Delimiter) -> Seq<char> {
    match delimiter {
        Delimiter::Parenthesis => seq!['('],
        Delimiter::Brace => seq!['{'],
        Delimiter::Bracket => seq!['['],
        Delimiter::Invisible => Seq::empty(),
    }
}

/// The closing character of a delimiter, if it has one.
pub open spec fn closing_text(delimiter: Delimiter) -> Seq<char> {
    match delimiter {
        Delimiter::Parenthesis => seq![')'],
        Delimiter::Brace => seq!['}'],
        Delimiter::Bracket => seq![']'],
        Delimiter::Invisible => Seq::empty(),
    }
}

/// What separates a token from the one before it in text: nothing at the
/// start and after a joint punctuation character, one space otherwise.
pub open spec fn separator_after(before: Seq<TokenView>) -> Seq<char> {
    if before.len() == 0 {
        Seq::empty()
    } else {
        match before.last() {
            TokenView::Punct { joint, .. } => if joint {
                Seq::empty()
            } else {
                seq![' ']
            },
            _ => seq![' '],
        }
    }
}

/// The text of one token: words and literals as they are spelled, a
/// punctuation character by itself, a group as its contents between its
/// delimiters.
pub open spec fn token_text(token: TokenView) -> Seq<char>
    decreases token, 0nat,
{
    match token {
        TokenView::Group { delimiter, tokens } => opening_text(delimiter) + tokens_text(tokens)
            + closing_text(delimiter),
        TokenView::Ident { text } => text,
        TokenView::Punct { ch, .. } => seq![ch],
        TokenView::Literal { text } => text,
    }
}

/// The text of a token sequence: the texts of its tokens in order, each
/// separated from the one before as [`separator_after`] says.
pub open spec fn tokens_text(tokens: Seq<TokenView>) -> Seq<char>
    decreases tokens, 1nat,
{
    if tokens.len() == 0 {
        Seq::empty()
    } else {
        tokens_text(tokens.drop_last()) + separator_after(tokens.drop_last()) + token_text(
            tokens.last(),
        )
    }
}

fn append_delimiter(out: &mut String, delimiter: Delimiter, closing: bool)
    ensures
        final(out)@ == old(out)@ + if closing {
            closing_text(delimiter)
        } else {
            opening_text(delimiter)
        },
{
    match delimiter {
        Delimiter::Parenthesis => push_char(
            out,
            if closing {
                ')'
            } else {
                '('
            },
        ),
        Delimiter::Brace => push_char(
            out,
            if closing {
                '}'
            } else {
                '{'
            },
        ),
        Delimiter::Bracket => push_char(
            out,
            if closing {
                ']'
            } else {
                '['
            },
        ),
        Delimiter::Invisible => {},
    }
    assert(out@ =~= old(out)@ + if closing {
        closing_text(delimiter)
    } else {
        opening_text(delimiter)
    });
}

/// The text of a prefix, extended by the next token.
pub proof fn lemma_tokens_text_step(tokens: Seq<TokenView>, i: int)
    requires
        0 <= i < tokens.len(),
    ensures
        tokens_text(tokens.subrange(0, i + 1)) == tokens_text(tokens.subrange(0, i))
            + separator_after(tokens.subrange(0, i)) + token_text(tokens[i]),
{
    let next = tokens.subrange(0, i + 1);
    assert(next.drop_last() =~= tokens.subrange(0, i));
    assert(next.last() == tokens[i]);
}

fn append_separator(out: &mut String, tokens: &Vec<Token>, i: usize)
    requires
        i <= tokens.len(),
    ensures
        final(out)@ == old(out)@ + separator_after(tokens_view(tokens@).subrange(0, i as int)),
{
    let ghost before = tokens_view(tokens@).subrange(0, i as int);
    if i > 0 {
        assert(before.last() == tokens@[i - 1]@);
        let joint = match &tokens[i - 1] {
            Token::Punct { joint, .. } => *joint,
            _ => false,
        };
        if !joint {
            push_char(out, ' ');
        }
    }
    assert(out@ =~= old(out)@ + separator_after(before));
}

fn append_token_text(out: &mut String, token: &Token)
    ensures
        final(out)@ == old(out)@ + token_text(token@),
    decreases token,
{
    match token {
        Token::Group { delimiter, tokens } => {
            proof {
                lemma_group_view(*token);
            }
            append_delimiter(out, *delimiter, false);
            append_tokens_text(out, tokens);
            append_delimiter(out, *delimiter, true);
            assert(out@ =~= old(out)@ + token_text(token@));
        },
        Token::Ident { text } => {
            out.append(text.as_str());
        },
        Token::Punct { ch, .. } => {
            push_char(out, *ch);
            assert(out@ =~= old(out)@ + token_text(token@));
        },
        Token::Literal { text } => {
            out.append(text.as_str());
        },
    }
}

/// Appends the text of `tokens` to `out`.
pub fn append_tokens_text(out: &mut String, tokens: &Vec<Token>)
    ensures
        final(out)@ == old(out)@ + tokens_text(tokens_view(tokens@)),
    decreases tokens@,
{
    let ghost all = tokens_view(tokens@);
    let mut i: usize = 0;
    assert(old(out)@ + tokens_text(all.subrange(0, 0)) =~= old(out)@);
    while i < tokens.len()
        invariant
            i <= tokens.len(),
            all == tokens_view(tokens@),
            out@ == old(out)@ + tokens_text(all.subrange(0, i as int)),
        decreases tokens.len() - i,
    {
        let ghost start = out@;
        append_separator(out, tokens, i);
        let ghost mid = out@;
        append_token_text(out, &tokens[i]);
        proof {
            lemma_tokens_text_step(all, i as int);
            assert(out@ == mid + token_text(all[i as int]));
            assert(out@ =~= old(out)@ + tokens_text(all.subrange(0, i + 1)));
        }
        i += 1;
    }
    assert(all.subrange(0, i as int) =~= all);
}

/// The text of a token sequence.
pub fn tokens_to_string(tokens: &Vec<Token>) -> (text: String)
    ensures
        text@ == tokens_text(tokens_view(tokens@)),
{
    let mut out = String::new();
    append_tokens_text(&mut out, tokens);
    assert(out@ =~= tokens_text(tokens_view(tokens@)));
    out
}

/// One token with the groups without delimiters in it dissolved: such a
/// group gives way to its contents, any other group keeps its delimiter
/// around its dissolved contents.
pub open spec fn spliced_token(token: TokenView) -> Seq<TokenView>
    decreases token, 0nat,
{
    match token {
        TokenView::Group { delimiter, tokens } => if delimiter == Delimiter::Invisible {
            spliced(tokens)
        } else {
            seq![TokenView::Group { delimiter, tokens: spliced(tokens) }]
        },
        _ => seq![token],
    }
}

/// A token sequence with the groups without delimiters dissolved, at
/// every depth.
pub open spec fn spliced(tokens: Seq<TokenView>) -> Seq<TokenView>
    decreases tokens, 1nat,
{
    if tokens.len() == 0 {
        Seq::empty()
    } else {
        spliced(tokens.drop_last()) + spliced_token(tokens.last())
    }
}

/// Dissolves the groups without delimiters, at every depth: such groups
/// come from macro expansion and stand for their contents.
pub fn splice_invisible(tokens: &Vec<Token>) -> (out: Vec<Token>)
    ensures
        tokens_view(out@) == spliced(tokens_view(tokens@)),
    decreases tokens@,
{
    let ghost all = tokens_view(tokens@);
    let mut out: Vec<Token> = Vec::new();
    let mut i: usize = 0;
    assert(tokens_view(out@) =~= spliced(all.subrange(0, 0)));
    while i < tokens.len()
        invariant
            i <= tokens.len(),
            all == tokens_view(tokens@),
            tokens_view(out@) == spliced(all.subrange(0, i as int)),
        decreases tokens.len() - i,
    {
        proof {
            let next = all.subrange(0, i + 1);
            assert(next.drop_last() =~= all.subrange(0, i as int));
            assert(next.last() == all[i as int]);
        }
        match &tokens[i] {
            Token::Group { delimiter, tokens: inner } => {
                proof {
                    lemma_group_view(tokens@[i as int]);
                }
                let contents = splice_invisible(inner);
                match delimiter {
                    Delimiter::Invisible => {
                        extend_tokens(&mut out, &contents);
                    },
                    _ => {
                        let ghost before = tokens_view(out@);
                        push_group(&mut out, *delimiter, contents);
                        assert(tokens_view(out@) =~= before + spliced_token(all[i as int]));
                    },
                }
            },
            other => {
                let ghost before = tokens_view(out@);
                let copy = other.clone();
                proof {
                    lemma_tokens_view_push(out@, copy);
                }
                out.push(copy);
                assert(tokens_view(out@) =~= before + spliced_token(all[i as int]));
            },
        }
        i += 1;
    }
    assert(all.subrange(0, i as int) =~= all);
    out
}

} // verus!
