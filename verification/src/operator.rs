//! The binary operators of the language and the matcher that recognises
//! them in a token sequence.

use crate::text::push_char;
use crate::token::{tokens_view, Token, TokenView};
use vstd::prelude::*;

verus! {

/// A binary operator.
#[derive(Clone, Copy, Debug, PartialEq, Eq, Structural)]
pub enum BinaryOperator {
    /// `+`
    Add,
    /// `-`
    Sub,
    /// `*`
    Mul,
    /// `/`
    Div,
    /// `%`
    Rem,
    /// `&`
    BitAnd,
    /// `|`
    BitOr,
    /// `^`
    BitXor,
    /// `<<`
    Shl,
    /// `>>`
    Shr,
    /// `==`
    Eq,
    /// `<=`
    Le,
    /// `>=`
    Ge,
    /// `<`
    Lt,
    /// `>`
    Gt,
    /// `!=`
    Ne,
    /// `&&`
    And,
    /// `||`
    Or,
}

/// The operator spelled by one punctuation character.
pub open spec fn single_operator(ch: char) -> Option<BinaryOperator> {
    if ch == '+' {
        Some(BinaryOperator::Add)
    } else if ch == '-' {
        Some(BinaryOperator::Sub)
    } else if ch == '*' {
        Some(BinaryOperator::Mul)
    } else if ch == '/' {
        Some(BinaryOperator::Div)
    } else if ch == '%' {
        Some(BinaryOperator::Rem)
    } else if ch == '&' {
        Some(BinaryOperator::BitAnd)
    } else if ch == '|' {
        Some(BinaryOperator::BitOr)
    } else if ch == '^' {
        Some(BinaryOperator::BitXor)
    } else if ch == '<' {
        Some(BinaryOperator::Lt)
    } else if ch == '>' {
        Some(BinaryOperator::Gt)
    } else {
        None
    }
}

/// The operator spelled by two punctuation characters.
pub open spec fn double_operator(first: char, second: char) -> Option<BinaryOperator> {
    if first == '<' && second == '<' {
        Some(BinaryOperator::Shl)
    } else if first == '>' && second == '>' {
        Some(BinaryOperator::Shr)
    } else if first == '=' && second == '=' {
        Some(BinaryOperator::Eq)
    } else if first == '<' && second == '=' {
        Some(BinaryOperator::Le)
    } else if first == '>' && second == '=' {
        Some(BinaryOperator::Ge)
    } else if first == '!' && second == '=' {
        Some(BinaryOperator::Ne)
    } else if first == '&' && second == '&' {
        Some(BinaryOperator::And)
    } else if first == '|' && second == '|' {
        Some(BinaryOperator::Or)
    } else {
        None
    }
}

/// The first character of an operator's spelling.
pub open spec fn first_char(operator: BinaryOperator) -> char {
    match operator {
        BinaryOperator::Add => '+',
        BinaryOperator::Sub => '-',
        BinaryOperator::Mul => '*',
        BinaryOperator::Div => '/',
        BinaryOperator::Rem => '%',
        BinaryOperator::BitAnd | BinaryOperator::And => '&',
        BinaryOperator::BitOr | BinaryOperator::Or => '|',
        BinaryOperator::BitXor => '^',
        BinaryOperator::Shl | BinaryOperator::Le | BinaryOperator::Lt => '<',
        BinaryOperator::Shr | BinaryOperator::Ge | BinaryOperator::Gt => '>',
        BinaryOperator::Eq => '=',
        BinaryOperator::Ne => '!',
    }
}

/// The second character of an operator's spelling, if it has two.
pub open spec fn second_char(operator: BinaryOperator) -> Option<char> {
    match operator {
        BinaryOperator::Shl => Some('<'),
        BinaryOperator::Shr => Some('>'),
        BinaryOperator::Eq | BinaryOperator::Le | BinaryOperator::Ge | BinaryOperator::Ne => Some(
            '=',
        ),
        BinaryOperator::And => Some('&'),
        BinaryOperator::Or => Some('|'),
        _ => None,
    }
}

/// The characters that spell an operator.
pub open spec fn operator_symbol(operator: BinaryOperator) -> Seq<char> {
    match second_char(operator) {
        Some(second) => seq![first_char(operator), second],
        None => seq![first_char(operator)],
    }
}

/// The tokens that spell an operator: one punctuation token per character,
/// the first joint with the second where there are two.
pub open spec fn operator_tokens(operator: BinaryOperator) -> Seq<TokenView> {
    match second_char(operator) {
        Some(second) => seq![
            TokenView::Punct { ch: first_char(operator), joint: true },
            TokenView::Punct { ch: second, joint: false },
        ],
        None => seq![TokenView::Punct { ch: first_char(operator), joint: false }],
    }
}

/// The two-character operator that starts at `pos`: a joint punctuation
/// character followed by a second one, together spelling an operator.
pub open spec fn double_operator_at(tokens: Seq<TokenView>, pos: int) -> Option<BinaryOperator> {
    if 0 <= pos && pos + 1 < tokens.len() {
        match (tokens[pos], tokens[pos + 1]) {
            (
                TokenView::Punct { ch: first, joint: true },
                TokenView::Punct { ch: second, .. },
            ) => double_operator(first, second),
            _ => None,
        }
    } else {
        None
    }
}

/// The operator that starts at `pos`, if any: a two-character operator
/// where one is spelled there, else the one-character operator of the
/// punctuation character at `pos`.
pub open spec fn operator_at(tokens: Seq<TokenView>, pos: int) -> Option<BinaryOperator> {
    if 0 <= pos < tokens.len() {
        match double_operator_at(tokens, pos) {
            Some(operator) => Some(operator),
            None => match tokens[pos] {
                TokenView::Punct { ch, .. } => single_operator(ch),
                _ => None,
            },
        }
    } else {
        None
    }
}

impl BinaryOperator {
    /// The one or two characters that spell this operator.
    pub fn chars(&self) -> (pair: (char, Option<char>))
        ensures
            pair.0 == first_char(*self),
            pair.1 == second_char(*self),
    {
        match self {
            BinaryOperator::Add => ('+', None),
            BinaryOperator::Sub => ('-', None),
            BinaryOperator::Mul => ('*', None),
            BinaryOperator::Div => ('/', None),
            BinaryOperator::Rem => ('%', None),
            BinaryOperator::BitAnd => ('&', None),
            BinaryOperator::BitOr => ('|', None),
            BinaryOperator::BitXor => ('^', None),
            BinaryOperator::Shl => ('<', Some('<')),
            BinaryOperator::Shr => ('>', Some('>')),
            BinaryOperator::Eq => ('=', Some('=')),
            BinaryOperator::Le => ('<', Some('=')),
            BinaryOperator::Ge => ('>', Some('=')),
            BinaryOperator::Lt => ('<', None),
            BinaryOperator::Gt => ('>', None),
            BinaryOperator::Ne => ('!', Some('=')),
            BinaryOperator::And => ('&', Some('&')),
            BinaryOperator::Or => ('|', Some('|')),
        }
    }

    /// The spelling of this operator as text.
    pub fn symbol(&self) -> (text: String)
        ensures
            text@ == operator_symbol(*self),
    {
        let (first, second) = self.chars();
        let mut out = String::new();
        push_char(&mut out, first);
        match second {
            Some(c) => {
                push_char(&mut out, c);
            },
            None => {},
        }
        assert(out@ =~= operator_symbol(*self));
        out
    }

    /// The tokens that spell this operator.
    pub fn to_tokens(&self) -> (tokens: Vec<Token>)
        ensures
            tokens_view(tokens@) == operator_tokens(*self),
    {
        let (first, second) = self.chars();
        let mut tokens: Vec<Token> = Vec::new();
        match second {
            Some(c) => {
                tokens.push(Token::Punct { ch: first, joint: true });
                tokens.push(Token::Punct { ch: c, joint: false });
            },
            None => {
                tokens.push(Token::Punct { ch: first, joint: false });
            },
        }
        assert(tokens_view(tokens@) =~= operator_tokens(*self));
        tokens
    }
}

fn single_operator_of(ch: char) -> (found: Option<BinaryOperator>)
    ensures
        found == single_operator(ch),
{
    if ch == '+' {
        Some(BinaryOperator::Add)
    } else if ch == '-' {
        Some(BinaryOperator::Sub)
    } else if ch == '*' {
        Some(BinaryOperator::Mul)
    } else if ch == '/' {
        Some(BinaryOperator::Div)
    } else if ch == '%' {
        Some(BinaryOperator::Rem)
    } else if ch == '&' {
        Some(BinaryOperator::BitAnd)
    } else if ch == '|' {
        Some(BinaryOperator::BitOr)
    } else if ch == '^' {
        Some(BinaryOperator::BitXor)
    } else if ch == '<' {
        Some(BinaryOperator::Lt)
    } else if ch == '>' {
        Some(BinaryOperator::Gt)
    } else {
        None
    }
}

fn double_operator_of(first: char, second: char) -> (found: Option<BinaryOperator>)
    ensures
        found == double_operator(first, second),
{
    if first == '<' && second == '<' {
        Some(BinaryOperator::Shl)
    } else if first == '>' && second == '>' {
        Some(BinaryOperator::Shr)
    } else if first == '=' && second == '=' {
        Some(BinaryOperator::Eq)
    } else if first == '<' && second == '=' {
        Some(BinaryOperator::Le)
    } else if first == '>' && second == '=' {
        Some(BinaryOperator::Ge)
    } else if first == '!' && second == '=' {
        Some(BinaryOperator::Ne)
    } else if first == '&' && second == '&' {
        Some(BinaryOperator::And)
    } else if first == '|' && second == '|' {
        Some(BinaryOperator::Or)
    } else {
        None
    }
}

/// Finds the two-character operator that starts at `pos`.
pub fn match_double_operator(tokens: &Vec<Token>, pos: usize) -> (found: Option<BinaryOperator>)
    ensures
        found == double_operator_at(tokens_view(tokens@), pos as int),
{
    if pos >= tokens.len() || pos + 1 >= tokens.len() {
        return None;
    }
    match (&tokens[pos], &tokens[pos + 1]) {
        (Token::Punct { ch, joint }, Token::Punct { ch: second, .. }) => {
            if *joint {
                double_operator_of(*ch, *second)
            } else {
                None
            }
        },
        _ => None,
    }
}

/// Finds the operator that starts at `pos`, without consuming anything.
pub fn match_operator(tokens: &Vec<Token>, pos: usize) -> (found: Option<BinaryOperator>)
    ensures
        found == operator_at(tokens_view(tokens@), pos as int),
{
    if pos >= tokens.len() {
        return None;
    }
    match match_double_operator(tokens, pos) {
        Some(operator) => Some(operator),
        None => match &tokens[pos] {
            Token::Punct { ch, .. } => single_operator_of(*ch),
            _ => None,
        },
    }
}

/// Tells whether one of the binary operators starts at `pos`. The answer
/// is pure lookahead: nothing is consumed.
pub fn peek_op(tokens: &Vec<Token>, pos: usize) -> (found: bool)
    ensures
        found == operator_at(tokens_view(tokens@), pos as int).is_some(),
{
    match_operator(tokens, pos).is_some()
}

} // verus!
