//! The classified tokens that the grammar reads, and the filter that removes
//! the ones without grammatical meaning.

use vstd::prelude::*;

verus! {

/// The class of a token.
#[allow(non_camel_case_types)]
#[derive(Clone, Copy, Debug, PartialEq, Eq, Structural)]
pub enum TokenType {
    /// An identifier or a keyword.
    NAME,
    /// An operator or a punctuation mark.
    OP,
    /// A number literal.
    NUMBER,
    /// A string literal.
    STRING,
    /// The start of a nested block.
    INDENT,
    /// The end of a nested block.
    DEDENT,
    /// The end of a logical line.
    NEWLINE,
    /// The end of the token stream.
    ENDMARKER,
    /// A comment.
    COMMENT,
    /// The end of a line that holds no statement.
    NL,
}

/// A token: its class, its exact source text, and where it stands in the
/// source (`start` and `end` as line and column, `line` the text of the
/// physical line).
#[derive(Clone, Copy, Debug, PartialEq, Eq)]
pub struct TokenInfo<'a> {
    pub typ: TokenType,
    pub string: &'a str,
    pub start: (usize, usize),
    pub end: (usize, usize),
    pub line: &'a str,
}

/// What the grammar reads of a token: its class and its text. Where the
/// token stands in the source is of no concern to it.
pub struct Lexeme {
    pub typ: TokenType,
    pub text: Seq<char>,
}

impl<'a> View for TokenInfo<'a> {
    type V = Lexeme;

    open spec fn view(&self) -> Lexeme {
        Lexeme { typ: self.typ, text: self.string@ }
    }
}

/// The lexemes of a run of tokens, in order.
pub open spec fn lexemes<'a>(tokens: Seq<TokenInfo<'a>>) -> Seq<Lexeme> {
    tokens.map_values(|t: TokenInfo<'a>| t@)
}

/// Whether a token class takes part in the grammar: blank lines and comments
/// do not.
pub open spec fn is_significant(typ: TokenType) -> bool {
    typ != TokenType::NL && typ != TokenType::COMMENT
}

/// The tokens of `tokens` that take part in the grammar, in their order.
pub open spec fn significant<'a>(tokens: Seq<TokenInfo<'a>>) -> Seq<TokenInfo<'a>> {
    tokens.filter(|t: TokenInfo<'a>| is_significant(t.typ))
}

/// Removes the tokens that are not relevant to parsing from the output of
/// the tokenizer.
pub fn get_parse_tokens<'a>(tokens: Vec<TokenInfo<'a>>) -> (kept: Vec<TokenInfo<'a>>)
    ensures
        kept@ == significant(tokens@),
{
    let mut kept: Vec<TokenInfo<'a>> = Vec::new();
    let mut i: usize = 0;
    while i < tokens.len()
        invariant
            i <= tokens.len(),
            kept@ == significant(tokens@.take(i as int)),
        decreases tokens.len() - i,
    {
        let t = tokens[i];
        proof {
            assert(tokens@.take(i + 1) =~= tokens@.take(i as int).push(t));
            tokens@.take(i as int).lemma_filter_push(t, |t: TokenInfo<'a>| is_significant(t.typ));
        }
        if t.typ != TokenType::NL && t.typ != TokenType::COMMENT {
            kept.push(t);
        }
        i += 1;
    }
    proof {
        assert(tokens@.take(i as int) =~= tokens@);
    }
    kept
}

} // verus!
