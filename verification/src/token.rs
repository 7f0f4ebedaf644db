use vstd::prelude::*;

verus! {

/// The closed set of token kinds that the tokenizer can emit and the parser
/// can consume.
#[derive(Clone, Copy, PartialEq, Eq, Structural, Debug)]
pub enum TokenKind {
    BlockStart,
    BlockEnd,
    Number,
    Identifier,
    Unvariable,
    StringLit,
    Addition,
    Subtraction,
    Multiplication,
    Division,
    ParenOpen,
    ParenClose,
    QuestionMark,
    Semicolon,
    LessThan,
    LessOrEqual,
    GreaterThan,
    GreaterOrEqual,
    Equal,
}

/// One token: its raw source text and its kind. Immutable once produced.
#[derive(Debug)]
pub struct Token {
    pub raw: String,
    pub kind: TokenKind,
}

/// The mathematical model of a token: the raw text as a sequence of
/// characters, together with the kind.
pub ghost struct TokenV {
    pub raw: Seq<char>,
    pub kind: TokenKind,
}

impl View for Token {
    type V = TokenV;

    open spec fn view(&self) -> TokenV {
        TokenV { raw: self.raw@, kind: self.kind }
    }
}

/// The mathematical model of a token sequence.
pub open spec fn tokens_view(ts: Seq<Token>) -> Seq<TokenV> {
    ts.map_values(|t: Token| t@)
}

pub proof fn lemma_tokens_view_push(ts: Seq<Token>, t: Token)
    ensures
        tokens_view(ts.push(t)) == tokens_view(ts).push(t@),
{
    assert(tokens_view(ts.push(t)) =~= tokens_view(ts).push(t@));
}

impl Token {
    pub fn new(raw: String, kind: TokenKind) -> (t: Token)
        ensures
            t.raw@ == raw@,
            t.kind == kind,
    {
        Token { raw, kind }
    }
}

impl Clone for Token {
    fn clone(&self) -> (t: Token)
        ensures
            t == *self,
    {
        Token { raw: self.raw.clone(), kind: self.kind }
    }
}

} // verus!
