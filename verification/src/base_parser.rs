use vstd::prelude::*;

use crate::chain_reader::ChainReader;
use crate::errors::BasicError;
use crate::token::{Token, TokenKind};
use vstd::string::StringExecFns;

verus! {

/// The token-stream helper: "consume the next token unconditionally",
/// "consume only if it matches a given kind", and "consume only if it matches
/// one of several kinds" — the conditional forms never advance on mismatch.
pub struct BaseParser {
    pub chain_reader: ChainReader<Token>,
}

impl BaseParser {
    /// The tokens the stream was built over.
    pub open spec fn toks(self) -> Seq<Token> {
        self.chain_reader.data@
    }

    /// The current cursor position.
    pub open spec fn pos(self) -> int {
        self.chain_reader.pos as int
    }

    pub open spec fn wf(self) -> bool {
        self.chain_reader.wf()
    }

    pub fn new(tokens: Vec<Token>) -> (r: BaseParser)
        ensures
            r.wf(),
            r.toks() == tokens@,
            r.pos() == 0,
    {
        BaseParser { chain_reader: ChainReader::new(tokens) }
    }

    /// Consume the next token unconditionally; fails only when the stream is
    /// exhausted, and then leaves the cursor untouched.
    pub fn any(&mut self) -> (r: Result<Token, Box<BasicError>>)
        requires
            old(self).wf(),
        ensures
            final(self).wf(),
            final(self).toks() == old(self).toks(),
            if old(self).pos() < old(self).toks().len() {
                r matches Ok(t) && t == old(self).toks()[old(self).pos()] && final(self).pos()
                    == old(self).pos() + 1
            } else {
                r is Err && final(self).pos() == old(self).pos()
            },
    {
        let cur = self.chain_reader.get_current();
        match cur {
            Some(token) => {
                let t = token.clone();
                self.chain_reader.advance();
                Ok(t)
            },
            None => Err(BasicError::new(String::from_str("unexpected end of input"))),
        }
    }

    /// Peek at the next token; consume and return it only when its kind is
    /// exactly `token_type`, otherwise fail without consuming.
    pub fn expect(&mut self, token_type: TokenKind) -> (r: Result<Token, Box<BasicError>>)
        requires
            old(self).wf(),
        ensures
            final(self).wf(),
            final(self).toks() == old(self).toks(),
            if old(self).pos() < old(self).toks().len() && old(self).toks()[old(self).pos()].kind
                == token_type {
                r matches Ok(t) && t == old(self).toks()[old(self).pos()] && final(self).pos()
                    == old(self).pos() + 1
            } else {
                r is Err && final(self).pos() == old(self).pos()
            },
    {
        let cur = self.chain_reader.get_current();
        match cur {
            Some(token) => {
                if token.kind == token_type {
                    let t = token.clone();
                    self.chain_reader.advance();
                    Ok(t)
                } else {
                    Err(BasicError::new(String::from_str("unexpected token kind")))
                }
            },
            None => Err(BasicError::new(String::from_str("unexpected end of input"))),
        }
    }

    /// Peek at the next token; consume and return it only when its kind is
    /// one of `token_types`, otherwise fail without consuming.
    pub fn expect_m(&mut self, token_types: Vec<TokenKind>) -> (r: Result<
        Token,
        Box<BasicError>,
    >)
        requires
            old(self).wf(),
        ensures
            final(self).wf(),
            final(self).toks() == old(self).toks(),
            if old(self).pos() < old(self).toks().len() && token_types@.contains(
                old(self).toks()[old(self).pos()].kind,
            ) {
                r matches Ok(t) && t == old(self).toks()[old(self).pos()] && final(self).pos()
                    == old(self).pos() + 1
            } else {
                r is Err && final(self).pos() == old(self).pos()
            },
    {
        let cur = self.chain_reader.get_current();
        match cur {
            Some(token) => {
                let kind = token.kind;
                let mut found = false;
                let mut i: usize = 0;
                while i < token_types.len()
                    invariant
                        i <= token_types.len(),
                        found <==> exists|j: int| 0 <= j < i && token_types@[j] == kind,
                    decreases token_types.len() - i,
                {
                    if token_types[i] == kind {
                        found = true;
                    }
                    i = i + 1;
                }
                if found {
                    let t = token.clone();
                    self.chain_reader.advance();
                    Ok(t)
                } else {
                    Err(BasicError::new(String::from_str("unexpected token kind")))
                }
            },
            None => Err(BasicError::new(String::from_str("unexpected end of input"))),
        }
    }
}

} // verus!
