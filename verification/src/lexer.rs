use vstd::prelude::*;

use crate::chain_reader::ChainReader;
use crate::token::{Token, TokenKind, TokenV, lemma_tokens_view_push, tokens_view};
use crate::utils::{
    char_to_string, is_digit, is_digit_char, is_identifier_char, is_identifier_char_spec,
    push_char,
};

verus! {

/// The kind of the one-character token that `c` is emitted as, if `c` is one
/// of the two sigil characters.
pub open spec fn special_kind(c: char) -> Option<TokenKind> {
    if c == '<' {
        Some(TokenKind::BlockStart)
    } else if c == '>' {
        Some(TokenKind::BlockEnd)
    } else {
        None
    }
}

/// The first position at or after `i` that does not hold a decimal digit:
/// the exclusive end of the digit run starting at `i`.
pub open spec fn digit_run_end(s: Seq<char>, i: int) -> int
    decreases s.len() - i,
{
    if i < s.len() && is_digit_char(s[i]) {
        digit_run_end(s, i + 1)
    } else {
        i
    }
}

/// The first position at or after `i` that does not hold an
/// identifier-continuation character: the exclusive end of the identifier run
/// starting at `i`.
pub open spec fn ident_run_end(s: Seq<char>, i: int) -> int
    decreases s.len() - i,
{
    if i < s.len() && is_identifier_char_spec(s[i]) {
        ident_run_end(s, i + 1)
    } else {
        i
    }
}

pub proof fn lemma_digit_run_end(s: Seq<char>, i: int)
    requires
        0 <= i <= s.len(),
    ensures
        i <= digit_run_end(s, i) <= s.len(),
    decreases s.len() - i,
{
    if i < s.len() && is_digit_char(s[i]) {
        lemma_digit_run_end(s, i + 1);
    }
}

pub proof fn lemma_ident_run_end(s: Seq<char>, i: int)
    requires
        0 <= i <= s.len(),
    ensures
        i <= ident_run_end(s, i) <= s.len(),
    decreases s.len() - i,
{
    if i < s.len() && is_identifier_char_spec(s[i]) {
        lemma_ident_run_end(s, i + 1);
    }
}

/// The pending literal buffer as a token sequence: one Unvariable token when
/// it is non-empty, nothing when it is empty.
pub open spec fn flush_pending(pending: Seq<char>) -> Seq<TokenV> {
    if pending.len() > 0 {
        seq![TokenV { raw: pending, kind: TokenKind::Unvariable }]
    } else {
        Seq::<TokenV>::empty()
    }
}

/// The token sequence produced from `s` starting at position `i`, with
/// `pending` the literal text accumulated so far. Characters are classified
/// by priority: the sigils `<` and `>` become one-character tokens, a decimal
/// digit starts a greedy Number token, `&` starts a greedy Identifier token,
/// and anything else joins the pending literal buffer, which is flushed as one
/// Unvariable token before each structured token and at the end of the input.
pub open spec fn spec_tokenize(s: Seq<char>, i: int, pending: Seq<char>) -> Seq<TokenV>
    decreases s.len() - i,
    via spec_tokenize_decreases
{
    if i < 0 || i >= s.len() {
        flush_pending(pending)
    } else {
        let c = s[i];
        if special_kind(c) is Some {
            flush_pending(pending) + seq![TokenV { raw: seq![c], kind: special_kind(c)->0 }]
                + spec_tokenize(s, i + 1, Seq::<char>::empty())
        } else if is_digit_char(c) {
            let e = digit_run_end(s, i + 1);
            flush_pending(pending) + seq![TokenV { raw: s.subrange(i, e), kind: TokenKind::Number }]
                + spec_tokenize(s, e, Seq::<char>::empty())
        } else if c == '&' {
            let e = ident_run_end(s, i + 1);
            flush_pending(pending)
                + seq![TokenV { raw: s.subrange(i, e), kind: TokenKind::Identifier }]
                + spec_tokenize(s, e, Seq::<char>::empty())
        } else {
            spec_tokenize(s, i + 1, pending.push(c))
        }
    }
}

#[via_fn]
proof fn spec_tokenize_decreases(s: Seq<char>, i: int, pending: Seq<char>) {
    if 0 <= i < s.len() {
        lemma_digit_run_end(s, i + 1);
        lemma_ident_run_end(s, i + 1);
    }
}

proof fn lemma_tokenize_plain_run(s: Seq<char>, i: int, pending: Seq<char>)
    requires
        0 <= i <= s.len(),
        forall|k: int|
            i <= k < s.len() ==> (#[trigger] s[k]) != '<' && s[k] != '>' && !is_digit_char(s[k])
                && s[k] != '&',
    ensures
        spec_tokenize(s, i, pending) == flush_pending(pending + s.subrange(i, s.len() as int)),
    decreases s.len() - i,
{
    if i < s.len() {
        lemma_tokenize_plain_run(s, i + 1, pending.push(s[i]));
        assert(pending.push(s[i]) + s.subrange(i + 1, s.len() as int) =~= pending + s.subrange(
            i,
            s.len() as int,
        ));
    } else {
        assert(pending + s.subrange(i, s.len() as int) =~= pending);
    }
}

/// Tokenizing text that holds no sigil (`<`, `>`), no decimal digit and no
/// `&` yields exactly one Unvariable token whose raw text is the input
/// verbatim.
pub proof fn lemma_tokenize_plain_text(s: Seq<char>)
    requires
        s.len() > 0,
        forall|k: int|
            0 <= k < s.len() ==> (#[trigger] s[k]) != '<' && s[k] != '>' && !is_digit_char(s[k])
                && s[k] != '&',
    ensures
        spec_tokenize(s, 0, Seq::<char>::empty()) == seq![
            TokenV { raw: s, kind: TokenKind::Unvariable },
        ],
{
    lemma_tokenize_plain_run(s, 0, Seq::<char>::empty());
    assert(Seq::<char>::empty() + s.subrange(0, s.len() as int) =~= s);
}

/// Every Identifier token the tokenizer emits begins with the `&` sigil.
pub proof fn lemma_identifier_tokens_start_with_sigil(
    s: Seq<char>,
    i: int,
    pending: Seq<char>,
    k: int,
)
    requires
        0 <= k < spec_tokenize(s, i, pending).len(),
        spec_tokenize(s, i, pending)[k].kind == TokenKind::Identifier,
    ensures
        spec_tokenize(s, i, pending)[k].raw.len() > 0,
        spec_tokenize(s, i, pending)[k].raw[0] == '&',
    decreases s.len() - i,
{
    if 0 <= i < s.len() {
        let c = s[i];
        if special_kind(c) is Some {
            let pre = flush_pending(pending) + seq![
                TokenV { raw: seq![c], kind: special_kind(c)->0 },
            ];
            if k >= pre.len() {
                lemma_identifier_tokens_start_with_sigil(s, i + 1, Seq::<char>::empty(), k
                    - pre.len());
            }
        } else if is_digit_char(c) {
            let e = digit_run_end(s, i + 1);
            lemma_digit_run_end(s, i + 1);
            let pre = flush_pending(pending) + seq![
                TokenV { raw: s.subrange(i, e), kind: TokenKind::Number },
            ];
            if k >= pre.len() {
                lemma_identifier_tokens_start_with_sigil(s, e, Seq::<char>::empty(), k
                    - pre.len());
            }
        } else if c == '&' {
            let e = ident_run_end(s, i + 1);
            lemma_ident_run_end(s, i + 1);
            let pre = flush_pending(pending) + seq![
                TokenV { raw: s.subrange(i, e), kind: TokenKind::Identifier },
            ];
            if k < pre.len() {
                assert(spec_tokenize(s, i, pending)[k].raw == s.subrange(i, e));
                assert(s.subrange(i, e)[0] == '&');
            } else {
                lemma_identifier_tokens_start_with_sigil(s, e, Seq::<char>::empty(), k
                    - pre.len());
            }
        } else {
            lemma_identifier_tokens_start_with_sigil(s, i + 1, pending.push(c), k);
        }
    }
}

/// The tokenizer: consumes a character buffer, produces the ordered token
/// sequence.
#[derive(Debug)]
pub struct Lexer {
    pub string_reader: ChainReader<char>,
}

impl Lexer {
    pub open spec fn wf(self) -> bool {
        self.string_reader.wf()
    }

    /// The characters the lexer was built over.
    pub open spec fn chars(self) -> Seq<char> {
        self.string_reader.data@
    }

    /// The current cursor position.
    pub open spec fn pos(self) -> int {
        self.string_reader.pos as int
    }

    pub fn new(code: String) -> (l: Lexer)
        ensures
            l.wf(),
            l.chars() == code@,
            l.pos() == 0,
    {
        let text = code.as_str();
        let n = text.unicode_len();
        let mut chars: Vec<char> = Vec::new();
        let mut i: usize = 0;
        while i < n
            invariant
                i <= n,
                n == text@.len(),
                text@ == code@,
                chars@ == code@.subrange(0, i as int),
            decreases n - i,
        {
            let c = text.get_char(i);
            chars.push(c);
            i = i + 1;
            proof {
                assert(chars@ =~= code@.subrange(0, i as int));
            }
        }
        proof {
            assert(chars@ =~= code@);
        }
        Lexer { string_reader: ChainReader::new(chars) }
    }

    /// Emit the one-character token for a sigil character, advancing past it;
    /// for any other character, leave the cursor untouched and emit nothing.
    pub fn handle_special(&mut self, c: char) -> (r: Option<Token>)
        requires
            old(self).wf(),
        ensures
            final(self).wf(),
            final(self).chars() == old(self).chars(),
            match r {
                Some(t) => {
                    &&& special_kind(c) == Some(t.kind)
                    &&& t.raw@ == seq![c]
                    &&& final(self).pos() == if old(self).pos() < old(self).chars().len() {
                        old(self).pos() + 1
                    } else {
                        old(self).pos()
                    }
                },
                None => special_kind(c) is None && final(self).pos() == old(self).pos(),
            },
    {
        let kind_o = if c == '<' {
            Some(TokenKind::BlockStart)
        } else if c == '>' {
            Some(TokenKind::BlockEnd)
        } else {
            None
        };

        match kind_o {
            Some(kind) => {
                self.string_reader.advance();
                Some(Token::new(char_to_string(c), kind))
            },
            None => None,
        }
    }

    /// Advance past the current character and greedily append every
    /// immediately following decimal digit to `c`; the accumulated text
    /// becomes a Number token.
    pub fn handle_number(&mut self, c: char) -> (t: Token)
        requires
            old(self).wf(),
        ensures
            final(self).wf(),
            final(self).chars() == old(self).chars(),
            t.kind == TokenKind::Number,
            ({
                let p1 = if old(self).pos() < old(self).chars().len() {
                    old(self).pos() + 1
                } else {
                    old(self).pos()
                };
                let e = digit_run_end(old(self).chars(), p1);
                &&& final(self).pos() == e
                &&& p1 <= e
                &&& t.raw@ == seq![c] + old(self).chars().subrange(p1, e)
            }),
    {
        let mut raw = char_to_string(c);
        self.string_reader.advance();
        let ghost s = self.string_reader.data@;
        let ghost p1 = self.string_reader.pos as int;
        proof {
            lemma_digit_run_end(s, p1);
        }
        loop
            invariant
                self.wf(),
                self.string_reader.data@ == s,
                0 <= p1 <= self.string_reader.pos as int <= s.len(),
                digit_run_end(s, p1) == digit_run_end(s, self.string_reader.pos as int),
                raw@ == seq![c] + s.subrange(p1, self.string_reader.pos as int),
            ensures
                self.wf(),
                self.string_reader.data@ == s,
                p1 <= self.string_reader.pos as int <= s.len(),
                digit_run_end(s, p1) == self.string_reader.pos as int,
                raw@ == seq![c] + s.subrange(p1, self.string_reader.pos as int),
            decreases s.len() - self.string_reader.pos,
        {
            let cur_o = self.string_reader.get_current();
            let cur: Option<char> = match cur_o {
                Some(ch) => Some(*ch),
                None => None,
            };
            match cur {
                None => {
                    break;
                },
                Some(current) => {
                    if !is_digit(current) {
                        break;
                    }
                    let ghost pos0 = self.string_reader.pos as int;
                    push_char(&mut raw, current);
                    self.string_reader.advance();
                    proof {
                        assert(s.subrange(p1, pos0 + 1) =~= s.subrange(p1, pos0).push(
                            s[pos0],
                        ));
                        assert(raw@ =~= seq![c] + s.subrange(
                            p1,
                            self.string_reader.pos as int,
                        ));
                    }
                },
            }
        }
        Token::new(raw, TokenKind::Number)
    }

    /// Advance past the current character and greedily append every
    /// immediately following identifier-continuation character to `c`; the
    /// accumulated text becomes an Identifier token.
    pub fn handle_identifer(&mut self, c: char) -> (t: Token)
        requires
            old(self).wf(),
        ensures
            final(self).wf(),
            final(self).chars() == old(self).chars(),
            t.kind == TokenKind::Identifier,
            ({
                let p1 = if old(self).pos() < old(self).chars().len() {
                    old(self).pos() + 1
                } else {
                    old(self).pos()
                };
                let e = ident_run_end(old(self).chars(), p1);
                &&& final(self).pos() == e
                &&& p1 <= e
                &&& t.raw@ == seq![c] + old(self).chars().subrange(p1, e)
            }),
    {
        let mut raw = char_to_string(c);
        self.string_reader.advance();
        let ghost s = self.string_reader.data@;
        let ghost p1 = self.string_reader.pos as int;
        proof {
            lemma_ident_run_end(s, p1);
        }
        loop
            invariant
                self.wf(),
                self.string_reader.data@ == s,
                0 <= p1 <= self.string_reader.pos as int <= s.len(),
                ident_run_end(s, p1) == ident_run_end(s, self.string_reader.pos as int),
                raw@ == seq![c] + s.subrange(p1, self.string_reader.pos as int),
            ensures
                self.wf(),
                self.string_reader.data@ == s,
                p1 <= self.string_reader.pos as int <= s.len(),
                ident_run_end(s, p1) == self.string_reader.pos as int,
                raw@ == seq![c] + s.subrange(p1, self.string_reader.pos as int),
            decreases s.len() - self.string_reader.pos,
        {
            let cur_o = self.string_reader.get_current();
            let cur: Option<char> = match cur_o {
                Some(ch) => Some(*ch),
                None => None,
            };
            match cur {
                None => {
                    break;
                },
                Some(current) => {
                    if !is_identifier_char(current) {
                        break;
                    }
                    push_char(&mut raw, current);
                    self.string_reader.advance();
                    proof {
                        assert(raw@ =~= seq![c] + s.subrange(
                            p1,
                            self.string_reader.pos as int,
                        ));
                    }
                },
            }
        }
        Token::new(raw, TokenKind::Identifier)
    }

    /// Consume the rest of the character buffer and produce the ordered token
    /// sequence. Never fails: any text is representable as tokens.
    pub fn tokenize(&mut self) -> (r: Vec<Token>)
        requires
            old(self).wf(),
        ensures
            final(self).wf(),
            final(self).chars() == old(self).chars(),
            final(self).pos() == old(self).chars().len(),
            tokens_view(r@) == spec_tokenize(
                old(self).chars(),
                old(self).pos(),
                Seq::<char>::empty(),
            ),
    {
        let mut tokens: Vec<Token> = Vec::new();
        let mut raw = String::new();
        let ghost s = self.string_reader.data@;
        let ghost start = self.string_reader.pos as int;
        loop
            invariant
                self.wf(),
                self.string_reader.data@ == s,
                0 <= start <= self.string_reader.pos as int <= s.len(),
                spec_tokenize(s, start, Seq::<char>::empty()) == tokens_view(tokens@)
                    + spec_tokenize(s, self.string_reader.pos as int, raw@),
            ensures
                self.wf(),
                self.string_reader.data@ == s,
                self.string_reader.pos == s.len(),
                spec_tokenize(s, start, Seq::<char>::empty()) == tokens_view(tokens@)
                    + spec_tokenize(s, self.string_reader.pos as int, raw@),
            decreases s.len() - self.string_reader.pos,
        {
            let cur_o = self.string_reader.get_current();
            let cur: Option<char> = match cur_o {
                Some(ch) => Some(*ch),
                None => None,
            };
            match cur {
                None => {
                    break;
                },
                Some(current) => {
                    let ghost pos0 = self.string_reader.pos as int;
                    let ghost tokens0 = tokens@;
                    let ghost raw0 = raw@;
                    let mut token_o: Option<Token> = None;
                    let mut unvariable = false;
                    if let Some(found_token) = self.handle_special(current) {
                        token_o = Some(found_token);
                    } else if is_digit(current) {
                        token_o = Some(self.handle_number(current));
                    } else if current == '&' {
                        // Identifiers start with &
                        token_o = Some(self.handle_identifer(current));
                    } else {
                        unvariable = true;
                        push_char(&mut raw, current);
                        self.string_reader.advance();
                    }

                    if !unvariable {
                        if !raw.as_str().is_empty() {
                            let tmp_token = Token::new(raw, TokenKind::Unvariable);
                            proof {
                                lemma_tokens_view_push(tokens@, tmp_token);
                            }
                            tokens.push(tmp_token);
                            raw = String::new();
                        }
                    }
                    if let Some(token) = token_o {
                        proof {
                            lemma_tokens_view_push(tokens@, token);
                        }
                        tokens.push(token);
                    }

                    proof {
                        let pos1 = self.string_reader.pos as int;
                        assert(current == s[pos0]);
                        if !unvariable {
                            assert(raw@ =~= Seq::<char>::empty());
                        }
                        if special_kind(current) is Some {
                            assert(tokens_view(tokens@) =~= tokens_view(tokens0)
                                + flush_pending(raw0) + seq![
                                TokenV { raw: seq![current], kind: special_kind(current)->0 },
                            ]);
                        } else if is_digit_char(current) {
                            let e = digit_run_end(s, pos0 + 1);
                            assert(seq![current] + s.subrange(pos0 + 1, e) =~= s.subrange(
                                pos0,
                                e,
                            ));
                            assert(tokens_view(tokens@) =~= tokens_view(tokens0)
                                + flush_pending(raw0) + seq![
                                TokenV { raw: s.subrange(pos0, e), kind: TokenKind::Number },
                            ]);
                        } else if current == '&' {
                            let e = ident_run_end(s, pos0 + 1);
                            assert(seq![current] + s.subrange(pos0 + 1, e) =~= s.subrange(
                                pos0,
                                e,
                            ));
                            assert(tokens_view(tokens@) =~= tokens_view(tokens0)
                                + flush_pending(raw0) + seq![
                                TokenV { raw: s.subrange(pos0, e), kind: TokenKind::Identifier },
                            ]);
                        }
                        assert(tokens_view(tokens@) + spec_tokenize(s, pos1, raw@)
                            =~= tokens_view(tokens0) + spec_tokenize(s, pos0, raw0));
                    }
                },
            }
        }

        if !raw.as_str().is_empty() {
            let tmp_token = Token::new(raw, TokenKind::Unvariable);
            proof {
                lemma_tokens_view_push(tokens@, tmp_token);
            }
            tokens.push(tmp_token);
        }
        proof {
            assert(tokens_view(tokens@) =~= spec_tokenize(s, start, Seq::<char>::empty()));
        }
        tokens
    }
}

} // verus!
