use vstd::prelude::*;

use crate::ast::{Node, NodeV, node_view, numeral_digits, numeral_shaped};
use crate::base_parser::BaseParser;
use crate::errors::BasicError;
use crate::token::{Token, TokenKind};
use crate::utils::{is_digit, is_digit_char};
use vstd::string::StrSliceExecFns;
use vstd::string::StringExecFns;

verus! {

/// The comparison operators, parsed at the condition level.
pub open spec fn is_comparison_kind(k: TokenKind) -> bool {
    ||| k == TokenKind::LessThan
    ||| k == TokenKind::LessOrEqual
    ||| k == TokenKind::GreaterThan
    ||| k == TokenKind::GreaterOrEqual
    ||| k == TokenKind::Equal
}

/// The additive operators, also accepted as a unary sign before a numeral.
pub open spec fn is_additive_kind(k: TokenKind) -> bool {
    k == TokenKind::Addition || k == TokenKind::Subtraction
}

/// The multiplicative operators, binding tighter than the additive ones.
pub open spec fn is_multiplicative_kind(k: TokenKind) -> bool {
    k == TokenKind::Multiplication || k == TokenKind::Division
}

/// The first position at or after `i` that holds a BlockStart token: the
/// exclusive end of the literal run starting at `i`.
pub open spec fn spec_content_end(tokens: Seq<Token>, i: int) -> int
    decreases tokens.len() - i,
{
    if 0 <= i < tokens.len() && tokens[i].kind != TokenKind::BlockStart {
        spec_content_end(tokens, i + 1)
    } else {
        i
    }
}

/// The raw texts of `tokens[i..j]`, concatenated in source order.
pub open spec fn spec_content_concat(tokens: Seq<Token>, i: int, j: int) -> Seq<char>
    decreases j - i,
{
    if i < j {
        tokens[i].raw@ + spec_content_concat(tokens, i + 1, j)
    } else {
        Seq::<char>::empty()
    }
}

pub proof fn lemma_content_concat_snoc(tokens: Seq<Token>, i: int, j: int)
    requires
        i <= j,
    ensures
        spec_content_concat(tokens, i, j + 1) == spec_content_concat(tokens, i, j)
            + tokens[j].raw@,
    decreases j - i,
{
    if i < j {
        lemma_content_concat_snoc(tokens, i + 1, j);
        assert(tokens[i].raw@ + (spec_content_concat(tokens, i + 1, j) + tokens[j].raw@)
            =~= (tokens[i].raw@ + spec_content_concat(tokens, i + 1, j)) + tokens[j].raw@);
    } else {
        assert(spec_content_concat(tokens, j + 1, j + 1) =~= Seq::<char>::empty());
        assert(tokens[j].raw@ + Seq::<char>::empty() =~= tokens[j].raw@);
        assert(Seq::<char>::empty() + tokens[j].raw@ =~= tokens[j].raw@);
    }
}

/// Basic-type parsing: an Identifier token, a String token or a signed
/// Number, whichever the next token kind selects; the alternatives are
/// mutually exclusive by kind.
pub open spec fn spec_parse_basic_type(tokens: Seq<Token>, pos: int) -> Option<(NodeV, int)> {
    if 0 <= pos < tokens.len() && tokens[pos].kind == TokenKind::Identifier {
        Some((NodeV::Identifier { content: tokens[pos].raw@ }, pos + 1))
    } else if 0 <= pos < tokens.len() && tokens[pos].kind == TokenKind::StringLit {
        Some((NodeV::StringLiteral { content: tokens[pos].raw@ }, pos + 1))
    } else {
        spec_parse_number(tokens, pos)
    }
}

/// Number parsing: an optional Addition or Subtraction token is folded onto
/// the following Number token's text; the combined text must be a well-shaped
/// signed numeral.
pub open spec fn spec_parse_number(tokens: Seq<Token>, pos: int) -> Option<(NodeV, int)> {
    let (sign, p) = if 0 <= pos < tokens.len() && is_additive_kind(tokens[pos].kind) {
        (tokens[pos].raw@, pos + 1)
    } else {
        (Seq::<char>::empty(), pos)
    };
    if 0 <= p < tokens.len() && tokens[p].kind == TokenKind::Number {
        let content = sign + tokens[p].raw@;
        if numeral_shaped(content) {
            Some((NodeV::NumberLiteral { content }, p + 1))
        } else {
            None
        }
    } else {
        None
    }
}

/// Ternary parsing: a condition, and when a QuestionMark follows, a
/// then-branch parsed as a full ternary, a Semicolon, and an else-branch
/// parsed as a full ternary — which makes chained ternaries
/// right-associative.
///
/// In this and the following parsing functions, a successful sub-parse always
/// consumes at least one token; the position checks that guard each recursive
/// call only make that visible to the termination checker.
pub open spec fn spec_parse_ternary(tokens: Seq<Token>, pos: int) -> Option<(NodeV, int)>
    decreases tokens.len() - pos, 10int,
{
    match spec_parse_condition(tokens, pos) {
        None => None,
        Some((condition, j)) => {
            if pos < j <= tokens.len() {
                if j < tokens.len() && tokens[j].kind == TokenKind::QuestionMark {
                    match spec_parse_ternary(tokens, j + 1) {
                        None => None,
                        Some((left, k)) => {
                            if j + 1 < k <= tokens.len() {
                                if k < tokens.len() && tokens[k].kind == TokenKind::Semicolon {
                                    match spec_parse_ternary(tokens, k + 1) {
                                        None => None,
                                        Some((right, m)) => Some(
                                            (
                                                NodeV::Ternary {
                                                    condition: Box::new(condition),
                                                    left: Box::new(left),
                                                    right: Box::new(right),
                                                },
                                                m,
                                            ),
                                        ),
                                    }
                                } else {
                                    None
                                }
                            } else {
                                None
                            }
                        },
                    }
                } else {
                    Some((condition, j))
                }
            } else {
                None
            }
        },
    }
}

/// Condition parsing: an additive expression, then a left-associative fold
/// over the comparison operators.
pub open spec fn spec_parse_condition(tokens: Seq<Token>, pos: int) -> Option<(NodeV, int)>
    decreases tokens.len() - pos, 8int,
{
    match spec_parse_binary_operation(tokens, pos) {
        None => None,
        Some((left, j)) => {
            if pos < j <= tokens.len() {
                spec_parse_condition_more(tokens, left, j)
            } else {
                None
            }
        },
    }
}

/// The fold step of condition parsing: while a comparison operator is
/// present, consume it, parse another additive expression, and fold
/// left-associatively.
pub open spec fn spec_parse_condition_more(tokens: Seq<Token>, left: NodeV, j: int) -> Option<
    (NodeV, int),
>
    decreases tokens.len() - j, 9int,
{
    if 0 <= j < tokens.len() && is_comparison_kind(tokens[j].kind) {
        match spec_parse_binary_operation(tokens, j + 1) {
            None => None,
            Some((right, k)) => {
                if j + 1 < k <= tokens.len() {
                    spec_parse_condition_more(
                        tokens,
                        NodeV::Condition {
                            operator: tokens[j].kind,
                            left: Box::new(left),
                            right: Box::new(right),
                        },
                        k,
                    )
                } else {
                    None
                }
            },
        }
    } else {
        Some((left, j))
    }
}

/// Additive parsing: a multiplicative expression, then a left-associative
/// fold over Addition and Subtraction.
pub open spec fn spec_parse_binary_operation(tokens: Seq<Token>, pos: int) -> Option<(NodeV, int)>
    decreases tokens.len() - pos, 6int,
{
    match spec_parse_binary_pow_div(tokens, pos) {
        None => None,
        Some((left, j)) => {
            if pos < j <= tokens.len() {
                spec_parse_binary_operation_more(tokens, left, j)
            } else {
                None
            }
        },
    }
}

/// The fold step of additive parsing.
pub open spec fn spec_parse_binary_operation_more(
    tokens: Seq<Token>,
    left: NodeV,
    j: int,
) -> Option<(NodeV, int)>
    decreases tokens.len() - j, 7int,
{
    if 0 <= j < tokens.len() && is_additive_kind(tokens[j].kind) {
        match spec_parse_binary_pow_div(tokens, j + 1) {
            None => None,
            Some((right, k)) => {
                if j + 1 < k <= tokens.len() {
                    spec_parse_binary_operation_more(
                        tokens,
                        NodeV::BinaryOp {
                            operator: tokens[j].kind,
                            left: Box::new(left),
                            right: Box::new(right),
                        },
                        k,
                    )
                } else {
                    None
                }
            },
        }
    } else {
        Some((left, j))
    }
}

/// Multiplicative parsing: a parenthesized or atomic expression, then a
/// left-associative fold over Multiplication and Division.
pub open spec fn spec_parse_binary_pow_div(tokens: Seq<Token>, pos: int) -> Option<(NodeV, int)>
    decreases tokens.len() - pos, 4int,
{
    match spec_parse_binary_parenthese(tokens, pos) {
        None => None,
        Some((left, j)) => {
            if pos < j <= tokens.len() {
                spec_parse_binary_pow_div_more(tokens, left, j)
            } else {
                None
            }
        },
    }
}

/// The fold step of multiplicative parsing.
pub open spec fn spec_parse_binary_pow_div_more(
    tokens: Seq<Token>,
    left: NodeV,
    j: int,
) -> Option<(NodeV, int)>
    decreases tokens.len() - j, 5int,
{
    if 0 <= j < tokens.len() && is_multiplicative_kind(tokens[j].kind) {
        match spec_parse_binary_parenthese(tokens, j + 1) {
            None => None,
            Some((right, k)) => {
                if j + 1 < k <= tokens.len() {
                    spec_parse_binary_pow_div_more(
                        tokens,
                        NodeV::BinaryOp {
                            operator: tokens[j].kind,
                            left: Box::new(left),
                            right: Box::new(right),
                        },
                        k,
                    )
                } else {
                    None
                }
            },
        }
    } else {
        Some((left, j))
    }
}

/// Parenthesized-or-atom parsing: after a ParenOpen, a full ternary closed by
/// a ParenClose; otherwise a basic type.
pub open spec fn spec_parse_binary_parenthese(tokens: Seq<Token>, pos: int) -> Option<
    (NodeV, int),
>
    decreases tokens.len() - pos, 2int,
{
    if 0 <= pos < tokens.len() && tokens[pos].kind == TokenKind::ParenOpen {
        match spec_parse_ternary(tokens, pos + 1) {
            None => None,
            Some((node, j)) => {
                if 0 <= j < tokens.len() && tokens[j].kind == TokenKind::ParenClose {
                    Some((node, j + 1))
                } else {
                    None
                }
            },
        }
    } else {
        spec_parse_basic_type(tokens, pos)
    }
}

/// Inner-block parsing: a full ternary that must be closed by a matching
/// BlockEnd. An unterminated block is a parse error.
pub open spec fn spec_parse_inner_block(tokens: Seq<Token>, pos: int) -> Option<(NodeV, int)>
    decreases tokens.len() - pos, 12int,
{
    match spec_parse_ternary(tokens, pos) {
        None => None,
        Some((node, j)) => {
            if 0 <= j < tokens.len() && tokens[j].kind == TokenKind::BlockEnd {
                Some((node, j + 1))
            } else {
                None
            }
        },
    }
}

/// Top-level parsing: from a BlockStart, an inner block wrapped in a Block
/// node; from any other token, a Content node holding that token's raw text
/// and every following token's raw text up to the next BlockStart. The
/// remainder is parsed recursively and attached as `next`; a failing
/// remainder — end of input as well as a genuine syntax error in trailing
/// content — is deliberately treated as "no further node" rather than being
/// surfaced.
pub open spec fn spec_parse(tokens: Seq<Token>, pos: int) -> Option<NodeV>
    decreases tokens.len() - pos, 14int,
{
    if !(0 <= pos < tokens.len()) {
        None
    } else if tokens[pos].kind == TokenKind::BlockStart {
        match spec_parse_inner_block(tokens, pos + 1) {
            None => None,
            Some((inner, j)) => {
                if pos + 1 < j <= tokens.len() {
                    Some(
                        NodeV::Block {
                            content: Box::new(inner),
                            next: match spec_parse(tokens, j) {
                                Some(n) => Some(Box::new(n)),
                                None => None,
                            },
                        },
                    )
                } else {
                    None
                }
            },
        }
    } else {
        let e = spec_content_end(tokens, pos + 1);
        if pos + 1 <= e <= tokens.len() {
            Some(
                NodeV::Content {
                    content: tokens[pos].raw@ + spec_content_concat(tokens, pos + 1, e),
                    next: match spec_parse(tokens, e) {
                        Some(n) => Some(Box::new(n)),
                        None => None,
                    },
                },
            )
        } else {
            None
        }
    }
}

proof fn lemma_kinds_pair(kinds: Seq<TokenKind>, a: TokenKind, b: TokenKind)
    requires
        kinds == seq![a, b],
    ensures
        forall|k: TokenKind| #[trigger] kinds.contains(k) <==> (k == a || k == b),
{
    assert forall|k: TokenKind| #[trigger] kinds.contains(k) <==> (k == a || k == b) by {
        if k == a {
            assert(kinds[0] == k);
        } else if k == b {
            assert(kinds[1] == k);
        } else if kinds.contains(k) {
            let j = choose|j: int| 0 <= j < kinds.len() && kinds[j] == k;
            assert(j == 0 || j == 1);
        }
    }
}

proof fn lemma_kinds_comparison(kinds: Seq<TokenKind>)
    requires
        kinds == seq![
            TokenKind::LessThan,
            TokenKind::LessOrEqual,
            TokenKind::GreaterThan,
            TokenKind::GreaterOrEqual,
            TokenKind::Equal,
        ],
    ensures
        forall|k: TokenKind| #[trigger] kinds.contains(k) <==> is_comparison_kind(k),
{
    assert forall|k: TokenKind| #[trigger] kinds.contains(k) <==> is_comparison_kind(k) by {
        if is_comparison_kind(k) {
            if k == TokenKind::LessThan {
                assert(kinds[0] == k);
            } else if k == TokenKind::LessOrEqual {
                assert(kinds[1] == k);
            } else if k == TokenKind::GreaterThan {
                assert(kinds[2] == k);
            } else if k == TokenKind::GreaterOrEqual {
                assert(kinds[3] == k);
            } else {
                assert(kinds[4] == k);
            }
        } else if kinds.contains(k) {
            let j = choose|j: int| 0 <= j < kinds.len() && kinds[j] == k;
            assert(0 <= j < 5);
        }
    }
}

/// Decides whether `s` is a well-shaped signed numeral.
fn check_numeral(s: &str) -> (r: bool)
    ensures
        r == numeral_shaped(s@),
{
    let n = s.unicode_len();
    if n == 0 {
        return false;
    }
    let c0 = s.get_char(0);
    let start: usize = if c0 == '+' || c0 == '-' {
        1
    } else {
        0
    };
    proof {
        assert(numeral_digits(s@).len() == n - start);
    }
    if n == start {
        return false;
    }
    let mut i: usize = start;
    while i < n
        invariant
            start <= i <= n,
            start <= 1,
            n == s@.len(),
            n > start,
            start == 1 ==> n >= 1 && (s@[0] == '+' || s@[0] == '-'),
            start == 0 ==> n >= 1 && !(s@[0] == '+' || s@[0] == '-'),
            forall|k: int| start <= k < i ==> is_digit_char(s@[k]),
        decreases n - i,
    {
        let c = s.get_char(i);
        if !is_digit(c) {
            proof {
                assert(numeral_digits(s@)[i - start] == s@[i as int]);
                assert(!numeral_shaped(s@));
            }
            return false;
        }
        i = i + 1;
    }
    proof {
        assert(forall|k: int|
            0 <= k < numeral_digits(s@).len() ==> #[trigger] numeral_digits(s@)[k] == s@[k
                + start]);
    }
    true
}

/// Parsing a token sequence that begins with a BlockStart and holds no
/// BlockEnd anywhere — an unterminated block — yields a parse error and no
/// AST.
pub proof fn lemma_unterminated_block_fails(tokens: Seq<Token>)
    requires
        tokens.len() > 0,
        tokens[0].kind == TokenKind::BlockStart,
        forall|i: int| 0 <= i < tokens.len() ==> (#[trigger] tokens[i].kind) != TokenKind::BlockEnd,
    ensures
        spec_parse(tokens, 0) is None,
{
    assert(spec_parse_inner_block(tokens, 1) is None);
}

/// The parser: consumes the token sequence through the token-stream helper
/// and builds the AST by recursive descent with explicit precedence levels.
pub struct Parser {
    pub base_parser: BaseParser,
}

impl Parser {
    /// The tokens the parser was built over.
    pub open spec fn toks(self) -> Seq<Token> {
        self.base_parser.toks()
    }

    /// The current cursor position in the token stream.
    pub open spec fn pos(self) -> int {
        self.base_parser.pos()
    }

    pub open spec fn wf(self) -> bool {
        self.base_parser.wf()
    }

    pub fn new(tokens: Vec<Token>) -> (p: Parser)
        ensures
            p.wf(),
            p.toks() == tokens@,
            p.pos() == 0,
    {
        Parser { base_parser: BaseParser::new(tokens) }
    }

    /// Consume an Identifier token into an Identifier node; on any other next
    /// token, fail without consuming.
    pub fn parse_identifier(&mut self) -> (r: Result<Node, Box<BasicError>>)
        requires
            old(self).wf(),
        ensures
            final(self).wf(),
            final(self).toks() == old(self).toks(),
            if old(self).pos() < old(self).toks().len() && old(self).toks()[old(self).pos()].kind
                == TokenKind::Identifier {
                r matches Ok(n) && (n@ == (NodeV::Identifier {
                    content: old(self).toks()[old(self).pos()].raw@,
                }) && final(self).pos() == old(self).pos() + 1)
            } else {
                r is Err && final(self).pos() == old(self).pos()
            },
    {
        match self.base_parser.expect(TokenKind::Identifier) {
            Ok(token) => Ok(Node::Identifier { content: token.raw }),
            Err(e) => Err(e),
        }
    }

    /// Consume a String token into a StringLiteral node; on any other next
    /// token, fail without consuming.
    pub fn parse_string(&mut self) -> (r: Result<Node, Box<BasicError>>)
        requires
            old(self).wf(),
        ensures
            final(self).wf(),
            final(self).toks() == old(self).toks(),
            if old(self).pos() < old(self).toks().len() && old(self).toks()[old(self).pos()].kind
                == TokenKind::StringLit {
                r matches Ok(n) && (n@ == (NodeV::StringLiteral {
                    content: old(self).toks()[old(self).pos()].raw@,
                }) && final(self).pos() == old(self).pos() + 1)
            } else {
                r is Err && final(self).pos() == old(self).pos()
            },
    {
        match self.base_parser.expect(TokenKind::StringLit) {
            Ok(token) => Ok(Node::StringLiteral { content: token.raw }),
            Err(e) => Err(e),
        }
    }

    /// Consume an optional unary sign and a Number token into a NumberLiteral
    /// node holding the folded signed numeral text.
    pub fn parse_number(&mut self) -> (r: Result<Node, Box<BasicError>>)
        requires
            old(self).wf(),
        ensures
            final(self).wf(),
            final(self).toks() == old(self).toks(),
            old(self).pos() <= final(self).pos() <= final(self).toks().len(),
            match spec_parse_number(old(self).toks(), old(self).pos()) {
                Some((node, end)) => r matches Ok(n) && (n@ == node && final(self).pos() == end
                    && old(self).pos() < end),
                None => r is Err,
            },
    {
        // check if it's an unary
        let mut sign_kinds: Vec<TokenKind> = Vec::new();
        sign_kinds.push(TokenKind::Addition);
        sign_kinds.push(TokenKind::Subtraction);
        proof {
            assert(sign_kinds@ =~= seq![TokenKind::Addition, TokenKind::Subtraction]);
            lemma_kinds_pair(sign_kinds@, TokenKind::Addition, TokenKind::Subtraction);
        }
        let unary = self.base_parser.expect_m(sign_kinds);
        let token = match self.base_parser.expect(TokenKind::Number) {
            Ok(t) => t,
            Err(e) => {
                return Err(e);
            },
        };
        let content = match unary {
            Ok(sign) => sign.raw.concat(token.raw.as_str()),
            Err(_) => token.raw,
        };
        if check_numeral(content.as_str()) {
            Ok(Node::NumberLiteral { content })
        } else {
            Err(BasicError::new(String::from_str("malformed numeral")))
        }
    }

    /// Try, in order, Identifier, then String, then signed Number; the first
    /// alternative that consumes tokens wins, and a failed try leaves the
    /// cursor untouched.
    pub fn parse_basic_type(&mut self) -> (r: Result<Node, Box<BasicError>>)
        requires
            old(self).wf(),
        ensures
            final(self).wf(),
            final(self).toks() == old(self).toks(),
            old(self).pos() <= final(self).pos() <= final(self).toks().len(),
            match spec_parse_basic_type(old(self).toks(), old(self).pos()) {
                Some((node, end)) => r matches Ok(n) && (n@ == node && final(self).pos() == end
                    && old(self).pos() < end),
                None => r is Err,
            },
    {
        let identifer = self.parse_identifier();
        if let Ok(node) = identifer {
            return Ok(node);
        }
        let string = self.parse_string();
        if let Ok(node) = string {
            return Ok(node);
        }
        self.parse_number()
    }

    /// After a ParenOpen, a full ternary expression closed by a ParenClose;
    /// otherwise a basic type.
    pub fn parse_binary_parenthese(&mut self) -> (r: Result<Node, Box<BasicError>>)
        requires
            old(self).wf(),
        ensures
            final(self).wf(),
            final(self).toks() == old(self).toks(),
            old(self).pos() <= final(self).pos() <= final(self).toks().len(),
            match spec_parse_binary_parenthese(old(self).toks(), old(self).pos()) {
                Some((node, end)) => r matches Ok(n) && (n@ == node && final(self).pos() == end
                    && old(self).pos() < end),
                None => r is Err,
            },
        decreases self.toks().len() - self.pos(), 2int,
    {
        let paren = self.base_parser.expect(TokenKind::ParenOpen);
        if let Ok(_) = paren {
            let math = match self.parse_ternary() {
                Ok(n) => n,
                Err(e) => {
                    return Err(e);
                },
            };
            match self.base_parser.expect(TokenKind::ParenClose) {
                Ok(_) => {
                    return Ok(math);
                },
                Err(e) => {
                    return Err(e);
                },
            }
        }
        self.parse_basic_type()
    }

    /// A parenthesized or atomic expression, then a left-associative fold
    /// over Multiplication and Division.
    pub fn parse_binary_pow_div(&mut self) -> (r: Result<Node, Box<BasicError>>)
        requires
            old(self).wf(),
        ensures
            final(self).wf(),
            final(self).toks() == old(self).toks(),
            old(self).pos() <= final(self).pos() <= final(self).toks().len(),
            match spec_parse_binary_pow_div(old(self).toks(), old(self).pos()) {
                Some((node, end)) => r matches Ok(n) && (n@ == node && final(self).pos() == end
                    && old(self).pos() < end),
                None => r is Err,
            },
        decreases self.toks().len() - self.pos(), 4int,
    {
        let ghost s = self.toks();
        let ghost pos0 = self.pos();
        let mut left = match self.parse_binary_parenthese() {
            Ok(n) => n,
            Err(e) => {
                return Err(e);
            },
        };
        loop
            invariant
                self.wf(),
                s == old(self).toks(),
                pos0 == old(self).pos(),
                self.toks() == s,
                0 <= pos0 < self.pos() <= s.len(),
                spec_parse_binary_pow_div(s, pos0) == spec_parse_binary_pow_div_more(
                    s,
                    node_view(left),
                    self.pos(),
                ),
            ensures
                self.wf(),
                self.toks() == s,
                0 <= pos0 < self.pos() <= s.len(),
                spec_parse_binary_pow_div(s, pos0) == Some((node_view(left), self.pos())),
            decreases s.len() - self.pos(),
        {
            let mut op_kinds: Vec<TokenKind> = Vec::new();
            op_kinds.push(TokenKind::Multiplication);
            op_kinds.push(TokenKind::Division);
            proof {
                assert(op_kinds@ =~= seq![TokenKind::Multiplication, TokenKind::Division]);
                lemma_kinds_pair(op_kinds@, TokenKind::Multiplication, TokenKind::Division);
            }
            let operator = match self.base_parser.expect_m(op_kinds) {
                Ok(op) => op,
                Err(_) => {
                    break;
                },
            };
            let right = match self.parse_binary_parenthese() {
                Ok(n) => n,
                Err(e) => {
                    return Err(e);
                },
            };
            left = Node::BinaryOp {
                operator: operator.kind,
                left: Box::new(left),
                right: Box::new(right),
            };
        }
        Ok(left)
    }

    /// A multiplicative expression, then a left-associative fold over
    /// Addition and Subtraction.
    pub fn parse_binary_operation(&mut self) -> (r: Result<Node, Box<BasicError>>)
        requires
            old(self).wf(),
        ensures
            final(self).wf(),
            final(self).toks() == old(self).toks(),
            old(self).pos() <= final(self).pos() <= final(self).toks().len(),
            match spec_parse_binary_operation(old(self).toks(), old(self).pos()) {
                Some((node, end)) => r matches Ok(n) && (n@ == node && final(self).pos() == end
                    && old(self).pos() < end),
                None => r is Err,
            },
        decreases self.toks().len() - self.pos(), 6int,
    {
        let ghost s = self.toks();
        let ghost pos0 = self.pos();
        let mut left = match self.parse_binary_pow_div() {
            Ok(n) => n,
            Err(e) => {
                return Err(e);
            },
        };
        loop
            invariant
                self.wf(),
                s == old(self).toks(),
                pos0 == old(self).pos(),
                self.toks() == s,
                0 <= pos0 < self.pos() <= s.len(),
                spec_parse_binary_operation(s, pos0) == spec_parse_binary_operation_more(
                    s,
                    node_view(left),
                    self.pos(),
                ),
            ensures
                self.wf(),
                self.toks() == s,
                0 <= pos0 < self.pos() <= s.len(),
                spec_parse_binary_operation(s, pos0) == Some((node_view(left), self.pos())),
            decreases s.len() - self.pos(),
        {
            let mut op_kinds: Vec<TokenKind> = Vec::new();
            op_kinds.push(TokenKind::Addition);
            op_kinds.push(TokenKind::Subtraction);
            proof {
                assert(op_kinds@ =~= seq![TokenKind::Addition, TokenKind::Subtraction]);
                lemma_kinds_pair(op_kinds@, TokenKind::Addition, TokenKind::Subtraction);
            }
            let operator = match self.base_parser.expect_m(op_kinds) {
                Ok(op) => op,
                Err(_) => {
                    break;
                },
            };
            let right = match self.parse_binary_pow_div() {
                Ok(n) => n,
                Err(e) => {
                    return Err(e);
                },
            };
            left = Node::BinaryOp {
                operator: operator.kind,
                left: Box::new(left),
                right: Box::new(right),
            };
        }
        Ok(left)
    }

    /// An additive expression, then a left-associative fold over the
    /// comparison operators.
    pub fn parse_condition(&mut self) -> (r: Result<Node, Box<BasicError>>)
        requires
            old(self).wf(),
        ensures
            final(self).wf(),
            final(self).toks() == old(self).toks(),
            old(self).pos() <= final(self).pos() <= final(self).toks().len(),
            match spec_parse_condition(old(self).toks(), old(self).pos()) {
                Some((node, end)) => r matches Ok(n) && (n@ == node && final(self).pos() == end
                    && old(self).pos() < end),
                None => r is Err,
            },
        decreases self.toks().len() - self.pos(), 8int,
    {
        let ghost s = self.toks();
        let ghost pos0 = self.pos();
        let mut left = match self.parse_binary_operation() {
            Ok(n) => n,
            Err(e) => {
                return Err(e);
            },
        };
        loop
            invariant
                self.wf(),
                s == old(self).toks(),
                pos0 == old(self).pos(),
                self.toks() == s,
                0 <= pos0 < self.pos() <= s.len(),
                spec_parse_condition(s, pos0) == spec_parse_condition_more(
                    s,
                    node_view(left),
                    self.pos(),
                ),
            ensures
                self.wf(),
                self.toks() == s,
                0 <= pos0 < self.pos() <= s.len(),
                spec_parse_condition(s, pos0) == Some((node_view(left), self.pos())),
            decreases s.len() - self.pos(),
        {
            let mut op_kinds: Vec<TokenKind> = Vec::new();
            op_kinds.push(TokenKind::LessThan);
            op_kinds.push(TokenKind::LessOrEqual);
            op_kinds.push(TokenKind::GreaterThan);
            op_kinds.push(TokenKind::GreaterOrEqual);
            op_kinds.push(TokenKind::Equal);
            proof {
                assert(op_kinds@ =~= seq![
                    TokenKind::LessThan,
                    TokenKind::LessOrEqual,
                    TokenKind::GreaterThan,
                    TokenKind::GreaterOrEqual,
                    TokenKind::Equal,
                ]);
                lemma_kinds_comparison(op_kinds@);
            }
            let operator = match self.base_parser.expect_m(op_kinds) {
                Ok(op) => op,
                Err(_) => {
                    break;
                },
            };
            let right = match self.parse_binary_operation() {
                Ok(n) => n,
                Err(e) => {
                    return Err(e);
                },
            };
            left = Node::Condition {
                operator: operator.kind,
                left: Box::new(left),
                right: Box::new(right),
            };
        }
        Ok(left)
    }

    /// A condition; when a QuestionMark follows, a then-branch parsed as a
    /// full ternary, a Semicolon, and an else-branch parsed as a full ternary
    /// — so chained ternaries associate to the right.
    pub fn parse_ternary(&mut self) -> (r: Result<Node, Box<BasicError>>)
        requires
            old(self).wf(),
        ensures
            final(self).wf(),
            final(self).toks() == old(self).toks(),
            old(self).pos() <= final(self).pos() <= final(self).toks().len(),
            match spec_parse_ternary(old(self).toks(), old(self).pos()) {
                Some((node, end)) => r matches Ok(n) && (n@ == node && final(self).pos() == end
                    && old(self).pos() < end),
                None => r is Err,
            },
        decreases self.toks().len() - self.pos(), 10int,
    {
        let condition = match self.parse_condition() {
            Ok(n) => n,
            Err(e) => {
                return Err(e);
            },
        };
        if let Ok(_) = self.base_parser.expect(TokenKind::QuestionMark) {
            let left = match self.parse_ternary() {
                Ok(n) => n,
                Err(e) => {
                    return Err(e);
                },
            };
            if let Err(e) = self.base_parser.expect(TokenKind::Semicolon) {
                return Err(e);
            }
            let right = match self.parse_ternary() {
                Ok(n) => n,
                Err(e) => {
                    return Err(e);
                },
            };
            return Ok(
                Node::Ternary {
                    condition: Box::new(condition),
                    left: Box::new(left),
                    right: Box::new(right),
                },
            );
        }
        Ok(condition)
    }

    /// A full ternary that must be closed by a matching BlockEnd; an
    /// unterminated block is a parse error.
    pub fn parse_inner_block(&mut self) -> (r: Result<Node, Box<BasicError>>)
        requires
            old(self).wf(),
        ensures
            final(self).wf(),
            final(self).toks() == old(self).toks(),
            old(self).pos() <= final(self).pos() <= final(self).toks().len(),
            match spec_parse_inner_block(old(self).toks(), old(self).pos()) {
                Some((node, end)) => r matches Ok(n) && (n@ == node && final(self).pos() == end
                    && old(self).pos() < end),
                None => r is Err,
            },
    {
        let node = match self.parse_ternary() {
            Ok(n) => n,
            Err(e) => {
                return Err(e);
            },
        };
        match self.base_parser.expect(TokenKind::BlockEnd) {
            Ok(_) => Ok(node),
            Err(e) => Err(e),
        }
    }

    /// Starting from `start`, greedily absorb the raw text of every token up
    /// to (not including) the next BlockStart into one literal string.
    pub fn content_all(&mut self, start: &str) -> (r: String)
        requires
            old(self).wf(),
        ensures
            final(self).wf(),
            final(self).toks() == old(self).toks(),
            old(self).pos() <= final(self).pos() <= final(self).toks().len(),
            final(self).pos() == spec_content_end(old(self).toks(), old(self).pos()),
            r@ == start@ + spec_content_concat(
                old(self).toks(),
                old(self).pos(),
                final(self).pos(),
            ),
    {
        let mut content = String::from_str(start);
        let ghost s = self.toks();
        let ghost p0 = self.pos();
        proof {
            assert(start@ + spec_content_concat(s, p0, p0) =~= start@);
        }
        loop
            invariant
                self.wf(),
                self.toks() == s,
                0 <= p0 <= self.pos() <= s.len(),
                spec_content_end(s, p0) == spec_content_end(s, self.pos()),
                content@ == start@ + spec_content_concat(s, p0, self.pos()),
            ensures
                self.wf(),
                self.toks() == s,
                0 <= p0 <= self.pos() <= s.len(),
                self.pos() == spec_content_end(s, p0),
                content@ == start@ + spec_content_concat(s, p0, self.pos()),
            decreases s.len() - self.pos(),
        {
            let ghost posa = self.pos();
            let cur = self.base_parser.chain_reader.get_current();
            match cur {
                None => {
                    break;
                },
                Some(token) => {
                    if token.kind == TokenKind::BlockStart {
                        break;
                    }
                    content.append(token.raw.as_str());
                    self.base_parser.chain_reader.advance();
                    proof {
                        lemma_content_concat_snoc(s, p0, posa);
                        assert((start@ + spec_content_concat(s, p0, posa)) + s[posa].raw@
                            =~= start@ + (spec_content_concat(s, p0, posa) + s[posa].raw@));
                    }
                },
            }
        }
        content
    }

    /// Top-level parsing: one token decides between a Block (from BlockStart)
    /// and a literal Content run; the remainder is parsed recursively and
    /// attached as `next`. A failing remainder — exhausted input as well as a
    /// syntax error in trailing content — deliberately yields no further node
    /// rather than an error.
    pub fn parse(&mut self) -> (r: Result<Node, Box<BasicError>>)
        requires
            old(self).wf(),
        ensures
            final(self).wf(),
            final(self).toks() == old(self).toks(),
            old(self).pos() <= final(self).pos() <= final(self).toks().len(),
            match spec_parse(old(self).toks(), old(self).pos()) {
                Some(node) => r matches Ok(n) && n@ == node,
                None => r is Err,
            },
        decreases self.toks().len() - self.pos(),
    {
        let token = match self.base_parser.any() {
            Ok(t) => t,
            Err(e) => {
                return Err(e);
            },
        };
        match token.kind {
            TokenKind::BlockStart => {
                let content = match self.parse_inner_block() {
                    Ok(n) => n,
                    Err(e) => {
                        return Err(e);
                    },
                };
                let next = match self.parse() {
                    Ok(node) => Some(Box::new(node)),
                    Err(_) => None,
                };
                Ok(Node::Block { content: Box::new(content), next })
            },
            _ => {
                let content = self.content_all(token.raw.as_str());
                let next = match self.parse() {
                    Ok(node) => Some(Box::new(node)),
                    Err(_) => None,
                };
                Ok(Node::Content { content, next })
            },
        }
    }
}

} // verus!
