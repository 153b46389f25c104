//! The key-condition-expression language: tokens, grammar, and parser.
//!
//! The grammar recognised is
//! ```text
//! condition_expression := and_condition | condition
//! and_condition        := condition 'AND' condition
//! condition            := function | key '=' value
//! function             := 'begins_with' '(' key ',' value ')'
//! key                  := column_name | '#' ident
//! value                := column_name | ':' ident
//! ```
//! with insignificant blanks between tokens; column names and identifiers
//! are ASCII alphanumerics and underscores. The comparators `<`, `>`,
//! `<=`, `>=`, and `BETWEEN` are reserved: a condition using one is told
//! apart from a malformed one, so that it can be reported as not yet
//! realised rather than as a parse failure.

use vstd::prelude::*;
use vstd::string::*;
use crate::strutil::{
    is_ident_char, is_space, spec_is_ident_char, spec_is_space, str_eq,
};

verus! {

broadcast use vstd::std_specs::vec::group_vec_axioms;

/// A failure of expression parsing.
#[derive(Debug, Clone, PartialEq, Eq)]
pub enum ParserError {
    /// The input is not of the grammar; carries a short description.
    ParseError(String),
    /// The input ended where the grammar demands more.
    Eoi,
    /// A comparator the grammar reserves but does not yet realise.
    UnsupportedComparator,
}

/// A lexical token of the expression language.
#[derive(Debug, Clone, PartialEq, Eq)]
pub enum Token {
    /// A bare column name (or keyword such as `AND`).
    Ident(String),
    /// `#name`: a placeholder for an attribute name; the sigil is stripped.
    NamePlaceholder(String),
    /// `:name`: a placeholder for an attribute value; the sigil is stripped.
    ValuePlaceholder(String),
    EqSign,
    LParen,
    RParen,
    Comma,
    /// A reserved comparator: `<`, `>`, `<=`, or `>=`.
    ReservedCmp(String),
}

/// Mathematical value of a [`Token`].
#[verifier::ext_equal]
pub enum TokenV {
    Ident(Seq<char>),
    NamePlaceholder(Seq<char>),
    ValuePlaceholder(Seq<char>),
    EqSign,
    LParen,
    RParen,
    Comma,
    ReservedCmp(Seq<char>),
}

impl View for Token {
    type V = TokenV;

    open spec fn view(&self) -> TokenV {
        match self {
            Token::Ident(s) => TokenV::Ident(s@),
            Token::NamePlaceholder(s) => TokenV::NamePlaceholder(s@),
            Token::ValuePlaceholder(s) => TokenV::ValuePlaceholder(s@),
            Token::EqSign => TokenV::EqSign,
            Token::LParen => TokenV::LParen,
            Token::RParen => TokenV::RParen,
            Token::Comma => TokenV::Comma,
            Token::ReservedCmp(s) => TokenV::ReservedCmp(s@),
        }
    }
}

impl DeepView for Token {
    type V = TokenV;

    open spec fn deep_view(&self) -> TokenV {
        self.view()
    }
}

/// A binary operator of the expression language.
#[derive(Debug, Clone, Copy, PartialEq, Eq, Structural)]
pub enum Operator {
    Eq,
    And,
}

/// A node of the condition-expression syntax tree.
#[derive(Debug, PartialEq, Eq)]
pub enum Node {
    Binop { lhs: Box<Node>, rhs: Box<Node>, op: Operator },
    FunctionCall { name: String, args: Vec<Node> },
    /// A literal column name, or a value a placeholder resolved to.
    Attribute(String),
    /// `#x` or `:x`, with the sigil stripped.
    Placeholder(String),
}

/// Mathematical value of a [`Node`].
#[verifier::ext_equal]
pub enum NodeV {
    Binop { lhs: Box<NodeV>, rhs: Box<NodeV>, op: Operator },
    FunctionCall { name: Seq<char>, args: Seq<NodeV> },
    Attribute(Seq<char>),
    Placeholder(Seq<char>),
}

/// Mathematical value of a [`Node`], recursively.
pub open spec fn node_view(n: Node) -> NodeV
    decreases n,
{
    match n {
        Node::Binop { lhs, rhs, op } => NodeV::Binop {
            lhs: Box::new(node_view(*lhs)),
            rhs: Box::new(node_view(*rhs)),
            op,
        },
        Node::FunctionCall { name, args } => NodeV::FunctionCall {
            name: name@,
            args: Seq::new(
                args@.len(),
                |i: int|
                    if 0 <= i < args@.len() {
                        node_view(args[i])
                    } else {
                        NodeV::Attribute(Seq::empty())
                    },
            ),
        },
        Node::Attribute(s) => NodeV::Attribute(s@),
        Node::Placeholder(s) => NodeV::Placeholder(s@),
    }
}

impl DeepView for Node {
    type V = NodeV;

    open spec fn deep_view(&self) -> NodeV {
        node_view(*self)
    }
}

/// End of the maximal run of identifier characters starting at `i`.
pub open spec fn scan_ident_end(s: Seq<char>, i: int) -> int
    decreases s.len() - i,
{
    if 0 <= i < s.len() && spec_is_ident_char(s[i]) {
        scan_ident_end(s, i + 1)
    } else {
        i
    }
}

pub proof fn lemma_scan_ident_end(s: Seq<char>, i: int)
    requires
        0 <= i <= s.len(),
    ensures
        i <= scan_ident_end(s, i) <= s.len(),
        (i < s.len() && spec_is_ident_char(s[i])) ==> scan_ident_end(s, i) > i,
    decreases s.len() - i,
{
    if i < s.len() && spec_is_ident_char(s[i]) {
        lemma_scan_ident_end(s, i + 1);
    }
}

/// The token sequence of `s` from position `i` on, or `None` where a
/// character fits no token.
pub open spec fn spec_tokenize_at(s: Seq<char>, i: int) -> Option<Seq<TokenV>>
    decreases s.len() - i
        when 0 <= i
        via spec_tokenize_at_decreases
{
    if i >= s.len() {
        Some(Seq::empty())
    } else {
        let c = s[i];
        if spec_is_space(c) {
            spec_tokenize_at(s, i + 1)
        } else if spec_is_ident_char(c) {
            let j = scan_ident_end(s, i);
            match spec_tokenize_at(s, j) {
                None => None,
                Some(rest) => Some(seq![TokenV::Ident(s.subrange(i, j))] + rest),
            }
        } else if c == '#' || c == ':' {
            let j = scan_ident_end(s, i + 1);
            if j == i + 1 {
                None
            } else {
                match spec_tokenize_at(s, j) {
                    None => None,
                    Some(rest) => Some(
                        seq![
                            if c == '#' {
                                TokenV::NamePlaceholder(s.subrange(i + 1, j))
                            } else {
                                TokenV::ValuePlaceholder(s.subrange(i + 1, j))
                            },
                        ] + rest,
                    ),
                }
            }
        } else if c == '<' || c == '>' {
            let j = if i + 1 < s.len() && s[i + 1] == '=' {
                i + 2
            } else {
                i + 1
            };
            match spec_tokenize_at(s, j) {
                None => None,
                Some(rest) => Some(seq![TokenV::ReservedCmp(s.subrange(i, j))] + rest),
            }
        } else if c == '=' || c == '(' || c == ')' || c == ',' {
            match spec_tokenize_at(s, i + 1) {
                None => None,
                Some(rest) => Some(
                    seq![
                        if c == '=' {
                            TokenV::EqSign
                        } else if c == '(' {
                            TokenV::LParen
                        } else if c == ')' {
                            TokenV::RParen
                        } else {
                            TokenV::Comma
                        },
                    ] + rest,
                ),
            }
        } else {
            None
        }
    }
}

#[via_fn]
proof fn spec_tokenize_at_decreases(s: Seq<char>, i: int) {
    if 0 <= i < s.len() {
        lemma_scan_ident_end(s, i);
        if i + 1 <= s.len() {
            lemma_scan_ident_end(s, i + 1);
        }
    }
}

/// The token sequence of the whole of `s`.
pub open spec fn spec_tokenize(s: Seq<char>) -> Option<Seq<TokenV>> {
    spec_tokenize_at(s, 0)
}

/// End of the maximal identifier run starting at `i`, executably.
fn scan_ident_end_exec(s: &str, i: usize) -> (r: usize)
    requires
        i <= s@.len(),
    ensures
        r == scan_ident_end(s@, i as int),
        i <= r <= s@.len(),
{
    let n = s.unicode_len();
    let mut j = i;
    while j < n && is_ident_char(s.get_char(j))
        invariant
            i <= j <= n,
            n == s@.len(),
            scan_ident_end(s@, i as int) == scan_ident_end(s@, j as int),
        decreases n - j,
    {
        assert(scan_ident_end(s@, j as int) == scan_ident_end(s@, j + 1 as int));
        j = j + 1;
    }
    assert(scan_ident_end(s@, j as int) == j);
    j
}

/// Relation carried by the tokenizer loop: the tokens of the whole input
/// are the accumulator followed by the tokens of the rest.
spec fn tokens_so_far(s: Seq<char>, i: int, acc: Seq<TokenV>) -> bool {
    spec_tokenize(s) == match spec_tokenize_at(s, i) {
        None => None::<Seq<TokenV>>,
        Some(rest) => Some(acc + rest),
    }
}

/// Split `s` into tokens.
pub fn tokenize(s: &str) -> (r: Result<Vec<Token>, ParserError>)
    ensures
        match r {
            Ok(toks) => spec_tokenize(s@) == Some(toks.deep_view()),
            Err(e) => spec_tokenize(s@) is None && !(e is UnsupportedComparator),
        },
{
    let n = s.unicode_len();
    let mut toks: Vec<Token> = Vec::new();
    let mut i: usize = 0;
    while i < n
        invariant
            i <= n,
            n == s@.len(),
            tokens_so_far(s@, i as int, toks.deep_view()),
        decreases n - i,
    {
        let ghost prev = toks.deep_view();
        let c = s.get_char(i);
        if is_space(c) {
            assert(spec_tokenize_at(s@, i as int) == spec_tokenize_at(s@, i + 1 as int));
            i = i + 1;
        } else if is_ident_char(c) {
            let j = scan_ident_end_exec(s, i);
            let t = Token::Ident(s.substring_char(i, j).to_owned());
            toks.push(t);
            proof {
                lemma_scan_ident_end(s@, i as int);
                lemma_tokens_step(s@, i as int, j as int, prev, TokenV::Ident(
                    s@.subrange(i as int, j as int),
                ));
                assert(toks.deep_view() =~= prev.push(TokenV::Ident(
                    s@.subrange(i as int, j as int),
                )));
            }
            i = j;
        } else if c == '#' || c == ':' {
            let j = scan_ident_end_exec(s, i + 1);
            if j == i + 1 {
                assert(spec_tokenize_at(s@, i as int) is None);
                return Err(ParserError::ParseError("expected identifier".to_owned()));
            }
            let name = s.substring_char(i + 1, j).to_owned();
            let ghost tv = if c == '#' {
                TokenV::NamePlaceholder(s@.subrange(i + 1, j as int))
            } else {
                TokenV::ValuePlaceholder(s@.subrange(i + 1, j as int))
            };
            if c == '#' {
                toks.push(Token::NamePlaceholder(name));
            } else {
                toks.push(Token::ValuePlaceholder(name));
            }
            proof {
                lemma_scan_ident_end(s@, i + 1);
                lemma_tokens_step(s@, i as int, j as int, prev, tv);
                assert(toks.deep_view() =~= prev.push(tv));
            }
            i = j;
        } else if c == '<' || c == '>' {
            let two = i + 1 < n && s.get_char(i + 1) == '=';
            let j = if two {
                i + 2
            } else {
                i + 1
            };
            let t = Token::ReservedCmp(s.substring_char(i, j).to_owned());
            toks.push(t);
            proof {
                lemma_tokens_step(s@, i as int, j as int, prev, TokenV::ReservedCmp(
                    s@.subrange(i as int, j as int),
                ));
                assert(toks.deep_view() =~= prev.push(TokenV::ReservedCmp(
                    s@.subrange(i as int, j as int),
                )));
            }
            i = j;
        } else if c == '=' || c == '(' || c == ')' || c == ',' {
            let ghost tv = if c == '=' {
                TokenV::EqSign
            } else if c == '(' {
                TokenV::LParen
            } else if c == ')' {
                TokenV::RParen
            } else {
                TokenV::Comma
            };
            if c == '=' {
                toks.push(Token::EqSign);
            } else if c == '(' {
                toks.push(Token::LParen);
            } else if c == ')' {
                toks.push(Token::RParen);
            } else {
                toks.push(Token::Comma);
            }
            proof {
                lemma_tokens_step(s@, i as int, i + 1, prev, tv);
                assert(toks.deep_view() =~= prev.push(tv));
            }
            i = i + 1;
        } else {
            assert(spec_tokenize_at(s@, i as int) is None);
            return Err(ParserError::ParseError("unexpected character".to_owned()));
        }
    }
    assert(spec_tokenize_at(s@, n as int) == Some(Seq::<TokenV>::empty()));
    assert(toks.deep_view() + Seq::<TokenV>::empty() =~= toks.deep_view());
    Ok(toks)
}

/// One step of the tokenizer: where position `i` yields token `t` and the
/// scan resumes at `j`, the accumulator relation moves from `i` to `j`.
proof fn lemma_tokens_step(s: Seq<char>, i: int, j: int, acc: Seq<TokenV>, t: TokenV)
    requires
        0 <= i < s.len(),
        i < j <= s.len(),
        tokens_so_far(s, i, acc),
        spec_tokenize_at(s, i) == match spec_tokenize_at(s, j) {
            None => None::<Seq<TokenV>>,
            Some(rest) => Some(seq![t] + rest),
        },
    ensures
        tokens_so_far(s, j, acc.push(t)),
{
    match spec_tokenize_at(s, j) {
        None => {},
        Some(rest) => {
            assert(acc + (seq![t] + rest) =~= acc.push(t) + rest);
        },
    }
}

/// The node a key token stands for: a column name or a name placeholder.
pub open spec fn spec_key_node(t: TokenV) -> Option<NodeV> {
    match t {
        TokenV::Ident(s) => Some(NodeV::Attribute(s)),
        TokenV::NamePlaceholder(s) => Some(NodeV::Placeholder(s)),
        _ => None,
    }
}

/// The node a value token stands for: a column name or a value placeholder.
pub open spec fn spec_value_node(t: TokenV) -> Option<NodeV> {
    match t {
        TokenV::Ident(s) => Some(NodeV::Attribute(s)),
        TokenV::ValuePlaceholder(s) => Some(NodeV::Placeholder(s)),
        _ => None,
    }
}

/// A reserved comparator position: a comparator token, or the keyword
/// `BETWEEN`.
pub open spec fn spec_is_reserved_marker(t: TokenV) -> bool {
    t is ReservedCmp || (t matches TokenV::Ident(w) && w == "BETWEEN"@)
}

/// What parsing one condition at the front of `ts` comes to.
#[verifier::ext_equal]
pub enum CondOutcome {
    /// The node and the number of tokens consumed.
    Parsed(NodeV, int),
    /// The condition uses a comparator the grammar reserves.
    Reserved,
    /// The tokens fit no condition.
    Invalid,
}

/// Parse one condition at the front of `ts`: either
/// `begins_with ( key , value )` or `key = value`. A condition whose
/// comparator is reserved (`<`, `>`, `<=`, `>=`, `BETWEEN`) is told apart
/// from a malformed one.
pub open spec fn spec_parse_condition(ts: Seq<TokenV>) -> CondOutcome {
    if ts.len() >= 2 && (ts[0] matches TokenV::Ident(f) && f == "begins_with"@) && ts[1]
        is LParen {
        if ts.len() >= 6 && spec_key_node(ts[2]) is Some && ts[3] is Comma && spec_value_node(
            ts[4],
        ) is Some && ts[5] is RParen {
            CondOutcome::Parsed(
                NodeV::FunctionCall {
                    name: "begins_with"@,
                    args: seq![
                        spec_key_node(ts[2])->Some_0,
                        spec_value_node(ts[4])->Some_0,
                    ],
                },
                6,
            )
        } else {
            CondOutcome::Invalid
        }
    } else if ts.len() >= 2 && spec_key_node(ts[0]) is Some && spec_is_reserved_marker(ts[1]) {
        CondOutcome::Reserved
    } else if ts.len() >= 3 && spec_key_node(ts[0]) is Some && ts[1] is EqSign
        && spec_value_node(ts[2]) is Some {
        CondOutcome::Parsed(
            NodeV::Binop {
                lhs: Box::new(spec_key_node(ts[0])->Some_0),
                rhs: Box::new(spec_value_node(ts[2])->Some_0),
                op: Operator::Eq,
            },
            3,
        )
    } else {
        CondOutcome::Invalid
    }
}

/// What parsing a whole token sequence comes to.
#[verifier::ext_equal]
pub enum ParseOutcome {
    /// The syntax tree of the expression.
    Parsed(NodeV),
    /// Some condition uses a comparator the grammar reserves.
    Reserved,
    /// The input is not of the grammar.
    Invalid,
}

/// Parse a whole token sequence: one condition, or two joined by `AND`.
pub open spec fn spec_parse_tokens(ts: Seq<TokenV>) -> ParseOutcome {
    match spec_parse_condition(ts) {
        CondOutcome::Invalid => ParseOutcome::Invalid,
        CondOutcome::Reserved => ParseOutcome::Reserved,
        CondOutcome::Parsed(n1, k) => if k == ts.len() {
            ParseOutcome::Parsed(n1)
        } else if ts[k] matches TokenV::Ident(w) && w == "AND"@ {
            match spec_parse_condition(ts.skip(k + 1)) {
                CondOutcome::Invalid => ParseOutcome::Invalid,
                CondOutcome::Reserved => ParseOutcome::Reserved,
                CondOutcome::Parsed(n2, k2) => if k + 1 + k2 == ts.len() {
                    ParseOutcome::Parsed(
                        NodeV::Binop {
                            lhs: Box::new(n1),
                            rhs: Box::new(n2),
                            op: Operator::And,
                        },
                    )
                } else {
                    ParseOutcome::Invalid
                },
            }
        } else {
            ParseOutcome::Invalid
        },
    }
}

/// What parsing `s` comes to: its syntax tree, a reserved-comparator
/// rejection, or a malformed-input rejection.
pub open spec fn spec_parse(s: Seq<char>) -> ParseOutcome {
    match spec_tokenize(s) {
        None => ParseOutcome::Invalid,
        Some(ts) => spec_parse_tokens(ts),
    }
}

/// The key node of `t`, executably.
fn key_node(t: &Token) -> (r: Option<Node>)
    ensures
        match r {
            Some(n) => spec_key_node(t@) == Some(n.deep_view()),
            None => spec_key_node(t@) is None,
        },
{
    match t {
        Token::Ident(s) => Some(Node::Attribute(s.clone())),
        Token::NamePlaceholder(s) => Some(Node::Placeholder(s.clone())),
        _ => None,
    }
}

/// The value node of `t`, executably.
fn value_node(t: &Token) -> (r: Option<Node>)
    ensures
        match r {
            Some(n) => spec_value_node(t@) == Some(n.deep_view()),
            None => spec_value_node(t@) is None,
        },
{
    match t {
        Token::Ident(s) => Some(Node::Attribute(s.clone())),
        Token::ValuePlaceholder(s) => Some(Node::Placeholder(s.clone())),
        _ => None,
    }
}

/// Whether `t` is the identifier `w`.
fn is_ident_token(t: &Token, w: &str) -> (r: bool)
    ensures
        r == (t@ matches TokenV::Ident(s) && s == w@),
{
    match t {
        Token::Ident(s) => str_eq(s.as_str(), w),
        _ => false,
    }
}

/// Whether `t` stands where a reserved comparator does.
fn is_reserved_token(t: &Token) -> (r: bool)
    ensures
        r == spec_is_reserved_marker(t@),
{
    match t {
        Token::ReservedCmp(_) => true,
        Token::Ident(w) => str_eq(w.as_str(), "BETWEEN"),
        _ => false,
    }
}

/// Parse one condition of `ts` starting at `at`.
fn parse_condition_at(ts: &Vec<Token>, at: usize) -> (r: Result<(Node, usize), ParserError>)
    requires
        at <= ts@.len(),
    ensures
        match spec_parse_condition(ts.deep_view().skip(at as int)) {
            CondOutcome::Parsed(n, used) => r matches Ok((node, next)) && at < next <= ts@.len()
                && node.deep_view() == n && next - at == used,
            CondOutcome::Reserved => r matches Err(ParserError::UnsupportedComparator),
            CondOutcome::Invalid => r matches Err(e) && !(e is UnsupportedComparator),
        },
{
    let ghost rest = ts.deep_view().skip(at as int);
    assert(forall|j: int| 0 <= j < rest.len() ==> rest[j] == ts.deep_view()[at + j]);
    let n = ts.len();
    if n - at >= 2 && is_ident_token(&ts[at], "begins_with") && matches!(ts[at + 1], Token::LParen) {
        if n - at >= 6 && matches!(ts[at + 3], Token::Comma) && matches!(
            ts[at + 5],
            Token::RParen,
        ) {
            let kn = key_node(&ts[at + 2]);
            let vn = value_node(&ts[at + 4]);
            match (kn, vn) {
                (Some(k), Some(v)) => {
                    let mut args: Vec<Node> = Vec::new();
                    args.push(k);
                    args.push(v);
                    let node = Node::FunctionCall { name: "begins_with".to_owned(), args };
                    assert(node.deep_view() matches NodeV::FunctionCall { name, args: a }
                        && name == "begins_with"@ && a =~= seq![
                        spec_key_node(rest[2])->Some_0,
                        spec_value_node(rest[4])->Some_0,
                    ]);
                    Ok((node, at + 6))
                },
                _ => Err(ParserError::ParseError("invalid function arguments".to_owned())),
            }
        } else {
            Err(ParserError::ParseError("invalid function call".to_owned()))
        }
    } else if n - at >= 2 && is_reserved_token(&ts[at + 1]) {
        match key_node(&ts[at]) {
            Some(_) => Err(ParserError::UnsupportedComparator),
            None => Err(ParserError::ParseError("invalid condition".to_owned())),
        }
    } else if n - at >= 3 && matches!(ts[at + 1], Token::EqSign) {
        let kn = key_node(&ts[at]);
        let vn = value_node(&ts[at + 2]);
        match (kn, vn) {
            (Some(k), Some(v)) => {
                let node = Node::Binop { lhs: Box::new(k), rhs: Box::new(v), op: Operator::Eq };
                Ok((node, at + 3))
            },
            _ => Err(ParserError::ParseError("invalid condition".to_owned())),
        }
    } else {
        if at >= n {
            Err(ParserError::Eoi)
        } else {
            Err(ParserError::ParseError("invalid condition".to_owned()))
        }
    }
}

/// Parse a whole token sequence.
fn parse_tokens(ts: &Vec<Token>) -> (r: Result<Node, ParserError>)
    ensures
        match spec_parse_tokens(ts.deep_view()) {
            ParseOutcome::Parsed(n) => r matches Ok(node) && node.deep_view() == n,
            ParseOutcome::Reserved => r matches Err(ParserError::UnsupportedComparator),
            ParseOutcome::Invalid => r matches Err(e) && !(e is UnsupportedComparator),
        },
{
    let ghost tv = ts.deep_view();
    assert(tv.skip(0) =~= tv);
    let (n1, next) = match parse_condition_at(ts, 0) {
        Ok(p) => p,
        Err(e) => {
            return Err(e);
        },
    };
    if next == ts.len() {
        return Ok(n1);
    }
    if is_ident_token(&ts[next], "AND") {
        let ghost rest2 = tv.skip(next + 1);
        assert(forall|j: int| 0 <= j < rest2.len() ==> rest2[j] == tv[next + 1 + j]);
        let (n2, next2) = match parse_condition_at(ts, next + 1) {
            Ok(p) => p,
            Err(e) => {
                return Err(e);
            },
        };
        if next2 == ts.len() {
            Ok(Node::Binop { lhs: Box::new(n1), rhs: Box::new(n2), op: Operator::And })
        } else {
            Err(ParserError::ParseError("trailing tokens".to_owned()))
        }
    } else {
        Err(ParserError::ParseError("expected AND".to_owned()))
    }
}

/// Parse a key-condition expression into its syntax tree. An expression
/// using a reserved comparator is told apart from a malformed one.
pub fn parse(input: &str) -> (r: Result<Node, ParserError>)
    ensures
        match spec_parse(input@) {
            ParseOutcome::Parsed(n) => r matches Ok(node) && node.deep_view() == n,
            ParseOutcome::Reserved => r matches Err(ParserError::UnsupportedComparator),
            ParseOutcome::Invalid => r matches Err(e) && !(e is UnsupportedComparator),
        },
{
    let toks = tokenize(input)?;
    parse_tokens(&toks)
}

} // verus!
