//! The update-expression language. Of its four actions (`SET`, `REMOVE`,
//! `ADD`, `DELETE`) only `SET` is realised: a comma-separated list of
//! assignments between attribute paths and placeholders.

use vstd::prelude::*;
use vstd::string::*;
use crate::queries::{self, Token, TokenV};
use crate::strutil::str_eq;

verus! {

/// A failure of update-expression parsing.
#[derive(Debug, Clone, PartialEq, Eq)]
pub enum ParserError {
    /// The input is not of the grammar; carries a short description.
    ParseError(String),
    /// The input ended where the grammar demands more.
    Eoi,
    /// A node that does not stand for a string.
    NotStringlike,
}

/// One side of an assignment: an attribute path or a placeholder with its
/// sigil stripped.
#[derive(Debug, PartialEq, Eq, Clone)]
pub enum Name {
    Placeholder(String),
    Path(Vec<String>),
}

/// Mathematical value of a [`Name`].
#[verifier::ext_equal]
pub enum NameV {
    Placeholder(Seq<char>),
    Path(Seq<Seq<char>>),
}

impl DeepView for Name {
    type V = NameV;

    open spec fn deep_view(&self) -> NameV {
        match self {
            Name::Placeholder(s) => NameV::Placeholder(s@),
            Name::Path(p) => NameV::Path(p.deep_view()),
        }
    }
}

/// One `lhs = rhs` assignment of a `SET` action.
#[derive(Debug, PartialEq, Eq, Clone)]
pub struct Assignment {
    lhs: Name,
    rhs: Name,
}

/// Mathematical value of an [`Assignment`].
#[verifier::ext_equal]
pub struct AssignmentV {
    pub lhs: NameV,
    pub rhs: NameV,
}

impl DeepView for Assignment {
    type V = AssignmentV;

    closed spec fn deep_view(&self) -> AssignmentV {
        AssignmentV { lhs: self.lhs.deep_view(), rhs: self.rhs.deep_view() }
    }
}

impl Assignment {
    /// An assignment of `rhs` to `lhs`.
    pub fn new(lhs: Name, rhs: Name) -> (r: Assignment)
        ensures
            r.deep_view() == (AssignmentV { lhs: lhs.deep_view(), rhs: rhs.deep_view() }),
    {
        Assignment { lhs, rhs }
    }
}

/// A parsed update expression: the realised action and its payload.
#[derive(Debug, PartialEq, Eq)]
pub enum Node {
    SetAction(Vec<Assignment>),
}

/// Mathematical value of a [`Node`].
#[verifier::ext_equal]
pub enum UpdateNodeV {
    SetAction(Seq<AssignmentV>),
}

impl DeepView for Node {
    type V = UpdateNodeV;

    open spec fn deep_view(&self) -> UpdateNodeV {
        match self {
            Node::SetAction(a) => UpdateNodeV::SetAction(a.deep_view()),
        }
    }
}

/// The name a single token stands for: a one-segment path or a
/// placeholder of either sigil.
pub open spec fn spec_operand(t: TokenV) -> Option<NameV> {
    match t {
        TokenV::Ident(s) => Some(NameV::Path(seq![s])),
        TokenV::NamePlaceholder(s) => Some(NameV::Placeholder(s)),
        TokenV::ValuePlaceholder(s) => Some(NameV::Placeholder(s)),
        _ => None,
    }
}

/// The comma-separated assignments starting at token `i` and running to
/// the end of the tokens.
pub open spec fn spec_assignments_from(ts: Seq<TokenV>, i: int) -> Option<Seq<AssignmentV>>
    decreases ts.len() - i,
{
    if i < 0 || i + 3 > ts.len() {
        None
    } else if !(spec_operand(ts[i]) is Some && ts[i + 1] is EqSign && spec_operand(ts[i + 2])
        is Some) {
        None
    } else {
        let a = AssignmentV {
            lhs: spec_operand(ts[i])->Some_0,
            rhs: spec_operand(ts[i + 2])->Some_0,
        };
        if i + 3 == ts.len() {
            Some(seq![a])
        } else if ts[i + 3] is Comma {
            match spec_assignments_from(ts, i + 4) {
                Some(rest) => Some(seq![a] + rest),
                None => None,
            }
        } else {
            None
        }
    }
}

/// A whole token sequence as a `SET` action.
pub open spec fn spec_parse_update_tokens(ts: Seq<TokenV>) -> Option<UpdateNodeV> {
    if ts.len() >= 1 && (ts[0] matches TokenV::Ident(w) && w == "SET"@) {
        match spec_assignments_from(ts, 1) {
            Some(a) => Some(UpdateNodeV::SetAction(a)),
            None => None,
        }
    } else {
        None
    }
}

/// The `SET` action an update expression denotes, if it is of the
/// realised grammar.
pub open spec fn spec_parse_update(s: Seq<char>) -> Option<UpdateNodeV> {
    match queries::spec_tokenize(s) {
        None => None,
        Some(ts) => spec_parse_update_tokens(ts),
    }
}

/// The name one token stands for, executably.
fn operand(t: &Token) -> (r: Option<Name>)
    ensures
        match r {
            Some(n) => spec_operand(t@) == Some(n.deep_view()),
            None => spec_operand(t@) is None,
        },
{
    match t {
        Token::Ident(s) => {
            let mut path: Vec<String> = Vec::new();
            path.push(s.clone());
            let n = Name::Path(path);
            proof {
                assert(n.deep_view() matches NameV::Path(p) && p =~= seq![s@]);
            }
            Some(n)
        },
        Token::NamePlaceholder(s) => Some(Name::Placeholder(s.clone())),
        Token::ValuePlaceholder(s) => Some(Name::Placeholder(s.clone())),
        _ => None,
    }
}

/// Parse the assignments from token `i` to the end.
fn parse_assignments_at(ts: &Vec<Token>, i: usize) -> (r: Result<Vec<Assignment>, ParserError>)
    ensures
        match r {
            Ok(a) => spec_assignments_from(ts.deep_view(), i as int) == Some(a.deep_view()),
            Err(_) => spec_assignments_from(ts.deep_view(), i as int) is None,
        },
    decreases ts@.len() - i,
{
    let n = ts.len();
    if i > n || n - i < 3 {
        return Err(ParserError::Eoi);
    }
    let lhs = operand(&ts[i]);
    let eq_ok = matches!(ts[i + 1], Token::EqSign);
    let rhs = operand(&ts[i + 2]);
    let (lhs, rhs) = match (lhs, eq_ok, rhs) {
        (Some(l), true, Some(r)) => (l, r),
        _ => {
            return Err(ParserError::ParseError("invalid assignment".to_owned()));
        },
    };
    let a = Assignment::new(lhs, rhs);
    if i + 3 == n {
        let mut out: Vec<Assignment> = Vec::new();
        out.push(a);
        proof {
            assert(out.deep_view() =~= seq![a.deep_view()]);
        }
        Ok(out)
    } else if matches!(ts[i + 3], Token::Comma) {
        let mut rest = parse_assignments_at(ts, i + 4)?;
        rest.insert(0, a);
        proof {
            assert(rest.deep_view() =~= seq![a.deep_view()]
                + spec_assignments_from(ts.deep_view(), i + 4)->Some_0);
        }
        Ok(rest)
    } else {
        Err(ParserError::ParseError("expected comma".to_owned()))
    }
}

/// Parse an update expression; only the `SET` action is realised.
pub fn parse(query: &str) -> (r: Result<Node, ParserError>)
    ensures
        match r {
            Ok(n) => spec_parse_update(query@) == Some(n.deep_view()),
            Err(_) => spec_parse_update(query@) is None,
        },
{
    let ts = match queries::tokenize(query) {
        Ok(ts) => ts,
        Err(_) => {
            return Err(ParserError::ParseError("invalid character".to_owned()));
        },
    };
    if ts.len() == 0 {
        return Err(ParserError::Eoi);
    }
    let is_set = match &ts[0] {
        Token::Ident(w) => str_eq(w.as_str(), "SET"),
        _ => false,
    };
    if !is_set {
        return Err(ParserError::ParseError("expected an action".to_owned()));
    }
    let assignments = parse_assignments_at(&ts, 1)?;
    Ok(Node::SetAction(assignments))
}

} // verus!
