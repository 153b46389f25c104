//! Placeholder substitution: rewrites `Placeholder` nodes of a parsed
//! condition into `Attribute` nodes, against the client-supplied maps of
//! expression attribute names and values.

use vstd::prelude::*;
use vstd::string::*;
use crate::errors::TableError;
use crate::queries::{Node, NodeV, node_view};
use crate::strutil::str_eq;
use crate::types::{Attribute, AttrV};

verus! {

/// First value bound to `key` in an association list, from index `i` on.
pub open spec fn assoc_from<T>(entries: Seq<(Seq<char>, T)>, i: int, key: Seq<char>) -> Option<T>
    decreases entries.len() - i,
{
    if i < 0 || i >= entries.len() {
        None
    } else if entries[i].0 == key {
        Some(entries[i].1)
    } else {
        assoc_from(entries, i + 1, key)
    }
}

/// First value bound to `key` in an association list.
pub open spec fn assoc_get<T>(entries: Seq<(Seq<char>, T)>, key: Seq<char>) -> Option<T> {
    assoc_from(entries, 0, key)
}

/// How resolution of one placeholder, or of a whole tree, fails.
#[verifier::ext_equal]
pub enum ResolveErrV {
    /// The placeholder is in neither supplied map; carries its name.
    MissingValue(Seq<char>),
    /// The placeholder is in the value map, but the value carries no
    /// string payload.
    InvalidMap,
}

/// The value a placeholder named `k` resolves to: the entry `#k` of the
/// name map if there is one, else the string payload of the entry `:k` of
/// the value map.
pub open spec fn spec_resolve_placeholder(
    k: Seq<char>,
    names: Option<Seq<(Seq<char>, Seq<char>)>>,
    values: Option<Seq<(Seq<char>, AttrV)>>,
) -> Result<Seq<char>, ResolveErrV> {
    let name_hit = match names {
        Some(es) => assoc_get(es, seq!['#'] + k),
        None => None,
    };
    match name_hit {
        Some(v) => Ok(v),
        None => {
            let value_hit = match values {
                Some(es) => assoc_get(es, seq![':'] + k),
                None => None,
            };
            match value_hit {
                Some(AttrV::S(s)) => Ok(s),
                Some(_) => Err(ResolveErrV::InvalidMap),
                None => Err(ResolveErrV::MissingValue(k)),
            }
        },
    }
}

/// The tree with every placeholder replaced by the attribute it resolves
/// to. `Attribute` and `FunctionCall` nodes are left unchanged.
pub open spec fn spec_resolve(
    n: NodeV,
    names: Option<Seq<(Seq<char>, Seq<char>)>>,
    values: Option<Seq<(Seq<char>, AttrV)>>,
) -> Result<NodeV, ResolveErrV>
    decreases n,
{
    match n {
        NodeV::Binop { lhs, rhs, op } => match spec_resolve(*lhs, names, values) {
            Err(e) => Err(e),
            Ok(l) => match spec_resolve(*rhs, names, values) {
                Err(e) => Err(e),
                Ok(r) => Ok(NodeV::Binop { lhs: Box::new(l), rhs: Box::new(r), op }),
            },
        },
        NodeV::FunctionCall { name, args } => Ok(NodeV::FunctionCall { name, args }),
        NodeV::Attribute(s) => Ok(NodeV::Attribute(s)),
        NodeV::Placeholder(k) => match spec_resolve_placeholder(k, names, values) {
            Ok(v) => Ok(NodeV::Attribute(v)),
            Err(e) => Err(e),
        },
    }
}

/// Look `key` up in an association list of strings.
fn assoc_str_get<'e>(entries: &'e Vec<(String, String)>, key: &str) -> (r: Option<&'e String>)
    ensures
        match r {
            Some(v) => assoc_get(entries.deep_view(), key@) == Some(v@),
            None => assoc_get(entries.deep_view(), key@) is None,
        },
{
    let ghost es = entries.deep_view();
    let n = entries.len();
    let mut i: usize = 0;
    while i < n
        invariant
            i <= n,
            n == es.len(),
            es =~= entries.deep_view(),
            forall|j: int| 0 <= j < es.len() ==> es[j] == (entries@[j].0@, entries@[j].1@),
            assoc_from(es, 0, key@) == assoc_from(es, i as int, key@),
        decreases n - i,
    {
        if str_eq(entries[i].0.as_str(), key) {
            return Some(&entries[i].1);
        }
        i = i + 1;
    }
    None
}

/// Look `key` up in an association list of attribute values.
fn assoc_attr_get<'e>(entries: &'e Vec<(String, Attribute)>, key: &str) -> (r: Option<
    &'e Attribute,
>)
    ensures
        match r {
            Some(v) => assoc_get(entries.deep_view(), key@) == Some(v.deep_view()),
            None => assoc_get(entries.deep_view(), key@) is None,
        },
{
    let ghost es = entries.deep_view();
    let n = entries.len();
    let mut i: usize = 0;
    while i < n
        invariant
            i <= n,
            n == es.len(),
            es =~= entries.deep_view(),
            forall|j: int| 0 <= j < es.len() ==> es[j] == (entries@[j].0@, entries@[j].1.deep_view()),
            assoc_from(es, 0, key@) == assoc_from(es, i as int, key@),
        decreases n - i,
    {
        if str_eq(entries[i].0.as_str(), key) {
            return Some(&entries[i].1);
        }
        i = i + 1;
    }
    None
}

/// Resolves placeholders of a syntax tree against the expression
/// attribute maps of a query.
pub struct NodeVisitor<'a> {
    pub expression_attribute_names: &'a Option<Vec<(String, String)>>,
    pub expression_attribute_values: &'a Option<Vec<(String, Attribute)>>,
}

impl<'a> NodeVisitor<'a> {
    /// The names this visitor substitutes with.
    pub open spec fn names_view(&self) -> Option<Seq<(Seq<char>, Seq<char>)>> {
        self.expression_attribute_names.deep_view()
    }

    /// The values this visitor substitutes with.
    pub open spec fn values_view(&self) -> Option<Seq<(Seq<char>, AttrV)>> {
        self.expression_attribute_values.deep_view()
    }

    pub fn new(
        expression_attribute_names: &'a Option<Vec<(String, String)>>,
        expression_attribute_values: &'a Option<Vec<(String, Attribute)>>,
    ) -> (r: NodeVisitor<'a>)
        ensures
            r.names_view() == expression_attribute_names.deep_view(),
            r.values_view() == expression_attribute_values.deep_view(),
    {
        NodeVisitor { expression_attribute_names, expression_attribute_values }
    }

    /// The attribute a placeholder named `k` stands for.
    fn resolve_placeholder(&self, k: &str) -> (r: Result<String, TableError>)
        ensures
            match r {
                Ok(v) => spec_resolve_placeholder(k@, self.names_view(), self.values_view())
                    == Ok::<_, ResolveErrV>(v@),
                Err(e) => match spec_resolve_placeholder(
                    k@,
                    self.names_view(),
                    self.values_view(),
                ) {
                    Ok(_) => false,
                    Err(ResolveErrV::MissingValue(kk)) => e matches TableError::NoAttributeValue(
                        ks,
                    ) && ks@ == kk,
                    Err(ResolveErrV::InvalidMap) => e matches TableError::InvalidAttributeMap,
                },
            },
    {
        let name_key: String = "#".to_owned().concat(k);
        let value_key: String = ":".to_owned().concat(k);
        proof {
            reveal_strlit("#");
            reveal_strlit(":");
            assert(name_key@ =~= seq!['#'] + k@);
            assert(value_key@ =~= seq![':'] + k@);
        }
        if let Some(names) = self.expression_attribute_names {
            if let Some(v) = assoc_str_get(names, name_key.as_str()) {
                return Ok(v.clone());
            }
        }
        if let Some(values) = self.expression_attribute_values {
            if let Some(a) = assoc_attr_get(values, value_key.as_str()) {
                return match a {
                    Attribute::S(s) => Ok(s.clone()),
                    _ => Err(TableError::InvalidAttributeMap),
                };
            }
        }
        Err(TableError::NoAttributeValue(k.to_owned()))
    }

    /// Rewrite the tree, substituting every placeholder.
    pub fn visit(&self, ast: Node) -> (r: Result<Node, TableError>)
        ensures
            match r {
                Ok(m) => spec_resolve(node_view(ast), self.names_view(), self.values_view())
                    == Ok::<_, ResolveErrV>(m.deep_view()),
                Err(e) => match spec_resolve(
                    node_view(ast),
                    self.names_view(),
                    self.values_view(),
                ) {
                    Ok(_) => false,
                    Err(ResolveErrV::MissingValue(kk)) => e matches TableError::NoAttributeValue(
                        ks,
                    ) && ks@ == kk,
                    Err(ResolveErrV::InvalidMap) => e matches TableError::InvalidAttributeMap,
                },
            },
        decreases ast,
    {
        match ast {
            Node::Binop { lhs, rhs, op } => {
                let l = self.visit(*lhs)?;
                let r = self.visit(*rhs)?;
                Ok(Node::Binop { lhs: Box::new(l), rhs: Box::new(r), op })
            },
            Node::FunctionCall { name, args } => Ok(Node::FunctionCall { name, args }),
            Node::Attribute(s) => Ok(Node::Attribute(s)),
            Node::Placeholder(k) => {
                let v = self.resolve_placeholder(k.as_str())?;
                Ok(Node::Attribute(v))
            },
        }
    }
}

} // verus!
