//! Filter clauses for the event store's query language. A filter is a list of
//! predicate clauses, joined and parenthesised; no filter is the empty text.

use vstd::prelude::*;
use vstd::string::*;
use crate::payloads::{EdgeStatus, EdgeStatusSet, NodeType, NodeTypeSet};

verus! {

/// `parts` joined with `sep` between each two.
pub open spec fn joined(parts: Seq<Seq<char>>, sep: Seq<char>) -> Seq<char>
    decreases parts.len(),
{
    if parts.len() == 0 {
        Seq::empty()
    } else if parts.len() == 1 {
        parts[0]
    } else {
        joined(parts.drop_last(), sep) + sep + parts.last()
    }
}

/// `parts` joined with `sep` and put in parentheses; nothing for no parts.
pub open spec fn grouped(parts: Seq<Seq<char>>, sep: Seq<char>) -> Seq<char> {
    if parts.len() == 0 {
        Seq::empty()
    } else {
        "("@ + joined(parts, sep) + ")"@
    }
}

/// The stored code of a node type, as text.
pub open spec fn type_code_text(t: NodeType) -> Seq<char> {
    match t {
        NodeType::Service => "1"@,
        NodeType::Transaction => "2"@,
    }
}

/// The clause that field `field` holds node type `t`.
pub open spec fn type_clause(field: Seq<char>, t: NodeType) -> Seq<char> {
    field + " = "@ + type_code_text(t)
}

/// One clause for each type of the set, in the order service, transaction.
pub open spec fn type_clauses(types: Set<NodeType>, field: Seq<char>) -> Seq<Seq<char>> {
    (if types.contains(NodeType::Service) {
        seq![type_clause(field, NodeType::Service)]
    } else {
        Seq::empty()
    }) + (if types.contains(NodeType::Transaction) {
        seq![type_clause(field, NodeType::Transaction)]
    } else {
        Seq::empty()
    })
}

/// The filter that field `field` holds one of the types of the set.
pub open spec fn node_filter_text(types: Set<NodeType>, field: Seq<char>) -> Seq<char> {
    grouped(type_clauses(types, field), " OR "@)
}

/// One clause for each status of the set, in the order success, expected
/// error, unexpected error: that the row counted a call with that status.
pub open spec fn status_clauses(statuses: Set<EdgeStatus>) -> Seq<Seq<char>> {
    (if statuses.contains(EdgeStatus::Success) {
        seq!["t.status_ok > 0"@]
    } else {
        Seq::empty()
    }) + (if statuses.contains(EdgeStatus::ExpectedError) {
        seq!["t.status_expected_error > 0"@]
    } else {
        Seq::empty()
    }) + (if statuses.contains(EdgeStatus::UnexpectedError) {
        seq!["t.status_unexpected_error > 0"@]
    } else {
        Seq::empty()
    })
}

/// The filter that a row counted a call with every status of the set.
pub open spec fn edge_post_filter_text(statuses: Set<EdgeStatus>) -> Seq<char> {
    grouped(status_clauses(statuses), " AND "@)
}

pub open spec fn views(parts: Seq<String>) -> Seq<Seq<char>> {
    Seq::new(parts.len(), |k: int| parts[k]@)
}

fn group(parts: &Vec<String>, sep: &str) -> (r: String)
    ensures
        r@ == grouped(views(parts@), sep@),
{
    if parts.len() == 0 {
        return String::new();
    }
    let mut text = String::from_str("(");
    text.append(parts[0].as_str());
    let mut i: usize = 1;
    assert(views(parts@).take(1) =~= seq![parts@[0]@]);
    while i < parts.len()
        invariant
            1 <= i <= parts.len(),
            text@ == "("@ + joined(views(parts@).take(i as int), sep@),
        decreases parts.len() - i,
    {
        let ghost vs = views(parts@);
        assert(vs.take(i + 1).drop_last() =~= vs.take(i as int));
        text.append(sep);
        text.append(parts[i].as_str());
        assert(text@ =~= "("@ + joined(vs.take(i + 1), sep@));
        i = i + 1;
    }
    assert(views(parts@).take(parts.len() as int) =~= views(parts@));
    text.append(")");
    text
}

fn type_clause_exec(field: &str, t: NodeType) -> (r: String)
    ensures
        r@ == type_clause(field@, t),
{
    let mut clause = String::from_str(field);
    clause.append(" = ");
    match t {
        NodeType::Service => clause.append("1"),
        NodeType::Transaction => clause.append("2"),
    }
    clause
}

/// The filter that field `field` holds one of the node types of the set, for
/// instance `(from_node.node_type = 1 OR from_node.node_type = 2)`; the empty
/// text for the empty set.
pub fn get_node_filter(types: &NodeTypeSet, field: &str) -> (r: String)
    ensures
        r@ == node_filter_text(types@, field@),
{
    let mut parts: Vec<String> = Vec::new();
    if types.contains(NodeType::Service) {
        parts.push(type_clause_exec(field, NodeType::Service));
    }
    if types.contains(NodeType::Transaction) {
        parts.push(type_clause_exec(field, NodeType::Transaction));
    }
    assert(views(parts@) =~= type_clauses(types@, field@));
    group(&parts, " OR ")
}

/// The filter that a row of a graph query counted a call with every status of
/// the set, for instance `(t.status_ok > 0 AND t.status_unexpected_error > 0)`;
/// the empty text for the empty set.
pub fn get_edge_post_filter(edge_statuses: &EdgeStatusSet) -> (r: String)
    ensures
        r@ == edge_post_filter_text(edge_statuses@),
{
    let mut parts: Vec<String> = Vec::new();
    if edge_statuses.contains(EdgeStatus::Success) {
        parts.push(String::from_str("t.status_ok > 0"));
    }
    if edge_statuses.contains(EdgeStatus::ExpectedError) {
        parts.push(String::from_str("t.status_expected_error > 0"));
    }
    if edge_statuses.contains(EdgeStatus::UnexpectedError) {
        parts.push(String::from_str("t.status_unexpected_error > 0"));
    }
    assert(views(parts@) =~= status_clauses(edge_statuses@));
    group(&parts, " AND ")
}

/// The connective to put before a filter: `AND ` before a filter, nothing
/// before no filter.
pub fn and_if_filter(filter: &String) -> (r: &'static str)
    ensures
        r@ == (if filter@.len() == 0 { ""@ } else { "AND "@ }),
{
    if filter.as_str().is_empty() {
        ""
    } else {
        "AND "
    }
}

} // verus!
