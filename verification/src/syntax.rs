//! The closed enumeration of token and node kinds for the container-query
//! grammar, together with the leading-set predicates the dispatcher uses.

use vstd::prelude::*;

verus! {

/// Kinds for both leaf tokens and completed tree nodes.
///
/// The token kinds come from the external lexer; the node kinds are assigned
/// by the parser when a marker is completed.
#[derive(Clone, Copy, PartialEq, Eq, Structural, Debug)]
pub enum SyntaxKind {
    // Token kinds.
    Eof,
    ContainerKw,
    NotKw,
    AndKw,
    OrKw,
    StyleKw,
    LParen,
    RParen,
    LCurly,
    RCurly,
    Ident,
    Colon,
    Semicolon,
    Value,
    // Node kinds.
    ContainerAtRule,
    ContainerNotQuery,
    ContainerAndQuery,
    ContainerOrQuery,
    ContainerQueryInParens,
    ContainerSizeFeatureInParens,
    ContainerStyleQueryInParens,
    ContainerStyleAndQuery,
    ContainerStyleOrQuery,
    ContainerStyleNotQuery,
    ContainerStyleInParens,
    BogusAtRule,
    QueryFeature,
    Declaration,
    Identifier,
    RuleListBlock,
    StyleSheet,
}

} // verus!
