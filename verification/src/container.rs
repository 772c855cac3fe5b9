//! The container-query grammar: one production function per nonterminal.
//!
//! Every production follows the same discipline: it checks its leading set
//! with one or two tokens of lookahead, returns `Absent` without touching
//! the parser if the leading set is not met, and otherwise consumes tokens,
//! drives a marker, and completes a node. A failed mandatory block turns the
//! whole at-rule node into `BogusAtRule` instead of discarding its children,
//! so every consumed token stays in the tree.

use vstd::prelude::*;
use crate::syntax::SyntaxKind;
use crate::tree::{
    Element, Node, Token, node_leaves, lemma_subrange_concat, lemma_subrange_single,
};
use crate::parser::{Diagnostic, ParsedSyntax, Parser};
use crate::subgrammar::{
    is_at_identifier, parse_any_query_feature, parse_declaration,
    parse_or_recover_rule_list_block, parse_regular_identifier,
};

verus! {

/// What every production guarantees: the token stream is untouched, the
/// cursor only moves forward, diagnostics are only appended, an `Absent`
/// outcome leaves the parser exactly as it was, and a `Present` node's
/// leaves are exactly the tokens consumed by the call, in order.
pub open spec fn parse_frame(pre: Parser, post: Parser, r: ParsedSyntax) -> bool {
    &&& post.inv()
    &&& post.tokens == pre.tokens
    &&& pre.pos <= post.pos <= pre.tokens@.len()
    &&& pre.diagnostics@.is_prefix_of(post.diagnostics@)
    &&& (r is Absent ==> post == pre)
    &&& (r is Present ==> post.pos > pre.pos)
    &&& (r matches ParsedSyntax::Present(n) ==>
        node_leaves(n) == pre.tokens@.subrange(pre.pos as int, post.pos as int))
}

/// Is this element a leaf token of the given kind?
pub open spec fn is_kind_token(e: Element, k: SyntaxKind) -> bool {
    &&& e matches Element::Token(t)
    &&& t.kind == k
}

/// Is this element a node of the given kind?
pub open spec fn is_kind_node(e: Element, k: SyntaxKind) -> bool {
    &&& e matches Element::Node(n)
    &&& n.kind == k
}

/// The node kinds a `query-in-parens` operand can have.
pub open spec fn query_in_parens_kind(k: SyntaxKind) -> bool {
    ||| k == SyntaxKind::ContainerQueryInParens
    ||| k == SyntaxKind::ContainerSizeFeatureInParens
    ||| k == SyntaxKind::ContainerStyleQueryInParens
}

/// The node kinds a complete `container-condition` can have.
pub open spec fn condition_kind(k: SyntaxKind) -> bool {
    ||| k == SyntaxKind::ContainerNotQuery
    ||| k == SyntaxKind::ContainerAndQuery
    ||| k == SyntaxKind::ContainerOrQuery
    ||| query_in_parens_kind(k)
}

/// The node kinds the left operand of a size-side fold step can have: a
/// plain `query-in-parens`, or an already folded combinator node.
pub open spec fn chain_operand_kind(k: SyntaxKind) -> bool {
    ||| k == SyntaxKind::ContainerAndQuery
    ||| k == SyntaxKind::ContainerOrQuery
    ||| query_in_parens_kind(k)
}

/// The shape of one completed size-side fold step: the preceded operand
/// when there was one, then the operator token, then the right-hand
/// `query-in-parens` when one followed. Operand or right-hand side may be
/// missing on malformed input; the operator token never is.
pub open spec fn container_fold_shape(n: Node) -> bool {
    let c = n.children@;
    let op = if n.kind == SyntaxKind::ContainerAndQuery {
        SyntaxKind::AndKw
    } else {
        SyntaxKind::OrKw
    };
    ||| (c.len() == 1 && is_kind_token(c[0], op))
    ||| (c.len() == 2 && is_kind_token(c[0], op)
        && (c[1] matches Element::Node(r) && query_in_parens_kind(r.kind)))
    ||| (c.len() == 2 && (c[0] matches Element::Node(l) && chain_operand_kind(l.kind))
        && is_kind_token(c[1], op))
    ||| (c.len() == 3 && (c[0] matches Element::Node(l) && chain_operand_kind(l.kind))
        && is_kind_token(c[1], op)
        && (c[2] matches Element::Node(r) && query_in_parens_kind(r.kind)))
}

/// The node kinds a complete style-side combinable query can have.
pub open spec fn style_operand_kind(k: SyntaxKind) -> bool {
    ||| k == SyntaxKind::ContainerStyleInParens
    ||| k == SyntaxKind::ContainerStyleAndQuery
    ||| k == SyntaxKind::ContainerStyleOrQuery
}

/// The shape of one style-side fold step: the preceded `style-in-parens`
/// operand when there was one, the operator token, then the right-recursive
/// rest of the chain when one followed.
pub open spec fn style_fold_shape(n: Node) -> bool {
    let c = n.children@;
    let op = if n.kind == SyntaxKind::ContainerStyleAndQuery {
        SyntaxKind::AndKw
    } else {
        SyntaxKind::OrKw
    };
    ||| (c.len() == 1 && is_kind_token(c[0], op))
    ||| (c.len() == 2 && is_kind_token(c[0], op)
        && (c[1] matches Element::Node(r) && style_operand_kind(r.kind)))
    ||| (c.len() == 2 && is_kind_node(c[0], SyntaxKind::ContainerStyleInParens)
        && is_kind_token(c[1], op))
    ||| (c.len() == 3 && is_kind_node(c[0], SyntaxKind::ContainerStyleInParens)
        && is_kind_token(c[1], op)
        && (c[2] matches Element::Node(r) && style_operand_kind(r.kind)))
}

/// Which parenthesised form the two-token lookahead dispatches to when the
/// outcome is a plain `query-in-parens` rather than a fold node.
pub open spec fn query_in_parens_dispatch(pre: Parser, n: Node) -> bool {
    &&& (pre.cur_kind() == SyntaxKind::StyleKw
        ==> n.kind == SyntaxKind::ContainerStyleQueryInParens)
    &&& ((pre.cur_kind() == SyntaxKind::LParen
        && (pre.nth_kind(1) == SyntaxKind::NotKw || pre.nth_kind(1) == SyntaxKind::LParen))
        ==> n.kind == SyntaxKind::ContainerQueryInParens)
    &&& ((pre.cur_kind() == SyntaxKind::LParen
        && !(pre.nth_kind(1) == SyntaxKind::NotKw || pre.nth_kind(1) == SyntaxKind::LParen))
        ==> n.kind == SyntaxKind::ContainerSizeFeatureInParens)
}

/// The children layout of a completed at-rule node, proper or bogus: the
/// `container` token, then an optional `Identifier` name node, then an
/// optional condition node, then — exactly when the rule is proper — the
/// rule-list block as last child.
pub open spec fn at_rule_shape(n: Node, container_token: Token) -> bool {
    let c = n.children@;
    let pl = c.len() - (if n.kind == SyntaxKind::ContainerAtRule { 1int } else { 0int });
    &&& c.len() > 0
    &&& c[0] == Element::Token(container_token)
    &&& (n.kind == SyntaxKind::ContainerAtRule
        ==> is_kind_node(c.last(), SyntaxKind::RuleListBlock))
    &&& {
        ||| pl == 1
        ||| (pl == 2 && is_kind_node(c[1], SyntaxKind::Identifier))
        ||| (pl == 2 && (c[1] matches Element::Node(q) && condition_kind(q.kind)))
        ||| (pl == 3 && is_kind_node(c[1], SyntaxKind::Identifier)
            && (c[2] matches Element::Node(q) && condition_kind(q.kind)))
    }
}

/// Prefixes of a growing diagnostic list compose.
pub proof fn lemma_prefix_trans(a: Seq<Diagnostic>, b: Seq<Diagnostic>, c: Seq<Diagnostic>)
    requires
        a.is_prefix_of(b),
        b.is_prefix_of(c),
    ensures
        a.is_prefix_of(c),
{
    assert(a =~= c.subrange(0, a.len() as int));
}

/// A diagnostic already recorded stays recorded when the list only grows.
pub proof fn lemma_prefix_contains(a: Seq<Diagnostic>, b: Seq<Diagnostic>, d: Diagnostic)
    requires
        a.is_prefix_of(b),
        a.contains(d),
    ensures
        b.contains(d),
{
    let i = choose|i: int| 0 <= i < a.len() && a[i] == d;
    assert(b[i] == a[i]);
    assert(exists|j: int| 0 <= j < b.len() && b[j] == d);
}

/// The leading set of `query-in-parens`: a grouping or feature parenthesis,
/// or the `style(...)` form.
pub open spec fn at_query_in_parens(p: Parser) -> bool {
    p.cur_kind() == SyntaxKind::LParen || p.cur_kind() == SyntaxKind::StyleKw
}

/// The leading set of the whole `container-condition` alternative chain.
pub open spec fn at_any_container_query(p: Parser) -> bool {
    ||| p.cur_kind() == SyntaxKind::NotKw
    ||| at_query_in_parens(p)
    ||| p.cur_kind() == SyntaxKind::AndKw
    ||| p.cur_kind() == SyntaxKind::OrKw
}

pub fn is_at_container_at_rule(p: &Parser) -> (b: bool)
    requires
        p.inv(),
    ensures
        b == (p.cur_kind() == SyntaxKind::ContainerKw),
{
    p.at(SyntaxKind::ContainerKw)
}

/// `container-at-rule := 'container' IDENT? container-condition block`.
///
/// If the mandatory trailing block cannot be parsed, the node keeps every
/// token consumed so far but is tagged `BogusAtRule`, and exactly one
/// diagnostic has been recorded for the missing block.
pub fn parse_container_at_rule(p: &mut Parser) -> (r: ParsedSyntax)
    requires
        old(p).inv(),
    ensures
        parse_frame(*old(p), *final(p), r),
        (r is Absent <==> old(p).cur_kind() != SyntaxKind::ContainerKw),
        (r matches ParsedSyntax::Present(n) ==> n.kind == SyntaxKind::ContainerAtRule
            || n.kind == SyntaxKind::BogusAtRule),
        (r matches ParsedSyntax::Present(n) ==> (n.kind == SyntaxKind::BogusAtRule
            ==> final(p).diagnostics@.len() > old(p).diagnostics@.len())),
        (r matches ParsedSyntax::Present(n)
            ==> at_rule_shape(n, old(p).tokens@[old(p).pos as int])),
        (r matches ParsedSyntax::Present(n) ==> (n.kind == SyntaxKind::ContainerAtRule
            <==> (n.children@.len() > 0
                && is_kind_node(n.children@.last(), SyntaxKind::RuleListBlock)))),
        (r matches ParsedSyntax::Present(n) ==> (n.kind == SyntaxKind::BogusAtRule
            ==> final(p).cur_kind() != SyntaxKind::LCurly
                && final(p).diagnostics@.len() > 0
                && final(p).diagnostics@.last() == (Diagnostic {
                    pos: final(p).pos,
                    expected: SyntaxKind::LCurly,
                }))),
{
    if !is_at_container_at_rule(p) {
        return ParsedSyntax::Absent;
    }

    let ghost pre = *p;
    let mut m = p.start();

    m.bump(p, SyntaxKind::ContainerKw);
    proof {
        lemma_subrange_single(pre.tokens@, pre.pos as int);
        assert(m.leaves() =~= pre.tokens@.subrange(pre.pos as int, p.pos as int));
    }

    let ghost mid1 = *p;
    let name = parse_regular_identifier(p);
    m.push_syntax(name);
    proof {
        lemma_subrange_concat(pre.tokens@, pre.pos as int, mid1.pos as int, p.pos as int);
        assert(m.leaves() =~= pre.tokens@.subrange(pre.pos as int, p.pos as int));
    }

    let ghost mid2 = *p;
    let condition = parse_any_container_query(p);
    m.push_syntax(condition);
    proof {
        lemma_subrange_concat(pre.tokens@, pre.pos as int, mid2.pos as int, p.pos as int);
        assert(m.leaves() =~= pre.tokens@.subrange(pre.pos as int, p.pos as int));
        lemma_prefix_trans(pre.diagnostics@, mid2.diagnostics@, p.diagnostics@);
    }

    let ghost mid3 = *p;
    match parse_or_recover_rule_list_block(p) {
        Ok(block) => {
            m.push_node(block);
            proof {
                lemma_subrange_concat(pre.tokens@, pre.pos as int, mid3.pos as int, p.pos as int);
                assert(m.leaves() =~= pre.tokens@.subrange(pre.pos as int, p.pos as int));
                lemma_prefix_trans(pre.diagnostics@, mid3.diagnostics@, p.diagnostics@);
            }
            ParsedSyntax::Present(m.complete(SyntaxKind::ContainerAtRule))
        }
        Err(_) => {
            proof {
                lemma_prefix_trans(pre.diagnostics@, mid3.diagnostics@, p.diagnostics@);
            }
            ParsedSyntax::Present(m.complete(SyntaxKind::BogusAtRule))
        }
    }
}

/// `container-condition := not-query | and-or-chain`.
pub fn parse_any_container_query(p: &mut Parser) -> (r: ParsedSyntax)
    requires
        old(p).inv(),
    ensures
        parse_frame(*old(p), *final(p), r),
        (r is Absent <==> !at_any_container_query(*old(p))),
        (r matches ParsedSyntax::Present(n) ==> n.kind == SyntaxKind::ContainerNotQuery
            || n.kind == SyntaxKind::ContainerAndQuery
            || n.kind == SyntaxKind::ContainerOrQuery
            || n.kind == SyntaxKind::ContainerQueryInParens
            || n.kind == SyntaxKind::ContainerSizeFeatureInParens
            || n.kind == SyntaxKind::ContainerStyleQueryInParens),
        old(p).cur_kind() == SyntaxKind::NotKw ==> (r matches ParsedSyntax::Present(n)
            && n.kind == SyntaxKind::ContainerNotQuery),
        old(p).cur_kind() != SyntaxKind::NotKw ==> final(p).cur_kind() != SyntaxKind::AndKw
            && final(p).cur_kind() != SyntaxKind::OrKw,
        (r matches ParsedSyntax::Present(n) ==> ((n.kind == SyntaxKind::ContainerAndQuery
            || n.kind == SyntaxKind::ContainerOrQuery) ==> container_fold_shape(n))),
        (r matches ParsedSyntax::Present(n) ==> (query_in_parens_kind(n.kind)
            ==> query_in_parens_dispatch(*old(p), n))),
    decreases old(p).remaining(), 4int,
{
    if is_at_container_not_query(p) {
        parse_container_not_query(p)
    } else {
        parse_container_and_or_chain(p)
    }
}

/// `and-or-chain := query-in-parens ( ('and' query-in-parens)* | ('or'
/// query-in-parens)* )`.
///
/// After each completed operand the chain peeks for `and`/`or`; if one is
/// there, the operand is preceded — retroactively wrapped — and the next
/// `query-in-parens` is folded in, and this repeats, so repeated
/// combinators build a left-folded chain. Mixing `and` and `or` at one
/// nesting level is not rejected here: each step folds by whichever
/// operator it sees, and ruling on mixed chains is left to a later
/// validation pass.
pub fn parse_container_and_or_chain(p: &mut Parser) -> (r: ParsedSyntax)
    requires
        old(p).inv(),
    ensures
        parse_frame(*old(p), *final(p), r),
        (r is Absent <==> (!at_query_in_parens(*old(p))
            && old(p).cur_kind() != SyntaxKind::AndKw
            && old(p).cur_kind() != SyntaxKind::OrKw)),
        (r matches ParsedSyntax::Present(n) ==> chain_operand_kind(n.kind)),
        final(p).cur_kind() != SyntaxKind::AndKw,
        final(p).cur_kind() != SyntaxKind::OrKw,
        (r matches ParsedSyntax::Present(n) ==> ((n.kind == SyntaxKind::ContainerAndQuery
            || n.kind == SyntaxKind::ContainerOrQuery) ==> container_fold_shape(n))),
        (r matches ParsedSyntax::Present(n) ==> (query_in_parens_kind(n.kind)
            ==> query_in_parens_dispatch(*old(p), n))),
    decreases old(p).remaining(), 3int,
{
    let ghost pre = *p;
    let mut acc = parse_any_container_query_in_parens(p);

    loop
        invariant
            pre == *old(p),
            p.inv(),
            parse_frame(pre, *p, acc),
            (acc matches ParsedSyntax::Present(n) ==> chain_operand_kind(n.kind)),
            (acc matches ParsedSyntax::Present(n) ==> ((n.kind == SyntaxKind::ContainerAndQuery
                || n.kind == SyntaxKind::ContainerOrQuery) ==> container_fold_shape(n))),
            (acc matches ParsedSyntax::Present(n) ==> (query_in_parens_kind(n.kind)
                ==> query_in_parens_dispatch(pre, n))),
            (acc is Absent ==> !at_query_in_parens(pre)),
            ((!at_query_in_parens(pre) && pre.cur_kind() != SyntaxKind::AndKw
                && pre.cur_kind() != SyntaxKind::OrKw) ==> acc is Absent),
        ensures
            p.inv(),
            parse_frame(pre, *p, acc),
            (acc matches ParsedSyntax::Present(n) ==> chain_operand_kind(n.kind)),
            (acc matches ParsedSyntax::Present(n) ==> ((n.kind == SyntaxKind::ContainerAndQuery
                || n.kind == SyntaxKind::ContainerOrQuery) ==> container_fold_shape(n))),
            (acc matches ParsedSyntax::Present(n) ==> (query_in_parens_kind(n.kind)
                ==> query_in_parens_dispatch(pre, n))),
            (acc is Absent ==> !at_query_in_parens(pre)),
            ((!at_query_in_parens(pre) && pre.cur_kind() != SyntaxKind::AndKw
                && pre.cur_kind() != SyntaxKind::OrKw) ==> acc is Absent),
            p.cur_kind() != SyntaxKind::AndKw,
            p.cur_kind() != SyntaxKind::OrKw,
        decreases p.tokens@.len() - p.pos,
    {
        let k = p.cur();
        if k != SyntaxKind::AndKw && k != SyntaxKind::OrKw {
            break;
        }
        let ghost mid0 = *p;
        let mut m = acc.precede();
        proof {
            assert(m.leaves() =~= pre.tokens@.subrange(pre.pos as int, mid0.pos as int));
        }
        if k == SyntaxKind::AndKw {
            m.bump(p, SyntaxKind::AndKw);
        } else {
            m.bump(p, SyntaxKind::OrKw);
        }
        proof {
            lemma_subrange_single(pre.tokens@, mid0.pos as int);
            lemma_subrange_concat(pre.tokens@, pre.pos as int, mid0.pos as int, p.pos as int);
            assert(m.leaves() =~= pre.tokens@.subrange(pre.pos as int, p.pos as int));
        }
        let ghost mid1 = *p;
        let rhs = parse_any_container_query_in_parens(p);
        m.push_syntax(rhs);
        proof {
            lemma_subrange_concat(pre.tokens@, pre.pos as int, mid1.pos as int, p.pos as int);
            assert(m.leaves() =~= pre.tokens@.subrange(pre.pos as int, p.pos as int));
            lemma_prefix_trans(pre.diagnostics@, mid1.diagnostics@, p.diagnostics@);
        }
        if k == SyntaxKind::AndKw {
            acc = ParsedSyntax::Present(m.complete(SyntaxKind::ContainerAndQuery));
        } else {
            acc = ParsedSyntax::Present(m.complete(SyntaxKind::ContainerOrQuery));
        }
    }

    acc
}

pub fn is_at_container_not_query(p: &Parser) -> (b: bool)
    requires
        p.inv(),
    ensures
        b == (p.cur_kind() == SyntaxKind::NotKw),
{
    p.at(SyntaxKind::NotKw)
}

/// `not-query := 'not' query-in-parens`.
pub fn parse_container_not_query(p: &mut Parser) -> (r: ParsedSyntax)
    requires
        old(p).inv(),
    ensures
        parse_frame(*old(p), *final(p), r),
        (r is Absent <==> old(p).cur_kind() != SyntaxKind::NotKw),
        (r matches ParsedSyntax::Present(n) ==> n.kind == SyntaxKind::ContainerNotQuery),
        (r matches ParsedSyntax::Present(n) ==> n.children@.len() > 0
            && n.children@[0] == Element::Token(old(p).tokens@[old(p).pos as int])),
        (r matches ParsedSyntax::Present(n) ==> (n.children@.len() == 1
            || (n.children@.len() == 2 && (n.children@[1] matches Element::Node(q)
                && query_in_parens_kind(q.kind))))),
        (r matches ParsedSyntax::Present(n) ==> (n.children@.len() == 1
            ==> final(p).pos == old(p).pos + 1
                && final(p).diagnostics == old(p).diagnostics)),
    decreases old(p).remaining(), 1int,
{
    if !is_at_container_not_query(p) {
        return ParsedSyntax::Absent;
    }

    let ghost pre = *p;
    let mut m = p.start();

    m.bump(p, SyntaxKind::NotKw);
    proof {
        lemma_subrange_single(pre.tokens@, pre.pos as int);
        assert(m.leaves() =~= pre.tokens@.subrange(pre.pos as int, p.pos as int));
    }
    let ghost mid = *p;
    let inner = parse_any_container_query_in_parens(p);
    m.push_syntax(inner);
    proof {
        lemma_subrange_concat(pre.tokens@, pre.pos as int, mid.pos as int, p.pos as int);
        assert(m.leaves() =~= pre.tokens@.subrange(pre.pos as int, p.pos as int));
    }

    ParsedSyntax::Present(m.complete(SyntaxKind::ContainerNotQuery))
}

/// Dispatch among the three parenthesised query forms by lookahead.
pub fn parse_any_container_query_in_parens(p: &mut Parser) -> (r: ParsedSyntax)
    requires
        old(p).inv(),
    ensures
        parse_frame(*old(p), *final(p), r),
        (r is Absent <==> !at_query_in_parens(*old(p))),
        (r matches ParsedSyntax::Present(n) ==> n.kind == SyntaxKind::ContainerQueryInParens
            || n.kind == SyntaxKind::ContainerSizeFeatureInParens
            || n.kind == SyntaxKind::ContainerStyleQueryInParens),
        (old(p).cur_kind() == SyntaxKind::LParen
            && (old(p).nth_kind(1) == SyntaxKind::NotKw || old(p).nth_kind(1) == SyntaxKind::LParen))
            ==> (r matches ParsedSyntax::Present(n)
                && n.kind == SyntaxKind::ContainerQueryInParens),
        (old(p).cur_kind() == SyntaxKind::LParen
            && !(old(p).nth_kind(1) == SyntaxKind::NotKw || old(p).nth_kind(1) == SyntaxKind::LParen))
            ==> (r matches ParsedSyntax::Present(n)
                && n.kind == SyntaxKind::ContainerSizeFeatureInParens),
        old(p).cur_kind() == SyntaxKind::StyleKw ==> (r matches ParsedSyntax::Present(n)
            && n.kind == SyntaxKind::ContainerStyleQueryInParens),
    decreases old(p).remaining(), 2int,
{
    if is_at_container_query_in_parens(p) {
        parse_container_query_in_parens(p)
    } else if is_at_container_style_query_in_parens(p) {
        parse_container_style_query_in_parens(p)
    } else if is_at_container_size_feature_in_parens(p) {
        parse_container_size_feature_in_parens(p)
    } else {
        ParsedSyntax::Absent
    }
}

/// A parenthesis opens a nested boolean grouping only if the token after it
/// is `not` or another parenthesis; otherwise it is a feature parenthesis.
pub fn is_at_container_query_in_parens(p: &Parser) -> (b: bool)
    requires
        p.inv(),
    ensures
        b == (p.cur_kind() == SyntaxKind::LParen
            && (p.nth_kind(1) == SyntaxKind::NotKw || p.nth_kind(1) == SyntaxKind::LParen)),
{
    p.at(SyntaxKind::LParen)
        && (p.nth_at(1, SyntaxKind::NotKw) || p.nth_at(1, SyntaxKind::LParen))
}

/// `query-in-parens := '(' container-condition ')'`.
pub fn parse_container_query_in_parens(p: &mut Parser) -> (r: ParsedSyntax)
    requires
        old(p).inv(),
    ensures
        parse_frame(*old(p), *final(p), r),
        (r is Absent <==> !(old(p).cur_kind() == SyntaxKind::LParen
            && (old(p).nth_kind(1) == SyntaxKind::NotKw
                || old(p).nth_kind(1) == SyntaxKind::LParen))),
        (r matches ParsedSyntax::Present(n) ==> n.kind == SyntaxKind::ContainerQueryInParens),
        (r matches ParsedSyntax::Present(n) ==> ((n.children@.len() > 0
            && is_kind_token(n.children@.last(), SyntaxKind::RParen))
            || (final(p).diagnostics@.len() > old(p).diagnostics@.len()
                && final(p).diagnostics@.last() == (Diagnostic {
                    pos: final(p).pos,
                    expected: SyntaxKind::RParen,
                })))),
    decreases old(p).remaining(), 1int,
{
    if !is_at_container_query_in_parens(p) {
        return ParsedSyntax::Absent;
    }

    let ghost pre = *p;
    let mut m = p.start();

    m.bump(p, SyntaxKind::LParen);
    proof {
        lemma_subrange_single(pre.tokens@, pre.pos as int);
        assert(m.leaves() =~= pre.tokens@.subrange(pre.pos as int, p.pos as int));
    }
    let ghost mid1 = *p;
    let inner = parse_any_container_query(p);
    m.push_syntax(inner);
    proof {
        lemma_subrange_concat(pre.tokens@, pre.pos as int, mid1.pos as int, p.pos as int);
        assert(m.leaves() =~= pre.tokens@.subrange(pre.pos as int, p.pos as int));
    }
    let ghost mid2 = *p;
    m.expect(p, SyntaxKind::RParen);
    proof {
        if p.pos != mid2.pos {
            lemma_subrange_single(pre.tokens@, mid2.pos as int);
        }
        lemma_subrange_concat(pre.tokens@, pre.pos as int, mid2.pos as int, p.pos as int);
        assert(m.leaves() =~= pre.tokens@.subrange(pre.pos as int, p.pos as int));
        lemma_prefix_trans(pre.diagnostics@, mid2.diagnostics@, p.diagnostics@);
    }

    ParsedSyntax::Present(m.complete(SyntaxKind::ContainerQueryInParens))
}

pub fn is_at_container_size_feature_in_parens(p: &Parser) -> (b: bool)
    requires
        p.inv(),
    ensures
        b == (p.cur_kind() == SyntaxKind::LParen),
{
    p.at(SyntaxKind::LParen)
}

/// `size-feature-in-parens := '(' feature ')'`; the inner feature grammar is
/// delegated to `parse_any_query_feature`.
pub fn parse_container_size_feature_in_parens(p: &mut Parser) -> (r: ParsedSyntax)
    requires
        old(p).inv(),
    ensures
        parse_frame(*old(p), *final(p), r),
        (r is Absent <==> old(p).cur_kind() != SyntaxKind::LParen),
        (r matches ParsedSyntax::Present(n) ==> n.kind
            == SyntaxKind::ContainerSizeFeatureInParens),
        r is Present ==> (final(p).diagnostics@ == old(p).diagnostics@
            || final(p).diagnostics@ == old(p).diagnostics@.push(Diagnostic {
                pos: final(p).pos,
                expected: SyntaxKind::RParen,
            })),
        (r matches ParsedSyntax::Present(n) ==> ((n.children@.len() > 0
            && is_kind_token(n.children@.last(), SyntaxKind::RParen))
            <==> final(p).diagnostics@ == old(p).diagnostics@)),
    decreases old(p).remaining(), 1int,
{
    if !is_at_container_size_feature_in_parens(p) {
        return ParsedSyntax::Absent;
    }

    let ghost pre = *p;
    let mut m = p.start();

    m.bump(p, SyntaxKind::LParen);
    proof {
        lemma_subrange_single(pre.tokens@, pre.pos as int);
        assert(m.leaves() =~= pre.tokens@.subrange(pre.pos as int, p.pos as int));
    }
    let ghost mid1 = *p;
    let feature = parse_any_query_feature(p);
    m.push_syntax(feature);
    proof {
        lemma_subrange_concat(pre.tokens@, pre.pos as int, mid1.pos as int, p.pos as int);
        assert(m.leaves() =~= pre.tokens@.subrange(pre.pos as int, p.pos as int));
    }
    let ghost mid2 = *p;
    m.expect(p, SyntaxKind::RParen);
    proof {
        if p.pos != mid2.pos {
            lemma_subrange_single(pre.tokens@, mid2.pos as int);
        }
        lemma_subrange_concat(pre.tokens@, pre.pos as int, mid2.pos as int, p.pos as int);
        assert(m.leaves() =~= pre.tokens@.subrange(pre.pos as int, p.pos as int));
        lemma_prefix_trans(pre.diagnostics@, mid2.diagnostics@, p.diagnostics@);
    }

    ParsedSyntax::Present(m.complete(SyntaxKind::ContainerSizeFeatureInParens))
}

pub fn is_at_container_style_query_in_parens(p: &Parser) -> (b: bool)
    requires
        p.inv(),
    ensures
        b == (p.cur_kind() == SyntaxKind::StyleKw),
{
    p.at(SyntaxKind::StyleKw)
}

/// `style-query-in-parens := 'style' '(' style-query ')'`.
pub fn parse_container_style_query_in_parens(p: &mut Parser) -> (r: ParsedSyntax)
    requires
        old(p).inv(),
    ensures
        parse_frame(*old(p), *final(p), r),
        (r is Absent <==> old(p).cur_kind() != SyntaxKind::StyleKw),
        (r matches ParsedSyntax::Present(n) ==> n.kind
            == SyntaxKind::ContainerStyleQueryInParens),
        (r matches ParsedSyntax::Present(n) ==> n.children@.len() > 0
            && n.children@[0] == Element::Token(old(p).tokens@[old(p).pos as int])),
        (r matches ParsedSyntax::Present(n) ==> ((n.children@.len() >= 2
            && is_kind_token(n.children@[1], SyntaxKind::LParen))
            || final(p).diagnostics@.contains(Diagnostic {
                pos: (old(p).pos + 1) as usize,
                expected: SyntaxKind::LParen,
            }))),
        (r matches ParsedSyntax::Present(n) ==> ((n.children@.len() > 0
            && is_kind_token(n.children@.last(), SyntaxKind::RParen))
            || (final(p).diagnostics@.len() > old(p).diagnostics@.len()
                && final(p).diagnostics@.last() == (Diagnostic {
                    pos: final(p).pos,
                    expected: SyntaxKind::RParen,
                })))),
    decreases old(p).remaining(), 1int,
{
    if !is_at_container_style_query_in_parens(p) {
        return ParsedSyntax::Absent;
    }

    let ghost pre = *p;
    let mut m = p.start();

    m.bump(p, SyntaxKind::StyleKw);
    proof {
        lemma_subrange_single(pre.tokens@, pre.pos as int);
        assert(m.leaves() =~= pre.tokens@.subrange(pre.pos as int, p.pos as int));
    }
    let ghost mid1 = *p;
    m.expect(p, SyntaxKind::LParen);
    proof {
        if p.pos != mid1.pos {
            lemma_subrange_single(pre.tokens@, mid1.pos as int);
        }
        lemma_subrange_concat(pre.tokens@, pre.pos as int, mid1.pos as int, p.pos as int);
        assert(m.leaves() =~= pre.tokens@.subrange(pre.pos as int, p.pos as int));
    }
    let ghost mid2 = *p;
    let inner = parse_any_container_style_query(p);
    m.push_syntax(inner);
    proof {
        lemma_subrange_concat(pre.tokens@, pre.pos as int, mid2.pos as int, p.pos as int);
        assert(m.leaves() =~= pre.tokens@.subrange(pre.pos as int, p.pos as int));
        lemma_prefix_trans(pre.diagnostics@, mid2.diagnostics@, p.diagnostics@);
    }
    let ghost mid3 = *p;
    m.expect(p, SyntaxKind::RParen);
    proof {
        if p.pos != mid3.pos {
            lemma_subrange_single(pre.tokens@, mid3.pos as int);
        }
        lemma_subrange_concat(pre.tokens@, pre.pos as int, mid3.pos as int, p.pos as int);
        assert(m.leaves() =~= pre.tokens@.subrange(pre.pos as int, p.pos as int));
        lemma_prefix_trans(pre.diagnostics@, mid3.diagnostics@, p.diagnostics@);
        if mid1.cur_kind() == SyntaxKind::LParen {
            assert(is_kind_token(m.children_view()[1], SyntaxKind::LParen));
        } else {
            let d = Diagnostic { pos: mid1.pos, expected: SyntaxKind::LParen };
            assert(mid2.diagnostics@[mid1.diagnostics@.len() as int] == d);
            assert(mid2.diagnostics@.contains(d));
            lemma_prefix_contains(mid2.diagnostics@, mid3.diagnostics@, d);
            lemma_prefix_contains(mid3.diagnostics@, p.diagnostics@, d);
        }
    }

    ParsedSyntax::Present(m.complete(SyntaxKind::ContainerStyleQueryInParens))
}

/// The leading set of `style-query` as the dispatcher sees it.
pub open spec fn at_any_container_style_query(p: Parser) -> bool {
    ||| (p.cur_kind() == SyntaxKind::NotKw && p.nth_kind(1) == SyntaxKind::LParen)
    ||| p.cur_kind() == SyntaxKind::Ident
    ||| p.cur_kind() == SyntaxKind::LParen
    ||| p.cur_kind() == SyntaxKind::AndKw
    ||| p.cur_kind() == SyntaxKind::OrKw
}

/// `style-query := style-not-query | declaration | style-and-or-chain`.
pub fn parse_any_container_style_query(p: &mut Parser) -> (r: ParsedSyntax)
    requires
        old(p).inv(),
    ensures
        parse_frame(*old(p), *final(p), r),
        (r is Absent <==> !at_any_container_style_query(*old(p))),
        (r matches ParsedSyntax::Present(n) ==> n.kind == SyntaxKind::ContainerStyleNotQuery
            || n.kind == SyntaxKind::Declaration
            || style_operand_kind(n.kind)),
        (old(p).cur_kind() == SyntaxKind::NotKw && old(p).nth_kind(1) == SyntaxKind::LParen)
            ==> (r matches ParsedSyntax::Present(n)
                && n.kind == SyntaxKind::ContainerStyleNotQuery),
        old(p).cur_kind() == SyntaxKind::Ident ==> (r matches ParsedSyntax::Present(n)
            && n.kind == SyntaxKind::Declaration),
    decreases old(p).remaining(), 3int,
{
    if is_at_container_style_not_query(p) {
        parse_container_style_not_query(p)
    } else if is_at_identifier(p) {
        parse_declaration(p)
    } else {
        parse_any_container_style_combinable_query(p)
    }
}

/// The right-recursive `and`/`or` chain of the style-query grammar. Unlike
/// the size-feature chain, repeated combinators nest to the right here; the
/// asymmetry is part of the grammar as specified and is kept.
pub fn parse_any_container_style_combinable_query(p: &mut Parser) -> (r: ParsedSyntax)
    requires
        old(p).inv(),
    ensures
        parse_frame(*old(p), *final(p), r),
        (r is Absent <==> (old(p).cur_kind() != SyntaxKind::LParen
            && old(p).cur_kind() != SyntaxKind::AndKw
            && old(p).cur_kind() != SyntaxKind::OrKw)),
        (r matches ParsedSyntax::Present(n) ==> style_operand_kind(n.kind)),
        final(p).cur_kind() != SyntaxKind::AndKw,
        final(p).cur_kind() != SyntaxKind::OrKw,
        (r matches ParsedSyntax::Present(n) ==> ((n.kind == SyntaxKind::ContainerStyleAndQuery
            || n.kind == SyntaxKind::ContainerStyleOrQuery) ==> style_fold_shape(n))),
    decreases old(p).remaining(), 2int,
{
    let ghost pre = *p;
    let style_in_parens = parse_container_style_in_parens(p);

    match p.cur() {
        SyntaxKind::AndKw => {
            let ghost mid0 = *p;
            let mut m = style_in_parens.precede();
            m.bump(p, SyntaxKind::AndKw);
            proof {
                lemma_subrange_single(pre.tokens@, mid0.pos as int);
                lemma_subrange_concat(pre.tokens@, pre.pos as int, mid0.pos as int, p.pos as int);
                assert(m.leaves() =~= pre.tokens@.subrange(pre.pos as int, p.pos as int));
            }
            let ghost mid1 = *p;
            let rhs = parse_any_container_style_combinable_query(p);
            m.push_syntax(rhs);
            proof {
                lemma_subrange_concat(pre.tokens@, pre.pos as int, mid1.pos as int, p.pos as int);
                assert(m.leaves() =~= pre.tokens@.subrange(pre.pos as int, p.pos as int));
            }
            ParsedSyntax::Present(m.complete(SyntaxKind::ContainerStyleAndQuery))
        }
        SyntaxKind::OrKw => {
            let ghost mid0 = *p;
            let mut m = style_in_parens.precede();
            m.bump(p, SyntaxKind::OrKw);
            proof {
                lemma_subrange_single(pre.tokens@, mid0.pos as int);
                lemma_subrange_concat(pre.tokens@, pre.pos as int, mid0.pos as int, p.pos as int);
                assert(m.leaves() =~= pre.tokens@.subrange(pre.pos as int, p.pos as int));
            }
            let ghost mid1 = *p;
            let rhs = parse_any_container_style_combinable_query(p);
            m.push_syntax(rhs);
            proof {
                lemma_subrange_concat(pre.tokens@, pre.pos as int, mid1.pos as int, p.pos as int);
                assert(m.leaves() =~= pre.tokens@.subrange(pre.pos as int, p.pos as int));
            }
            ParsedSyntax::Present(m.complete(SyntaxKind::ContainerStyleOrQuery))
        }
        _ => style_in_parens,
    }
}

pub fn is_at_container_style_not_query(p: &Parser) -> (b: bool)
    requires
        p.inv(),
    ensures
        b == (p.cur_kind() == SyntaxKind::NotKw && p.nth_kind(1) == SyntaxKind::LParen),
{
    p.at(SyntaxKind::NotKw) && p.nth_at(1, SyntaxKind::LParen)
}

/// `style-not-query := 'not' style-in-parens`.
pub fn parse_container_style_not_query(p: &mut Parser) -> (r: ParsedSyntax)
    requires
        old(p).inv(),
    ensures
        parse_frame(*old(p), *final(p), r),
        (r is Absent <==> !(old(p).cur_kind() == SyntaxKind::NotKw
            && old(p).nth_kind(1) == SyntaxKind::LParen)),
        (r matches ParsedSyntax::Present(n) ==> n.kind == SyntaxKind::ContainerStyleNotQuery),
        (r matches ParsedSyntax::Present(n) ==> n.children@.len() > 0
            && n.children@[0] == Element::Token(old(p).tokens@[old(p).pos as int])),
        (r matches ParsedSyntax::Present(n) ==> (n.children@.len() == 1
            || (n.children@.len() == 2
                && is_kind_node(n.children@[1], SyntaxKind::ContainerStyleInParens)))),
        (r matches ParsedSyntax::Present(n) ==> (n.children@.len() == 1
            ==> final(p).pos == old(p).pos + 1
                && final(p).diagnostics == old(p).diagnostics)),
    decreases old(p).remaining(), 1int,
{
    if !is_at_container_style_not_query(p) {
        return ParsedSyntax::Absent;
    }

    let ghost pre = *p;
    let mut m = p.start();

    m.bump(p, SyntaxKind::NotKw);
    proof {
        lemma_subrange_single(pre.tokens@, pre.pos as int);
        assert(m.leaves() =~= pre.tokens@.subrange(pre.pos as int, p.pos as int));
    }
    let ghost mid = *p;
    let inner = parse_container_style_in_parens(p);
    m.push_syntax(inner);
    proof {
        lemma_subrange_concat(pre.tokens@, pre.pos as int, mid.pos as int, p.pos as int);
        assert(m.leaves() =~= pre.tokens@.subrange(pre.pos as int, p.pos as int));
    }

    ParsedSyntax::Present(m.complete(SyntaxKind::ContainerStyleNotQuery))
}

/// `style-in-parens := '(' style-query ')'`.
pub fn parse_container_style_in_parens(p: &mut Parser) -> (r: ParsedSyntax)
    requires
        old(p).inv(),
    ensures
        parse_frame(*old(p), *final(p), r),
        (r is Absent <==> old(p).cur_kind() != SyntaxKind::LParen),
        (r matches ParsedSyntax::Present(n) ==> n.kind == SyntaxKind::ContainerStyleInParens),
        (r matches ParsedSyntax::Present(n) ==> ((n.children@.len() > 0
            && is_kind_token(n.children@.last(), SyntaxKind::RParen))
            || (final(p).diagnostics@.len() > old(p).diagnostics@.len()
                && final(p).diagnostics@.last() == (Diagnostic {
                    pos: final(p).pos,
                    expected: SyntaxKind::RParen,
                })))),
    decreases old(p).remaining(), 1int,
{
    if !p.at(SyntaxKind::LParen) {
        return ParsedSyntax::Absent;
    }

    let ghost pre = *p;
    let mut m = p.start();

    m.bump(p, SyntaxKind::LParen);
    proof {
        lemma_subrange_single(pre.tokens@, pre.pos as int);
        assert(m.leaves() =~= pre.tokens@.subrange(pre.pos as int, p.pos as int));
    }
    let ghost mid1 = *p;
    let inner = parse_any_container_style_query(p);
    m.push_syntax(inner);
    proof {
        lemma_subrange_concat(pre.tokens@, pre.pos as int, mid1.pos as int, p.pos as int);
        assert(m.leaves() =~= pre.tokens@.subrange(pre.pos as int, p.pos as int));
    }
    let ghost mid2 = *p;
    m.expect(p, SyntaxKind::RParen);
    proof {
        if p.pos != mid2.pos {
            lemma_subrange_single(pre.tokens@, mid2.pos as int);
        }
        lemma_subrange_concat(pre.tokens@, pre.pos as int, mid2.pos as int, p.pos as int);
        assert(m.leaves() =~= pre.tokens@.subrange(pre.pos as int, p.pos as int));
        lemma_prefix_trans(pre.diagnostics@, mid2.diagnostics@, p.diagnostics@);
    }

    ParsedSyntax::Present(m.complete(SyntaxKind::ContainerStyleInParens))
}

} // verus!
