//! The lossless concrete syntax tree: tokens, elements, nodes, and the
//! spec-level view of a tree as its sequence of leaf tokens.

use vstd::prelude::*;
use crate::syntax::SyntaxKind;

verus! {

/// An immutable (kind, exact source text) pair produced by the external
/// lexer. `text` holds the exact source bytes of the token, trailing trivia
/// included, so that concatenating leaf texts reproduces the input.
pub struct Token {
    pub kind: SyntaxKind,
    pub text: String,
}

impl Clone for Token {
    fn clone(&self) -> (r: Token)
        ensures
            r == *self,
    {
        Token { kind: self.kind, text: self.text.clone() }
    }
}

/// One child of a node: either a leaf token or a completed sub-node.
pub enum Element {
    Token(Token),
    Node(Node),
}

/// A completed tree node: a kind plus its ordered children.
pub struct Node {
    pub kind: SyntaxKind,
    pub children: Vec<Element>,
}

/// The leaf tokens of the elements `es[0], ..., es[i-1]`, in tree order.
pub open spec fn elems_leaves_upto(es: Seq<Element>, i: int) -> Seq<Token>
    decreases es, i,
{
    if 0 < i <= es.len() {
        elems_leaves_upto(es, i - 1) + elem_leaves(es[i - 1])
    } else {
        Seq::empty()
    }
}

/// The leaf tokens of a sequence of elements, in tree order.
pub open spec fn elems_leaves(es: Seq<Element>) -> Seq<Token> {
    elems_leaves_upto(es, es.len() as int)
}

/// The leaf tokens under one element, in tree order.
pub open spec fn elem_leaves(e: Element) -> Seq<Token>
    decreases e,
{
    match e {
        Element::Token(t) => seq![t],
        Element::Node(n) => elems_leaves_upto(n.children@, n.children@.len() as int),
    }
}

/// The leaf tokens of a node, in tree order. Concatenating their texts
/// reproduces the exact source region the node covers.
pub open spec fn node_leaves(n: Node) -> Seq<Token> {
    elems_leaves(n.children@)
}

/// The concatenation of the exact source texts of a token sequence.
pub open spec fn tokens_text(ts: Seq<Token>) -> Seq<char>
    decreases ts.len(),
{
    if ts.len() == 0 {
        Seq::empty()
    } else {
        tokens_text(ts.drop_last()) + ts.last().text@
    }
}

/// Appending one element appends exactly its leaves.
pub proof fn lemma_elems_leaves_push(es: Seq<Element>, e: Element)
    ensures
        elems_leaves(es.push(e)) == elems_leaves(es) + elem_leaves(e),
    decreases es.len(),
{
    lemma_elems_leaves_upto_push(es, e, es.len() as int);
    assert(es.push(e)[es.len() as int] == e);
    assert(elems_leaves_upto(es.push(e), es.len() as int + 1)
        == elems_leaves_upto(es.push(e), es.len() as int) + elem_leaves(e));
}

/// For `i` within the original sequence, a pushed element does not change
/// the leaves of the prefix.
proof fn lemma_elems_leaves_upto_push(es: Seq<Element>, e: Element, i: int)
    requires
        i <= es.len(),
    ensures
        elems_leaves_upto(es.push(e), i) == elems_leaves_upto(es, i),
    decreases i,
{
    if i > 0 {
        lemma_elems_leaves_upto_push(es, e, i - 1);
        assert(es.push(e)[i - 1] == es[i - 1]);
    }
}

/// The leaves of an empty child list are empty.
pub proof fn lemma_elems_leaves_empty()
    ensures
        elems_leaves(Seq::<Element>::empty()) == Seq::<Token>::empty(),
{
}

/// Two adjacent subranges of a token sequence concatenate to the enclosing one.
pub proof fn lemma_subrange_concat(s: Seq<Token>, a: int, b: int, c: int)
    requires
        0 <= a <= b <= c <= s.len(),
    ensures
        s.subrange(a, b) + s.subrange(b, c) == s.subrange(a, c),
{
    assert(s.subrange(a, b) + s.subrange(b, c) =~= s.subrange(a, c));
}

/// A one-token subrange is the singleton of the token at its start.
pub proof fn lemma_subrange_single(s: Seq<Token>, a: int)
    requires
        0 <= a < s.len(),
    ensures
        s.subrange(a, a + 1) == seq![s[a]],
{
    assert(s.subrange(a, a + 1) =~= seq![s[a]]);
}

} // verus!
