//! The top-level driver: parse every token of the input into one tree.
//!
//! Container at-rules are parsed by the grammar; any other top-level token
//! is kept as a direct child of the root, so the tree is total over the
//! input: its leaves are exactly the input tokens, in order, with no gaps
//! and no overlaps, and concatenating their texts reproduces the source.

use vstd::prelude::*;
use crate::syntax::SyntaxKind;
use crate::tree::{
    Node, node_leaves, tokens_text, lemma_subrange_concat, lemma_subrange_single,
};
use crate::parser::{ParsedSyntax, Parser};
use crate::container::parse_container_at_rule;

verus! {

/// Parse the whole remaining input into a single `StyleSheet` node.
///
/// Totality and round-trip: the returned tree's leaves are exactly the
/// tokens from the starting cursor position to the end of the input, so
/// their concatenated texts reproduce that part of the source byte for
/// byte, whether or not the input was well formed.
pub fn parse_stylesheet(p: &mut Parser) -> (root: Node)
    requires
        old(p).inv(),
    ensures
        final(p).inv(),
        final(p).tokens == old(p).tokens,
        final(p).pos == final(p).tokens@.len(),
        old(p).diagnostics@.is_prefix_of(final(p).diagnostics@),
        root.kind == SyntaxKind::StyleSheet,
        node_leaves(root) == old(p).tokens@.subrange(
            old(p).pos as int, old(p).tokens@.len() as int,
        ),
        tokens_text(node_leaves(root)) == tokens_text(old(p).tokens@.subrange(
            old(p).pos as int, old(p).tokens@.len() as int,
        )),
{
    let ghost pre = *p;
    let mut m = p.start();

    proof {
        crate::parser::lemma_prefix_refl(pre.diagnostics@);
    }

    loop
        invariant
            p.inv(),
            p.tokens == pre.tokens,
            pre.pos <= p.pos <= p.tokens@.len(),
            pre.diagnostics@.is_prefix_of(p.diagnostics@),
            m.leaves() == pre.tokens@.subrange(pre.pos as int, p.pos as int),
        ensures
            p.inv(),
            p.tokens == pre.tokens,
            p.pos == p.tokens@.len(),
            pre.diagnostics@.is_prefix_of(p.diagnostics@),
            m.leaves() == pre.tokens@.subrange(pre.pos as int, p.pos as int),
        decreases p.tokens@.len() - p.pos,
    {
        let k = p.cur();
        if k == SyntaxKind::Eof {
            break;
        }
        let ghost mid = *p;
        if k == SyntaxKind::ContainerKw {
            let rule = parse_container_at_rule(p);
            m.push_syntax(rule);
            proof {
                lemma_subrange_concat(pre.tokens@, pre.pos as int, mid.pos as int, p.pos as int);
                assert(m.leaves() =~= pre.tokens@.subrange(pre.pos as int, p.pos as int));
                crate::container::lemma_prefix_trans(
                    pre.diagnostics@, mid.diagnostics@, p.diagnostics@,
                );
            }
        } else {
            m.bump_any(p);
            proof {
                lemma_subrange_single(pre.tokens@, mid.pos as int);
                lemma_subrange_concat(pre.tokens@, pre.pos as int, mid.pos as int, p.pos as int);
                assert(m.leaves() =~= pre.tokens@.subrange(pre.pos as int, p.pos as int));
            }
        }
    }

    m.complete(SyntaxKind::StyleSheet)
}

} // verus!
