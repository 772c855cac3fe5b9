//! Boundary stand-ins for the sub-grammars the container-query parser
//! delegates to: plain identifiers, declarations inside `style(...)`, the
//! inner size-feature text, and the trailing rule-list block with its
//! recovery behaviour. Each one honours the same outcome contract as the
//! main productions: `Absent` means the cursor did not move.

use vstd::prelude::*;
use crate::syntax::SyntaxKind;
use crate::tree::{
    Element, Node, Token, node_leaves, lemma_subrange_concat, lemma_subrange_single,
};
use crate::parser::{Diagnostic, Marker, ParsedSyntax, Parser};
use crate::container::{is_kind_token, parse_frame};

verus! {

/// Raised when the mandatory block is missing and recovery found nothing
/// to skip: the caller downgrades the surrounding node to a bogus kind.
#[derive(Clone, Copy, PartialEq, Eq, Structural, Debug)]
pub struct RecoveryError;

pub fn is_at_identifier(p: &Parser) -> (b: bool)
    requires
        p.inv(),
    ensures
        b == (p.cur_kind() == SyntaxKind::Ident),
{
    p.at(SyntaxKind::Ident)
}

/// A single plain identifier wrapped in its own node, such as the optional
/// container name after the `container` keyword.
pub fn parse_regular_identifier(p: &mut Parser) -> (r: ParsedSyntax)
    requires
        old(p).inv(),
    ensures
        parse_frame(*old(p), *final(p), r),
        (r is Absent <==> old(p).cur_kind() != SyntaxKind::Ident),
        (r matches ParsedSyntax::Present(n) ==> n.kind == SyntaxKind::Identifier),
        final(p).diagnostics == old(p).diagnostics,
{
    if !is_at_identifier(p) {
        return ParsedSyntax::Absent;
    }

    let ghost pre = *p;
    let mut m = p.start();
    m.bump(p, SyntaxKind::Ident);
    proof {
        lemma_subrange_single(pre.tokens@, pre.pos as int);
        assert(m.leaves() =~= pre.tokens@.subrange(pre.pos as int, p.pos as int));
    }
    ParsedSyntax::Present(m.complete(SyntaxKind::Identifier))
}

/// Kinds that end the free-form token run of a feature or declaration
/// value (a closing parenthesis counts only outside nested parentheses).
pub open spec fn value_stop(k: SyntaxKind) -> bool {
    ||| k == SyntaxKind::RParen
    ||| k == SyntaxKind::LCurly
    ||| k == SyntaxKind::RCurly
    ||| k == SyntaxKind::Semicolon
    ||| k == SyntaxKind::Eof
}

/// Consume a free-form token run into the marker: everything up to a brace,
/// a semicolon, the end of input, or a closing parenthesis that does not
/// close a parenthesis opened inside the run itself.
fn bump_value_run(m: &mut Marker, p: &mut Parser)
    requires
        old(p).inv(),
    ensures
        final(p).inv(),
        final(p).tokens == old(p).tokens,
        final(p).diagnostics == old(p).diagnostics,
        old(p).pos <= final(p).pos <= final(p).tokens@.len(),
        final(m).leaves() == old(m).leaves() + old(p).tokens@.subrange(
            old(p).pos as int, final(p).pos as int,
        ),
        final(m).children_view() == old(m).children_view() + old(p).tokens@.subrange(
            old(p).pos as int, final(p).pos as int,
        ).map_values(|t: Token| Element::Token(t)),
        value_stop(final(p).cur_kind()),
        !value_stop(old(p).cur_kind()) ==> final(p).pos > old(p).pos,
{
    let ghost pre = *p;
    let ghost leaves0 = m.leaves();
    let ghost children0 = m.children_view();
    let mut depth: usize = 0;
    proof {
        assert(m.leaves() =~= leaves0 + pre.tokens@.subrange(pre.pos as int, p.pos as int));
        assert(m.children_view() =~= children0 + pre.tokens@.subrange(
            pre.pos as int, p.pos as int,
        ).map_values(|t: Token| Element::Token(t)));
    }
    loop
        invariant
            p.inv(),
            p.tokens == pre.tokens,
            p.diagnostics == pre.diagnostics,
            pre.pos <= p.pos <= p.tokens@.len(),
            depth <= p.pos - pre.pos,
            m.leaves() == leaves0 + pre.tokens@.subrange(pre.pos as int, p.pos as int),
            m.children_view() == children0 + pre.tokens@.subrange(
                pre.pos as int, p.pos as int,
            ).map_values(|t: Token| Element::Token(t)),
        ensures
            p.inv(),
            p.tokens == pre.tokens,
            p.diagnostics == pre.diagnostics,
            pre.pos <= p.pos <= p.tokens@.len(),
            m.leaves() == leaves0 + pre.tokens@.subrange(pre.pos as int, p.pos as int),
            m.children_view() == children0 + pre.tokens@.subrange(
                pre.pos as int, p.pos as int,
            ).map_values(|t: Token| Element::Token(t)),
            value_stop(p.cur_kind()),
        decreases p.tokens@.len() - p.pos,
    {
        let k = p.cur();
        if k == SyntaxKind::LCurly || k == SyntaxKind::RCurly || k == SyntaxKind::Semicolon
            || k == SyntaxKind::Eof {
            break;
        }
        if k == SyntaxKind::RParen && depth == 0 {
            break;
        }
        let len = p.tokens.len();
        assert(p.pos < len);
        if k == SyntaxKind::LParen {
            depth = depth + 1;
        } else if k == SyntaxKind::RParen {
            depth = depth - 1;
        }
        let ghost mid = *p;
        m.bump_any(p);
        proof {
            lemma_subrange_single(pre.tokens@, mid.pos as int);
            lemma_subrange_concat(pre.tokens@, pre.pos as int, mid.pos as int, p.pos as int);
            assert(m.leaves() =~= leaves0 + pre.tokens@.subrange(pre.pos as int, p.pos as int));
            assert(m.children_view() =~= children0 + pre.tokens@.subrange(
                pre.pos as int, p.pos as int,
            ).map_values(|t: Token| Element::Token(t)));
        }
    }
}

/// The inner `feature` grammar of a size feature, delegated externally in
/// the full system: here any non-empty balanced run of tokens up to the
/// closing parenthesis or a brace or semicolon boundary.
pub fn parse_any_query_feature(p: &mut Parser) -> (r: ParsedSyntax)
    requires
        old(p).inv(),
    ensures
        parse_frame(*old(p), *final(p), r),
        (r is Absent <==> value_stop(old(p).cur_kind())),
        (r matches ParsedSyntax::Present(n) ==> n.kind == SyntaxKind::QueryFeature),
        final(p).diagnostics == old(p).diagnostics,
        r is Present ==> value_stop(final(p).cur_kind()),
{
    let k0 = p.cur();
    if k0 == SyntaxKind::RParen || k0 == SyntaxKind::LCurly || k0 == SyntaxKind::RCurly
        || k0 == SyntaxKind::Semicolon || k0 == SyntaxKind::Eof {
        return ParsedSyntax::Absent;
    }

    let ghost pre = *p;
    let mut m = p.start();
    bump_value_run(&mut m, p);
    proof {
        assert(m.leaves() =~= pre.tokens@.subrange(pre.pos as int, p.pos as int));
    }
    ParsedSyntax::Present(m.complete(SyntaxKind::QueryFeature))
}

/// The generic declaration grammar invoked for style-query leaves,
/// delegated externally in the full system: here `IDENT ':' value-run`,
/// with a soft error if the colon is missing.
pub fn parse_declaration(p: &mut Parser) -> (r: ParsedSyntax)
    requires
        old(p).inv(),
    ensures
        parse_frame(*old(p), *final(p), r),
        (r is Absent <==> old(p).cur_kind() != SyntaxKind::Ident),
        (r matches ParsedSyntax::Present(n) ==> n.kind == SyntaxKind::Declaration),
        r is Present ==> (final(p).diagnostics@ == old(p).diagnostics@
            || final(p).diagnostics@ == old(p).diagnostics@.push(Diagnostic {
                pos: (old(p).pos + 1) as usize,
                expected: SyntaxKind::Colon,
            })),
        (r matches ParsedSyntax::Present(n) ==> ((n.children@.len() >= 2
            && is_kind_token(n.children@[1], SyntaxKind::Colon))
            <==> final(p).diagnostics@ == old(p).diagnostics@)),
{
    if !is_at_identifier(p) {
        return ParsedSyntax::Absent;
    }

    let ghost pre = *p;
    let mut m = p.start();

    m.bump(p, SyntaxKind::Ident);
    proof {
        lemma_subrange_single(pre.tokens@, pre.pos as int);
        assert(m.leaves() =~= pre.tokens@.subrange(pre.pos as int, p.pos as int));
    }
    let ghost mid1 = *p;
    m.expect(p, SyntaxKind::Colon);
    proof {
        if p.pos != mid1.pos {
            lemma_subrange_single(pre.tokens@, mid1.pos as int);
        }
        lemma_subrange_concat(pre.tokens@, pre.pos as int, mid1.pos as int, p.pos as int);
        assert(m.leaves() =~= pre.tokens@.subrange(pre.pos as int, p.pos as int));
    }

    let ghost mid2 = *p;
    bump_value_run(&mut m, p);
    proof {
        lemma_subrange_concat(pre.tokens@, pre.pos as int, mid2.pos as int, p.pos as int);
        assert(m.leaves() =~= pre.tokens@.subrange(pre.pos as int, p.pos as int));
    }
    ParsedSyntax::Present(m.complete(SyntaxKind::Declaration))
}

/// The block-recovery primitive at the boundary of this core: parse the
/// mandatory `{ ... }` rule-list block, skipping over balanced inner braces.
/// If the block is missing, record exactly one diagnostic, consume nothing,
/// and report the failure so the caller can downgrade its node.
pub fn parse_or_recover_rule_list_block(p: &mut Parser) -> (r: Result<Node, RecoveryError>)
    requires
        old(p).inv(),
    ensures
        final(p).inv(),
        final(p).tokens == old(p).tokens,
        old(p).pos <= final(p).pos <= final(p).tokens@.len(),
        old(p).diagnostics@.is_prefix_of(final(p).diagnostics@),
        (r is Err <==> old(p).cur_kind() != SyntaxKind::LCurly),
        r is Err ==> final(p).pos == old(p).pos
            && final(p).diagnostics@ == old(p).diagnostics@.push(
                Diagnostic { pos: old(p).pos, expected: SyntaxKind::LCurly },
            ),
        (r matches Ok(n) ==> n.kind == SyntaxKind::RuleListBlock
            && final(p).pos > old(p).pos
            && node_leaves(n) == old(p).tokens@.subrange(
                old(p).pos as int, final(p).pos as int,
            )),
{
    if !p.at(SyntaxKind::LCurly) {
        p.error(SyntaxKind::LCurly);
        return Err(RecoveryError);
    }

    let ghost pre = *p;
    let mut m = p.start();

    m.bump(p, SyntaxKind::LCurly);
    proof {
        lemma_subrange_single(pre.tokens@, pre.pos as int);
        assert(m.leaves() =~= pre.tokens@.subrange(pre.pos as int, p.pos as int));
    }

    let mut depth: usize = 0;
    loop
        invariant
            p.inv(),
            p.tokens == pre.tokens,
            p.diagnostics == pre.diagnostics,
            pre.pos < p.pos <= p.tokens@.len(),
            depth <= p.pos - pre.pos,
            m.leaves() == pre.tokens@.subrange(pre.pos as int, p.pos as int),
        ensures
            p.inv(),
            p.tokens == pre.tokens,
            p.diagnostics == pre.diagnostics,
            pre.pos < p.pos <= p.tokens@.len(),
            m.leaves() == pre.tokens@.subrange(pre.pos as int, p.pos as int),
        decreases p.tokens@.len() - p.pos,
    {
        let k = p.cur();
        if k == SyntaxKind::Eof {
            break;
        }
        if k == SyntaxKind::RCurly && depth == 0 {
            break;
        }
        let len = p.tokens.len();
        assert(p.pos < len);
        if k == SyntaxKind::LCurly {
            depth = depth + 1;
        } else if k == SyntaxKind::RCurly {
            depth = depth - 1;
        }
        let ghost mid = *p;
        m.bump_any(p);
        proof {
            lemma_subrange_single(pre.tokens@, mid.pos as int);
            lemma_subrange_concat(pre.tokens@, pre.pos as int, mid.pos as int, p.pos as int);
            assert(m.leaves() =~= pre.tokens@.subrange(pre.pos as int, p.pos as int));
        }
    }

    let ghost mid2 = *p;
    m.expect(p, SyntaxKind::RCurly);
    proof {
        if p.pos != mid2.pos {
            lemma_subrange_single(pre.tokens@, mid2.pos as int);
        }
        lemma_subrange_concat(pre.tokens@, pre.pos as int, mid2.pos as int, p.pos as int);
        assert(m.leaves() =~= pre.tokens@.subrange(pre.pos as int, p.pos as int));
        assert(pre.diagnostics@.is_prefix_of(p.diagnostics@));
    }

    Ok(m.complete(SyntaxKind::RuleListBlock))
}

} // verus!
