//! The token cursor, the diagnostic sink, and the tree builder (markers).
//!
//! The parser owns the token stream produced by the external lexer, a cursor
//! into it, and the accumulated diagnostics. A `Marker` is an open node
//! boundary: tokens and completed sub-nodes are appended to it, and
//! `complete` turns it into a node of a chosen kind. `ParsedSyntax::precede`
//! re-wraps an already completed node as the first child of a new marker,
//! which is how `and`/`or` chains are folded left-to-right.

use vstd::prelude::*;
use crate::syntax::SyntaxKind;
use crate::tree::{Element, Node, Token};
use crate::tree::{elems_leaves, lemma_elems_leaves_push, node_leaves};

verus! {

/// A recorded soft error: at token position `pos` the parser required a
/// token of kind `expected` and did not find it.
#[derive(Clone, Copy, PartialEq, Eq, Structural, Debug)]
pub struct Diagnostic {
    pub pos: usize,
    pub expected: SyntaxKind,
}

/// The parser state: the immutable token stream, the cursor, and the
/// diagnostics accumulated so far.
pub struct Parser {
    pub tokens: Vec<Token>,
    pub pos: usize,
    pub diagnostics: Vec<Diagnostic>,
}

impl Parser {
    /// Well-formedness: the cursor stays within the stream, and the lexer
    /// never hands over a token carrying the `Eof` sentinel kind.
    pub open spec fn inv(self) -> bool {
        &&& self.pos <= self.tokens@.len()
        &&& forall|i: int| 0 <= i < self.tokens@.len() ==> self.tokens@[i].kind != SyntaxKind::Eof
    }

    /// The kind of the token `n` places ahead of the cursor; `Eof` past the end.
    pub open spec fn nth_kind(self, n: int) -> SyntaxKind {
        if self.pos + n < self.tokens@.len() {
            self.tokens@[self.pos + n].kind
        } else {
            SyntaxKind::Eof
        }
    }

    /// The kind of the token under the cursor; `Eof` at the end.
    pub open spec fn cur_kind(self) -> SyntaxKind {
        self.nth_kind(0)
    }

    /// How many tokens are left to consume.
    pub open spec fn remaining(self) -> int {
        self.tokens@.len() - self.pos
    }

    pub fn new(tokens: Vec<Token>) -> (p: Parser)
        requires
            forall|i: int| 0 <= i < tokens@.len() ==> tokens@[i].kind != SyntaxKind::Eof,
        ensures
            p.inv(),
            p.tokens == tokens,
            p.pos == 0,
            p.diagnostics@ == Seq::<Diagnostic>::empty(),
    {
        Parser { tokens, pos: 0, diagnostics: Vec::new() }
    }

    /// The kind of the current token.
    pub fn cur(&self) -> (k: SyntaxKind)
        requires
            self.inv(),
        ensures
            k == self.cur_kind(),
    {
        if self.pos < self.tokens.len() {
            self.tokens[self.pos].kind
        } else {
            SyntaxKind::Eof
        }
    }

    /// Is the current token of kind `kind`?
    pub fn at(&self, kind: SyntaxKind) -> (b: bool)
        requires
            self.inv(),
        ensures
            b == (self.cur_kind() == kind),
    {
        self.cur() == kind
    }

    /// Bounded lookahead: is the token `n` places ahead of kind `kind`?
    pub fn nth_at(&self, n: usize, kind: SyntaxKind) -> (b: bool)
        requires
            self.inv(),
            n <= 2,
        ensures
            b == (self.nth_kind(n as int) == kind),
    {
        let rem = self.tokens.len() - self.pos;
        if n < rem {
            self.tokens[self.pos + n].kind == kind
        } else {
            SyntaxKind::Eof == kind
        }
    }

    /// Record a soft diagnostic at the current position without consuming.
    pub fn error(&mut self, expected: SyntaxKind)
        requires
            old(self).inv(),
        ensures
            final(self).inv(),
            final(self).tokens == old(self).tokens,
            final(self).pos == old(self).pos,
            final(self).diagnostics@ == old(self).diagnostics@.push(
                Diagnostic { pos: old(self).pos, expected },
            ),
            old(self).diagnostics@.is_prefix_of(final(self).diagnostics@),
    {
        let d = Diagnostic { pos: self.pos, expected };
        proof {
            lemma_push_prefix(self.diagnostics@, d);
        }
        self.diagnostics.push(d);
    }

    /// Open a marker at the cursor's current position.
    pub fn start(&self) -> (m: Marker)
        ensures
            m.leaves() == Seq::<Token>::empty(),
            m.children_view() == Seq::<Element>::empty(),
    {
        proof {
            crate::tree::lemma_elems_leaves_empty();
        }
        Marker { children: Vec::new() }
    }
}

/// A pending node boundary: everything appended since it was opened becomes
/// the children of the node that `complete` produces.
pub struct Marker {
    children: Vec<Element>,
}

impl Marker {
    /// The leaf tokens collected under this marker so far, in order.
    pub closed spec fn leaves(self) -> Seq<Token> {
        elems_leaves(self.children@)
    }

    /// The children collected under this marker so far, in order.
    pub closed spec fn children_view(self) -> Seq<Element> {
        self.children@
    }

    /// Consume the current token, which must be of kind `kind`, and append
    /// it to this marker.
    pub fn bump(&mut self, p: &mut Parser, kind: SyntaxKind)
        requires
            old(p).inv(),
            old(p).cur_kind() == kind,
            kind != SyntaxKind::Eof,
        ensures
            final(p).inv(),
            final(p).tokens == old(p).tokens,
            final(p).diagnostics == old(p).diagnostics,
            final(p).pos == old(p).pos + 1,
            final(self).leaves() == old(self).leaves() + seq![old(p).tokens@[old(p).pos as int]],
            final(self).children_view() == old(self).children_view().push(
                Element::Token(old(p).tokens@[old(p).pos as int]),
            ),
    {
        let len = p.tokens.len();
        assert(p.pos < len);
        let t = p.tokens[p.pos].clone();
        p.pos = p.pos + 1;
        proof {
            lemma_elems_leaves_push(self.children@, Element::Token(t));
        }
        self.children.push(Element::Token(t));
    }

    /// Consume the current token, whatever its kind, and append it to this
    /// marker. The cursor must not be at the end of the input.
    pub fn bump_any(&mut self, p: &mut Parser)
        requires
            old(p).inv(),
            old(p).cur_kind() != SyntaxKind::Eof,
        ensures
            final(p).inv(),
            final(p).tokens == old(p).tokens,
            final(p).diagnostics == old(p).diagnostics,
            final(p).pos == old(p).pos + 1,
            final(self).leaves() == old(self).leaves() + seq![old(p).tokens@[old(p).pos as int]],
            final(self).children_view() == old(self).children_view().push(
                Element::Token(old(p).tokens@[old(p).pos as int]),
            ),
    {
        let len = p.tokens.len();
        assert(p.pos < len);
        let t = p.tokens[p.pos].clone();
        p.pos = p.pos + 1;
        proof {
            lemma_elems_leaves_push(self.children@, Element::Token(t));
        }
        self.children.push(Element::Token(t));
    }

    /// Like `bump`, but a mismatch is a soft error: a diagnostic is recorded
    /// at the current position, nothing is consumed, and parsing continues.
    pub fn expect(&mut self, p: &mut Parser, kind: SyntaxKind) -> (matched: bool)
        requires
            old(p).inv(),
            kind != SyntaxKind::Eof,
        ensures
            final(p).inv(),
            final(p).tokens == old(p).tokens,
            matched == (old(p).cur_kind() == kind),
            matched ==> {
                &&& final(p).pos == old(p).pos + 1
                &&& final(p).diagnostics == old(p).diagnostics
                &&& final(self).leaves() == old(self).leaves()
                    + seq![old(p).tokens@[old(p).pos as int]]
                &&& final(self).children_view() == old(self).children_view().push(
                    Element::Token(old(p).tokens@[old(p).pos as int]),
                )
            },
            !matched ==> {
                &&& final(p).pos == old(p).pos
                &&& final(p).diagnostics@ == old(p).diagnostics@.push(
                    Diagnostic { pos: old(p).pos, expected: kind },
                )
                &&& final(self).leaves() == old(self).leaves()
                &&& final(self).children_view() == old(self).children_view()
            },
            old(p).diagnostics@.is_prefix_of(final(p).diagnostics@),
    {
        if p.at(kind) {
            self.bump(p, kind);
            proof {
                lemma_prefix_refl(p.diagnostics@);
            }
            true
        } else {
            let d = Diagnostic { pos: p.pos, expected: kind };
            proof {
                lemma_push_prefix(p.diagnostics@, d);
            }
            p.diagnostics.push(d);
            false
        }
    }

    /// Append an already completed node to this marker.
    pub fn push_node(&mut self, n: Node)
        ensures
            final(self).leaves() == old(self).leaves() + node_leaves(n),
            final(self).children_view() == old(self).children_view().push(Element::Node(n)),
    {
        proof {
            lemma_elems_leaves_push(self.children@, Element::Node(n));
        }
        self.children.push(Element::Node(n));
    }

    /// Append the node of a `Present` outcome; `Absent` appends nothing.
    /// This is the "soft-continue" treatment of an inner outcome: the caller
    /// keeps whatever was parsed and raises no diagnostic of its own.
    pub fn push_syntax(&mut self, r: ParsedSyntax)
        ensures
            final(self).leaves() == old(self).leaves() + syntax_leaves(r),
            final(self).children_view() == (match r {
                ParsedSyntax::Present(n) => old(self).children_view().push(Element::Node(n)),
                ParsedSyntax::Absent => old(self).children_view(),
            }),
    {
        match r {
            ParsedSyntax::Present(n) => self.push_node(n),
            ParsedSyntax::Absent => {
                assert(final(self).leaves() =~= old(self).leaves() + syntax_leaves(r));
            }
        }
    }

    /// Close this marker, assigning `kind` to everything collected under it.
    pub fn complete(self, kind: SyntaxKind) -> (n: Node)
        ensures
            n.kind == kind,
            n.children@ == self.children_view(),
            node_leaves(n) == self.leaves(),
    {
        Node { kind, children: self.children }
    }
}

/// The outcome of a production: `Present(node)` if it consumed tokens and
/// built a node, `Absent` if the input does not begin with its leading set
/// and the cursor did not move. `Absent` is not an error.
pub enum ParsedSyntax {
    Present(Node),
    Absent,
}

/// The leaf tokens covered by an outcome: none for `Absent`.
pub open spec fn syntax_leaves(r: ParsedSyntax) -> Seq<Token> {
    match r {
        ParsedSyntax::Present(n) => node_leaves(n),
        ParsedSyntax::Absent => Seq::empty(),
    }
}

impl ParsedSyntax {
    /// Open a new marker whose first child is this outcome's node, if any:
    /// the retroactive re-parenting step of left-to-right combinator folding.
    /// For `Absent` the marker starts empty at the current position.
    pub fn precede(self) -> (m: Marker)
        ensures
            m.leaves() == syntax_leaves(self),
            m.children_view() == (match self {
                ParsedSyntax::Present(n) => seq![Element::Node(n)],
                ParsedSyntax::Absent => Seq::<Element>::empty(),
            }),
    {
        proof {
            crate::tree::lemma_elems_leaves_empty();
        }
        match self {
            ParsedSyntax::Present(n) => {
                let mut m = Marker { children: Vec::new() };
                m.push_node(n);
                m
            }
            ParsedSyntax::Absent => Marker { children: Vec::new() },
        }
    }
}

/// A sequence of diagnostics is a prefix of itself.
pub proof fn lemma_prefix_refl(a: Seq<Diagnostic>)
    ensures
        a.is_prefix_of(a),
{
    assert(a =~= a.subrange(0, a.len() as int));
}

/// Appending one diagnostic keeps the old list as a prefix.
pub proof fn lemma_push_prefix(a: Seq<Diagnostic>, d: Diagnostic)
    ensures
        a.is_prefix_of(a.push(d)),
{
    assert(a =~= a.push(d).subrange(0, a.len() as int));
}

} // verus!
