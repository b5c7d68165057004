//! Syntax nodes: the closed vocabulary of node kinds, the node record the
//! grammar produces, and well-formedness of a node against a source text.

use vstd::prelude::*;

use crate::position::Point;

verus! {

/// The closed vocabulary of node kinds this core works with. Raw grammar
/// labels are translated into it at the parsing boundary, so every match on
/// a kind is exhaustive: the renamable symbol kinds are `Account` and
/// `Payee`; every other construct (the whole document, a date, ...) is
/// `Other`.
#[derive(Clone, Copy, Debug, PartialEq, Eq, Structural)]
pub enum NodeKind {
    Account,
    Payee,
    Other,
}

/// One node of the concrete syntax tree, flattened: a kind, the byte range
/// it spans in the source, and its start and end points. The tree itself is
/// carried as a sequence of such records in depth-first pre-order (a node
/// before its children, children left to right), so "traversal order" is
/// the order of the sequence.
#[derive(Clone, Copy, Debug, PartialEq, Eq, Structural)]
pub struct SyntaxNode {
    pub kind: NodeKind,
    pub start_byte: usize,
    pub end_byte: usize,
    pub start: Point,
    pub end: Point,
}

/// The source text spanned by a node: the bytes between its start and end
/// offsets.
pub open spec fn node_text(source: Seq<u8>, n: SyntaxNode) -> Seq<u8> {
    source.subrange(n.start_byte as int, n.end_byte as int)
}

/// A node is well-formed against a source of length `len` when its byte
/// range is an ordered range into the source and its end column leaves room
/// for the one-column widening that rename ranges carry.
pub open spec fn wf_node(n: SyntaxNode, len: nat) -> bool {
    &&& n.start_byte <= n.end_byte <= len
    &&& n.end.column < usize::MAX
}

} // verus!
