//! The document model: one `Ledger` owns the current parsed node list and
//! the exact source bytes that produced it, as one atomic unit, replaced
//! wholesale on every text submission.

use vstd::prelude::*;

use crate::bytes::slice_bytes;
use crate::grammar::{parse, spec_parse};
use crate::node::{wf_node, SyntaxNode};

verus! {

/// The current document: the latest parsed node list together with its
/// source text. Created empty and unloaded; every full-text change reparses
/// and swaps both parts at once, so the node list is never queried against a
/// text other than the one that produced it.
pub struct Ledger {
    ast: Option<Vec<SyntaxNode>>,
    source: Vec<u8>,
}

impl Ledger {
    /// Whether any document text has been submitted yet. Querying an
    /// unloaded ledger is a contract violation of the caller.
    pub closed spec fn loaded(&self) -> bool {
        self.ast is Some
    }

    /// The current node list, in pre-order.
    pub closed spec fn nodes(&self) -> Seq<SyntaxNode> {
        self.ast->Some_0@
    }

    /// The current source text.
    pub closed spec fn text(&self) -> Seq<u8> {
        self.source@
    }

    /// Tree/text consistency: once loaded, the owned node list is exactly
    /// the parse of the owned source, and every node spans a well-formed
    /// range of it.
    pub open spec fn wf(&self) -> bool {
        self.loaded() ==> {
            &&& self.nodes() == spec_parse(self.text())
            &&& self.text().len() < usize::MAX
            &&& forall|k: int|
                0 <= k < self.nodes().len() ==> wf_node(
                    #[trigger] self.nodes()[k],
                    self.text().len(),
                )
        }
    }

    /// A fresh, unloaded ledger.
    pub fn new() -> (r: Ledger)
        ensures
            r.wf(),
            !r.loaded(),
    {
        Ledger { ast: None, source: Vec::new() }
    }

    /// Replace the whole document: parse `s` and swap in the new node list
    /// and text atomically. Parsing is total, so this always succeeds.
    pub fn process_text(&mut self, s: &Vec<u8>)
        requires
            s@.len() < usize::MAX,
        ensures
            final(self).wf(),
            final(self).loaded(),
            final(self).text() == s@,
            final(self).nodes() == spec_parse(s@),
    {
        let nodes = parse(s);
        let copy = slice_bytes(s, 0, s.len());
        proof {
            assert(copy@ =~= s@);
        }
        self.ast = Some(nodes);
        self.source = copy;
    }

    /// Whether a document is loaded; callers outside the verified core test
    /// this before querying.
    pub fn is_loaded(&self) -> (r: bool)
        ensures
            r == self.loaded(),
    {
        self.ast.is_some()
    }

    /// Read-only view of the current source text.
    pub fn current_text(&self) -> (r: &Vec<u8>)
        ensures
            r@ == self.text(),
    {
        &self.source
    }

    /// How many nodes the current document has.
    pub fn node_count(&self) -> (r: usize)
        requires
            self.loaded(),
        ensures
            r == self.nodes().len(),
    {
        self.ast.as_ref().unwrap().len()
    }

    /// The node at index `i` of the traversal order.
    pub fn get_node(&self, i: usize) -> (n: SyntaxNode)
        requires
            self.loaded(),
            i < self.nodes().len(),
        ensures
            n == self.nodes()[i as int],
    {
        self.ast.as_ref().unwrap()[i]
    }

    /// The document's nodes in traversal order (depth-first pre-order): what
    /// a visitor walking the tree would see, as a list.
    pub fn traverse_ast(&self) -> (r: Vec<SyntaxNode>)
        requires
            self.loaded(),
        ensures
            r@ == self.nodes(),
    {
        let nodes = self.ast.as_ref().unwrap();
        let mut out: Vec<SyntaxNode> = Vec::new();
        let mut i: usize = 0;
        while i < nodes.len()
            invariant
                i <= nodes@.len(),
                nodes@ == self.nodes(),
                out@ == self.nodes().take(i as int),
            decreases nodes@.len() - i,
        {
            out.push(nodes[i]);
            proof {
                assert(out@ =~= self.nodes().take(i as int + 1));
            }
            i += 1;
        }
        proof {
            assert(out@ =~= self.nodes());
        }
        out
    }
}

} // verus!
