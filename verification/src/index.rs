//! The symbol index and the position classifier: collect the distinct
//! symbol texts of a kind, excluding every occurrence the cursor is inside
//! of, and classify the node kind under a cursor.

use vstd::prelude::*;

use crate::bytes::{contains_bytes, slice_bytes};
use crate::document::Ledger;
use crate::node::{node_text, wf_node, NodeKind, SyntaxNode};
use crate::position::{in_range, spec_in_range, Position};

verus! {

/// A node contributes to `collect(kind, pos)` when it has the requested
/// kind and the permissive containment test does not place `pos` inside it:
/// the occurrence under the cursor is withheld from its own completion.
pub open spec fn spec_kept(n: SyntaxNode, kind: NodeKind, pos: Position) -> bool {
    n.kind == kind && !spec_in_range(pos, n.start, n.end)
}

/// The texts of the kept nodes among the first `m` nodes.
pub open spec fn spec_collect_upto(
    nodes: Seq<SyntaxNode>,
    source: Seq<u8>,
    kind: NodeKind,
    pos: Position,
    m: int,
) -> Set<Seq<u8>> {
    Set::new(
        |t: Seq<u8>|
            exists|i: int|
                0 <= i < m && spec_kept(#[trigger] nodes[i], kind, pos) && node_text(
                    source,
                    nodes[i],
                ) == t,
    )
}

/// The set of distinct symbol texts of `kind` in the document, leaving out
/// every occurrence that the containment test matches against `pos`.
pub open spec fn spec_collect(
    nodes: Seq<SyntaxNode>,
    source: Seq<u8>,
    kind: NodeKind,
    pos: Position,
) -> Set<Seq<u8>> {
    spec_collect_upto(nodes, source, kind, pos, nodes.len() as int)
}

/// The classification of `pos`: the kind of the last node in traversal
/// order that is of a recognized symbol kind and whose containment test
/// matches `pos` — the deepest match wins, since children follow their
/// parents in pre-order. `None` when no such node exists.
pub open spec fn spec_classify(nodes: Seq<SyntaxNode>, pos: Position) -> Option<NodeKind>
    decreases nodes.len(),
{
    if nodes.len() == 0 {
        None
    } else if nodes.last().kind != NodeKind::Other && spec_in_range(
        pos,
        nodes.last().start,
        nodes.last().end,
    ) {
        Some(nodes.last().kind)
    } else {
        spec_classify(nodes.drop_last(), pos)
    }
}

impl Ledger {
    /// Collect the distinct symbol texts of `kind`, excluding every
    /// occurrence the cursor position is inside of. The returned list holds
    /// exactly the set `spec_collect` of the document, without duplicates
    /// and in unspecified order.
    pub fn collect(&self, kind: NodeKind, pos: Position) -> (r: Vec<Vec<u8>>)
        requires
            self.wf(),
            self.loaded(),
        ensures
            forall|p: int, q: int| 0 <= p < q < r@.len() ==> r@[p]@ != r@[q]@,
            r@.map_values(|v: Vec<u8>| v@).to_set() == spec_collect(
                self.nodes(),
                self.text(),
                kind,
                pos,
            ),
    {
        let nodes = self.traverse_ast();
        let source = self.current_text();
        let mut out: Vec<Vec<u8>> = Vec::new();
        let mut i: usize = 0;
        while i < nodes.len()
            invariant
                self.wf(),
                self.loaded(),
                nodes@ == self.nodes(),
                source@ == self.text(),
                i <= nodes@.len(),
                forall|p: int, q: int| 0 <= p < q < out@.len() ==> out@[p]@ != out@[q]@,
                out@.map_values(|v: Vec<u8>| v@).to_set() =~= spec_collect_upto(
                    self.nodes(),
                    self.text(),
                    kind,
                    pos,
                    i as int,
                ),
            decreases nodes@.len() - i,
        {
            let n = nodes[i];
            let ghost prev = out@.map_values(|v: Vec<u8>| v@).to_set();
            let ghost oldv = out@;
            if n.kind == kind && !in_range(pos, n.start, n.end) {
                proof {
                    assert(wf_node(self.nodes()[i as int], self.text().len()));
                }
                let t = slice_bytes(source, n.start_byte, n.end_byte);
                if !contains_bytes(&out, &t) {
                    out.push(t);
                    proof {
                        assert(out@.map_values(|v: Vec<u8>| v@) =~= oldv.map_values(
                            |v: Vec<u8>| v@,
                        ).push(t@));
                        oldv.map_values(|v: Vec<u8>| v@).lemma_push_to_set_commute(t@);
                        assert(out@.map_values(|v: Vec<u8>| v@).to_set() =~= prev.insert(t@));
                        assert(t@ == node_text(self.text(), n));
                        assert(spec_collect_upto(self.nodes(), self.text(), kind, pos, i as int + 1)
                            =~= prev.insert(node_text(self.text(), n)));
                    }
                } else {
                    proof {
                        assert(prev.contains(t@)) by {
                            let k = choose|k: int| 0 <= k < oldv.len() && oldv[k]@ == t@;
                            assert(oldv.map_values(|v: Vec<u8>| v@)[k] == t@);
                            assert(oldv.map_values(|v: Vec<u8>| v@).contains(t@));
                        }
                        assert(spec_collect_upto(self.nodes(), self.text(), kind, pos, i as int + 1)
                            =~= prev);
                    }
                }
            } else {
                proof {
                    assert(spec_collect_upto(self.nodes(), self.text(), kind, pos, i as int + 1)
                        =~= prev);
                }
            }
            i += 1;
        }
        out
    }

    /// The distinct account names of the document, the one under the cursor
    /// excluded.
    pub fn get_accounts(&self, pos: Position) -> (r: Vec<Vec<u8>>)
        requires
            self.wf(),
            self.loaded(),
        ensures
            forall|p: int, q: int| 0 <= p < q < r@.len() ==> r@[p]@ != r@[q]@,
            r@.map_values(|v: Vec<u8>| v@).to_set() == spec_collect(
                self.nodes(),
                self.text(),
                NodeKind::Account,
                pos,
            ),
    {
        self.collect(NodeKind::Account, pos)
    }

    /// The distinct payee names of the document, the one under the cursor
    /// excluded.
    pub fn get_payees(&self, pos: Position) -> (r: Vec<Vec<u8>>)
        requires
            self.wf(),
            self.loaded(),
        ensures
            forall|p: int, q: int| 0 <= p < q < r@.len() ==> r@[p]@ != r@[q]@,
            r@.map_values(|v: Vec<u8>| v@).to_set() == spec_collect(
                self.nodes(),
                self.text(),
                NodeKind::Payee,
                pos,
            ),
    {
        self.collect(NodeKind::Payee, pos)
    }

    /// Which symbol kind the cursor is inside of, by the permissive
    /// containment test; the last match in traversal order wins.
    pub fn classify(&self, pos: Position) -> (r: Option<NodeKind>)
        requires
            self.wf(),
            self.loaded(),
        ensures
            r == spec_classify(self.nodes(), pos),
    {
        let nodes = self.traverse_ast();
        let mut r: Option<NodeKind> = None;
        let mut i: usize = 0;
        while i < nodes.len()
            invariant
                nodes@ == self.nodes(),
                i <= nodes@.len(),
                r == spec_classify(self.nodes().take(i as int), pos),
            decreases nodes@.len() - i,
        {
            let n = nodes[i];
            let matched = !matches!(n.kind, NodeKind::Other) && in_range(pos, n.start, n.end);
            proof {
                assert(self.nodes().take(i as int + 1).drop_last() =~= self.nodes().take(i as int));
                assert(self.nodes().take(i as int + 1).last() == n);
            }
            if matched {
                r = Some(n.kind);
            }
            i += 1;
        }
        proof {
            assert(self.nodes().take(nodes@.len() as int) =~= self.nodes());
        }
        r
    }
}

/// If the containment test places `pos` inside the node at `i` of the
/// requested kind, and no kept occurrence of that kind shares its text,
/// then the collected set does not contain that node's text: a symbol is
/// never offered from under the cursor alone.
pub proof fn lemma_collect_excludes_contained(
    nodes: Seq<SyntaxNode>,
    source: Seq<u8>,
    kind: NodeKind,
    pos: Position,
    i: int,
)
    requires
        0 <= i < nodes.len(),
        nodes[i].kind == kind,
        spec_in_range(pos, nodes[i].start, nodes[i].end),
        forall|j: int|
            0 <= j < nodes.len() && spec_kept(#[trigger] nodes[j], kind, pos) ==> node_text(
                source,
                nodes[j],
            ) != node_text(source, nodes[i]),
    ensures
        !spec_collect(nodes, source, kind, pos).contains(node_text(source, nodes[i])),
{
}

/// A classification is sound: it answers a kind only when some node of that
/// kind's containment test matches the position (and `Other` is never
/// answered).
pub proof fn lemma_classify_sound(nodes: Seq<SyntaxNode>, pos: Position)
    ensures
        spec_classify(nodes, pos) matches Some(k) ==> k != NodeKind::Other && exists|i: int|
            0 <= i < nodes.len() && #[trigger] nodes[i].kind == k && spec_in_range(
                pos,
                nodes[i].start,
                nodes[i].end,
            ),
    decreases nodes.len(),
{
    if nodes.len() > 0 {
        let last = nodes.last();
        if last.kind != NodeKind::Other && spec_in_range(pos, last.start, last.end) {
            assert(nodes[nodes.len() - 1].kind == last.kind);
        } else {
            lemma_classify_sound(nodes.drop_last(), pos);
            if spec_classify(nodes.drop_last(), pos) is Some {
                let k = spec_classify(nodes.drop_last(), pos)->Some_0;
                let i = choose|i: int|
                    0 <= i < nodes.drop_last().len() && #[trigger] nodes.drop_last()[i].kind == k
                        && spec_in_range(pos, nodes.drop_last()[i].start, nodes.drop_last()[i].end);
                assert(nodes[i].kind == k && spec_in_range(pos, nodes[i].start, nodes[i].end));
            }
        }
    }
}

/// The deepest match wins: when the node at `i` matches the classifier's
/// test and no later node does, the classification is exactly that node's
/// kind. In pre-order a descendant follows all its ancestors, so among
/// nested matches this is the most specific one.
pub proof fn lemma_classify_last_match(nodes: Seq<SyntaxNode>, pos: Position, i: int)
    requires
        0 <= i < nodes.len(),
        nodes[i].kind != NodeKind::Other,
        spec_in_range(pos, nodes[i].start, nodes[i].end),
        forall|j: int|
            i < j < nodes.len() ==> !(#[trigger] nodes[j].kind != NodeKind::Other && spec_in_range(
                pos,
                nodes[j].start,
                nodes[j].end,
            )),
    ensures
        spec_classify(nodes, pos) == Some(nodes[i].kind),
    decreases nodes.len(),
{
    if i == nodes.len() - 1 {
    } else {
        lemma_classify_last_match(nodes.drop_last(), pos, i);
    }
}

} // verus!
