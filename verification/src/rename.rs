//! The rename planner: resolve the node under the cursor, offer its text
//! and range for a rename preview, and plan one text edit per occurrence of
//! the same symbol across the whole document.

use vstd::prelude::*;

use crate::bytes::{bytes_eq, slice_bytes};
use crate::document::Ledger;
use crate::node::{node_text, wf_node, NodeKind, SyntaxNode};
use crate::position::{point_in_span, spec_point_in_span, Point, Position, TextRange};

verus! {

/// What a rename preview reports: the exact current text of the symbol
/// under the cursor, and the range a rename would replace.
pub struct PrepareRename {
    pub range: TextRange,
    pub placeholder: Vec<u8>,
}

/// One planned replacement: the range to replace and the bytes to put
/// there.
pub struct TextEdit {
    pub range: TextRange,
    pub new_text: Vec<u8>,
}

/// The node the rename planner resolves at `pos`: the last node in
/// traversal order whose span contains the position under the strict
/// point-in-range test. Descendants follow their ancestors in pre-order, so
/// among nested spans this is the smallest enclosing node. `None` when the
/// position lies inside no node at all.
pub open spec fn spec_resolve(nodes: Seq<SyntaxNode>, pos: Position) -> Option<int>
    decreases nodes.len(),
{
    if nodes.len() == 0 {
        None
    } else if spec_point_in_span(pos, nodes.last().start, nodes.last().end) {
        Some(nodes.len() - 1)
    } else {
        spec_resolve(nodes.drop_last(), pos)
    }
}

/// A node's span widened by one column at the end: the range convention
/// every rename range carries.
pub open spec fn spec_widened_range(n: SyntaxNode) -> TextRange {
    TextRange { start: n.start, end: Point { row: n.end.row, column: (n.end.column + 1) as usize } }
}

/// A node is renamed along with the node under the cursor when it has the
/// same kind and spans exactly the same text.
pub open spec fn spec_rename_matches(
    n: SyntaxNode,
    source: Seq<u8>,
    kind: NodeKind,
    key: Seq<u8>,
) -> bool {
    n.kind == kind && node_text(source, n) == key
}

/// The planned edits of a rename, as (range, replacement) pairs in
/// traversal order: one per node of `kind` whose text equals `key`, each
/// covering that occurrence's widened range and inserting `new`.
pub open spec fn spec_edits(
    nodes: Seq<SyntaxNode>,
    source: Seq<u8>,
    kind: NodeKind,
    key: Seq<u8>,
    new: Seq<u8>,
) -> Seq<(TextRange, Seq<u8>)>
    decreases nodes.len(),
{
    if nodes.len() == 0 {
        Seq::empty()
    } else {
        let pre = spec_edits(nodes.drop_last(), source, kind, key, new);
        if spec_rename_matches(nodes.last(), source, kind, key) {
            pre.push((spec_widened_range(nodes.last()), new))
        } else {
            pre
        }
    }
}

/// The indices, in traversal order, of every node that a rename of `key`
/// symbols of `kind` replaces.
pub open spec fn spec_match_indices(
    nodes: Seq<SyntaxNode>,
    source: Seq<u8>,
    kind: NodeKind,
    key: Seq<u8>,
) -> Seq<int>
    decreases nodes.len(),
{
    if nodes.len() == 0 {
        Seq::empty()
    } else {
        let pre = spec_match_indices(nodes.drop_last(), source, kind, key);
        if spec_rename_matches(nodes.last(), source, kind, key) {
            pre.push(nodes.len() - 1)
        } else {
            pre
        }
    }
}

impl Ledger {
    /// Resolve the node under `pos` as the rename planner sees it: the
    /// index of the smallest node whose span contains the position, or
    /// `None` when no node encloses it.
    pub fn named_node_at(&self, pos: Position) -> (r: Option<usize>)
        requires
            self.wf(),
            self.loaded(),
        ensures
            r is Some <==> spec_resolve(self.nodes(), pos) is Some,
            r matches Some(u) ==> spec_resolve(self.nodes(), pos) == Some(u as int) && u
                < self.nodes().len(),
    {
        let count = self.node_count();
        let mut r: Option<usize> = None;
        let mut i: usize = 0;
        while i < count
            invariant
                self.wf(),
                self.loaded(),
                count == self.nodes().len(),
                i <= count,
                r is Some <==> spec_resolve(self.nodes().take(i as int), pos) is Some,
                r matches Some(u) ==> spec_resolve(self.nodes().take(i as int), pos) == Some(
                    u as int,
                ) && u < i,
            decreases count - i,
        {
            let n = self.get_node(i);
            proof {
                assert(self.nodes().take(i as int + 1).drop_last() =~= self.nodes().take(i as int));
                assert(self.nodes().take(i as int + 1).last() == n);
            }
            if point_in_span(pos, n.start, n.end) {
                r = Some(i);
            }
            i += 1;
        }
        proof {
            assert(self.nodes().take(count as int) =~= self.nodes());
        }
        r
    }

    /// The rename preview at `pos`: the placeholder text and display range
    /// of the symbol under the cursor, or `None` when the cursor is not on
    /// a renamable (account or payee) node.
    pub fn prepare_rename(&self, pos: Position) -> (r: Option<PrepareRename>)
        requires
            self.wf(),
            self.loaded(),
        ensures
            r is Some <==> (spec_resolve(self.nodes(), pos) matches Some(i) && self.nodes()[i].kind
                != NodeKind::Other),
            r matches Some(p) ==> ({
                let i = spec_resolve(self.nodes(), pos)->Some_0;
                &&& p.range == spec_widened_range(self.nodes()[i])
                &&& p.placeholder@ == node_text(self.text(), self.nodes()[i])
            }),
    {
        match self.named_node_at(pos) {
            None => None,
            Some(u) => {
                let n = self.get_node(u);
                if n.kind == NodeKind::Other {
                    return None;
                }
                proof {
                    assert(wf_node(self.nodes()[u as int], self.text().len()));
                }
                let placeholder = slice_bytes(self.current_text(), n.start_byte, n.end_byte);
                Some(
                    PrepareRename {
                        range: TextRange {
                            start: n.start,
                            end: Point { row: n.end.row, column: n.end.column + 1 },
                        },
                        placeholder,
                    },
                )
            },
        }
    }

    /// Plan the rename at `pos` with replacement `new_name`: one edit, in
    /// traversal order, for every node of the resolved node's kind whose
    /// text equals the resolved node's text, each covering the occurrence's
    /// widened range. `None` when the cursor is not on a renamable node.
    pub fn rename(&self, pos: Position, new_name: &Vec<u8>) -> (r: Option<Vec<TextEdit>>)
        requires
            self.wf(),
            self.loaded(),
        ensures
            r is Some <==> (spec_resolve(self.nodes(), pos) matches Some(i) && self.nodes()[i].kind
                != NodeKind::Other),
            r matches Some(edits) ==> ({
                let i = spec_resolve(self.nodes(), pos)->Some_0;
                let kind = self.nodes()[i].kind;
                let key = node_text(self.text(), self.nodes()[i]);
                edits@.map_values(|e: TextEdit| (e.range, e.new_text@)) == spec_edits(
                    self.nodes(),
                    self.text(),
                    kind,
                    key,
                    new_name@,
                )
            }),
    {
        let u = match self.named_node_at(pos) {
            None => { return None },
            Some(u) => u,
        };
        let cur = self.get_node(u);
        if cur.kind == NodeKind::Other {
            return None;
        }
        proof {
            assert(wf_node(self.nodes()[u as int], self.text().len()));
        }
        let source = self.current_text();
        let key = slice_bytes(source, cur.start_byte, cur.end_byte);
        let ghost gkind = cur.kind;
        let ghost gkey = node_text(self.text(), self.nodes()[u as int]);
        let count = self.node_count();
        let mut edits: Vec<TextEdit> = Vec::new();
        let mut i: usize = 0;
        while i < count
            invariant
                self.wf(),
                self.loaded(),
                count == self.nodes().len(),
                i <= count,
                source@ == self.text(),
                key@ == gkey,
                gkind == cur.kind,
                cur.kind != NodeKind::Other,
                edits@.map_values(|e: TextEdit| (e.range, e.new_text@)) =~= spec_edits(
                    self.nodes().take(i as int),
                    self.text(),
                    gkind,
                    gkey,
                    new_name@,
                ),
            decreases count - i,
        {
            let n = self.get_node(i);
            let ghost prev_map = edits@.map_values(|e: TextEdit| (e.range, e.new_text@));
            proof {
                assert(self.nodes().take(i as int + 1).drop_last() =~= self.nodes().take(i as int));
                assert(self.nodes().take(i as int + 1).last() == n);
                assert(wf_node(self.nodes()[i as int], self.text().len()));
            }
            let mut matched = false;
            if n.kind == cur.kind {
                let t = slice_bytes(source, n.start_byte, n.end_byte);
                if bytes_eq(&t, &key) {
                    matched = true;
                    let new_text = slice_bytes(new_name, 0, new_name.len());
                    proof {
                        assert(new_text@ =~= new_name@);
                    }
                    edits.push(
                        TextEdit {
                            range: TextRange {
                                start: n.start,
                                end: Point { row: n.end.row, column: n.end.column + 1 },
                            },
                            new_text,
                        },
                    );
                }
            }
            proof {
                if matched {
                    assert(spec_rename_matches(n, self.text(), gkind, gkey));
                    assert(edits@.map_values(|e: TextEdit| (e.range, e.new_text@)) =~= prev_map.push(
                        (spec_widened_range(n), new_name@),
                    ));
                    assert(spec_edits(
                        self.nodes().take(i as int + 1),
                        self.text(),
                        gkind,
                        gkey,
                        new_name@,
                    ) == prev_map.push((spec_widened_range(n), new_name@)));
                } else {
                    assert(!spec_rename_matches(n, self.text(), gkind, gkey));
                    assert(spec_edits(
                        self.nodes().take(i as int + 1),
                        self.text(),
                        gkind,
                        gkey,
                        new_name@,
                    ) == prev_map);
                }
            }
            i += 1;
        }
        proof {
            assert(self.nodes().take(count as int) =~= self.nodes());
        }
        Some(edits)
    }
}

/// The planned occurrences of a rename are exactly the matching nodes: each
/// planned index is a matching node, every matching node is planned, and
/// the plan lists them in strictly increasing traversal order (so: one edit
/// per occurrence).
pub proof fn lemma_match_indices_characterize(
    nodes: Seq<SyntaxNode>,
    source: Seq<u8>,
    kind: NodeKind,
    key: Seq<u8>,
)
    ensures
        ({
            let idxs = spec_match_indices(nodes, source, kind, key);
            &&& forall|j: int|
                0 <= j < idxs.len() ==> 0 <= #[trigger] idxs[j] < nodes.len()
                    && spec_rename_matches(nodes[idxs[j]], source, kind, key)
            &&& forall|i: int|
                0 <= i < nodes.len() && spec_rename_matches(#[trigger] nodes[i], source, kind, key)
                    ==> idxs.contains(i)
            &&& forall|j1: int, j2: int| 0 <= j1 < j2 < idxs.len() ==> idxs[j1] < idxs[j2]
        }),
    decreases nodes.len(),
{
    if nodes.len() > 0 {
        lemma_match_indices_characterize(nodes.drop_last(), source, kind, key);
        let pre = spec_match_indices(nodes.drop_last(), source, kind, key);
        let idxs = spec_match_indices(nodes, source, kind, key);
        assert forall|i: int|
            0 <= i < nodes.len() && spec_rename_matches(
                #[trigger] nodes[i],
                source,
                kind,
                key,
            ) implies idxs.contains(i) by {
            if i < nodes.len() - 1 {
                assert(nodes.drop_last()[i] == nodes[i]);
                assert(pre.contains(i));
                let j = choose|j: int| 0 <= j < pre.len() && pre[j] == i;
                assert(idxs[j] == i);
            } else {
                assert(spec_rename_matches(nodes.last(), source, kind, key));
                assert(idxs[idxs.len() - 1] == i);
            }
        }
    }
}

/// The planned edits follow the matching nodes one for one: the `j`-th edit
/// covers the widened range of the `j`-th matching node and inserts the
/// replacement text.
pub proof fn lemma_edits_follow_matches(
    nodes: Seq<SyntaxNode>,
    source: Seq<u8>,
    kind: NodeKind,
    key: Seq<u8>,
    new: Seq<u8>,
)
    ensures
        ({
            let es = spec_edits(nodes, source, kind, key, new);
            let idxs = spec_match_indices(nodes, source, kind, key);
            &&& es.len() == idxs.len()
            &&& forall|j: int|
                0 <= j < es.len() ==> #[trigger] es[j] == (
                    spec_widened_range(nodes[idxs[j]]),
                    new,
                )
        }),
    decreases nodes.len(),
{
    if nodes.len() > 0 {
        lemma_edits_follow_matches(nodes.drop_last(), source, kind, key, new);
        lemma_match_indices_characterize(nodes.drop_last(), source, kind, key);
        let es = spec_edits(nodes, source, kind, key, new);
        let idxs = spec_match_indices(nodes, source, kind, key);
        let pre_es = spec_edits(nodes.drop_last(), source, kind, key, new);
        let pre_idxs = spec_match_indices(nodes.drop_last(), source, kind, key);
        assert forall|j: int| 0 <= j < es.len() implies #[trigger] es[j] == (
            spec_widened_range(nodes[idxs[j]]),
            new,
        ) by {
            if j < pre_es.len() {
                assert(es[j] == pre_es[j]);
                assert(idxs[j] == pre_idxs[j]);
                assert(nodes.drop_last()[pre_idxs[j]] == nodes[pre_idxs[j]]);
            } else {
                assert(spec_rename_matches(nodes.last(), source, kind, key));
                assert(idxs[j] == nodes.len() - 1);
            }
        }
    }
}

/// Renaming a symbol to its own text is a no-op in scope: by `rename`'s
/// contract the plan holds one edit per occurrence of the symbol of the
/// resolved kind, and — the text of every planned occurrence being the key
/// itself — each edit replaces a piece of text with that same text.
pub proof fn lemma_rename_self_is_noop(
    nodes: Seq<SyntaxNode>,
    source: Seq<u8>,
    kind: NodeKind,
    key: Seq<u8>,
)
    ensures
        ({
            let idxs = spec_match_indices(nodes, source, kind, key);
            &&& forall|j: int|
                0 <= j < idxs.len() ==> node_text(source, nodes[#[trigger] idxs[j]]) == key
            &&& forall|i: int|
                0 <= i < nodes.len() && spec_rename_matches(#[trigger] nodes[i], source, kind, key)
                    ==> idxs.contains(i)
            &&& forall|j1: int, j2: int| 0 <= j1 < j2 < idxs.len() ==> idxs[j1] < idxs[j2]
        }),
{
    lemma_match_indices_characterize(nodes, source, kind, key);
}

} // verus!
