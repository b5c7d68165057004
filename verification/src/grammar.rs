//! The grammar provider: parses ledger source bytes into the flat, pre-order
//! node list the rest of the core queries.
//!
//! The format is treated purely as syntax, line by line:
//! - a line whose first byte is a digit opens a transaction: a date token
//!   (digits and `-` `.` `/` `=`), optional whitespace and a `*`/`!` status
//!   mark, then the payee text up to the end of the line;
//! - an indented line is a posting: the account name runs from the first
//!   non-blank byte up to a hard separator (a tab, or two adjacent spaces)
//!   or the end of the line, trailing blanks trimmed; an indented line whose
//!   first non-blank byte is `;` is a comment;
//! - every other line carries no symbols.
//!
//! The whole document is the root node; each date is an `Other` node, each
//! payee a `Payee` node, each account an `Account` node. All nodes are
//! emitted in depth-first pre-order: the root first, then line by line,
//! left to right. `spec_parse` is the grammar's definition; `parse` is the
//! executable parser, proved to produce exactly `spec_parse` of its input.

use vstd::prelude::*;

use crate::node::{wf_node, NodeKind, SyntaxNode};
use crate::bytes::slice_bytes;
use crate::position::Point;

verus! {

pub const NEWLINE: u8 = 10;
pub const TAB: u8 = 9;
pub const SPACE: u8 = 32;
pub const SEMICOLON: u8 = 59;
pub const STAR: u8 = 42;
pub const BANG: u8 = 33;

/// Blank bytes inside a line: space and tab.
pub open spec fn is_ws(b: u8) -> bool {
    b == SPACE || b == TAB
}

pub open spec fn is_digit(b: u8) -> bool {
    48 <= b && b <= 57
}

/// Bytes a date token is made of: digits and `-` `.` `/` `=`.
pub open spec fn is_date_byte(b: u8) -> bool {
    is_digit(b) || b == 45 || b == 46 || b == 47 || b == 61
}

/// Index of the first newline at or after `i`, or the text length.
pub open spec fn spec_find_nl(text: Seq<u8>, i: int) -> int
    decreases text.len() - i,
{
    if i < 0 || i >= text.len() {
        text.len() as int
    } else if text[i] == NEWLINE {
        i
    } else {
        spec_find_nl(text, i + 1)
    }
}

/// Index of the first non-blank byte of `line` at or after `i`, or the line
/// length.
pub open spec fn spec_skip_ws(line: Seq<u8>, i: int) -> int
    decreases line.len() - i,
{
    if i < 0 || i >= line.len() {
        line.len() as int
    } else if is_ws(line[i]) {
        spec_skip_ws(line, i + 1)
    } else {
        i
    }
}

/// Index of the first byte at or after `i` that no date token contains, or
/// the line length.
pub open spec fn spec_date_end(line: Seq<u8>, i: int) -> int
    decreases line.len() - i,
{
    if i < 0 || i >= line.len() {
        line.len() as int
    } else if is_date_byte(line[i]) {
        spec_date_end(line, i + 1)
    } else {
        i
    }
}

/// Index of the hard separator that ends an account name started at `i`: a
/// tab, or a space directly followed by another space; the line length when
/// no separator follows.
pub open spec fn spec_account_end(line: Seq<u8>, i: int) -> int
    decreases line.len() - i,
{
    if i < 0 || i >= line.len() {
        line.len() as int
    } else if line[i] == TAB {
        i
    } else if line[i] == SPACE && i + 1 < line.len() && line[i + 1] == SPACE {
        i
    } else {
        spec_account_end(line, i + 1)
    }
}

/// The end of `line[a..e]` with trailing blanks removed (but never before
/// `a`).
pub open spec fn spec_trim_end(line: Seq<u8>, a: int, e: int) -> int
    decreases e - a,
{
    if e <= a {
        a
    } else if is_ws(line[e - 1]) {
        spec_trim_end(line, a, e - 1)
    } else {
        e
    }
}

/// A single-line node of `kind` on row `row`, spanning columns `a` to `e` of
/// a line that starts at byte `ls` of the source.
pub open spec fn spec_node_at(kind: NodeKind, row: int, ls: int, a: int, e: int) -> SyntaxNode {
    SyntaxNode {
        kind,
        start_byte: (ls + a) as usize,
        end_byte: (ls + e) as usize,
        start: Point { row: row as usize, column: a as usize },
        end: Point { row: row as usize, column: e as usize },
    }
}

/// Nodes of an indented (posting) line: one account node, unless the line is
/// blank or a comment.
pub open spec fn spec_posting_nodes(line: Seq<u8>, row: int, ls: int) -> Seq<SyntaxNode> {
    let a = spec_skip_ws(line, 0);
    if a >= line.len() || line[a] == SEMICOLON {
        Seq::empty()
    } else {
        let e = spec_trim_end(line, a, spec_account_end(line, a));
        if a < e {
            seq![spec_node_at(NodeKind::Account, row, ls, a, e)]
        } else {
            Seq::empty()
        }
    }
}

/// Nodes of a transaction line: the date node, then the payee node when the
/// payee text is not empty.
pub open spec fn spec_xact_nodes(line: Seq<u8>, row: int, ls: int) -> Seq<SyntaxNode> {
    let d = spec_date_end(line, 0);
    let p0 = spec_skip_ws(line, d);
    let p1 = if p0 < line.len() && (line[p0] == STAR || line[p0] == BANG) {
        spec_skip_ws(line, p0 + 1)
    } else {
        p0
    };
    let pe = spec_trim_end(line, p1, line.len() as int);
    if p1 < pe {
        seq![
            spec_node_at(NodeKind::Other, row, ls, 0, d),
            spec_node_at(NodeKind::Payee, row, ls, p1, pe),
        ]
    } else {
        seq![spec_node_at(NodeKind::Other, row, ls, 0, d)]
    }
}

/// Nodes of one line of the source.
pub open spec fn spec_line_nodes(line: Seq<u8>, row: int, ls: int) -> Seq<SyntaxNode> {
    if line.len() == 0 {
        Seq::empty()
    } else if is_ws(line[0]) {
        spec_posting_nodes(line, row, ls)
    } else if is_digit(line[0]) {
        spec_xact_nodes(line, row, ls)
    } else {
        Seq::empty()
    }
}

/// The byte offsets at which the lines of `text` start, beginning with the
/// line that starts at `i`: each newline opens a further line, so a text
/// that ends with a newline ends with an empty last line.
pub open spec fn spec_starts_from(text: Seq<u8>, i: int) -> Seq<int>
    decreases text.len() - i,
{
    let e = spec_find_nl(text, i);
    if i < 0 || e < i || e >= text.len() {
        seq![i]
    } else {
        seq![i] + spec_starts_from(text, e + 1)
    }
}

/// The bytes of the line that starts at offset `s`: everything up to (and
/// not including) the next newline.
pub open spec fn spec_line_at(text: Seq<u8>, s: int) -> Seq<u8> {
    text.subrange(s, spec_find_nl(text, s))
}

/// All nodes of the first `k` lines, in order.
pub open spec fn spec_nodes_upto(text: Seq<u8>, starts: Seq<int>, k: int) -> Seq<SyntaxNode>
    decreases k,
{
    if k <= 0 {
        Seq::empty()
    } else {
        spec_nodes_upto(text, starts, k - 1) + spec_line_nodes(
            spec_line_at(text, starts[k - 1]),
            k - 1,
            starts[k - 1],
        )
    }
}

/// The root node: the whole document, ending at the last line's end.
pub open spec fn spec_root_node(text: Seq<u8>, starts: Seq<int>) -> SyntaxNode {
    SyntaxNode {
        kind: NodeKind::Other,
        start_byte: 0,
        end_byte: text.len() as usize,
        start: Point { row: 0, column: 0 },
        end: Point {
            row: (starts.len() - 1) as usize,
            column: (text.len() - starts.last()) as usize,
        },
    }
}

/// The grammar: the pre-order node list of `text` — the root node, followed
/// by the nodes of every line, line by line.
pub open spec fn spec_parse(text: Seq<u8>) -> Seq<SyntaxNode> {
    let starts = spec_starts_from(text, 0);
    seq![spec_root_node(text, starts)] + spec_nodes_upto(text, starts, starts.len() as int)
}

fn find_nl(text: &Vec<u8>, from: usize) -> (r: usize)
    requires
        from <= text@.len(),
    ensures
        r == spec_find_nl(text@, from as int),
        from <= r <= text@.len(),
{
    let mut i: usize = from;
    while i < text.len()
        invariant
            from <= i <= text@.len(),
            spec_find_nl(text@, from as int) == spec_find_nl(text@, i as int),
        decreases text@.len() - i,
    {
        if text[i] == NEWLINE {
            return i;
        }
        i += 1;
    }
    i
}

fn skip_ws(line: &Vec<u8>, from: usize) -> (r: usize)
    requires
        from <= line@.len(),
    ensures
        r == spec_skip_ws(line@, from as int),
        from <= r <= line@.len(),
{
    let mut i: usize = from;
    while i < line.len()
        invariant
            from <= i <= line@.len(),
            spec_skip_ws(line@, from as int) == spec_skip_ws(line@, i as int),
        decreases line@.len() - i,
    {
        if !(line[i] == SPACE || line[i] == TAB) {
            return i;
        }
        i += 1;
    }
    i
}

fn date_end(line: &Vec<u8>, from: usize) -> (r: usize)
    requires
        from <= line@.len(),
    ensures
        r == spec_date_end(line@, from as int),
        from <= r <= line@.len(),
{
    let mut i: usize = from;
    while i < line.len()
        invariant
            from <= i <= line@.len(),
            spec_date_end(line@, from as int) == spec_date_end(line@, i as int),
        decreases line@.len() - i,
    {
        let b = line[i];
        if !((48 <= b && b <= 57) || b == 45 || b == 46 || b == 47 || b == 61) {
            return i;
        }
        i += 1;
    }
    i
}

fn account_end(line: &Vec<u8>, from: usize) -> (r: usize)
    requires
        from <= line@.len(),
    ensures
        r == spec_account_end(line@, from as int),
        from <= r <= line@.len(),
{
    let mut i: usize = from;
    while i < line.len()
        invariant
            from <= i <= line@.len(),
            spec_account_end(line@, from as int) == spec_account_end(line@, i as int),
        decreases line@.len() - i,
    {
        if line[i] == TAB {
            return i;
        }
        if line[i] == SPACE && i + 1 < line.len() && line[i + 1] == SPACE {
            return i;
        }
        i += 1;
    }
    i
}

fn trim_end(line: &Vec<u8>, a: usize, e: usize) -> (r: usize)
    requires
        a <= e <= line@.len(),
    ensures
        r == spec_trim_end(line@, a as int, e as int),
        a <= r <= e,
{
    let mut j: usize = e;
    while j > a
        invariant
            a <= j <= e <= line@.len(),
            spec_trim_end(line@, a as int, e as int) == spec_trim_end(line@, a as int, j as int),
        decreases j,
    {
        if !(line[j - 1] == SPACE || line[j - 1] == TAB) {
            return j;
        }
        j -= 1;
    }
    j
}

/// The nodes of one line, `row` rows into the document, whose first byte is
/// byte `ls` of the source.
fn line_nodes(line: &Vec<u8>, row: usize, ls: usize) -> (r: Vec<SyntaxNode>)
    requires
        ls + line@.len() <= usize::MAX,
    ensures
        r@ == spec_line_nodes(line@, row as int, ls as int),
        forall|k: int|
            0 <= k < r@.len() ==> (#[trigger] r@[k]).start_byte <= r@[k].end_byte <= ls
                + line@.len() && r@[k].end.column <= line@.len(),
{
    let n = line.len();
    let mut out: Vec<SyntaxNode> = Vec::new();
    if n == 0 {
        return out;
    }
    let b0 = line[0];
    if b0 == SPACE || b0 == TAB {
        let a = skip_ws(line, 0);
        if a >= n || line[a] == SEMICOLON {
            return out;
        }
        let e0 = account_end(line, a);
        let e = trim_end(line, a, e0);
        if a < e {
            out.push(
                SyntaxNode {
                    kind: NodeKind::Account,
                    start_byte: ls + a,
                    end_byte: ls + e,
                    start: Point { row, column: a },
                    end: Point { row, column: e },
                },
            );
        }
        proof {
            assert(out@ =~= spec_line_nodes(line@, row as int, ls as int));
        }
        out
    } else if 48 <= b0 && b0 <= 57 {
        let d = date_end(line, 0);
        out.push(
            SyntaxNode {
                kind: NodeKind::Other,
                start_byte: ls,
                end_byte: ls + d,
                start: Point { row, column: 0 },
                end: Point { row, column: d },
            },
        );
        let p0 = skip_ws(line, d);
        let p1 = if p0 < n && (line[p0] == STAR || line[p0] == BANG) {
            skip_ws(line, p0 + 1)
        } else {
            p0
        };
        let pe = trim_end(line, p1, n);
        if p1 < pe {
            out.push(
                SyntaxNode {
                    kind: NodeKind::Payee,
                    start_byte: ls + p1,
                    end_byte: ls + pe,
                    start: Point { row, column: p1 },
                    end: Point { row, column: pe },
                },
            );
        }
        proof {
            assert(out@ =~= spec_line_nodes(line@, row as int, ls as int));
        }
        out
    } else {
        proof {
            assert(out@ =~= spec_line_nodes(line@, row as int, ls as int));
        }
        out
    }
}

/// Parse `text` into its pre-order node list. Total and deterministic: every
/// text, the empty one included, has a node list, which is exactly
/// `spec_parse` of the text.
pub fn parse(text: &Vec<u8>) -> (r: Vec<SyntaxNode>)
    requires
        text@.len() < usize::MAX,
    ensures
        r@ == spec_parse(text@),
        forall|k: int| 0 <= k < r@.len() ==> wf_node(#[trigger] r@[k], text@.len()),
{
    let ghost gstarts = spec_starts_from(text@, 0);

    let mut starts: Vec<usize> = Vec::new();
    let mut s: usize = 0;
    loop
        invariant_except_break
            gstarts == starts@.map_values(|x: usize| x as int) + spec_starts_from(
                text@,
                s as int,
            ),
        invariant
            s <= text@.len(),
            forall|k: int| 0 <= k < starts@.len() ==> #[trigger] starts@[k] <= text@.len(),
        ensures
            gstarts == starts@.map_values(|x: usize| x as int),
            starts@.len() >= 1,
            forall|k: int| 0 <= k < starts@.len() ==> #[trigger] starts@[k] <= text@.len(),
        decreases text@.len() - s,
    {
        let e = find_nl(text, s);
        let ghost old_starts = starts@;
        starts.push(s);
        proof {
            assert(starts@.map_values(|x: usize| x as int) =~= old_starts.map_values(
                |x: usize| x as int,
            ).push(s as int));
        }
        if e >= text.len() {
            proof {
                assert(spec_starts_from(text@, s as int) =~= seq![s as int]);
                assert(gstarts =~= starts@.map_values(|x: usize| x as int));
            }
            break;
        }
        s = e + 1;
    }

    let nlines = starts.len();
    let last = starts[nlines - 1];
    proof {
        assert(gstarts[nlines - 1] == last as int);
        assert(gstarts.last() == last as int);
    }
    let mut out: Vec<SyntaxNode> = Vec::new();
    out.push(
        SyntaxNode {
            kind: NodeKind::Other,
            start_byte: 0,
            end_byte: text.len(),
            start: Point { row: 0, column: 0 },
            end: Point { row: nlines - 1, column: text.len() - last },
        },
    );
    proof {
        assert(out@ =~= seq![spec_root_node(text@, gstarts)] + spec_nodes_upto(
            text@,
            gstarts,
            0,
        ));
    }

    let mut j: usize = 0;
    while j < nlines
        invariant
            nlines == starts@.len(),
            gstarts == starts@.map_values(|x: usize| x as int),
            forall|k: int| 0 <= k < starts@.len() ==> #[trigger] starts@[k] <= text@.len(),
            text@.len() < usize::MAX,
            j <= nlines,
            out@ == seq![spec_root_node(text@, gstarts)] + spec_nodes_upto(
                text@,
                gstarts,
                j as int,
            ),
            forall|k: int| 0 <= k < out@.len() ==> wf_node(#[trigger] out@[k], text@.len()),
        decreases nlines - j,
    {
        let ls = starts[j];
        let le = find_nl(text, ls);
        let line = slice_bytes(text, ls, le);
        proof {
            assert(line@ == spec_line_at(text@, gstarts[j as int]));
        }
        let mut ns = line_nodes(&line, j, ls);
        proof {
            assert(forall|k: int|
                0 <= k < ns@.len() ==> wf_node(#[trigger] ns@[k], text@.len()));
            assert(spec_nodes_upto(text@, gstarts, j as int + 1) == spec_nodes_upto(
                text@,
                gstarts,
                j as int,
            ) + ns@);
        }
        out.append(&mut ns);
        j += 1;
    }
    proof {
        assert(out@ == spec_parse(text@));
    }
    out
}

} // verus!
