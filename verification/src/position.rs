//! Cursor positions, node points, and the two containment tests used by the
//! symbol index, the position classifier, and the rename planner.

use vstd::prelude::*;

verus! {

/// A zero-based cursor position supplied by the caller: a line and a column
/// within that line. It is not necessarily inside any node.
#[derive(Clone, Copy, Debug, PartialEq, Eq, Structural)]
pub struct Position {
    pub line: u32,
    pub character: u32,
}

/// A zero-based point in the source as the parser reports it: a row and a
/// byte column within that row.
#[derive(Clone, Copy, Debug, PartialEq, Eq, Structural)]
pub struct Point {
    pub row: usize,
    pub column: usize,
}

/// A contiguous span of the document between two points, as rename ranges
/// are reported.
#[derive(Clone, Copy, Debug, PartialEq, Eq, Structural)]
pub struct TextRange {
    pub start: Point,
    pub end: Point,
}

/// The permissive containment test shared by the symbol index and the
/// position classifier: the position's line must lie within the node's row
/// bounds and its column within the node's column bounds, as two independent
/// interval tests with inclusive ends.
///
/// This is deliberately not an ordered two-dimensional range check: on a
/// multi-line node a position whose line and column each fall inside the
/// respective interval counts as contained even when it lies outside the
/// true span. Completion exclusion depends on this exact test, so it must
/// not be tightened.
pub open spec fn spec_in_range(pos: Position, start: Point, end: Point) -> bool {
    &&& pos.line as nat >= start.row
    &&& pos.character as nat >= start.column
    &&& pos.line as nat <= end.row
    &&& pos.character as nat <= end.column
}

/// Executable form of the permissive containment test.
pub fn in_range(pos: Position, start: Point, end: Point) -> (r: bool)
    ensures
        r == spec_in_range(pos, start, end),
{
    pos.line as usize >= start.row && pos.character as usize >= start.column
        && pos.line as usize <= end.row && pos.character as usize <= end.column
}

/// Ordering of points: `a` is at or before `b`, rows first, columns within a
/// row.
pub open spec fn spec_point_le(a: Point, b: Point) -> bool {
    a.row < b.row || (a.row == b.row && a.column <= b.column)
}

/// A cursor position read as a point.
pub open spec fn spec_pos_point(pos: Position) -> Point {
    Point { row: pos.line as usize, column: pos.character as usize }
}

/// The strict containment test used by the rename planner to resolve the
/// node under the cursor: the position, read as a point, lies between the
/// node's start and end points in document order (both ends inclusive).
pub open spec fn spec_point_in_span(pos: Position, start: Point, end: Point) -> bool {
    spec_point_le(start, spec_pos_point(pos)) && spec_point_le(spec_pos_point(pos), end)
}

/// Executable form of the strict containment test.
pub fn point_in_span(pos: Position, start: Point, end: Point) -> (r: bool)
    ensures
        r == spec_point_in_span(pos, start, end),
{
    let p = Point { row: pos.line as usize, column: pos.character as usize };
    let after_start = start.row < p.row || (start.row == p.row && start.column <= p.column);
    let before_end = p.row < end.row || (p.row == end.row && p.column <= end.column);
    after_start && before_end
}

} // verus!
