use vstd::prelude::*;
use crate::line::LineView;

verus! {

/// Why a sequence of lines is no document, or what a document lacks.
/// `line` is the index of the line in the sequence, counted from zero.
pub enum AssemblyFault {
    /// The level of the line is more than one above that of the line before.
    LevelSkip { line: nat },
    /// The first line is not at level zero, so it has no record to stand under.
    OrphanRecord { line: nat },
    /// The line defines an identifier that an earlier line has defined.
    DuplicateXref { line: nat, ref_id: Seq<char> },
    /// The line points to an identifier that no line defines.
    UnresolvedXref { line: nat, target: Seq<char> },
}

/// A line that points to an identifier.
pub struct Edge {
    pub line: nat,
    pub target: Seq<char>,
}

/// Whether one of `lines` defines the identifier `id`.
pub open spec fn defines(lines: Seq<LineView>, id: Seq<char>) -> bool {
    exists|j: int| 0 <= j < lines.len() && (#[trigger] lines[j]).ref_id == Some(id)
}

/// Whether a line at `level` may follow `lines`: the first line must be at
/// level zero, every other at most one level below the line before it. A
/// line may stand any number of levels above the line before it.
pub open spec fn level_fits(lines: Seq<LineView>, level: nat) -> bool {
    if lines.len() == 0 {
        level == 0
    } else {
        level <= lines.last().level + 1
    }
}

/// The fault of a line whose level does not fit behind `lines`: an orphan
/// where it is the first line, else a level skip.
pub open spec fn level_fault(lines: Seq<LineView>) -> AssemblyFault {
    if lines.len() == 0 {
        AssemblyFault::OrphanRecord { line: 0 }
    } else {
        AssemblyFault::LevelSkip { line: lines.len() }
    }
}

/// The fault of the line `next` where it follows `lines`: its level must
/// fit, and it may not define an identifier that one of `lines` defines.
/// The level is judged first.
pub open spec fn next_fault(lines: Seq<LineView>, next: LineView) -> Option<AssemblyFault> {
    if !level_fits(lines, next.level) {
        Some(level_fault(lines))
    } else {
        match next.ref_id {
            Some(id) => if defines(lines, id) {
                Some(AssemblyFault::DuplicateXref { line: lines.len(), ref_id: id })
            } else {
                None
            },
            None => None,
        }
    }
}

/// The fault of line `i` among `lines`, judged by the lines before it.
pub open spec fn fault_at(lines: Seq<LineView>, i: int) -> Option<AssemblyFault> {
    next_fault(lines.take(i), lines[i])
}

/// The fault of the first line of `lines` that has one.
pub open spec fn first_fault(lines: Seq<LineView>) -> Option<AssemblyFault>
    decreases lines.len(),
{
    if lines.len() == 0 {
        None
    } else {
        match first_fault(lines.drop_last()) {
            Some(fault) => Some(fault),
            None => next_fault(lines.drop_last(), lines.last()),
        }
    }
}

/// The lines of `lines` that point to an identifier, in order.
pub open spec fn edges(lines: Seq<LineView>) -> Seq<Edge>
    decreases lines.len(),
{
    if lines.len() == 0 {
        Seq::empty()
    } else {
        let before = edges(lines.drop_last());
        match lines.last().pointer {
            Some(target) => before.push(Edge { line: (lines.len() - 1) as nat, target }),
            None => before,
        }
    }
}

/// Those of `edges` whose target none of `lines` defines, in order, each
/// as the fault that reports it.
pub open spec fn dangling_among(edges: Seq<Edge>, lines: Seq<LineView>) -> Seq<AssemblyFault>
    decreases edges.len(),
{
    if edges.len() == 0 {
        Seq::empty()
    } else {
        let before = dangling_among(edges.drop_last(), lines);
        let edge = edges.last();
        if defines(lines, edge.target) {
            before
        } else {
            before.push(AssemblyFault::UnresolvedXref { line: edge.line, target: edge.target })
        }
    }
}

/// The pointers of `lines` that lead nowhere: one fault for each line that
/// points to an identifier that no line of `lines` defines, before or
/// after it, in the order of the lines.
pub open spec fn dangling(lines: Seq<LineView>) -> Seq<AssemblyFault> {
    dangling_among(edges(lines), lines)
}

/// A further line defines what the lines before it define, and its own
/// identifier.
pub proof fn lemma_defines_push(lines: Seq<LineView>, next: LineView, id: Seq<char>)
    ensures
        defines(lines.push(next), id) <==> (defines(lines, id) || next.ref_id == Some(id)),
{
    let longer = lines.push(next);
    if defines(lines, id) {
        let j = choose|j: int| 0 <= j < lines.len() && (#[trigger] lines[j]).ref_id == Some(id);
        assert(longer[j].ref_id == Some(id));
    }
    if next.ref_id == Some(id) {
        assert(longer[lines.len() as int].ref_id == Some(id));
    }
    if defines(longer, id) {
        let j = choose|j: int| 0 <= j < longer.len() && (#[trigger] longer[j]).ref_id == Some(id);
        if j < lines.len() {
            assert(lines[j].ref_id == Some(id));
        }
    }
}

/// The fault of a line does not depend on the lines after it.
pub proof fn lemma_fault_at_prefix(lines: Seq<LineView>, n: int, i: int)
    requires
        0 <= i < n <= lines.len(),
    ensures
        fault_at(lines.take(n), i) == fault_at(lines, i),
{
    assert(lines.take(n).take(i) =~= lines.take(i));
}

/// Lines are free of faults exactly if no line among them has a fault.
pub proof fn lemma_first_fault_none(lines: Seq<LineView>)
    ensures
        first_fault(lines) is None <==> forall|i: int|
            0 <= i < lines.len() ==> fault_at(lines, i) is None,
    decreases lines.len(),
{
    if lines.len() > 0 {
        let n = lines.len() - 1;
        let before = lines.drop_last();
        lemma_first_fault_none(before);
        assert(lines.take(n) =~= before);
        assert(fault_at(lines, n) == next_fault(before, lines.last()));
        assert forall|i: int| 0 <= i < n implies fault_at(before, i) == fault_at(lines, i) by {
            lemma_fault_at_prefix(lines, n, i);
        }
    }
}

/// The first fault is the fault of a line before which no line has one.
pub proof fn lemma_first_fault_some(lines: Seq<LineView>) -> (at: int)
    requires
        first_fault(lines) is Some,
    ensures
        0 <= at < lines.len(),
        first_fault(lines) == fault_at(lines, at),
        forall|i: int| 0 <= i < at ==> fault_at(lines, i) is None,
    decreases lines.len(),
{
    let n = lines.len() - 1;
    let before = lines.drop_last();
    assert(lines.take(n) =~= before);
    assert forall|i: int| 0 <= i < n implies fault_at(before, i) == fault_at(lines, i) by {
        lemma_fault_at_prefix(lines, n, i);
    }
    if first_fault(before) is Some {
        lemma_first_fault_some(before)
    } else {
        lemma_first_fault_none(before);
        n
    }
}

/// A fault behind lines that are free of faults is the first fault,
/// whatever follows.
pub proof fn lemma_fault_stays_first(lines: Seq<LineView>, i: int)
    requires
        0 <= i < lines.len(),
        first_fault(lines.take(i)) is None,
        fault_at(lines, i) is Some,
    ensures
        first_fault(lines) == fault_at(lines, i),
    decreases lines.len(),
{
    if i == lines.len() - 1 {
        assert(lines.drop_last() =~= lines.take(i));
    } else {
        let before = lines.drop_last();
        assert(before.take(i) =~= lines.take(i));
        lemma_fault_at_prefix(lines, lines.len() - 1, i);
        lemma_fault_stays_first(before, i);
    }
}

/// Whether the levels of `lines` nest: the first line is at level zero, and
/// every other line is at most one level below the line before it.
pub open spec fn nests(lines: Seq<LineView>) -> bool {
    &&& lines.len() > 0 ==> lines[0].level == 0
    &&& forall|i: int| 0 < i < lines.len() ==> (#[trigger] lines[i]).level <= lines[i - 1].level + 1
}

/// Whether no two of `lines` define the same identifier.
pub open spec fn ids_distinct(lines: Seq<LineView>) -> bool {
    forall|i: int, j: int|
        0 <= i < j < lines.len() && (#[trigger] lines[i]).ref_id is Some ==> lines[i].ref_id != (
        #[trigger] lines[j]).ref_id
}

/// Lines whose levels nest are never refused for their levels: neither as
/// a level skip nor as an orphan. If a fault is found among them, it is an
/// identifier that is defined again.
pub proof fn lemma_nesting_lines_fit(lines: Seq<LineView>)
    requires
        nests(lines),
    ensures
        !(first_fault(lines) matches Some(AssemblyFault::LevelSkip { .. })),
        !(first_fault(lines) matches Some(AssemblyFault::OrphanRecord { .. })),
        !(first_fault(lines) matches Some(AssemblyFault::UnresolvedXref { .. })),
{
    if first_fault(lines) is Some {
        let at = lemma_first_fault_some(lines);
        if at > 0 {
            assert(lines.take(at).last() == lines[at - 1]);
            assert(lines[at].level <= lines[at - 1].level + 1);
        }
    }
}

/// Lines are free of faults exactly if their levels nest and no identifier
/// is defined twice.
pub proof fn lemma_faultless_lines(lines: Seq<LineView>)
    ensures
        first_fault(lines) is None <==> nests(lines) && ids_distinct(lines),
{
    lemma_first_fault_none(lines);
    if first_fault(lines) is None {
        assert(lines.len() > 0 ==> fault_at(lines, 0) is None);
        assert forall|i: int| 0 < i < lines.len() implies (#[trigger] lines[i]).level <= lines[i
            - 1].level + 1 by {
            assert(fault_at(lines, i) is None);
            assert(lines.take(i).last() == lines[i - 1]);
        }
        assert forall|i: int, j: int|
            0 <= i < j < lines.len() && (#[trigger] lines[i]).ref_id is Some implies lines[i].ref_id
            != (#[trigger] lines[j]).ref_id by {
            assert(fault_at(lines, j) is None);
            if lines[i].ref_id == lines[j].ref_id {
                assert(lines.take(j)[i].ref_id == lines[j].ref_id);
            }
        }
    }
    if nests(lines) && ids_distinct(lines) {
        assert forall|i: int| 0 <= i < lines.len() implies fault_at(lines, i) is None by {
            if i > 0 {
                assert(lines[i].level <= lines[i - 1].level + 1);
                assert(lines.take(i).last() == lines[i - 1]);
            }
            if lines[i].ref_id is Some && defines(lines.take(i), lines[i].ref_id->0) {
                let j = choose|j: int|
                    0 <= j < lines.take(i).len() && (#[trigger] lines.take(i)[j]).ref_id
                        == lines[i].ref_id;
                assert(lines[j].ref_id != lines[i].ref_id);
            }
        }
    }
}

/// Lines of which two define the same identifier are refused; where their
/// levels nest, the fault is a `DuplicateXref`, found no later than at the
/// second of the two lines.
pub proof fn lemma_duplicate_is_refused(lines: Seq<LineView>, i: int, j: int)
    requires
        0 <= i < j < lines.len(),
        lines[i].ref_id is Some,
        lines[i].ref_id == lines[j].ref_id,
    ensures
        first_fault(lines) is Some,
        nests(lines) ==> (first_fault(lines) matches Some(
            AssemblyFault::DuplicateXref { line, .. },
        ) && line <= j),
{
    lemma_faultless_lines(lines);
    let at = lemma_first_fault_some(lines);
    if nests(lines) {
        lemma_nesting_lines_fit(lines);
        if at > j {
            assert(fault_at(lines, j) is None);
            assert(lines.take(j)[i].ref_id == lines[j].ref_id);
        }
    }
}

/// The lines that point to an identifier are listed as edges, each with its
/// index, and nothing else is.
pub proof fn lemma_edges_member(lines: Seq<LineView>, edge: Edge)
    ensures
        edges(lines).contains(edge) <==> (edge.line < lines.len() && lines[edge.line as int].pointer
            == Some(edge.target)),
    decreases lines.len(),
{
    if lines.len() > 0 {
        let before = lines.drop_last();
        let last = (lines.len() - 1) as nat;
        lemma_edges_member(before, edge);
        if edge.line < last {
            assert(before[edge.line as int] == lines[edge.line as int]);
        }
        match lines.last().pointer {
            Some(target) => {
                let new = Edge { line: last, target };
                let all = edges(before).push(new);
                if edges(before).contains(edge) {
                    let k = choose|k: int| 0 <= k < edges(before).len() && edges(before)[k] == edge;
                    assert(all[k] == edge);
                }
                if edge == new {
                    assert(all[all.len() - 1] == edge);
                }
                if all.contains(edge) {
                    let k = choose|k: int| 0 <= k < all.len() && all[k] == edge;
                    if k < edges(before).len() {
                        assert(edges(before)[k] == edge);
                    }
                }
            },
            None => {},
        }
    }
}

/// Among edges, those are reported whose target no line defines.
pub proof fn lemma_dangling_among_member(
    edges: Seq<Edge>,
    lines: Seq<LineView>,
    line: nat,
    target: Seq<char>,
)
    ensures
        dangling_among(edges, lines).contains(AssemblyFault::UnresolvedXref { line, target }) <==> (
        edges.contains(Edge { line, target }) && !defines(lines, target)),
        forall|k: int|
            0 <= k < dangling_among(edges, lines).len() ==> #[trigger] dangling_among(
                edges,
                lines,
            )[k] is UnresolvedXref,
    decreases edges.len(),
{
    let fault = AssemblyFault::UnresolvedXref { line, target };
    let edge = Edge { line, target };
    if edges.len() > 0 {
        let before = edges.drop_last();
        let last = edges.last();
        lemma_dangling_among_member(before, lines, line, target);
        let found = dangling_among(before, lines);
        if edges.contains(edge) {
            let k = choose|k: int| 0 <= k < edges.len() && edges[k] == edge;
            if k < before.len() {
                assert(before[k] == edge);
            }
        }
        if before.contains(edge) {
            let k = choose|k: int| 0 <= k < before.len() && before[k] == edge;
            assert(edges[k] == edge);
        }
        assert(edges[edges.len() - 1] == last);
        if !defines(lines, last.target) {
            let new = AssemblyFault::UnresolvedXref { line: last.line, target: last.target };
            let all = found.push(new);
            if found.contains(fault) {
                let k = choose|k: int| 0 <= k < found.len() && found[k] == fault;
                assert(all[k] == fault);
            }
            if fault == new {
                assert(all[all.len() - 1] == fault);
            }
            if all.contains(fault) {
                let k = choose|k: int| 0 <= k < all.len() && all[k] == fault;
                if k < found.len() {
                    assert(found[k] == fault);
                }
            }
        }
    }
}

/// The list of dangling pointers holds exactly one kind of fault, and a
/// line is on it exactly if it points to an identifier that no line
/// defines: where the definition stands, before or after the pointer,
/// does not matter.
pub proof fn lemma_dangling_member(lines: Seq<LineView>, line: nat, target: Seq<char>)
    ensures
        dangling(lines).contains(AssemblyFault::UnresolvedXref { line, target }) <==> (line
            < lines.len() && lines[line as int].pointer == Some(target) && !defines(
            lines,
            target,
        )),
        forall|k: int|
            0 <= k < dangling(lines).len() ==> #[trigger] dangling(lines)[k] is UnresolvedXref,
{
    lemma_edges_member(lines, Edge { line, target });
    lemma_dangling_among_member(edges(lines), lines, line, target);
}

} // verus!
