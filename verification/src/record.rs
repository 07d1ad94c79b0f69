use vstd::prelude::*;
use crate::line::Line;
use crate::line::LineView;
use crate::line::opt_text;
use crate::tag::Tag;

verus! {

/// A node of the document: what one line said, and the records of the
/// lines below it, in the order of the text.
#[derive(Debug, PartialEq, Eq)]
pub struct Record {
    /// The keyword of the line.
    pub tag: Tag,
    /// The text that the line carried.
    pub value: Option<String>,
    /// The cross-reference identifier that the line defined.
    pub ref_id: Option<String>,
    /// The cross-reference identifier that the line pointed to.
    pub pointer: Option<String>,
    /// The records one level below this one.
    pub children: Vec<Record>,
}

/// A record as a plain value.
pub struct RecordView {
    pub tag: Seq<char>,
    pub value: Option<Seq<char>>,
    pub ref_id: Option<Seq<char>>,
    pub pointer: Option<Seq<char>>,
    pub children: Seq<RecordView>,
}

impl View for Record {
    type V = RecordView;

    open spec fn view(&self) -> RecordView
        decreases self,
    {
        RecordView {
            tag: self.tag@,
            value: opt_text(self.value),
            ref_id: opt_text(self.ref_id),
            pointer: opt_text(self.pointer),
            children: child_views(self.children@),
        }
    }
}

/// The views of the children of a record, taken one by one from the last
/// to the first.
pub open spec fn child_views(records: Seq<Record>) -> Seq<RecordView>
    decreases records,
{
    if records.len() == 0 {
        Seq::empty()
    } else {
        child_views(records.drop_last()).push(records.last()@)
    }
}

impl Record {
    /// The record of a line, with no children yet.
    pub fn from_line(line: Line) -> (record: Record)
        ensures
            record@.children.len() == 0,
            record@.header(line.level as nat) == line@,
    {
        let record = Record {
            tag: line.tag,
            value: line.value,
            ref_id: line.ref_id,
            pointer: line.pointer,
            children: Vec::new(),
        };
        proof {
            lemma_record_view(record);
        }
        record
    }

    /// Adds `child` behind the children of the record.
    pub fn push_child(&mut self, child: Record)
        ensures
            final(self)@ == old(self)@.with_child(child@),
    {
        let ghost before = self@;
        proof {
            lemma_record_view(*self);
        }
        self.children.push(child);
        proof {
            lemma_record_view(*self);
            assert(self@.children =~= before.children.push(child@));
        }
    }
}

/// `child_views` gives the view of each record at its index, as `views` does.
pub proof fn lemma_child_views(records: Seq<Record>)
    ensures
        child_views(records) == views(records),
    decreases records.len(),
{
    if records.len() > 0 {
        lemma_child_views(records.drop_last());
        assert(child_views(records) == child_views(records.drop_last()).push(records.last()@));
        assert forall|i: int| 0 <= i < records.len() implies child_views(records)[i] == views(
            records,
        )[i] by {
            if i < records.len() - 1 {
                assert(records.drop_last()[i] == records[i]);
            }
        }
    }
    assert(child_views(records) =~= views(records));
}

/// The children of the view of a record are the views of its children.
pub proof fn lemma_record_view(r: Record)
    ensures
        r@.children == views(r.children@),
{
    lemma_child_views(r.children@);
}

/// The views of a sequence of records.
pub open spec fn views(records: Seq<Record>) -> Seq<RecordView> {
    Seq::new(records.len(), |i: int| records[i]@)
}

/// A path through a forest: the index of a root, then the index of one of
/// its children, and so on.
pub open spec fn as_path(steps: Seq<usize>) -> Seq<int> {
    Seq::new(steps.len(), |i: int| steps[i] as int)
}

impl RecordView {
    /// The line that the record was made from, where it stands at `level`.
    pub open spec fn header(self, level: nat) -> LineView {
        LineView {
            level,
            tag: self.tag,
            ref_id: self.ref_id,
            pointer: self.pointer,
            value: self.value,
        }
    }

    /// The record with `child` as a further, last child.
    pub open spec fn with_child(self, child: RecordView) -> RecordView {
        RecordView { children: self.children.push(child), ..self }
    }

    /// The record and all below it, read depth first as lines: the
    /// record's own line at `level`, then its children's lines one level
    /// deeper, child by child.
    pub open spec fn lines(self, level: nat) -> Seq<LineView>
        decreases self, 1nat,
    {
        seq![self.header(level)] + forest_lines(self.children, level + 1)
    }
}

/// The lines of the records of a forest whose roots stand at `level`, tree
/// after tree.
pub open spec fn forest_lines(forest: Seq<RecordView>, level: nat) -> Seq<LineView>
    decreases forest, 0nat,
{
    if forest.len() == 0 {
        Seq::empty()
    } else {
        forest_lines(forest.drop_last(), level) + forest.last().lines(level)
    }
}

/// The record that `path` leads to in `forest`, if it leads to one.
pub open spec fn node_at(forest: Seq<RecordView>, path: Seq<int>) -> Option<RecordView>
    decreases path.len(),
{
    if path.len() == 0 || !(0 <= path[0] < forest.len()) {
        None
    } else if path.len() == 1 {
        Some(forest[path[0]])
    } else {
        node_at(forest[path[0]].children, path.drop_first())
    }
}

/// The forest that results when the records of `open` are closed: each
/// record of `open` becomes the last child of the one before it, and the
/// first becomes the last tree after those of `done`.
pub open spec fn closed(done: Seq<RecordView>, open: Seq<RecordView>) -> Seq<RecordView>
    decreases open.len(),
{
    if open.len() == 0 {
        done
    } else {
        done.push(
            RecordView { children: closed(open[0].children, open.drop_first()), ..open[0] },
        )
    }
}

/// The lines of a chain of open records, the first of which stands at
/// `level`: each record's line and the lines of the children it has so
/// far, then the same of the record below it.
pub open spec fn open_lines(open: Seq<RecordView>, level: nat) -> Seq<LineView>
    decreases open.len(),
{
    if open.len() == 0 {
        Seq::empty()
    } else {
        open[0].lines(level) + open_lines(open.drop_first(), level + 1)
    }
}

/// The path to the place where the next record below the chain `open`
/// will stand: behind the trees of `done`, then behind the children of each
/// open record in turn.
pub open spec fn spine_path(done: Seq<RecordView>, open: Seq<RecordView>) -> Seq<int> {
    Seq::new(
        open.len() + 1,
        |i: int|
            if i == 0 {
                done.len() as int
            } else {
                open[i - 1].children.len() as int
            },
    )
}

/// A tree that is added behind a forest adds its lines behind those of the
/// forest.
pub proof fn lemma_forest_lines_push(forest: Seq<RecordView>, tree: RecordView, level: nat)
    ensures
        forest_lines(forest.push(tree), level) == forest_lines(forest, level) + tree.lines(level),
{
    assert(forest.push(tree).drop_last() =~= forest);
}

/// A record without children reads as its own line.
pub proof fn lemma_leaf_lines(leaf: RecordView, level: nat)
    requires
        leaf.children.len() == 0,
    ensures
        leaf.lines(level) == seq![leaf.header(level)],
{
    assert(forest_lines(leaf.children, level + 1) =~= Seq::<LineView>::empty());
    assert(leaf.lines(level) =~= seq![leaf.header(level)]);
}

/// Closing a chain of open records does not change what is read: the lines
/// of the closed forest are the lines of the trees that were done, then
/// those of the chain.
pub proof fn lemma_closed_lines(done: Seq<RecordView>, open: Seq<RecordView>, level: nat)
    ensures
        forest_lines(closed(done, open), level) == forest_lines(done, level) + open_lines(
            open,
            level,
        ),
    decreases open.len(),
{
    if open.len() == 0 {
        assert(forest_lines(done, level) + open_lines(open, level) =~= forest_lines(done, level));
    } else {
        let first = open[0];
        let rest = open.drop_first();
        let tree = RecordView { children: closed(first.children, rest), ..first };
        lemma_closed_lines(first.children, rest, level + 1);
        lemma_forest_lines_push(done, tree, level);
        assert(tree.lines(level) =~= first.lines(level) + open_lines(rest, level + 1));
        assert(forest_lines(closed(done, open), level) =~= forest_lines(done, level) + open_lines(
            open,
            level,
        ));
    }
}

/// A record that is opened below a chain adds its lines behind those of
/// the chain.
pub proof fn lemma_open_lines_push(open: Seq<RecordView>, next: RecordView, level: nat)
    ensures
        open_lines(open.push(next), level) == open_lines(open, level) + next.lines(
            level + open.len(),
        ),
    decreases open.len(),
{
    if open.len() == 0 {
        assert(open.push(next).drop_first() =~= Seq::<RecordView>::empty());
        assert(open_lines(Seq::<RecordView>::empty(), level + 1) =~= Seq::<LineView>::empty());
        assert(open.push(next)[0] == next);
        assert(open_lines(open.push(next), level) =~= next.lines(level));
        assert(open_lines(open, level) + next.lines(level) =~= next.lines(level));
    } else {
        lemma_open_lines_push(open.drop_first(), next, level + 1);
        assert(open.push(next).drop_first() =~= open.drop_first().push(next));
        assert(open_lines(open.push(next), level) =~= open_lines(open, level) + next.lines(
            level + open.len(),
        ));
    }
}

/// Closing the last record of a chain into the one before it leaves the
/// closed forest as it is.
pub proof fn lemma_closed_fold(done: Seq<RecordView>, open: Seq<RecordView>)
    requires
        open.len() >= 2,
    ensures
        closed(done, open) == closed(
            done,
            open.take(open.len() - 2).push(open[open.len() - 2].with_child(open.last())),
        ),
    decreases open.len(),
{
    let n = open.len() as int;
    let parent = open[n - 2];
    let child = open[n - 1];
    let folded = open.take(n - 2).push(parent.with_child(child));
    if n == 2 {
        assert(open.drop_first().drop_first() =~= Seq::<RecordView>::empty());
        assert(folded.drop_first() =~= Seq::<RecordView>::empty());
        assert(closed(child.children, open.drop_first().drop_first()) == child.children);
        assert(closed(parent.children, open.drop_first()) =~= parent.children.push(child));
        assert(closed(parent.with_child(child).children, folded.drop_first())
            == parent.children.push(child));
    } else {
        let rest = open.drop_first();
        lemma_closed_fold(open[0].children, rest);
        assert(rest.take(rest.len() - 2).push(rest[rest.len() - 2].with_child(rest.last()))
            =~= folded.drop_first());
        assert(folded[0] == open[0]);
    }
}

/// Closing the only record of a chain makes it the last of the trees.
pub proof fn lemma_closed_single(done: Seq<RecordView>, only: RecordView)
    ensures
        closed(done, seq![only]) == closed(done.push(only), Seq::empty()),
{
    assert(seq![only].drop_first() =~= Seq::<RecordView>::empty());
    assert(closed(only.children, Seq::<RecordView>::empty()) == only.children);
    assert(seq![only][0] == only);
}

/// Opening a further record below a chain keeps every record of the
/// closed forest in its place, with the line it was made from.
pub proof fn lemma_open_keeps_nodes(
    done: Seq<RecordView>,
    open: Seq<RecordView>,
    next: RecordView,
    path: Seq<int>,
)
    requires
        node_at(closed(done, open), path) is Some,
    ensures
        node_at(closed(done, open.push(next)), path) is Some,
        forall|level: nat|
            node_at(closed(done, open.push(next)), path)->0.header(level) == node_at(
                closed(done, open),
                path,
            )->0.header(level),
    decreases open.len(),
{
    let before = closed(done, open);
    let after = closed(done, open.push(next));
    if open.len() == 0 {
        assert(open.push(next).drop_first() =~= Seq::<RecordView>::empty());
        assert(after[path[0]] == before[path[0]]);
    } else {
        assert(open.push(next).drop_first() =~= open.drop_first().push(next));
        if path[0] < done.len() {
            assert(after[path[0]] == before[path[0]]);
        } else if path.len() > 1 {
            lemma_open_keeps_nodes(open[0].children, open.drop_first(), next, path.drop_first());
        }
    }
}

/// A record that is opened below a chain stands where the spine path of
/// the chain leads.
pub proof fn lemma_spine_leads_to_next(
    done: Seq<RecordView>,
    open: Seq<RecordView>,
    next: RecordView,
)
    ensures
        node_at(closed(done, open.push(next)), spine_path(done, open)) == Some(next),
    decreases open.len(),
{
    let path = spine_path(done, open);
    if open.len() == 0 {
        assert(open.push(next).drop_first() =~= Seq::<RecordView>::empty());
        assert(closed(next.children, Seq::<RecordView>::empty()) == next.children);
    } else {
        assert(open.push(next).drop_first() =~= open.drop_first().push(next));
        assert(path.drop_first() =~= spine_path(open[0].children, open.drop_first()));
        lemma_spine_leads_to_next(open[0].children, open.drop_first(), next);
    }
}

/// The index, among the lines of `forest`, of the line of the record that
/// `path` leads to: the lines of the trees before it come first, then, on
/// the way down, the line of each record above it and the lines of the
/// children before it.
pub open spec fn offset_of(forest: Seq<RecordView>, path: Seq<int>, level: nat) -> nat
    decreases path.len(),
{
    if path.len() == 0 || !(0 <= path[0] < forest.len()) {
        0
    } else {
        let before = forest_lines(forest.take(path[0]), level).len();
        if path.len() == 1 {
            before
        } else {
            before + 1 + offset_of(forest[path[0]].children, path.drop_first(), level + 1)
        }
    }
}

/// The lines of the first `k` trees of a forest are the first lines of the
/// forest.
pub proof fn lemma_first_trees_first_lines(forest: Seq<RecordView>, k: int, level: nat)
    requires
        0 <= k <= forest.len(),
    ensures
        forest_lines(forest.take(k), level).len() <= forest_lines(forest, level).len(),
        forest_lines(forest, level).subrange(0, forest_lines(forest.take(k), level).len() as int)
            == forest_lines(forest.take(k), level),
    decreases forest.len(),
{
    let whole = forest_lines(forest, level);
    if k == forest.len() {
        assert(forest.take(k) =~= forest);
        assert(whole.subrange(0, whole.len() as int) =~= whole);
    } else {
        let shorter = forest.drop_last();
        lemma_first_trees_first_lines(shorter, k, level);
        assert(shorter.take(k) =~= forest.take(k));
        let part = forest_lines(forest.take(k), level);
        assert(whole.subrange(0, part.len() as int) =~= forest_lines(shorter, level).subrange(
            0,
            part.len() as int,
        ));
    }
}

/// A record of a forest, with all below it, reads as a block of the
/// lines of the forest: the block that starts at the record's own line.
pub proof fn lemma_node_is_block(forest: Seq<RecordView>, path: Seq<int>, level: nat)
    requires
        node_at(forest, path) is Some,
    ensures
        ({
            let whole = forest_lines(forest, level);
            let block = node_at(forest, path)->0.lines((level + path.len() - 1) as nat);
            let start = offset_of(forest, path, level) as int;
            &&& start + block.len() <= whole.len()
            &&& whole.subrange(start, start + block.len()) == block
            &&& whole[start] == node_at(forest, path)->0.header((level + path.len() - 1) as nat)
        }),
    decreases path.len(),
{
    let k = path[0];
    let whole = forest_lines(forest, level);
    let before = forest_lines(forest.take(k), level);
    let tree = forest[k].lines(level);
    lemma_first_trees_first_lines(forest, k, level);
    lemma_first_trees_first_lines(forest, k + 1, level);
    assert(forest.take(k + 1) =~= forest.take(k).push(forest[k]));
    lemma_forest_lines_push(forest.take(k), forest[k], level);
    assert(whole.subrange(before.len() as int, (before.len() + tree.len()) as int) =~= tree) by {
        let upto = forest_lines(forest.take(k + 1), level);
        assert(upto == before + tree);
        assert(whole.subrange(0, upto.len() as int) == upto);
        assert forall|i: int| 0 <= i < tree.len() implies whole[before.len() + i] == tree[i] by {
            assert(whole.subrange(0, upto.len() as int)[before.len() + i] == upto[before.len()
                + i]);
        }
    }
    assert(tree[0] == forest[k].header(level));
    if path.len() > 1 {
        let below = forest_lines(forest[k].children, level + 1);
        lemma_node_is_block(forest[k].children, path.drop_first(), level + 1);
        let block = node_at(forest, path)->0.lines((level + path.len() - 1) as nat);
        let inner = offset_of(forest[k].children, path.drop_first(), level + 1) as int;
        let start = offset_of(forest, path, level) as int;
        assert(start == before.len() + 1 + inner);
        assert(tree =~= seq![forest[k].header(level)] + below);
        assert forall|i: int| 0 <= i < block.len() implies whole[start + i] == block[i] by {
            assert(below.subrange(inner, inner + block.len())[i] == below[inner + i]);
            assert(tree[1 + inner + i] == below[inner + i]);
            assert(whole.subrange(before.len() as int, (before.len() + tree.len()) as int)[1 + inner + i]
                == whole[before.len() + 1 + inner + i]);
        }
        assert(whole.subrange(start, start + block.len()) =~= block);
        assert(block.len() > 0);
        assert(block[0] == node_at(forest, path)->0.header((level + path.len() - 1) as nat));
    } else {
        assert(whole[before.len() as int] == whole.subrange(
            before.len() as int,
            (before.len() + tree.len()) as int,
        )[0]);
    }
}

/// The lines of a forest whose roots stand at `level` are at that level or
/// deeper.
pub proof fn lemma_forest_lines_levels(forest: Seq<RecordView>, level: nat)
    ensures
        forall|i: int|
            0 <= i < forest_lines(forest, level).len() ==> (#[trigger] forest_lines(
                forest,
                level,
            )[i]).level >= level,
    decreases forest,
{
    if forest.len() > 0 {
        let last = forest.last();
        lemma_forest_lines_levels(forest.drop_last(), level);
        lemma_forest_lines_levels(last.children, level + 1);
        assert forall|i: int| 0 <= i < forest_lines(forest, level).len() implies (
        #[trigger] forest_lines(forest, level)[i]).level >= level by {
            let before = forest_lines(forest.drop_last(), level);
            if i >= before.len() {
                let k = i - before.len();
                assert(forest_lines(forest, level)[i] == last.lines(level)[k]);
                if k > 0 {
                    assert(last.lines(level)[k] == forest_lines(last.children, level + 1)[k - 1]);
                }
            }
        }
    }
}

/// A forest is determined by its lines: two forests that read as the same
/// lines are the same forest.
pub proof fn lemma_lines_decide_forest(
    first: Seq<RecordView>,
    second: Seq<RecordView>,
    level: nat,
)
    requires
        forest_lines(first, level) == forest_lines(second, level),
    ensures
        first == second,
    decreases forest_lines(first, level).len(),
{
    let lines = forest_lines(first, level);
    if first.len() == 0 || second.len() == 0 {
        if first.len() > 0 {
            assert(first.last().lines(level).len() > 0);
        }
        if second.len() > 0 {
            assert(second.last().lines(level).len() > 0);
        }
        assert(first =~= second);
    } else {
        let r1 = first.last();
        let r2 = second.last();
        let a1 = forest_lines(first.drop_last(), level);
        let a2 = forest_lines(second.drop_last(), level);
        let c1 = forest_lines(r1.children, level + 1);
        let c2 = forest_lines(r2.children, level + 1);
        lemma_forest_lines_levels(r1.children, level + 1);
        lemma_forest_lines_levels(r2.children, level + 1);
        assert(forest_lines(first, level) == a1 + r1.lines(level));
        assert(forest_lines(second, level) == a2 + r2.lines(level));
        assert(r1.lines(level) == seq![r1.header(level)] + c1);
        assert(r2.lines(level) == seq![r2.header(level)] + c2);
        assert(lines =~= a1 + seq![r1.header(level)] + c1);
        assert(lines =~= a2 + seq![r2.header(level)] + c2);
        assert(lines[a1.len() as int] == r1.header(level));
        assert(lines[a2.len() as int] == r2.header(level));
        if c1.len() < c2.len() {
            assert(lines[a1.len() as int] == c2[a1.len() - a2.len() - 1]);
        }
        if c2.len() < c1.len() {
            assert(lines[a2.len() as int] == c1[a2.len() - a1.len() - 1]);
        }
        assert(a1 =~= a2) by {
            assert forall|i: int| 0 <= i < a1.len() implies a1[i] == a2[i] by {
                assert(lines[i] == a1[i]);
                assert(lines[i] == a2[i]);
            }
        }
        assert(c1 =~= c2) by {
            assert forall|i: int| 0 <= i < c1.len() implies c1[i] == c2[i] by {
                assert(lines[a1.len() + 1 + i] == c1[i]);
                assert(lines[a2.len() + 1 + i] == c2[i]);
            }
        }
        lemma_lines_decide_forest(first.drop_last(), second.drop_last(), level);
        lemma_lines_decide_forest(r1.children, r2.children, level + 1);
        assert(r1 == r2);
        assert(first =~= first.drop_last().push(r1));
        assert(second =~= second.drop_last().push(r2));
    }
}

} // verus!
