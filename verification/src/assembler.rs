use vstd::prelude::*;
use vstd::hash_map::StringHashMap;
use crate::document::Document;
use crate::line::Line;
use crate::line::LineView;
use crate::record::Record;
use crate::record::RecordView;
use crate::record::as_path;
use crate::record::closed;
use crate::record::forest_lines;
use crate::record::lemma_closed_fold;
use crate::record::lemma_closed_lines;
use crate::record::lemma_closed_single;
use crate::record::lemma_leaf_lines;
use crate::record::lemma_open_keeps_nodes;
use crate::record::lemma_open_lines_push;
use crate::record::lemma_record_view;
use crate::record::lemma_spine_leads_to_next;
use crate::record::node_at;
use crate::record::spine_path;
use crate::record::views;
use crate::rules::AssemblyFault;
use crate::rules::Edge;
use crate::rules::dangling_among;
use crate::rules::defines;
use crate::rules::edges;
use crate::rules::lemma_fault_at_prefix;
use crate::rules::lemma_fault_stays_first;
use crate::rules::level_fault;
use crate::rules::level_fits;
use crate::rules::next_fault;
use crate::rules::first_fault;
use crate::rules::lemma_defines_push;

verus! {

/// Why lines could not be assembled, or what the document lacks. `line` is
/// the index of the line among those given, counted from zero.
#[derive(Debug, Clone, PartialEq, Eq)]
pub enum AssemblyError {
    /// The level of the line is more than one above that of the line before.
    LevelSkip { line: usize },
    /// The first line is not at level zero, so it has no record to stand under.
    OrphanRecord { line: usize },
    /// The line defines an identifier that an earlier line has defined.
    DuplicateXref { line: usize, ref_id: String },
    /// The line points to an identifier that no line defines.
    UnresolvedXref { line: usize, target: String },
}

impl View for AssemblyError {
    type V = AssemblyFault;

    open spec fn view(&self) -> AssemblyFault {
        match self {
            AssemblyError::LevelSkip { line } => AssemblyFault::LevelSkip { line: *line as nat },
            AssemblyError::OrphanRecord { line } => AssemblyFault::OrphanRecord {
                line: *line as nat,
            },
            AssemblyError::DuplicateXref { line, ref_id } => AssemblyFault::DuplicateXref {
                line: *line as nat,
                ref_id: ref_id@,
            },
            AssemblyError::UnresolvedXref { line, target } => AssemblyFault::UnresolvedXref {
                line: *line as nat,
                target: target@,
            },
        }
    }
}

/// The views of a sequence of lines.
pub open spec fn line_views(lines: Seq<Line>) -> Seq<LineView> {
    Seq::new(lines.len(), |i: int| lines[i]@)
}

/// The views of a sequence of errors.
pub open spec fn fault_views(errors: Seq<AssemblyError>) -> Seq<AssemblyFault> {
    Seq::new(errors.len(), |i: int| errors[i]@)
}

/// A line that points to an identifier, held until all lines are read.
struct PendingEdge {
    line: usize,
    target: String,
}

impl View for PendingEdge {
    type V = Edge;

    closed spec fn view(&self) -> Edge {
        Edge { line: self.line as nat, target: self.target@ }
    }
}

/// The views of a sequence of pending edges.
spec fn edge_views(pending: Seq<PendingEdge>) -> Seq<Edge> {
    Seq::new(pending.len(), |i: int| pending[i]@)
}

/// Builds a document from lines that are given one by one.
///
/// The records of the lines taken so far form a forest. The assembler keeps
/// the last record and its ancestors open, one for each level, so that the
/// next line finds the record it belongs under at the end of that chain.
pub struct Assembler {
    roots: Vec<Record>,
    open: Vec<Record>,
    xrefs: StringHashMap<Vec<usize>>,
    pending: Vec<PendingEdge>,
    count: usize,
}

impl Assembler {
    /// The forest of the lines taken so far, with the open records closed.
    pub closed spec fn forest(&self) -> Seq<RecordView> {
        closed(views(self.roots@), views(self.open@))
    }

    /// The lines taken so far.
    pub closed spec fn lines(&self) -> Seq<LineView> {
        forest_lines(self.forest(), 0)
    }

    /// What holds whatever the chain of open records looks like.
    spec fn tables_wf(&self) -> bool {
        &&& self.count == self.lines().len()
        &&& first_fault(self.lines()) is None
        &&& forall|id: Seq<char>| #[trigger]
            self.xrefs@.contains_key(id) <==> defines(self.lines(), id)
        &&& forall|id: Seq<char>| #[trigger]
            self.xrefs@.contains_key(id) ==> {
                &&& node_at(self.forest(), as_path(self.xrefs@[id]@)) is Some
                &&& node_at(self.forest(), as_path(self.xrefs@[id]@))->0.ref_id == Some(id)
            }
        &&& edge_views(self.pending@) == edges(self.lines())
    }

    /// The assembler holds the forest of lines that are free of faults,
    /// knows where each identifier is defined, and has one open record for
    /// each level up to that of the last line.
    pub closed spec fn wf(&self) -> bool {
        &&& self.tables_wf()
        &&& self.open.len() == (if self.lines().len() == 0 {
            0
        } else {
            self.lines().last().level + 1
        })
    }

    /// An assembler that has taken no line.
    pub fn new() -> (a: Self)
        ensures
            a.wf(),
            a.lines() == Seq::<LineView>::empty(),
    {
        let a = Assembler {
            roots: Vec::new(),
            open: Vec::new(),
            xrefs: StringHashMap::new(),
            pending: Vec::new(),
            count: 0,
        };
        proof {
            assert(views(a.roots@) =~= Seq::<RecordView>::empty());
            assert(views(a.open@) =~= Seq::<RecordView>::empty());
            assert(a.forest() =~= Seq::<RecordView>::empty());
            assert(a.lines() =~= Seq::<LineView>::empty());
            assert(edge_views(a.pending@) =~= edges(a.lines()));
            assert forall|id: Seq<char>| !defines(a.lines(), id) by {}
        }
        a
    }

    /// The number of lines taken so far.
    pub fn len(&self) -> (n: usize)
        requires
            self.wf(),
        ensures
            n == self.lines().len(),
    {
        self.count
    }

    /// Closes the last open record: it becomes the last child of the open
    /// record above it, or the last root where it is the only one.
    fn close_last(&mut self)
        requires
            old(self).open.len() > 0,
        ensures
            final(self).open.len() == old(self).open.len() - 1,
            final(self).forest() == old(self).forest(),
            final(self).xrefs == old(self).xrefs,
            final(self).pending == old(self).pending,
            final(self).count == old(self).count,
    {
        let ghost before = views(self.open@);
        let ghost done = views(self.roots@);
        let child = self.open.pop().unwrap();
        match self.open.pop() {
            Some(parent) => {
                let mut parent = parent;
                parent.push_child(child);
                self.open.push(parent);
                proof {
                    lemma_closed_fold(done, before);
                    let n = before.len() as int;
                    assert(views(self.open@) =~= before.take(n - 2).push(
                        before[n - 2].with_child(before[n - 1]),
                    ));
                    assert(views(self.roots@) =~= done);
                }
            },
            None => {
                self.roots.push(child);
                proof {
                    lemma_closed_single(done, child@);
                    assert(before =~= seq![child@]);
                    assert(views(self.roots@) =~= done.push(child@));
                    assert(views(self.open@) =~= Seq::<RecordView>::empty());
                }
            },
        }
    }

    /// Closes open records until `depth` of them are left.
    fn close_to(&mut self, depth: usize)
        requires
            depth <= old(self).open.len(),
        ensures
            final(self).open.len() == depth,
            final(self).forest() == old(self).forest(),
            final(self).xrefs == old(self).xrefs,
            final(self).pending == old(self).pending,
            final(self).count == old(self).count,
    {
        while self.open.len() > depth
            invariant
                depth <= self.open.len(),
                self.forest() == old(self).forest(),
                self.xrefs == old(self).xrefs,
                self.pending == old(self).pending,
                self.count == old(self).count,
            decreases self.open.len(),
        {
            self.close_last();
        }
    }

    /// The path to the place of the next record below the open chain.
    fn spine(&self) -> (path: Vec<usize>)
        ensures
            as_path(path@) == spine_path(views(self.roots@), views(self.open@)),
    {
        let mut path: Vec<usize> = Vec::new();
        path.push(self.roots.len());
        let mut k: usize = 0;
        while k < self.open.len()
            invariant
                k <= self.open.len(),
                path@.len() == k + 1,
                path@[0] == self.roots.len(),
                forall|i: int| 1 <= i <= k ==> path@[i] == self.open@[i - 1].children@.len(),
            decreases self.open.len() - k,
        {
            path.push(self.open[k].children.len());
            k = k + 1;
        }
        proof {
            let chain = views(self.open@);
            assert forall|i: int| 0 <= i < chain.len() implies chain[i].children.len()
                == self.open@[i].children@.len() by {
                lemma_record_view(self.open@[i]);
            }
            assert(as_path(path@) =~= spine_path(views(self.roots@), chain));
        }
        path
    }

    /// Judges whether a line at `level` may follow the lines taken so far:
    /// the first line must be at level zero, every other at most one level
    /// below the line before it.
    pub fn check_level(&self, level: u8) -> (r: Result<(), AssemblyError>)
        requires
            self.wf(),
        ensures
            match r {
                Ok(()) => level_fits(self.lines(), level as nat),
                Err(e) => !level_fits(self.lines(), level as nat) && e@ == level_fault(
                    self.lines(),
                ),
            },
    {
        if level as usize > self.open.len() {
            if self.count == 0 {
                Err(AssemblyError::OrphanRecord { line: self.count })
            } else {
                Err(AssemblyError::LevelSkip { line: self.count })
            }
        } else {
            Ok(())
        }
    }

    /// Takes the next line. A line that is at fault is refused, and the
    /// assembler stays as it was.
    pub fn feed(&mut self, line: Line) -> (r: Result<(), AssemblyError>)
        requires
            old(self).wf(),
            old(self).lines().len() < usize::MAX,
        ensures
            final(self).wf(),
            match next_fault(old(self).lines(), line@) {
                None => r is Ok && final(self).lines() == old(self).lines().push(line@),
                Some(fault) => r is Err && r->Err_0@ == fault && final(self).lines() == old(
                    self,
                ).lines(),
            },
    {
        let ghost before = self.lines();
        let ghost after = before.push(line@);
        match self.check_level(line.level) {
            Err(e) => {
                return Err(e);
            },
            Ok(()) => {},
        }
        match &line.ref_id {
            Some(id) => {
                if self.xrefs.contains_key(id.as_str()) {
                    return Err(
                        AssemblyError::DuplicateXref { line: self.count, ref_id: id.clone() },
                    );
                }
            },
            None => {},
        }
        let depth = line.level as usize;
        self.close_to(depth);
        let ghost done = views(self.roots@);
        let ghost chain = views(self.open@);
        let ghost old_xrefs = self.xrefs@;
        match &line.ref_id {
            Some(id) => {
                let path = self.spine();
                self.xrefs.insert(id.clone(), path);
            },
            None => {},
        }
        match &line.pointer {
            Some(target) => {
                self.pending.push(PendingEdge { line: self.count, target: target.clone() });
            },
            None => {},
        }
        let record = Record::from_line(line);
        let ghost leaf = record@;
        self.open.push(record);
        self.count = self.count + 1;
        proof {
            assert(views(self.open@) =~= chain.push(leaf));
            assert(views(self.roots@) =~= done);
            lemma_closed_lines(done, chain, 0);
            lemma_closed_lines(done, chain.push(leaf), 0);
            lemma_open_lines_push(chain, leaf, 0);
            lemma_leaf_lines(leaf, depth as nat);
            assert(leaf.header(depth as nat) == line@);
            assert(self.lines() =~= after);
            assert(after.drop_last() =~= before);
            assert(edge_views(self.pending@) =~= edges(after));
            assert forall|id: Seq<char>| #[trigger]
                self.xrefs@.contains_key(id) <==> defines(after, id) by {
                lemma_defines_push(before, line@, id);
            }
            lemma_spine_leads_to_next(done, chain, leaf);
            assert forall|id: Seq<char>| #[trigger] self.xrefs@.contains_key(id) implies {
                &&& node_at(self.forest(), as_path(self.xrefs@[id]@)) is Some
                &&& node_at(self.forest(), as_path(self.xrefs@[id]@))->0.ref_id == Some(id)
            } by {
                if line@.ref_id == Some(id) {
                } else {
                    assert(old_xrefs.contains_key(id));
                    lemma_open_keeps_nodes(done, chain, leaf, as_path(old_xrefs[id]@));
                    let kept = node_at(self.forest(), as_path(old_xrefs[id]@))->0;
                    let was = node_at(closed(done, chain), as_path(old_xrefs[id]@))->0;
                    assert(kept.header(0) == was.header(0));
                }
            }
        }
        Ok(())
    }

    /// Closes all open records and resolves the pointers: the document of
    /// the lines taken, with the list of the pointers that lead nowhere.
    pub fn finish(self) -> (doc: Document)
        requires
            self.wf(),
        ensures
            doc.wf(),
            doc.forest() == self.forest(),
            doc.lines() == self.lines(),
    {
        let mut this = self;
        this.close_to(0);
        proof {
            assert(views(this.open@) =~= Seq::<RecordView>::empty());
        }
        let ghost lines = this.lines();
        let mut unresolved: Vec<AssemblyError> = Vec::new();
        let mut i: usize = 0;
        while i < this.pending.len()
            invariant
                i <= this.pending.len(),
                lines == this.lines(),
                forall|id: Seq<char>| #[trigger]
                    this.xrefs@.contains_key(id) <==> defines(lines, id),
                fault_views(unresolved@) == dangling_among(
                    edge_views(this.pending@).take(i as int),
                    lines,
                ),
            decreases this.pending.len() - i,
        {
            let ghost seen = edge_views(this.pending@).take(i as int);
            let ghost next = edge_views(this.pending@).take(i + 1);
            proof {
                assert(next.drop_last() =~= seen);
                assert(next.last() == this.pending@[i as int]@);
            }
            if !this.xrefs.contains_key(this.pending[i].target.as_str()) {
                unresolved.push(
                    AssemblyError::UnresolvedXref {
                        line: this.pending[i].line,
                        target: this.pending[i].target.clone(),
                    },
                );
            }
            proof {
                assert(fault_views(unresolved@) =~= dangling_among(next, lines));
            }
            i = i + 1;
        }
        proof {
            assert(edge_views(this.pending@).take(i as int) =~= edge_views(this.pending@));
        }
        Document::from_parts(this.roots, this.xrefs, unresolved)
    }

    /// Assembles `lines` into a document. The lines must nest, and none may
    /// define an identifier again: the first line at fault is reported, and
    /// there is no document. Pointers that lead nowhere do not prevent the
    /// document: it lists them.
    pub fn parse(lines: Vec<Line>) -> (r: Result<Document, AssemblyError>)
        ensures
            match r {
                Ok(doc) => {
                    &&& first_fault(line_views(lines@)) is None
                    &&& doc.wf()
                    &&& doc.lines() == line_views(lines@)
                },
                Err(e) => first_fault(line_views(lines@)) == Some(e@),
            },
    {
        let ghost all = line_views(lines@);
        let mut assembler = Assembler::new();
        let total = lines.len();
        for line in it: lines
            invariant
                it.seq() == lines@,
                lines@.len() == total,
                assembler.wf(),
                assembler.lines() == all.take(it.index() as int),
                all == line_views(lines@),
        {
            let ghost i = it.index() as int;
            proof {
                assert(all.take(i + 1) =~= all.take(i).push(line@));
                assert(all.take(i + 1).drop_last() =~= all.take(i));
                assert(all.take(i) =~= all.take(i + 1).drop_last());
            }
            match assembler.feed(line) {
                Ok(()) => {},
                Err(e) => {
                    proof {
                        lemma_fault_stays_first(all, i);
                    }
                    return Err(e);
                },
            }
        }
        proof {
            assert(all.take(lines@.len() as int) =~= all);
        }
        Ok(assembler.finish())
    }
}

} // verus!
