use vstd::prelude::*;
use vstd::hash_map::StringHashMap;
use crate::assembler::AssemblyError;
use crate::assembler::fault_views;
use crate::line::LineView;
use crate::record::Record;
use crate::record::RecordView;
use crate::record::as_path;
use crate::record::forest_lines;
use crate::record::lemma_node_is_block;
use crate::record::offset_of;
use crate::record::lemma_record_view;
use crate::record::node_at;
use crate::record::views;
use crate::rules::AssemblyFault;
use crate::rules::dangling;
use crate::rules::lemma_dangling_member;
use crate::rules::lemma_faultless_lines;
use crate::rules::defines;
use crate::rules::first_fault;

verus! {

/// The records of a text as a forest, with a table that leads from each
/// cross-reference identifier to the record that defines it, and the list
/// of the pointers that lead nowhere.
pub struct Document {
    roots: Vec<Record>,
    xrefs: StringHashMap<Vec<usize>>,
    unresolved: Vec<AssemblyError>,
}

/// The view of an optional record.
pub open spec fn opt_record(r: Option<&Record>) -> Option<RecordView> {
    match r {
        Some(record) => Some(record@),
        None => None,
    }
}

impl Document {
    /// The records at level zero, in the order of the text.
    pub closed spec fn forest(&self) -> Seq<RecordView> {
        views(self.roots@)
    }

    /// The document read back depth first: the lines it was made from.
    pub open spec fn lines(&self) -> Seq<LineView> {
        forest_lines(self.forest(), 0)
    }

    /// The pointers that lead nowhere, as faults.
    pub closed spec fn unresolved_faults(&self) -> Seq<AssemblyFault> {
        fault_views(self.unresolved@)
    }

    /// The record that the table gives for `id`.
    pub closed spec fn resolved(&self, id: Seq<char>) -> Option<RecordView> {
        if self.xrefs@.contains_key(id) {
            node_at(self.forest(), as_path(self.xrefs@[id]@))
        } else {
            None
        }
    }

    /// The path that the table gives for `id`.
    pub closed spec fn path_of(&self, id: Seq<char>) -> Seq<int> {
        as_path(self.xrefs@[id]@)
    }

    /// The lines of the document are free of faults; the table leads from
    /// each identifier that a line defines, and from no other, to a record
    /// of the forest that carries it; and the list of pointers that lead
    /// nowhere is complete and in order.
    pub closed spec fn wf(&self) -> bool {
        &&& first_fault(self.lines()) is None
        &&& forall|id: Seq<char>| #[trigger]
            self.xrefs@.contains_key(id) <==> defines(self.lines(), id)
        &&& forall|id: Seq<char>| #[trigger]
            self.xrefs@.contains_key(id) ==> {
                &&& node_at(self.forest(), as_path(self.xrefs@[id]@)) is Some
                &&& node_at(self.forest(), as_path(self.xrefs@[id]@))->0.ref_id == Some(id)
            }
        &&& fault_views(self.unresolved@) == dangling(self.lines())
    }

    /// What a well-formed document promises: its lines are free of faults,
    /// it resolves exactly the identifiers that its lines define, each to a
    /// record that carries the identifier, and it lists the pointers that
    /// lead nowhere.
    pub proof fn lemma_wf_means(&self)
        requires
            self.wf(),
        ensures
            first_fault(self.lines()) is None,
            self.unresolved_faults() == dangling(self.lines()),
            forall|id: Seq<char>|
                (#[trigger] self.resolved(id)) is Some <==> defines(self.lines(), id),
            forall|id: Seq<char>|
                (#[trigger] self.resolved(id)) is Some ==> self.resolved(id)->0.ref_id == Some(id),
    {
        assert forall|id: Seq<char>| (#[trigger] self.resolved(id)) is Some <==> defines(
            self.lines(),
            id,
        ) by {
            if defines(self.lines(), id) {
                assert(self.xrefs@.contains_key(id));
            }
        }
        assert forall|id: Seq<char>| (#[trigger] self.resolved(id)) is Some implies self.resolved(
            id,
        )->0.ref_id == Some(id) by {
            assert(self.xrefs@.contains_key(id));
        }
    }

    /// A pointer resolves to the record of the line that defines its
    /// target, wherever that line stands, before the pointer or after it:
    /// the record carries what the defining line said, it reads, with all
    /// below it, as the lines from the defining line on, and the pointer
    /// is not listed as leading nowhere.
    pub proof fn lemma_pointer_resolves(&self, from: int, to: int)
        requires
            self.wf(),
            0 <= from < self.lines().len(),
            0 <= to < self.lines().len(),
            self.lines()[from].pointer is Some,
            self.lines()[from].pointer == self.lines()[to].ref_id,
        ensures
            ({
                let lines = self.lines();
                let id = lines[from].pointer->0;
                let record = self.resolved(id)->0;
                let block = record.lines(lines[to].level);
                &&& self.resolved(id) is Some
                &&& record.header(lines[to].level) == lines[to]
                &&& to + block.len() <= lines.len()
                &&& lines.subrange(to, to + block.len()) == block
                &&& !self.unresolved_faults().contains(
                    AssemblyFault::UnresolvedXref { line: from as nat, target: id },
                )
            }),
    {
        let lines = self.lines();
        let id = lines[from].pointer->0;
        assert(defines(lines, id));
        assert(self.xrefs@.contains_key(id));
        let path = as_path(self.xrefs@[id]@);
        lemma_node_is_block(self.forest(), path, 0);
        let start = offset_of(self.forest(), path, 0) as int;
        lemma_faultless_lines(lines);
        assert(lines[start].ref_id == Some(id));
        if start < to {
            assert(lines[start].ref_id != lines[to].ref_id);
        } else if to < start {
            assert(lines[to].ref_id != lines[start].ref_id);
        }
        lemma_dangling_member(lines, from as nat, id);
    }

    /// Puts a document together from its parts.
    pub(crate) fn from_parts(
        roots: Vec<Record>,
        xrefs: StringHashMap<Vec<usize>>,
        unresolved: Vec<AssemblyError>,
    ) -> (doc: Self)
        requires
            first_fault(forest_lines(views(roots@), 0)) is None,
            forall|id: Seq<char>| #[trigger]
                xrefs@.contains_key(id) <==> defines(forest_lines(views(roots@), 0), id),
            forall|id: Seq<char>| #[trigger]
                xrefs@.contains_key(id) ==> {
                    &&& node_at(views(roots@), as_path(xrefs@[id]@)) is Some
                    &&& node_at(views(roots@), as_path(xrefs@[id]@))->0.ref_id == Some(id)
                },
            fault_views(unresolved@) == dangling(forest_lines(views(roots@), 0)),
        ensures
            doc.wf(),
            doc.forest() == views(roots@),
    {
        Document { roots, xrefs, unresolved }
    }

    /// The records at level zero, in the order of the text.
    pub fn roots(&self) -> (roots: &Vec<Record>)
        ensures
            views(roots@) == self.forest(),
    {
        &self.roots
    }

    /// The pointers that lead nowhere: one `UnresolvedXref` for each line
    /// that points to an identifier that no line defines, in the order of
    /// the lines.
    pub fn unresolved(&self) -> (list: &Vec<AssemblyError>)
        requires
            self.wf(),
        ensures
            fault_views(list@) == dangling(self.lines()),
    {
        &self.unresolved
    }

    /// The record that defines `ref_id`, if a line of the document defines it.
    pub fn resolve(&self, ref_id: &str) -> (r: Option<&Record>)
        requires
            self.wf(),
        ensures
            opt_record(r) == self.resolved(ref_id@),
            r is Some <==> defines(self.lines(), ref_id@),
            r matches Some(record) ==> {
                &&& record@.ref_id == Some(ref_id@)
                &&& node_at(self.forest(), self.path_of(ref_id@)) == Some(record@)
            },
    {
        match self.xrefs.get(ref_id) {
            None => None,
            Some(path) => Some(walk(&self.roots, path)),
        }
    }
}

/// Follows `path` through the forest of `roots`.
fn walk<'a>(roots: &'a Vec<Record>, path: &Vec<usize>) -> (record: &'a Record)
    requires
        node_at(views(roots@), as_path(path@)) is Some,
    ensures
        Some(record@) == node_at(views(roots@), as_path(path@)),
{
    let ghost steps = as_path(path@);
    let ghost target = node_at(views(roots@), steps);
    let mut record: &Record = &roots[path[0]];
    let mut k: usize = 1;
    proof {
        assert(steps.drop_first() =~= steps.skip(1));
    }
    while k < path.len()
        invariant
            1 <= k <= path.len(),
            steps == as_path(path@),
            target is Some,
            k == path.len() ==> Some(record@) == target,
            k < path.len() ==> node_at(record@.children, steps.skip(k as int)) == target,
        decreases path.len() - k,
    {
        let ghost rest = steps.skip(k as int);
        let ghost above = record@;
        proof {
            assert(rest[0] == path@[k as int] as int);
            assert(rest.drop_first() =~= steps.skip(k + 1));
            lemma_record_view(*record);
            assert(node_at(above.children, rest) is Some);
            assert(above.children.len() == record.children@.len());
            assert(above.children[rest[0]] == record.children@[rest[0]]@);
        }
        record = &record.children[path[k]];
        k = k + 1;
    }
    record
}

} // verus!
