//! Tallying one ingestion pass: which files were handed to the index and why
//! the others were skipped.

use vstd::prelude::*;
use crate::classify::{Classification, SkipReason};

verus! {

/// Number of indexed files between two progress reports.
pub const INDEX_PROGRESS_CHUNK: usize = 100;

/// Per-reason counts of the files skipped in one pass.
#[derive(Clone, Copy, Debug, PartialEq, Eq, Structural)]
pub struct SkipStats {
    pub unsupported_extension: usize,
    pub too_large: usize,
    pub binary: usize,
    pub read_errors: usize,
}

impl SkipStats {
    /// The number of skipped files, over all reasons.
    pub open spec fn sum(&self) -> nat {
        (self.unsupported_extension + self.too_large + self.binary + self.read_errors) as nat
    }

    /// No file skipped yet.
    pub fn new() -> (r: Self)
        ensures
            r.unsupported_extension == 0,
            r.too_large == 0,
            r.binary == 0,
            r.read_errors == 0,
    {
        SkipStats { unsupported_extension: 0, too_large: 0, binary: 0, read_errors: 0 }
    }

    /// The number of skipped files, over all reasons.
    pub fn total(&self) -> (r: usize)
        requires
            self.sum() <= usize::MAX,
        ensures
            r == self.sum(),
    {
        self.unsupported_extension + self.too_large + self.binary + self.read_errors
    }
}

impl Default for SkipStats {
    fn default() -> (r: Self)
        ensures
            r == (SkipStats { unsupported_extension: 0, too_large: 0, binary: 0, read_errors: 0 }),
    {
        SkipStats::new()
    }
}

/// What a pass has done so far: the paths handed to the index, in order, and
/// the skip counts.
pub struct PassModel {
    pub documents: Seq<Seq<char>>,
    pub unsupported_extension: nat,
    pub too_large: nat,
    pub binary: nat,
    pub read_errors: nat,
}

/// A pass that has seen no file: the index's earlier documents are all
/// deleted when a pass begins.
pub open spec fn empty_pass() -> PassModel {
    PassModel {
        documents: Seq::empty(),
        unsupported_extension: 0,
        too_large: 0,
        binary: 0,
        read_errors: 0,
    }
}

/// `m` after one more file, at `path`, with final verdict `c`.
pub open spec fn pass_step(m: PassModel, path: Seq<char>, c: Classification) -> PassModel {
    match c {
        Classification::Include => PassModel { documents: m.documents.push(path), ..m },
        Classification::Skip(SkipReason::UnsupportedExtension) => PassModel {
            unsupported_extension: m.unsupported_extension + 1,
            ..m
        },
        Classification::Skip(SkipReason::TooLarge) => PassModel { too_large: m.too_large + 1, ..m },
        Classification::Skip(SkipReason::BinaryContent) => PassModel { binary: m.binary + 1, ..m },
        Classification::Skip(SkipReason::ReadError) => PassModel {
            read_errors: m.read_errors + 1,
            ..m
        },
    }
}

/// The pass over a whole walk: each file with its path and final verdict.
pub open spec fn pass_over(walk: Seq<(Seq<char>, Classification)>) -> PassModel
    decreases walk.len(),
{
    if walk.len() == 0 {
        empty_pass()
    } else {
        let last = walk.last();
        pass_step(pass_over(walk.drop_last()), last.0, last.1)
    }
}

/// The number of files a pass has seen.
pub open spec fn files_seen(m: PassModel) -> nat {
    m.documents.len() + m.unsupported_extension + m.too_large + m.binary + m.read_errors
}

/// One ingestion pass in progress.
pub struct IngestPass {
    documents: Vec<String>,
    skipped: SkipStats,
}

impl View for IngestPass {
    type V = PassModel;

    closed spec fn view(&self) -> PassModel {
        PassModel {
            documents: self.documents@.map_values(|s: String| s@),
            unsupported_extension: self.skipped.unsupported_extension as nat,
            too_large: self.skipped.too_large as nat,
            binary: self.skipped.binary as nat,
            read_errors: self.skipped.read_errors as nat,
        }
    }
}

impl IngestPass {
    /// The counts fit a machine word.
    pub open spec fn wf(&self) -> bool {
        files_seen(self@) <= usize::MAX
    }

    /// A pass that starts from an emptied index.
    pub fn begin() -> (r: Self)
        ensures
            r@ == empty_pass(),
            r.wf(),
    {
        let r = IngestPass { documents: Vec::new(), skipped: SkipStats::new() };
        assert(r@.documents =~= Seq::<Seq<char>>::empty());
        r
    }

    /// Records the final verdict on the file at `path`. Returns whether a
    /// progress report is due: after every hundredth indexed file.
    pub fn record(&mut self, path: String, c: Classification) -> (progress_due: bool)
        requires
            old(self).wf(),
            files_seen(old(self)@) < usize::MAX,
        ensures
            final(self).wf(),
            final(self)@ == pass_step(old(self)@, path@, c),
            progress_due == (c == Classification::Include
                && final(self)@.documents.len() % (INDEX_PROGRESS_CHUNK as nat) == 0),
    {
        match c {
            Classification::Include => {
                self.documents.push(path);
                assert(self@.documents =~= old(self)@.documents.push(path@));
                self.documents.len() % INDEX_PROGRESS_CHUNK == 0
            },
            Classification::Skip(SkipReason::UnsupportedExtension) => {
                self.skipped.unsupported_extension = self.skipped.unsupported_extension + 1;
                false
            },
            Classification::Skip(SkipReason::TooLarge) => {
                self.skipped.too_large = self.skipped.too_large + 1;
                false
            },
            Classification::Skip(SkipReason::BinaryContent) => {
                self.skipped.binary = self.skipped.binary + 1;
                false
            },
            Classification::Skip(SkipReason::ReadError) => {
                self.skipped.read_errors = self.skipped.read_errors + 1;
                false
            },
        }
    }

    /// The number of files recorded so far.
    pub fn files_seen(&self) -> (r: usize)
        requires
            self.wf(),
        ensures
            r == files_seen(self@),
    {
        self.documents.len() + self.skipped.total()
    }

    /// The number of files handed to the index.
    pub fn indexed(&self) -> (r: usize)
        ensures
            r == self@.documents.len(),
    {
        self.documents.len()
    }

    /// The skip counts.
    pub fn skipped(&self) -> (r: SkipStats)
        ensures
            r.unsupported_extension == self@.unsupported_extension,
            r.too_large == self@.too_large,
            r.binary == self@.binary,
            r.read_errors == self@.read_errors,
    {
        self.skipped
    }

    /// The paths handed to the index, in order.
    pub fn documents(&self) -> (r: &Vec<String>)
        ensures
            r@.map_values(|s: String| s@) == self@.documents,
    {
        &self.documents
    }
}

/// The final verdict on a file that its classification included, once its
/// bounded read is done: a failed read is a read error, never partial text.
pub fn verdict_after_read(read_ok: bool) -> (r: Classification)
    ensures
        r == (if read_ok {
            Classification::Include
        } else {
            Classification::Skip(SkipReason::ReadError)
        }),
{
    if read_ok {
        Classification::Include
    } else {
        Classification::Skip(SkipReason::ReadError)
    }
}

/// Runs a whole pass over a walk given as each file's path and final verdict.
pub fn run_pass(walk: &Vec<(String, Classification)>) -> (r: IngestPass)
    requires
        walk@.len() < usize::MAX,
    ensures
        r@ == pass_over(walk_view(walk@)),
{
    let mut pass = IngestPass::begin();
    let mut i: usize = 0;
    while i < walk.len()
        invariant
            i <= walk@.len(),
            walk@.len() < usize::MAX,
            pass.wf(),
            pass@ == pass_over(walk_view(walk@).subrange(0, i as int)),
            files_seen(pass@) == i,
        decreases walk@.len() - i,
    {
        let ghost before = walk_view(walk@).subrange(0, i as int);
        let ghost after = walk_view(walk@).subrange(0, i + 1);
        assert(after.drop_last() =~= before);
        let path = walk[i].0.clone();
        let c = walk[i].1;
        pass.record(path, c);
        i = i + 1;
    }
    assert(walk_view(walk@).subrange(0, walk@.len() as int) =~= walk_view(walk@));
    pass
}

/// The walk seen through the paths' text.
pub open spec fn walk_view(walk: Seq<(String, Classification)>) -> Seq<(Seq<char>, Classification)> {
    walk.map_values(|e: (String, Classification)| (e.0@, e.1))
}


/// Every file walked is counted once: the indexed files and the skipped files
/// of each reason add up to the files walked.
pub proof fn lemma_every_file_counted(walk: Seq<(Seq<char>, Classification)>)
    ensures
        files_seen(pass_over(walk)) == walk.len(),
    decreases walk.len(),
{
    if walk.len() > 0 {
        lemma_every_file_counted(walk.drop_last());
    }
}

/// Some file of `walk` at `path` was included.
pub open spec fn included_in(walk: Seq<(Seq<char>, Classification)>, path: Seq<char>) -> bool {
    exists|i: int|
        0 <= i < walk.len() && (#[trigger] walk[i]).0 == path && walk[i].1
            == Classification::Include
}

/// Every document of a pass is the path of a file of that walk that was
/// included.
pub proof fn lemma_documents_from_walk(walk: Seq<(Seq<char>, Classification)>)
    ensures
        forall|j: int|
            0 <= j < pass_over(walk).documents.len() ==> included_in(
                walk,
                #[trigger] pass_over(walk).documents[j],
            ),
    decreases walk.len(),
{
    if walk.len() > 0 {
        let prev = walk.drop_last();
        lemma_documents_from_walk(prev);
        let docs = pass_over(walk).documents;
        assert forall|j: int| 0 <= j < docs.len() implies included_in(walk, #[trigger] docs[j]) by {
            if j < pass_over(prev).documents.len() {
                assert(included_in(prev, pass_over(prev).documents[j]));
                let i = choose|i: int|
                    0 <= i < prev.len() && (#[trigger] prev[i]).0 == pass_over(prev).documents[j]
                        && prev[i].1 == Classification::Include;
                assert(walk[i] == prev[i]);
            } else {
                assert(walk[walk.len() - 1] == walk.last());
            }
        }
    }
}

/// A file that a pass does not walk, deleted since an earlier pass for
/// instance, is among none of the documents after that pass.
pub proof fn lemma_absent_path_not_indexed(walk: Seq<(Seq<char>, Classification)>, path: Seq<char>)
    requires
        forall|i: int| 0 <= i < walk.len() ==> (#[trigger] walk[i]).0 != path,
    ensures
        !pass_over(walk).documents.contains(path),
{
    lemma_documents_from_walk(walk);
}

/// Where no path is walked twice, no document is indexed twice.
pub proof fn lemma_no_duplicate_documents(walk: Seq<(Seq<char>, Classification)>)
    requires
        forall|i: int, k: int| 0 <= i < k < walk.len() ==> (#[trigger] walk[i]).0 != (#[trigger] walk[k]).0,
    ensures
        pass_over(walk).documents.no_duplicates(),
    decreases walk.len(),
{
    if walk.len() > 0 {
        let prev = walk.drop_last();
        assert forall|i: int, k: int| 0 <= i < k < prev.len() implies (#[trigger] prev[i]).0 != (#[trigger] prev[k]).0 by {
            assert(prev[i] == walk[i] && prev[k] == walk[k]);
        }
        lemma_no_duplicate_documents(prev);
        if walk.last().1 == Classification::Include {
            assert forall|i: int| 0 <= i < prev.len() implies (#[trigger] prev[i]).0 != walk.last().0 by {
                assert(prev[i] == walk[i]);
                assert(walk[walk.len() - 1] == walk.last());
            }
            lemma_absent_path_not_indexed(prev, walk.last().0);
        }
    }
}

/// A pass rebuilds the index from its walk alone: two passes over the same
/// files with the same verdicts leave the same documents and counts, whatever
/// the index held before either.
pub proof fn lemma_rerun_is_idempotent(
    first: Seq<(Seq<char>, Classification)>,
    second: Seq<(Seq<char>, Classification)>,
)
    requires
        first == second,
    ensures
        pass_over(first) == pass_over(second),
        pass_over(first).documents.len() == pass_over(second).documents.len(),
{
}

} // verus!
