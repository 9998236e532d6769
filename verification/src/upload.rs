//! Uploads: where each incoming file is stored, what is confirmed for it, and
//! the order of work for a batch of files.
//!
//! Writing a file is not done here. A batch is a small state machine: it says
//! which file is to be written next and where, is told how the write ended,
//! and says in the end what to answer. The files are written one after the
//! other, in the order in which they came, and the first failure ends the
//! batch.

use crate::address::{resolve, spec_base_url};
use crate::config::MyConfig;
use crate::error::ShareError;
use crate::url::{build_file_url, lemma_file_url_injective, lemma_file_url_shape, spec_file_url};
use vstd::prelude::*;
use vstd::string::*;

verus! {

/// The confirmation for one stored file: its name and its shareable URL.
#[derive(Debug, PartialEq, Eq)]
pub struct UploadResult {
    pub name: String,
    pub url: String,
}

/// A confirmation with its texts as sequences of characters.
pub ghost struct UploadView {
    pub name: Seq<char>,
    pub url: Seq<char>,
}

impl View for UploadResult {
    type V = UploadView;

    open spec fn view(&self) -> UploadView {
        UploadView { name: self.name@, url: self.url@ }
    }
}

/// The names of a vector, each as a sequence of characters.
pub open spec fn name_texts(names: Seq<String>) -> Seq<Seq<char>> {
    names.map_values(|name: String| name@)
}

/// The confirmations of a vector, each by its view.
pub open spec fn result_views(results: Seq<UploadResult>) -> Seq<UploadView> {
    results.map_values(|r: UploadResult| r@)
}

/// The path under which the file `name` is stored: `{working_dir}/{name}`.
pub open spec fn spec_destination(working_dir: Seq<char>, name: Seq<char>) -> Seq<char> {
    working_dir + seq!['/'] + name
}

/// The confirmation for the file `name` under the base URL `base`.
pub open spec fn spec_upload_result(base: Seq<char>, name: Seq<char>) -> UploadView {
    UploadView { name, url: spec_file_url(base, name) }
}

/// The confirmations for a batch: one for each name, in the order of the
/// names.
pub open spec fn spec_results(base: Seq<char>, names: Seq<Seq<char>>) -> Seq<UploadView> {
    Seq::new(names.len(), |i: int| spec_upload_result(base, names[i]))
}

/// The path under which an uploaded file is stored. A file that is already
/// there under that name is overwritten by the write.
pub fn destination_path(working_dir: &str, name: &str) -> (path: String)
    ensures
        path@ == spec_destination(working_dir@, name@),
{
    proof {
        reveal_strlit("/");
        assert("/"@ =~= seq!['/']);
    }
    let mut path = String::from_str(working_dir);
    path.append("/");
    path.append(name);
    path
}

/// The shareable URL of a stored file on this machine: the base URL is
/// resolved, on the loopback address where the lookup fails, and the name is
/// put behind `/share/`.
pub fn saved_file_url(config: &MyConfig, file_name: &str) -> (url: String)
    ensures
        exists|ip: Seq<char>|
            url@ == spec_file_url(
                #[trigger] spec_base_url(config@.protocol, ip, config@.port),
                file_name@,
            ),
        config@.is_valid(),
{
    let base = resolve(config);
    build_file_url(base.as_str(), file_name)
}

/// The confirmations for the files `names`, in their order.
pub fn upload_results(base_url: &str, names: &Vec<String>) -> (results: Vec<UploadResult>)
    ensures
        result_views(results@) == spec_results(base_url@, name_texts(names@)),
{
    let mut results: Vec<UploadResult> = Vec::new();
    let mut i: usize = 0;
    while i < names.len()
        invariant
            i <= names.len(),
            results.len() == i,
            forall|k: int|
                0 <= k < i ==> (#[trigger] results[k])@ == spec_upload_result(
                    base_url@,
                    names[k]@,
                ),
        decreases names.len() - i,
    {
        let name = &names[i];
        let result = UploadResult {
            name: name.clone(),
            url: build_file_url(base_url, name.as_str()),
        };
        results.push(result);
        i += 1;
    }
    proof {
        assert(result_views(results@) =~= spec_results(base_url@, name_texts(names@)));
    }
    results
}

/// A batch confirms every file, in the order of submission; each URL begins
/// with the base URL and the share segment and ends with the file's name; and
/// files with different names have different URLs.
pub proof fn lemma_results_in_order(base: Seq<char>, names: Seq<Seq<char>>)
    ensures
        spec_results(base, names).len() == names.len(),
        forall|i: int|
            0 <= i < names.len() ==> (#[trigger] spec_results(base, names)[i]).name == names[i],
        forall|i: int|
            0 <= i < names.len() ==> (#[trigger] spec_results(base, names)[i]).url
                == spec_file_url(base, names[i]),
        forall|i: int|
            0 <= i < names.len() ==> (#[trigger] spec_results(base, names)[i]).url.take(
                base.len() as int,
            ) == base,
        forall|i: int, j: int|
            0 <= i < names.len() && 0 <= j < names.len() && names[i] != names[j] ==> (
            #[trigger] spec_results(base, names)[i]).url != (#[trigger] spec_results(
                base,
                names,
            )[j]).url,
{
    assert forall|i: int| 0 <= i < names.len() implies (#[trigger] spec_results(
        base,
        names,
    )[i]).url.take(base.len() as int) == base by {
        lemma_file_url_shape(base, names[i]);
    }
    assert forall|i: int, j: int|
        0 <= i < names.len() && 0 <= j < names.len() && names[i] != names[j] implies (
    #[trigger] spec_results(base, names)[i]).url != (#[trigger] spec_results(base, names)[j]).url by {
        lemma_file_url_injective(base, names[i], names[j]);
    }
}

/// How the write of one file ended.
#[derive(Clone, Copy, Debug, PartialEq, Eq, Structural)]
pub enum PersistOutcome {
    Stored,
    Failed,
}

/// What is to be done next for a batch.
#[derive(Debug, PartialEq, Eq)]
pub enum IngestAction {
    /// Write the file with this index in the batch to this path, then report
    /// how the write ended.
    Persist { index: usize, path: String },
    /// Every file is stored: answer with the confirmations.
    Reply(Vec<UploadResult>),
    /// A write failed: fail the whole request.
    Abort(ShareError),
}

/// An action with its texts as sequences of characters.
pub ghost enum ActionView {
    Persist { index: int, path: Seq<char> },
    Reply(Seq<UploadView>),
    Abort(ShareError),
}

impl View for IngestAction {
    type V = ActionView;

    open spec fn view(&self) -> ActionView {
        match *self {
            IngestAction::Persist { index, path } => ActionView::Persist {
                index: index as int,
                path: path@,
            },
            IngestAction::Reply(results) => ActionView::Reply(result_views(results@)),
            IngestAction::Abort(error) => ActionView::Abort(error),
        }
    }
}

/// The state of a batch: the names of its files in the order of submission,
/// how many of them are stored, and whether a write has failed.
pub ghost struct IngestView {
    pub working_dir: Seq<char>,
    pub base_url: Seq<char>,
    pub names: Seq<Seq<char>>,
    pub stored: int,
    pub failed: bool,
}

impl IngestView {
    /// The state of a batch on which no work has been done.
    pub open spec fn fresh(
        working_dir: Seq<char>,
        base_url: Seq<char>,
        names: Seq<Seq<char>>,
    ) -> IngestView {
        IngestView { working_dir, base_url, names, stored: 0, failed: false }
    }

    /// Whether a write is awaited: no write has failed and a file is left.
    pub open spec fn writing(self) -> bool {
        !self.failed && 0 <= self.stored < self.names.len()
    }

    /// What is to be done in this state.
    pub open spec fn action(self) -> ActionView {
        if self.failed {
            ActionView::Abort(ShareError::PersistError)
        } else if 0 <= self.stored < self.names.len() {
            ActionView::Persist {
                index: self.stored,
                path: spec_destination(self.working_dir, self.names[self.stored]),
            }
        } else {
            ActionView::Reply(spec_results(self.base_url, self.names))
        }
    }

    /// The state after the awaited write has ended with `outcome`. Where no
    /// write is awaited the state stays as it is.
    pub open spec fn after(self, outcome: PersistOutcome) -> IngestView {
        if !self.writing() {
            self
        } else {
            match outcome {
                PersistOutcome::Stored => IngestView { stored: self.stored + 1, ..self },
                PersistOutcome::Failed => IngestView { failed: true, ..self },
            }
        }
    }

    /// The state after a run of writes has ended with `outcomes`, in order.
    pub open spec fn after_all(self, outcomes: Seq<PersistOutcome>) -> IngestView
        decreases outcomes.len(),
    {
        if outcomes.len() == 0 {
            self
        } else {
            self.after_all(outcomes.drop_last()).after(outcomes.last())
        }
    }
}

/// A batch of uploaded files that is being stored.
#[derive(Debug)]
pub struct Ingest {
    working_dir: String,
    base_url: String,
    names: Vec<String>,
    stored: usize,
    failed: bool,
}

impl View for Ingest {
    type V = IngestView;

    closed spec fn view(&self) -> IngestView {
        IngestView {
            working_dir: self.working_dir@,
            base_url: self.base_url@,
            names: name_texts(self.names@),
            stored: self.stored as int,
            failed: self.failed,
        }
    }
}

impl Ingest {
    #[verifier::type_invariant]
    spec fn within_batch(self) -> bool {
        self.stored <= self.names.len()
    }

    /// A batch of the files `names`, in the order in which they came, to be
    /// stored in `working_dir` and shared under `base_url`.
    pub fn begin(working_dir: String, base_url: String, names: Vec<String>) -> (batch: Ingest)
        ensures
            batch@ == IngestView::fresh(working_dir@, base_url@, name_texts(names@)),
    {
        Ingest { working_dir, base_url, names, stored: 0, failed: false }
    }

    /// What is to be done next: write the next file, answer with the
    /// confirmations of all files, or fail the request because a write has
    /// failed.
    pub fn action(&self) -> (next: IngestAction)
        ensures
            next@ == self@.action(),
            0 <= self@.stored <= self@.names.len(),
    {
        proof {
            use_type_invariant(self);
        }
        if self.failed {
            IngestAction::Abort(ShareError::PersistError)
        } else if self.stored < self.names.len() {
            let name = &self.names[self.stored];
            IngestAction::Persist {
                index: self.stored,
                path: destination_path(self.working_dir.as_str(), name.as_str()),
            }
        } else {
            IngestAction::Reply(upload_results(self.base_url.as_str(), &self.names))
        }
    }

    /// Takes note of how the awaited write ended. A stored file moves the
    /// batch on to the next one; a failed write ends the batch. Where no
    /// write is awaited nothing changes.
    pub fn record(&mut self, outcome: PersistOutcome)
        ensures
            final(self)@ == old(self)@.after(outcome),
    {
        proof {
            use_type_invariant(&*self);
        }
        if !self.failed && self.stored < self.names.len() {
            match outcome {
                PersistOutcome::Stored => {
                    self.stored = self.stored + 1;
                },
                PersistOutcome::Failed => {
                    self.failed = true;
                },
            }
        }
    }

    /// Takes note of how the awaited write ended and says what is to be done
    /// next.
    pub fn step(&mut self, outcome: PersistOutcome) -> (next: IngestAction)
        ensures
            final(self)@ == old(self)@.after(outcome),
            next@ == final(self)@.action(),
    {
        self.record(outcome);
        self.action()
    }
}

/// A run of stored writes moves a fresh batch on by as many files.
pub proof fn lemma_stored_run(batch: IngestView, outcomes: Seq<PersistOutcome>)
    requires
        !batch.failed,
        batch.stored == 0,
        outcomes.len() <= batch.names.len(),
        forall|k: int| 0 <= k < outcomes.len() ==> outcomes[k] == PersistOutcome::Stored,
    ensures
        batch.after_all(outcomes) == (IngestView { stored: outcomes.len() as int, ..batch }),
    decreases outcomes.len(),
{
    if outcomes.len() > 0 {
        lemma_stored_run(batch, outcomes.drop_last());
    }
}

/// Where every write of a batch is stored, the answer confirms every file,
/// in the order of submission.
pub proof fn lemma_all_stored_replies(batch: IngestView, outcomes: Seq<PersistOutcome>)
    requires
        !batch.failed,
        batch.stored == 0,
        outcomes.len() == batch.names.len(),
        forall|k: int| 0 <= k < outcomes.len() ==> outcomes[k] == PersistOutcome::Stored,
    ensures
        batch.after_all(outcomes).action() == ActionView::Reply(
            spec_results(batch.base_url, batch.names),
        ),
{
    lemma_stored_run(batch, outcomes);
}

/// Once a write has failed the batch stays failed, whatever is reported
/// afterwards.
pub proof fn lemma_failed_stays(batch: IngestView, outcomes: Seq<PersistOutcome>)
    requires
        batch.failed,
    ensures
        batch.after_all(outcomes) == batch,
        batch.after_all(outcomes).action() == ActionView::Abort(ShareError::PersistError),
    decreases outcomes.len(),
{
    if outcomes.len() > 0 {
        lemma_failed_stays(batch, outcomes.drop_last());
    }
}

/// The first failed write ends the batch: where the writes before it were
/// stored, the request is failed with `PersistError`, and no later file is
/// asked for.
pub proof fn lemma_first_failure_aborts(
    batch: IngestView,
    outcomes: Seq<PersistOutcome>,
    first: int,
)
    requires
        !batch.failed,
        batch.stored == 0,
        0 <= first < outcomes.len(),
        first < batch.names.len(),
        outcomes[first] == PersistOutcome::Failed,
        forall|k: int| 0 <= k < first ==> outcomes[k] == PersistOutcome::Stored,
    ensures
        batch.after_all(outcomes) == (IngestView { stored: first, failed: true, ..batch }),
        batch.after_all(outcomes).action() == ActionView::Abort(ShareError::PersistError),
    decreases outcomes.len(),
{
    if first == outcomes.len() - 1 {
        let before = outcomes.drop_last();
        lemma_stored_run(batch, before);
    } else {
        lemma_first_failure_aborts(batch, outcomes.drop_last(), first);
    }
}

} // verus!
