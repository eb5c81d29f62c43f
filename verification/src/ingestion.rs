//! The course of an ingestion run, as a machine that is told what happened
//! and says what to do next.
//!
//! A run opens the engine and exports the state it starts with. Then it loads
//! the sources in the order given: each is read, and its rows go to the
//! engine inside one transaction, which is committed and whose change set is
//! exported. At the end, and after any failure, the engine is stopped.
//!
//! The machine does none of the work itself. It hands out an [`Action`], the
//! caller performs it and reports back with a [`Reply`].

use vstd::prelude::*;
use crate::batch::{batch_end, least};
use crate::changelog::{appends, dump_delta, Change, ChangeView, LogAppend, LogAppendView};
use crate::error::{IngestError, IngestErrorView};
use crate::relation::{relation_str_to_enum, resolve};
use crate::tuple::{Field, FieldView};
use crate::update::{parse_rows, rows_updates, Feed, Update, UpdateView};

verus! {

/// A source of rows.
#[derive(Debug, PartialEq, Eq)]
pub enum Source {
    /// Tuples of the relation called `relation`, all to be inserted.
    Bulk { relation: String, path: String },
    /// Signed updates to relations named row by row.
    Updates { path: String },
}

/// A [`Source`] with its texts as sequences of characters.
pub enum SourceView {
    Bulk { relation: Seq<char>, path: Seq<char> },
    Updates { path: Seq<char> },
}

impl DeepView for Source {
    type V = SourceView;

    open spec fn deep_view(&self) -> SourceView {
        match *self {
            Source::Bulk { relation, path } => SourceView::Bulk {
                relation: relation@,
                path: path@,
            },
            Source::Updates { path } => SourceView::Updates { path: path@ },
        }
    }
}

/// Where a source is read from.
pub open spec fn path_of(source: SourceView) -> Seq<char> {
    match source {
        SourceView::Bulk { path, .. } => path,
        SourceView::Updates { path } => path,
    }
}

/// The sources of a run, in the order in which they are loaded: first a bulk
/// source for each pair of a relation's name and a path in `inputs`, then an
/// update source for each path in `updates`, each kind in the order given.
pub open spec fn sources_of(inputs: Seq<Seq<char>>, updates: Seq<Seq<char>>) -> Seq<SourceView> {
    Seq::new(
        (inputs.len() / 2 + updates.len()) as nat,
        |i: int|
            if i < inputs.len() / 2 {
                SourceView::Bulk { relation: inputs[2 * i], path: inputs[2 * i + 1] }
            } else {
                SourceView::Updates { path: updates[i - inputs.len() / 2] }
            },
    )
}

/// Makes the list of sources of a run from what was asked for: `inputs` holds
/// a relation's name and a path for each bulk source, one after the other,
/// and `updates` the paths of the update sources.
pub fn plan_sources(inputs: &Vec<String>, updates: &Vec<String>) -> (sources: Vec<Source>)
    requires
        inputs.len() % 2 == 0,
    ensures
        sources.deep_view() == sources_of(inputs.deep_view(), updates.deep_view()),
{
    let ghost planned = sources_of(inputs.deep_view(), updates.deep_view());
    let mut sources: Vec<Source> = Vec::new();
    let mut at: usize = 0;
    while at < inputs.len()
        invariant
            at <= inputs.len(),
            at % 2 == 0,
            inputs.len() % 2 == 0,
            planned == sources_of(inputs.deep_view(), updates.deep_view()),
            sources.len() == at / 2,
            forall|i: int| 0 <= i < sources.len() ==> (#[trigger] sources[i]).deep_view() == planned[i],
        decreases inputs.len() - at,
    {
        sources.push(Source::Bulk { relation: inputs[at].clone(), path: inputs[at + 1].clone() });
        at += 2;
    }
    let bulk = sources.len();
    let mut next: usize = 0;
    while next < updates.len()
        invariant
            next <= updates.len(),
            bulk == inputs.len() / 2,
            planned == sources_of(inputs.deep_view(), updates.deep_view()),
            sources.len() == bulk + next,
            forall|i: int| 0 <= i < sources.len() ==> (#[trigger] sources[i]).deep_view() == planned[i],
        decreases updates.len() - next,
    {
        sources.push(Source::Updates { path: updates[next].clone() });
        next += 1;
    }
    assert(sources.deep_view() =~= planned);
    sources
}

/// Bulk sources are loaded before update sources, and the sources of each
/// kind in the order in which they were asked for.
pub proof fn lemma_bulk_sources_come_first(inputs: Seq<Seq<char>>, updates: Seq<Seq<char>>)
    ensures
        sources_of(inputs, updates).len() == inputs.len() / 2 + updates.len(),
        forall|i: int|
            0 <= i < inputs.len() / 2 ==> #[trigger] sources_of(inputs, updates)[i]
                == (SourceView::Bulk { relation: inputs[2 * i], path: inputs[2 * i + 1] }),
        forall|j: int|
            0 <= j < updates.len() ==> sources_of(inputs, updates)[inputs.len() / 2 + j]
                == (SourceView::Updates { path: #[trigger] updates[j] }),
        forall|i: int, j: int|
            0 <= i < j < sources_of(inputs, updates).len() && sources_of(inputs, updates)[j]
                is Bulk ==> sources_of(inputs, updates)[i] is Bulk,
{
}

/// What the caller is to do next.
#[derive(Debug, PartialEq, Eq)]
pub enum Action {
    /// Open the engine, and reply with the state that it starts with.
    Open { workers: usize, track_snapshot: bool },
    /// Add these lines to the change logs.
    Export { additions: Vec<LogAppend> },
    /// Read the source at `path`, and reply with its rows.
    Read { path: String },
    /// Begin a transaction.
    Begin,
    /// Hand these updates to the engine, in one call.
    Apply { updates: Vec<Update> },
    /// Commit the transaction, and reply with its change set.
    Commit,
    /// Stop the engine.
    Stop,
    /// The run is over; `failure` says why, if it did not go through.
    Finish { failure: Option<IngestError> },
}

/// An [`Action`] with what it holds taken by its view.
pub enum ActionView {
    Open { workers: usize, track_snapshot: bool },
    Export { additions: Seq<LogAppendView> },
    Read { path: Seq<char> },
    Begin,
    Apply { updates: Seq<UpdateView> },
    Commit,
    Stop,
    Finish { failure: Option<IngestErrorView> },
}

impl DeepView for Action {
    type V = ActionView;

    open spec fn deep_view(&self) -> ActionView {
        match *self {
            Action::Open { workers, track_snapshot } => ActionView::Open {
                workers,
                track_snapshot,
            },
            Action::Export { additions } => ActionView::Export {
                additions: additions.deep_view(),
            },
            Action::Read { path } => ActionView::Read { path: path@ },
            Action::Begin => ActionView::Begin,
            Action::Apply { updates } => ActionView::Apply { updates: updates.deep_view() },
            Action::Commit => ActionView::Commit,
            Action::Stop => ActionView::Stop,
            Action::Finish { failure } => ActionView::Finish {
                failure: match failure {
                    Some(error) => Some(error@),
                    None => None,
                },
            },
        }
    }
}

/// What came of the action that the machine asked for last.
#[derive(Debug, PartialEq, Eq)]
pub enum Reply {
    /// It was done, and there is nothing to hand back.
    Done,
    /// The engine was opened, or the transaction committed, with these
    /// changes to the output relations.
    Delta { changes: Vec<Change> },
    /// The source was read, and these are its rows, without the header.
    Rows { rows: Vec<Vec<Field>> },
    /// It failed.
    Failed { diagnostic: String },
}

/// A [`Reply`] with what it holds taken by its view.
pub enum ReplyView {
    Done,
    Delta { changes: Seq<ChangeView> },
    Rows { rows: Seq<Seq<FieldView>> },
    Failed { diagnostic: Seq<char> },
}

impl DeepView for Reply {
    type V = ReplyView;

    open spec fn deep_view(&self) -> ReplyView {
        match *self {
            Reply::Done => ReplyView::Done,
            Reply::Delta { changes } => ReplyView::Delta { changes: changes.deep_view() },
            Reply::Rows { rows } => ReplyView::Rows { rows: rows.deep_view() },
            Reply::Failed { diagnostic } => ReplyView::Failed { diagnostic: diagnostic@ },
        }
    }
}

/// What a reply says of why the action failed: the diagnostic of a failure,
/// and nothing for a reply of a kind that the action does not have.
pub open spec fn complaint(reply: ReplyView) -> Seq<char> {
    match reply {
        ReplyView::Failed { diagnostic } => diagnostic,
        _ => Seq::empty(),
    }
}

/// What the machine is waiting for.
#[derive(Clone, Copy, Debug, PartialEq, Eq, Structural)]
pub enum Stage {
    /// For the engine to be opened.
    Opening,
    /// For a change set to be written to the logs.
    Exporting,
    /// For the rows of the current source.
    Reading,
    /// For the transaction of the current source to begin.
    Beginning,
    /// For a batch to be taken by the engine; `last` says that no batch of
    /// this source follows it.
    Flushing { last: bool },
    /// For the transaction of the current source to be committed.
    Committing,
    /// For the engine to stop.
    Stopping,
    /// For nothing: the run is over.
    Finished,
}

/// The state of a run.
pub struct IngestionView {
    /// The sources, in the order in which they are loaded.
    pub sources: Seq<SourceView>,
    /// The most updates that a batch of tuples holds.
    pub max_batch_size: nat,
    pub stage: Stage,
    /// How many sources have been loaded and committed.
    pub loaded: nat,
    /// What the rows of the current source hold.
    pub feed: Feed,
    /// The rows of the current source.
    pub rows: Seq<Seq<FieldView>>,
    /// How many of these rows have been handed to the engine.
    pub cursor: nat,
    /// Why the run is being abandoned, if it is.
    pub failure: Option<IngestErrorView>,
}

impl IngestionView {
    /// What holds of the state of every run.
    pub open spec fn wf(self) -> bool {
        &&& self.max_batch_size > 0
        &&& self.cursor <= self.rows.len()
        &&& self.loaded <= self.sources.len()
        &&& (self.stage == Stage::Reading || self.stage == Stage::Beginning || self.stage
            is Flushing || self.stage == Stage::Committing) ==> self.loaded < self.sources.len()
    }

    /// Whether the run is over or about to be: the engine is being stopped,
    /// or has been.
    pub open spec fn halting(self) -> bool {
        self.stage == Stage::Stopping || self.stage == Stage::Finished
    }
}

/// The state in which a run starts, with the engine being opened.
pub open spec fn initial(sources: Seq<SourceView>, max_batch_size: nat) -> IngestionView {
    IngestionView {
        sources,
        max_batch_size,
        stage: Stage::Opening,
        loaded: 0,
        feed: Feed::Updates,
        rows: Seq::empty(),
        cursor: 0,
        failure: None,
    }
}

/// The action that a run starts with: the engine is opened with one worker
/// and without a snapshot of its output relations.
pub open spec fn first_action() -> ActionView {
    ActionView::Open { workers: 1, track_snapshot: false }
}

/// Abandoning a run whose engine is open: the engine is stopped, and the
/// error is kept for the end.
pub open spec fn abandon(state: IngestionView, error: IngestErrorView) -> (
    IngestionView,
    ActionView,
) {
    (IngestionView { stage: Stage::Stopping, failure: Some(error), ..state }, ActionView::Stop)
}

/// Going on to the next source: its relation is looked up and it is read, or
/// the engine is stopped where none is left.
pub open spec fn proceed(state: IngestionView) -> (IngestionView, ActionView) {
    if state.loaded < state.sources.len() {
        match state.sources[state.loaded as int] {
            SourceView::Bulk { relation, path } => match resolve(relation) {
                None => abandon(state, IngestErrorView::UnknownRelation { name: relation }),
                Some(id) => (
                    IngestionView {
                        stage: Stage::Reading,
                        feed: Feed::Tuples { relation: id },
                        ..state
                    },
                    ActionView::Read { path },
                ),
            },
            SourceView::Updates { path } => (
                IngestionView { stage: Stage::Reading, feed: Feed::Updates, ..state },
                ActionView::Read { path },
            ),
        }
    } else {
        (IngestionView { stage: Stage::Stopping, ..state }, ActionView::Stop)
    }
}

/// Where the batch that starts at the cursor ends: tuples go in batches of
/// bounded size, the updates of a source all at once.
pub open spec fn flush_end(state: IngestionView) -> int {
    match state.feed {
        Feed::Tuples { .. } => least(
            (state.cursor + state.max_batch_size) as int,
            state.rows.len() as int,
        ),
        Feed::Updates => state.rows.len() as int,
    }
}

/// Whether the batch that starts at the cursor is the last of its source:
/// one that is not full, or the one with all the updates of a source.
pub open spec fn flush_is_last(state: IngestionView) -> bool {
    match state.feed {
        Feed::Tuples { .. } => state.rows.len() - state.cursor < state.max_batch_size,
        Feed::Updates => true,
    }
}

/// Handing over the next batch: its rows are decoded, and the run is
/// abandoned if one of them cannot be.
pub open spec fn flush(state: IngestionView) -> (IngestionView, ActionView) {
    match rows_updates(state.rows.subrange(state.cursor as int, flush_end(state)), state.feed) {
        Err(error) => abandon(state, error),
        Ok(updates) => (
            IngestionView {
                stage: Stage::Flushing { last: flush_is_last(state) },
                cursor: flush_end(state) as nat,
                ..state
            },
            ActionView::Apply { updates },
        ),
    }
}

/// The end of a run.
pub open spec fn finish(state: IngestionView, failure: Option<IngestErrorView>) -> (
    IngestionView,
    ActionView,
) {
    (IngestionView { stage: Stage::Finished, failure, ..state }, ActionView::Finish { failure })
}

/// The state after `reply`, and what is to be done next. A failure of the
/// engine or of reading a source ends the run; so does a reply of a kind that
/// the action does not have, which counts as a failure without a diagnostic.
/// Whether the logs could be written makes no difference to the run.
pub open spec fn next(state: IngestionView, reply: ReplyView) -> (IngestionView, ActionView) {
    match state.stage {
        Stage::Opening => match reply {
            ReplyView::Delta { changes } => (
                IngestionView { stage: Stage::Exporting, ..state },
                ActionView::Export { additions: appends(changes) },
            ),
            _ => finish(
                state,
                Some(IngestErrorView::EngineFailure { diagnostic: complaint(reply) }),
            ),
        },
        Stage::Exporting => proceed(state),
        Stage::Reading => match reply {
            ReplyView::Rows { rows } => (
                IngestionView { stage: Stage::Beginning, rows, cursor: 0, ..state },
                ActionView::Begin,
            ),
            _ => abandon(
                state,
                IngestErrorView::IOFailure {
                    path: path_of(state.sources[state.loaded as int]),
                    cause: complaint(reply),
                },
            ),
        },
        Stage::Beginning => match reply {
            ReplyView::Done => flush(state),
            _ => abandon(state, IngestErrorView::EngineFailure { diagnostic: complaint(reply) }),
        },
        Stage::Flushing { last } => match reply {
            ReplyView::Done => if last {
                (IngestionView { stage: Stage::Committing, ..state }, ActionView::Commit)
            } else {
                flush(state)
            },
            _ => abandon(state, IngestErrorView::EngineFailure { diagnostic: complaint(reply) }),
        },
        Stage::Committing => match reply {
            ReplyView::Delta { changes } => (
                IngestionView {
                    stage: Stage::Exporting,
                    loaded: (state.loaded + 1) as nat,
                    rows: Seq::empty(),
                    cursor: 0,
                    ..state
                },
                ActionView::Export { additions: appends(changes) },
            ),
            _ => abandon(state, IngestErrorView::EngineFailure { diagnostic: complaint(reply) }),
        },
        Stage::Stopping => match reply {
            ReplyView::Done => finish(state, state.failure),
            _ => finish(
                state,
                match state.failure {
                    Some(error) => Some(error),
                    None => Some(IngestErrorView::EngineFailure { diagnostic: complaint(reply) }),
                },
            ),
        },
        Stage::Finished => finish(state, state.failure),
    }
}

/// An error that is kept for the end of a run, by its view.
pub open spec fn kept(failure: Option<IngestError>) -> Option<IngestErrorView> {
    match failure {
        Some(error) => Some(error@),
        None => None,
    }
}

/// An ingestion run in progress.
pub struct Ingestion {
    sources: Vec<Source>,
    max_batch_size: usize,
    stage: Stage,
    loaded: usize,
    feed: Feed,
    rows: Vec<Vec<Field>>,
    cursor: usize,
    failure: Option<IngestError>,
}

impl View for Ingestion {
    type V = IngestionView;

    closed spec fn view(&self) -> IngestionView {
        IngestionView {
            sources: self.sources.deep_view(),
            max_batch_size: self.max_batch_size as nat,
            stage: self.stage,
            loaded: self.loaded as nat,
            feed: self.feed,
            rows: self.rows.deep_view(),
            cursor: self.cursor as nat,
            failure: kept(self.failure),
        }
    }
}

impl Ingestion {
    /// Starts a run over `sources`, to be loaded in the order given, with
    /// batches of at most `max_batch_size` tuples. The action handed back is
    /// the first to perform.
    pub fn new(sources: Vec<Source>, max_batch_size: usize) -> (started: (Ingestion, Action))
        requires
            max_batch_size > 0,
        ensures
            started.0@ == initial(sources.deep_view(), max_batch_size as nat),
            started.0@.wf(),
            started.1.deep_view() == first_action(),
    {
        let run = Ingestion {
            sources,
            max_batch_size,
            stage: Stage::Opening,
            loaded: 0,
            feed: Feed::Updates,
            rows: Vec::new(),
            cursor: 0,
            failure: None,
        };
        assert(run.rows.deep_view() =~= Seq::empty());
        (run, Action::Open { workers: 1, track_snapshot: false })
    }

    /// What the machine is waiting for.
    pub fn stage(&self) -> (stage: Stage)
        ensures
            stage == self@.stage,
    {
        self.stage
    }

    /// Whether the run is over.
    pub fn is_finished(&self) -> (over: bool)
        ensures
            over == (self@.stage == Stage::Finished),
    {
        self.stage == Stage::Finished
    }

    /// A copy of the error that is kept for the end.
    fn failure_copy(&self) -> (failure: Option<IngestError>)
        ensures
            kept(failure) == self@.failure,
    {
        match &self.failure {
            Some(error) => Some(error.clone()),
            None => None,
        }
    }

    fn abandon(&mut self, error: IngestError) -> (action: Action)
        requires
            old(self)@.wf(),
        ensures
            (final(self)@, action.deep_view()) == abandon(old(self)@, error@),
            final(self)@.wf(),
    {
        self.stage = Stage::Stopping;
        self.failure = Some(error);
        Action::Stop
    }

    fn finish(&mut self, failure: Option<IngestError>) -> (action: Action)
        requires
            old(self)@.wf(),
        ensures
            (final(self)@, action.deep_view()) == finish(old(self)@, kept(failure)),
            final(self)@.wf(),
    {
        let reported = match &failure {
            Some(error) => Some(error.clone()),
            None => None,
        };
        self.stage = Stage::Finished;
        self.failure = failure;
        Action::Finish { failure: reported }
    }

    fn proceed(&mut self) -> (action: Action)
        requires
            old(self)@.wf(),
        ensures
            (final(self)@, action.deep_view()) == proceed(old(self)@),
            final(self)@.wf(),
    {
        if self.loaded < self.sources.len() {
            match &self.sources[self.loaded] {
                Source::Bulk { relation, path } => {
                    let path = path.clone();
                    match relation_str_to_enum(relation.as_str()) {
                        Err(error) => self.abandon(error),
                        Ok(id) => {
                            self.stage = Stage::Reading;
                            self.feed = Feed::Tuples { relation: id };
                            Action::Read { path }
                        },
                    }
                },
                Source::Updates { path } => {
                    let path = path.clone();
                    self.stage = Stage::Reading;
                    self.feed = Feed::Updates;
                    Action::Read { path }
                },
            }
        } else {
            self.stage = Stage::Stopping;
            Action::Stop
        }
    }

    fn flush(&mut self) -> (action: Action)
        requires
            old(self)@.wf(),
            old(self)@.loaded < old(self)@.sources.len(),
        ensures
            (final(self)@, action.deep_view()) == flush(old(self)@),
            final(self)@.wf(),
    {
        let len = self.rows.len();
        let (end, last) = match self.feed {
            Feed::Tuples { .. } => (
                batch_end(self.cursor, len, self.max_batch_size),
                len - self.cursor < self.max_batch_size,
            ),
            Feed::Updates => (len, true),
        };
        match parse_rows(&self.rows, self.cursor, end, self.feed) {
            Err(error) => self.abandon(error),
            Ok(updates) => {
                self.stage = Stage::Flushing { last };
                self.cursor = end;
                Action::Apply { updates }
            },
        }
    }

    /// Takes the reply to the action that was handed out last, and hands out
    /// the next.
    pub fn step(&mut self, reply: Reply) -> (action: Action)
        requires
            old(self)@.wf(),
        ensures
            (final(self)@, action.deep_view()) == next(old(self)@, reply.deep_view()),
            final(self)@.wf(),
    {
        match self.stage {
            Stage::Opening => match reply {
                Reply::Delta { changes } => {
                    self.stage = Stage::Exporting;
                    Action::Export { additions: dump_delta(&changes) }
                },
                other => {
                    let diagnostic = diagnostic_of(other);
                    self.finish(Some(IngestError::EngineFailure { diagnostic }))
                },
            },
            Stage::Exporting => self.proceed(),
            Stage::Reading => match reply {
                Reply::Rows { rows } => {
                    self.stage = Stage::Beginning;
                    self.rows = rows;
                    self.cursor = 0;
                    Action::Begin
                },
                other => {
                    let path = match &self.sources[self.loaded] {
                        Source::Bulk { path, .. } => path.clone(),
                        Source::Updates { path } => path.clone(),
                    };
                    let cause = diagnostic_of(other);
                    self.abandon(IngestError::IOFailure { path, cause })
                },
            },
            Stage::Beginning => match reply {
                Reply::Done => self.flush(),
                other => {
                    let diagnostic = diagnostic_of(other);
                    self.abandon(IngestError::EngineFailure { diagnostic })
                },
            },
            Stage::Flushing { last } => match reply {
                Reply::Done => if last {
                    self.stage = Stage::Committing;
                    Action::Commit
                } else {
                    self.flush()
                },
                other => {
                    let diagnostic = diagnostic_of(other);
                    self.abandon(IngestError::EngineFailure { diagnostic })
                },
            },
            Stage::Committing => match reply {
                Reply::Delta { changes } => {
                    assert(self@.loaded < self@.sources.len());
                    assert(self.sources.deep_view().len() == self.sources.len());
                    self.stage = Stage::Exporting;
                    self.loaded = self.loaded + 1;
                    self.rows = Vec::new();
                    self.cursor = 0;
                    assert(self.rows.deep_view() =~= Seq::empty());
                    Action::Export { additions: dump_delta(&changes) }
                },
                other => {
                    let diagnostic = diagnostic_of(other);
                    self.abandon(IngestError::EngineFailure { diagnostic })
                },
            },
            Stage::Stopping => {
                let failure = self.failure_copy();
                match reply {
                    Reply::Done => self.finish(failure),
                    other => match failure {
                        Some(error) => self.finish(Some(error)),
                        None => {
                            let diagnostic = diagnostic_of(other);
                            self.finish(Some(IngestError::EngineFailure { diagnostic }))
                        },
                    },
                }
            },
            Stage::Finished => {
                let failure = self.failure_copy();
                self.finish(failure)
            },
        }
    }
}

/// The diagnostic that a reply carries, if it reports a failure.
fn diagnostic_of(reply: Reply) -> (diagnostic: String)
    ensures
        diagnostic@ == complaint(reply.deep_view()),
{
    match reply {
        Reply::Failed { diagnostic } => diagnostic,
        _ => String::new(),
    }
}

} // verus!
