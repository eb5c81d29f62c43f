//! What holds of every ingestion run, whatever the engine and the sources
//! reply.

use vstd::prelude::*;
use crate::batch::{batch, batch_count, batches, lemma_batch_bounds};
use crate::error::IngestErrorView;
use crate::ingestion::{
    complaint,
    flush,
    flush_end,
    flush_is_last,
    next,
    ActionView,
    IngestionView,
    ReplyView,
    Stage,
};
use crate::tuple::FieldView;
use crate::update::{
    lemma_rows_read_in_stretches,
    lemma_rows_read_one_by_one,
    row_update,
    rows_updates,
    Feed,
    UpdateView,
};

verus! {

/// The actions that a run in `state` hands out, one for each of `replies`.
pub open spec fn actions(state: IngestionView, replies: Seq<ReplyView>) -> Seq<ActionView>
    decreases replies.len(),
{
    if replies.len() == 0 {
        Seq::empty()
    } else {
        seq![next(state, replies.first()).1] + actions(
            next(state, replies.first()).0,
            replies.drop_first(),
        )
    }
}

/// The state of a run that was in `state` and then got `replies`.
pub open spec fn after(state: IngestionView, replies: Seq<ReplyView>) -> IngestionView
    decreases replies.len(),
{
    if replies.len() == 0 {
        state
    } else {
        after(next(state, replies.first()).0, replies.drop_first())
    }
}

/// Whether a transaction is open in `state`.
pub open spec fn in_transaction(state: IngestionView) -> bool {
    state.stage == Stage::Beginning || state.stage is Flushing || state.stage == Stage::Committing
}

/// Whether a row of the current source that has not been handed over yet
/// cannot be read.
pub open spec fn unreadable(state: IngestionView) -> bool {
    exists|i: int|
        state.cursor <= i < state.rows.len() && row_update(#[trigger] state.rows[i], state.feed)
            is Err
}

/// Whether an action makes changes visible: a commit, or an export of a
/// change set.
pub open spec fn publishes(action: ActionView) -> bool {
    action is Commit || action is Export
}

/// A step leaves a state of a run a state of a run.
pub proof fn lemma_next_keeps_wf(state: IngestionView, reply: ReplyView)
    requires
        state.wf(),
    ensures
        next(state, reply).0.wf(),
        next(state, reply).0.sources == state.sources,
        next(state, reply).0.max_batch_size == state.max_batch_size,
{
}

/// As many actions are handed out as there are replies, and the states stay
/// states of a run.
pub proof fn lemma_run_keeps_wf(state: IngestionView, replies: Seq<ReplyView>)
    requires
        state.wf(),
    ensures
        actions(state, replies).len() == replies.len(),
        after(state, replies).wf(),
    decreases replies.len(),
{
    if replies.len() > 0 {
        lemma_next_keeps_wf(state, replies.first());
        lemma_run_keeps_wf(next(state, replies.first()).0, replies.drop_first());
    }
}

/// The engine is stopped before a run ends. A run reports its end only once
/// the engine was asked to stop, or where the engine never opened; and the
/// machine waits for the engine to stop only after it has asked for that.
pub proof fn lemma_engine_is_stopped_before_the_end(state: IngestionView, reply: ReplyView)
    ensures
        next(state, reply).1 is Finish ==> state.stage == Stage::Opening || state.halting(),
        next(state, reply).0.stage == Stage::Stopping ==> next(state, reply).1 == ActionView::Stop,
        next(state, reply).1 == ActionView::Stop ==> next(state, reply).0.stage == Stage::Stopping,
        next(state, reply).0.stage == Stage::Finished ==> next(state, reply).1 is Finish,
{
}

/// A run whose engine is being stopped does nothing more: whatever it is
/// told, it only reports its end, with the error that it kept where there is
/// one, and no further source counts as loaded.
pub proof fn lemma_halting_run_only_finishes(state: IngestionView, replies: Seq<ReplyView>)
    requires
        state.halting(),
    ensures
        actions(state, replies).len() == replies.len(),
        after(state, replies).halting(),
        after(state, replies).loaded == state.loaded,
        forall|j: int|
            0 <= j < replies.len() ==> (#[trigger] actions(state, replies)[j]) is Finish,
        state.failure is Some ==> forall|j: int|
            0 <= j < replies.len() ==> (#[trigger] actions(state, replies)[j])
                == (ActionView::Finish { failure: state.failure }),
    decreases replies.len(),
{
    if replies.len() > 0 {
        lemma_halting_run_only_finishes(next(state, replies.first()).0, replies.drop_first());
    }
}

/// A transaction is all or nothing. Where a call to the engine fails inside
/// a transaction, be it the beginning, a batch or the commit, the engine is
/// stopped and nothing else is done: no further batch is handed over, nothing
/// is committed, no change set is exported, and the source does not count as
/// loaded. The run ends with the engine's diagnostic.
pub proof fn lemma_failed_transaction_publishes_nothing(
    state: IngestionView,
    replies: Seq<ReplyView>,
)
    requires
        in_transaction(state),
        replies.len() > 0,
        replies[0] is Failed,
    ensures
        actions(state, replies).len() == replies.len(),
        actions(state, replies)[0] == ActionView::Stop,
        forall|j: int|
            1 <= j < replies.len() ==> (#[trigger] actions(state, replies)[j])
                == (ActionView::Finish {
                failure: Some(IngestErrorView::EngineFailure { diagnostic: complaint(replies[0]) }),
            }),
        forall|j: int|
            0 <= j < replies.len() ==> !publishes(#[trigger] actions(state, replies)[j]),
        after(state, replies).loaded == state.loaded,
{
    let then = next(state, replies.first()).0;
    let rest = actions(then, replies.drop_first());
    lemma_halting_run_only_finishes(then, replies.drop_first());
    assert forall|j: int| 1 <= j < replies.len() implies (#[trigger] actions(state, replies)[j])
        == (ActionView::Finish {
        failure: Some(IngestErrorView::EngineFailure { diagnostic: complaint(replies[0]) }),
    }) by {
        assert(actions(state, replies)[j] == rest[j - 1]);
    }
}

/// While a row that cannot be read lies ahead, handing over a batch either
/// ends the run or leaves that row ahead, and the batch is not the last.
proof fn lemma_flush_with_unreadable_row(state: IngestionView)
    requires
        state.wf(),
        in_transaction(state),
        unreadable(state),
    ensures
        flush(state).0.halting() || (flush(state).0.stage == (Stage::Flushing { last: false })
            && unreadable(flush(state).0) && flush(state).0.wf()),
        !publishes(flush(state).1),
        flush(state).0.loaded == state.loaded,
{
    let bad = choose|i: int|
        state.cursor <= i < state.rows.len() && row_update(#[trigger] state.rows[i], state.feed)
            is Err;
    let end = flush_end(state);
    let part = state.rows.subrange(state.cursor as int, end);
    lemma_rows_read_one_by_one(part, state.feed);
    if rows_updates(part, state.feed) is Ok {
        if bad < end {
            assert(part[bad - state.cursor] == state.rows[bad]);
        }
        assert(bad >= end);
        assert(!flush_is_last(state));
        let then = flush(state).0;
        assert(then.cursor <= bad < then.rows.len() && row_update(then.rows[bad], then.feed) is Err);
    }
}

/// A source with a row that cannot be read is never committed. From the
/// moment its rows arrive, whatever the engine replies: no transaction is
/// committed and no change set exported, and the source does not count as
/// loaded.
pub proof fn lemma_unreadable_source_publishes_nothing(
    state: IngestionView,
    rows: Seq<Seq<FieldView>>,
    replies: Seq<ReplyView>,
)
    requires
        state.wf(),
        state.stage == Stage::Reading,
        exists|i: int| 0 <= i < rows.len() && row_update(#[trigger] rows[i], state.feed) is Err,
    ensures
        forall|j: int|
            0 <= j <= replies.len() ==> !publishes(
                #[trigger] actions(state, seq![ReplyView::Rows { rows }] + replies)[j],
            ),
        after(state, seq![ReplyView::Rows { rows }] + replies).loaded == state.loaded,
{
    let all = seq![ReplyView::Rows { rows }] + replies;
    let then = next(state, all.first()).0;
    assert(all.drop_first() =~= replies);
    let bad = choose|i: int| 0 <= i < rows.len() && row_update(#[trigger] rows[i], state.feed) is Err;
    assert(row_update(then.rows[bad], then.feed) is Err);
    lemma_doomed_run_publishes_nothing(then, replies);
    assert forall|j: int| 0 <= j <= replies.len() implies !publishes(
        #[trigger] actions(state, all)[j],
    ) by {
        if j > 0 {
            assert(actions(state, all)[j] == actions(then, replies)[j - 1]);
        }
    }
}

/// Whether a transaction is under way that cannot come to its commit: a row
/// that cannot be read lies ahead, or the engine is already being stopped.
pub open spec fn doomed(state: IngestionView) -> bool {
    ||| state.halting()
    ||| {
        &&& state.wf()
        &&& unreadable(state)
        &&& (state.stage == Stage::Beginning || state.stage == (Stage::Flushing { last: false }))
    }
}

/// A transaction that cannot come to its commit publishes nothing, whatever
/// it is told.
pub proof fn lemma_doomed_run_publishes_nothing(state: IngestionView, replies: Seq<ReplyView>)
    requires
        doomed(state),
    ensures
        actions(state, replies).len() == replies.len(),
        forall|j: int|
            0 <= j < replies.len() ==> !publishes(#[trigger] actions(state, replies)[j]),
        after(state, replies).loaded == state.loaded,
        doomed(after(state, replies)),
    decreases replies.len(),
{
    if replies.len() > 0 {
        let then = next(state, replies.first()).0;
        if !state.halting() {
            lemma_flush_with_unreadable_row(state);
        }
        lemma_doomed_run_publishes_nothing(then, replies.drop_first());
        assert forall|j: int| 0 <= j < replies.len() implies !publishes(
            #[trigger] actions(state, replies)[j],
        ) by {
            if j > 0 {
                assert(actions(state, replies)[j] == actions(then, replies.drop_first())[j - 1]);
            }
        }
    }
}

/// One reply gives one action, by one step.
pub proof fn lemma_one_step(state: IngestionView, reply: ReplyView)
    ensures
        actions(state, seq![reply]) == seq![next(state, reply).1],
        after(state, seq![reply]) == next(state, reply).0,
{
    let replies = seq![reply];
    assert(replies.drop_first() =~= Seq::<ReplyView>::empty());
    assert(actions(next(state, reply).0, replies.drop_first()) =~= Seq::<ActionView>::empty());
    assert(after(next(state, reply).0, replies.drop_first()) == next(state, reply).0);
    assert(actions(state, replies) =~= seq![next(state, reply).1]);
}

/// `count` replies, each that the action was done.
pub open spec fn all_done(count: nat) -> Seq<ReplyView> {
    Seq::new(count, |i: int| ReplyView::Done)
}

/// The calls by which the updates of a transaction reach the engine: one for
/// each batch, in order, and then the commit.
pub open spec fn hand_over(parts: Seq<Seq<UpdateView>>) -> Seq<ActionView> {
    Seq::new(
        parts.len() + 1,
        |i: int|
            if i < parts.len() {
                ActionView::Apply { updates: parts[i] }
            } else {
                ActionView::Commit
            },
    )
}

/// From batch `k` on, the tuples of a source whose rows can all be read reach
/// the engine batch by batch.
proof fn lemma_rest_goes_in_batches(state: IngestionView, k: int)
    requires
        state.wf(),
        state.feed is Tuples,
        state.stage == Stage::Beginning || state.stage == (Stage::Flushing { last: false }),
        rows_updates(state.rows, state.feed) is Ok,
        0 <= k < batch_count(state.rows.len(), state.max_batch_size),
        state.cursor == k * state.max_batch_size,
    ensures
        ({
            let updates = rows_updates(state.rows, state.feed)->Ok_0;
            let parts = batches(updates, state.max_batch_size);
            &&& actions(state, all_done((parts.len() + 1 - k) as nat)) == hand_over(parts).skip(k)
            &&& after(state, all_done((parts.len() + 1 - k) as nat)) == (IngestionView {
                stage: Stage::Committing,
                cursor: state.rows.len(),
                ..state
            })
        }),
    decreases batch_count(state.rows.len(), state.max_batch_size) - k,
{
    let updates = rows_updates(state.rows, state.feed)->Ok_0;
    let limit = state.max_batch_size;
    let parts = batches(updates, limit);
    let count = batch_count(state.rows.len(), limit) as int;
    lemma_rows_read_one_by_one(state.rows, state.feed);
    lemma_batch_bounds(state.rows.len(), limit, k);
    lemma_rows_read_in_stretches(state.rows, state.feed, state.cursor as int, flush_end(state));
    assert(parts.len() == count);
    assert(updates.subrange(state.cursor as int, flush_end(state)) == batch(updates, limit, k));
    let replies = all_done((count + 1 - k) as nat);
    let then = next(state, replies.first()).0;
    assert(next(state, replies.first()).1 == (ActionView::Apply { updates: parts[k] }));
    assert(replies.drop_first() =~= all_done((count - k) as nat));
    if k + 1 == count {
        assert(then.stage == (Stage::Flushing { last: true }));
        let last = replies.drop_first();
        assert(last =~= seq![ReplyView::Done]);
        lemma_one_step(then, ReplyView::Done);
        assert(actions(state, replies) =~= hand_over(parts).skip(k));
    } else {
        assert(then.stage == (Stage::Flushing { last: false }));
        lemma_rest_goes_in_batches(then, k + 1);
        assert(actions(state, replies) =~= hand_over(parts).skip(k));
    }
}

/// The tuples of a source reach the engine in batches. Where every row of a
/// source of tuples can be read and the engine takes what it is handed, the
/// calls that follow the beginning of the transaction are one for each batch
/// of the source's updates, in order, and then the commit.
pub proof fn lemma_tuples_go_in_batches(state: IngestionView)
    requires
        state.wf(),
        state.stage == Stage::Beginning,
        state.cursor == 0,
        state.feed is Tuples,
        rows_updates(state.rows, state.feed) is Ok,
    ensures
        ({
            let updates = rows_updates(state.rows, state.feed)->Ok_0;
            let parts = batches(updates, state.max_batch_size);
            &&& actions(state, all_done(parts.len() + 1)) == hand_over(parts)
            &&& after(state, all_done(parts.len() + 1)).stage == Stage::Committing
        }),
{
    let updates = rows_updates(state.rows, state.feed)->Ok_0;
    let parts = batches(updates, state.max_batch_size);
    lemma_rows_read_one_by_one(state.rows, state.feed);
    assert(0 * state.max_batch_size == 0) by (nonlinear_arith);
    lemma_rest_goes_in_batches(state, 0);
    assert(hand_over(parts).skip(0) =~= hand_over(parts));
}

/// The updates of an update source reach the engine all at once. Where every
/// row can be read and the engine takes what it is handed, the calls that
/// follow the beginning of the transaction are one with all the updates, in
/// the order of the rows, and then the commit.
pub proof fn lemma_updates_go_at_once(state: IngestionView)
    requires
        state.wf(),
        state.stage == Stage::Beginning,
        state.cursor == 0,
        state.feed == Feed::Updates,
        rows_updates(state.rows, state.feed) is Ok,
    ensures
        actions(state, all_done(2)) == seq![
            ActionView::Apply { updates: rows_updates(state.rows, state.feed)->Ok_0 },
            ActionView::Commit,
        ],
        after(state, all_done(2)).stage == Stage::Committing,
{
    let replies = all_done(2);
    let then = next(state, replies.first()).0;
    assert(state.rows.subrange(0, state.rows.len() as int) =~= state.rows);
    let last = replies.drop_first();
    assert(last =~= seq![ReplyView::Done]);
    lemma_one_step(then, ReplyView::Done);
    assert(actions(state, replies) =~= seq![
        ActionView::Apply { updates: rows_updates(state.rows, state.feed)->Ok_0 },
        ActionView::Commit,
    ]);
}

} // verus!
