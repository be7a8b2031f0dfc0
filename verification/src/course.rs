//! What holds of a run as it goes on.
use crate::options::UpgradeView;
use crate::run::{server_end, OutcomeView, RunView};
use crate::task::{ActionView, ReplyView, TaskView};
use vstd::prelude::*;

verus! {

/// The run after the replies, one after the other.
pub open spec fn after_all(run: RunView, replies: Seq<ReplyView>) -> RunView
    decreases replies.len(),
{
    if replies.len() == 0 {
        run
    } else {
        after_all(run, replies.drop_last()).after(replies.last())
    }
}

/// A run that began with the options, after the replies.
pub open spec fn reached(options: UpgradeView, replies: Seq<ReplyView>) -> RunView {
    after_all(RunView::start(options), replies)
}

/// Replies that come later go on from where the earlier ones have led.
pub proof fn law_run_goes_on(run: RunView, earlier: Seq<ReplyView>, later: Seq<ReplyView>)
    ensures
        after_all(run, earlier + later) == after_all(after_all(run, earlier), later),
    decreases later.len(),
{
    if later.len() == 0 {
        assert(earlier + later =~= earlier);
    } else {
        law_run_goes_on(run, earlier, later.drop_last());
        assert((earlier + later).drop_last() =~= earlier + later.drop_last());
        assert((earlier + later).last() == later.last());
    }
}

/// The options of a run never change, and a run that has failed stays failed.
pub proof fn law_options_and_failure_stay(run: RunView, replies: Seq<ReplyView>)
    ensures
        after_all(run, replies).options == run.options,
        run.failure is Some ==> after_all(run, replies).failure is Some,
    decreases replies.len(),
{
    if replies.len() > 0 {
        law_options_and_failure_stay(run, replies.drop_last());
    }
}

/// Tasks are done in order: unless the run fails, those that come second are
/// left as they are until the first ones are done.
pub proof fn law_tasks_are_done_in_order(
    run: RunView,
    first: Seq<TaskView>,
    second: Seq<TaskView>,
    replies: Seq<ReplyView>,
)
    requires
        run.tasks == first + second,
        run.failure is None,
    ensures
        ({
            ||| after_all(run, replies).failure is Some
            ||| exists|left: Seq<TaskView>|
                after_all(run, replies).tasks == #[trigger] (left + second)
            ||| exists|n: int|
                0 <= n <= replies.len() && #[trigger] after_all(run, replies.take(n)) == (RunView {
                    tasks: second,
                    ..run
                })
        }),
    decreases replies.len(),
{
    let end = after_all(run, replies);
    if replies.len() == 0 {
        assert(end.tasks == first + second);
    } else {
        let earlier = replies.drop_last();
        let before = after_all(run, earlier);
        law_tasks_are_done_in_order(run, first, second, earlier);
        law_options_and_failure_stay(run, earlier);
        if before.failure is Some {
        } else if exists|left: Seq<TaskView>| before.tasks == #[trigger] (left + second) {
            let left = choose|left: Seq<TaskView>| before.tasks == #[trigger] (left + second);
            if left.len() == 0 {
                assert(left + second =~= second);
                assert(replies.take(earlier.len() as int) =~= earlier);
                assert(before =~= RunView { tasks: second, ..run });
                assert(after_all(run, replies.take(earlier.len() as int)) == (RunView {
                    tasks: second,
                    ..run
                }));
            } else {
                assert(before.tasks[0] == left[0]);
                match before.tasks[0].outcome(before.options, replies.last()) {
                    OutcomeView::Next(tasks) => {
                        assert(tasks + before.tasks.drop_first() =~= (tasks + left.drop_first())
                            + second);
                    },
                    OutcomeView::Failure(_) => {},
                    OutcomeView::Unfit => {
                        assert(end.tasks == left + second);
                    },
                }
            }
        } else {
            let n = choose|n: int|
                0 <= n <= earlier.len() && #[trigger] after_all(run, earlier.take(n)) == (RunView {
                    tasks: second,
                    ..run
                });
            assert(replies.take(n) =~= earlier.take(n));
            assert(after_all(run, replies.take(n)) == (RunView { tasks: second, ..run }));
        }
    }
}

pub proof fn lemma_server_end(tasks: Seq<TaskView>)
    ensures
        server_end(tasks).len() <= 1,
        forall|i: int| 0 <= i < server_end(tasks).len() ==> (#[trigger] server_end(
            tasks,
        )[i]).work is EndServer,
    decreases tasks.len(),
{
    if tasks.len() > 0 {
        lemma_server_end(tasks.drop_first());
    }
}

/// After a failure nothing more is asked for, except that a running server is
/// ended; and what was being done when the run failed is kept.
pub proof fn law_failure_ends_the_run(options: UpgradeView, replies: Seq<ReplyView>)
    ensures
        reached(options, replies).failure is Some ==> {
            ||| reached(options, replies).pending() is None
            ||| reached(options, replies).pending() == Some(ActionView::EndServer)
        },
        reached(options, replies).failure is Some ==> forall|reply: ReplyView|
            (#[trigger] reached(options, replies).after(reply)).failure == reached(
                options,
                replies,
            ).failure,
{
    lemma_failed_run(options, replies);
    let run = reached(options, replies);
    if run.failure is Some {
        assert forall|reply: ReplyView| (#[trigger] run.after(reply)).failure == run.failure by {
            if run.tasks.len() > 0 {
                assert(run.tasks[0].work is EndServer);
            }
        }
    }
}

proof fn lemma_failed_run(options: UpgradeView, replies: Seq<ReplyView>)
    ensures
        reached(options, replies).failure is Some ==> {
            &&& reached(options, replies).tasks.len() <= 1
            &&& forall|i: int|
                0 <= i < reached(options, replies).tasks.len() ==> (#[trigger] reached(
                    options,
                    replies,
                ).tasks[i]).work is EndServer
        },
    decreases replies.len(),
{
    if replies.len() > 0 {
        lemma_failed_run(options, replies.drop_last());
        let before = reached(options, replies.drop_last());
        lemma_server_end(before.tasks);
        if before.failure is Some && before.tasks.len() > 0 {
            assert(before.tasks[0].work is EndServer);
            assert(before.tasks.drop_first().len() == 0);
        }
    }
}

/// A run that is over stays as it is.
pub proof fn law_end_is_final(run: RunView, replies: Seq<ReplyView>)
    requires
        run.pending() is None,
    ensures
        after_all(run, replies) == run,
    decreases replies.len(),
{
    if replies.len() > 0 {
        law_end_is_final(run, replies.drop_last());
    }
}

} // verus!
