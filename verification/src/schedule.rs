//! The scrape loop: scrape, wait five seconds, and again, until shut down.
use vstd::prelude::*;
use crate::errors::ScraperError;

verus! {

/// The seconds waited between two scrapes.
pub const SCRAPE_INTERVAL_SECS: u64 = 5;

/// What the loop does with a failed scrape.
#[derive(Clone, Copy, Debug, PartialEq, Eq, Structural)]
pub enum ErrorPolicy {
    /// End the loop with the error.
    Propagate,
    /// Report the error and go on; also look for a pending shutdown before
    /// each scrape.
    Report,
}

/// What the loop learns.
#[derive(Debug)]
pub enum LoopEvent {
    /// Whether a shutdown request was pending when looked for.
    ShutdownPolled(bool),
    /// A scrape ended, well or with an error.
    Scraped(Result<(), ScraperError>),
    /// The wait between scrapes ran out.
    Slept,
    /// A shutdown request arrived during the wait.
    ShutdownReceived,
}

/// What the loop asks to be done next.
#[derive(Debug)]
pub enum LoopAction {
    /// Look for a pending shutdown request.
    PollShutdown,
    /// Scrape the page and publish its records.
    Scrape,
    /// Wait for the interval, or for a shutdown request.
    Sleep,
    /// Report this failed scrape, then wait.
    ReportThenSleep(ScraperError),
    /// End the loop with this outcome.
    Finish(Result<(), ScraperError>),
}

/// The first thing the loop does.
pub open spec fn loop_start(policy: ErrorPolicy) -> LoopAction {
    match policy {
        ErrorPolicy::Propagate => LoopAction::Scrape,
        ErrorPolicy::Report => LoopAction::PollShutdown,
    }
}

/// What the loop does after `event`.
pub open spec fn loop_next(policy: ErrorPolicy, event: LoopEvent) -> LoopAction {
    match event {
        LoopEvent::ShutdownPolled(pending) => if pending {
            LoopAction::Finish(Ok(()))
        } else {
            LoopAction::Scrape
        },
        LoopEvent::Scraped(outcome) => match outcome {
            Ok(()) => LoopAction::Sleep,
            Err(e) => match policy {
                ErrorPolicy::Propagate => LoopAction::Finish(Err(e)),
                ErrorPolicy::Report => LoopAction::ReportThenSleep(e),
            },
        },
        LoopEvent::Slept => loop_start(policy),
        LoopEvent::ShutdownReceived => LoopAction::Finish(Ok(())),
    }
}

/// The first thing the loop does: scrape, or first look for a pending shutdown.
pub fn start(policy: ErrorPolicy) -> (action: LoopAction)
    ensures
        action == loop_start(policy),
{
    match policy {
        ErrorPolicy::Propagate => LoopAction::Scrape,
        ErrorPolicy::Report => LoopAction::PollShutdown,
    }
}

/// What the loop does after `event`.
pub fn next(policy: ErrorPolicy, event: LoopEvent) -> (action: LoopAction)
    ensures
        action == loop_next(policy, event),
{
    match event {
        LoopEvent::ShutdownPolled(pending) => if pending {
            LoopAction::Finish(Ok(()))
        } else {
            LoopAction::Scrape
        },
        LoopEvent::Scraped(outcome) => match outcome {
            Ok(()) => LoopAction::Sleep,
            Err(e) => match policy {
                ErrorPolicy::Propagate => LoopAction::Finish(Err(e)),
                ErrorPolicy::Report => LoopAction::ReportThenSleep(e),
            },
        },
        LoopEvent::Slept => start(policy),
        LoopEvent::ShutdownReceived => LoopAction::Finish(Ok(())),
    }
}

/// A loop that reports failed scrapes never ends with an error, and ends only
/// on a shutdown request.
pub proof fn law_reporting_loop_ends_only_on_shutdown(event: LoopEvent)
    ensures
        !(loop_next(ErrorPolicy::Report, event) matches LoopAction::Finish(Err(_))),
        loop_next(ErrorPolicy::Report, event) is Finish ==> (event is ShutdownReceived || event
            == LoopEvent::ShutdownPolled(true)),
{
}

/// A loop that propagates failed scrapes ends with the first error, as it is.
pub proof fn law_propagating_loop_ends_with_the_error(e: ScraperError)
    ensures
        loop_next(ErrorPolicy::Propagate, LoopEvent::Scraped(Err(e))) == LoopAction::Finish(Err(e)),
{
}

/// A shutdown request during the wait always ends the loop, successfully.
pub proof fn law_shutdown_ends_the_loop(policy: ErrorPolicy)
    ensures
        loop_next(policy, LoopEvent::ShutdownReceived) == LoopAction::Finish(Ok(())),
{
}

/// Whether `event` is what the loop can learn after asking for `action`: the
/// outcome of a poll, of a scrape, or of a wait; nothing follows the end.
pub open spec fn answers(action: LoopAction, event: LoopEvent) -> bool {
    match action {
        LoopAction::PollShutdown => event is ShutdownPolled,
        LoopAction::Scrape => event is Scraped,
        LoopAction::Sleep => event is Slept || event is ShutdownReceived,
        LoopAction::ReportThenSleep(_) => event is Slept || event is ShutdownReceived,
        LoopAction::Finish(_) => false,
    }
}

/// The actions of a run of the loop that learns `events` in turn: the first
/// action, then the action after each event.
pub open spec fn run_actions(policy: ErrorPolicy, events: Seq<LoopEvent>) -> Seq<LoopAction>
    decreases events.len(),
{
    if events.len() == 0 {
        seq![loop_start(policy)]
    } else {
        run_actions(policy, events.drop_last()).push(loop_next(policy, events.last()))
    }
}

/// Whether `events` can happen in a run: each answers the action it follows.
pub open spec fn is_run(policy: ErrorPolicy, events: Seq<LoopEvent>) -> bool {
    forall|i: int| 0 <= i < events.len() ==> answers(#[trigger] run_actions(policy, events)[i], events[i])
}

/// Whether a shutdown request is pending from step `from` on: every poll and
/// every wait from there finds it.
pub open spec fn shutdown_pending_from(policy: ErrorPolicy, events: Seq<LoopEvent>, from: int) -> bool {
    forall|m: int|
        from <= m < events.len() ==> match #[trigger] run_actions(policy, events)[m] {
            LoopAction::PollShutdown => events[m] == LoopEvent::ShutdownPolled(true),
            LoopAction::Sleep => events[m] is ShutdownReceived,
            LoopAction::ReportThenSleep(_) => events[m] is ShutdownReceived,
            _ => true,
        }
}

proof fn lemma_run_shape(policy: ErrorPolicy, events: Seq<LoopEvent>)
    ensures
        run_actions(policy, events).len() == events.len() + 1,
        run_actions(policy, events)[0] == loop_start(policy),
        forall|i: int|
            0 <= i < events.len() ==> #[trigger] run_actions(policy, events)[i + 1] == loop_next(
                policy,
                events[i],
            ),
    decreases events.len(),
{
    if events.len() > 0 {
        let init = events.drop_last();
        lemma_run_shape(policy, init);
        assert forall|i: int| 0 <= i < events.len() implies #[trigger] run_actions(policy, events)[i
            + 1] == loop_next(policy, events[i]) by {
            if i < init.len() {
                assert(run_actions(policy, events)[i + 1] == run_actions(policy, init)[i + 1]);
                assert(events[i] == init[i]);
            }
        }
    }
}

/// Every scrape but the first comes right after a wait that ran its course:
/// directly after it when failures are propagated, and after a poll that
/// found no shutdown when failures are reported.
pub proof fn law_scrape_follows_completed_wait(policy: ErrorPolicy, events: Seq<LoopEvent>, k: int)
    requires
        is_run(policy, events),
        0 < k < run_actions(policy, events).len(),
        run_actions(policy, events)[k] is Scrape,
    ensures
        policy == ErrorPolicy::Propagate ==> events[k - 1] == LoopEvent::Slept,
        policy == ErrorPolicy::Report ==> events[k - 1] == LoopEvent::ShutdownPolled(false) && (k
            == 1 || events[k - 2] == LoopEvent::Slept),
{
    lemma_run_shape(policy, events);
    let actions = run_actions(policy, events);
    assert(actions[(k - 1) + 1] == loop_next(policy, events[k - 1]));
    if policy == ErrorPolicy::Report {
        assert(answers(actions[k - 1], events[k - 1]));
        if k >= 2 {
            assert(actions[(k - 2) + 1] == loop_next(policy, events[k - 2]));
        }
    }
}

/// Between any two scrapes of a run lies a wait that ran its full interval
/// (a `Slept` answer to a request to wait).
pub proof fn law_scrapes_are_separated_by_a_wait(
    policy: ErrorPolicy,
    events: Seq<LoopEvent>,
    j: int,
    k: int,
)
    requires
        is_run(policy, events),
        0 <= j < k < run_actions(policy, events).len(),
        run_actions(policy, events)[j] is Scrape,
        run_actions(policy, events)[k] is Scrape,
    ensures
        exists|m: int|
            j < m < k && events[m] == LoopEvent::Slept && (#[trigger] run_actions(policy, events)[m] is Sleep
                || run_actions(policy, events)[m] is ReportThenSleep),
{
    lemma_run_shape(policy, events);
    let actions = run_actions(policy, events);
    law_scrape_follows_completed_wait(policy, events, k);
    assert(answers(actions[j], events[j]));
    if policy == ErrorPolicy::Propagate {
        let m = k - 1;
        assert(answers(actions[m], events[m]));
        assert(j < m);
    } else {
        assert(actions[0] == LoopAction::PollShutdown);
        let m = k - 2;
        assert(answers(actions[k - 1], events[k - 1]));
        assert(actions[k - 1] is PollShutdown);
        assert(k >= 2);
        assert(answers(actions[m], events[m]));
        assert(j != k - 1);
        assert(j < m);
    }
}

/// Once a shutdown request is pending, no scrape starts any more: the loop
/// ends as soon as the scrape running at that moment, if any, is over (at
/// most two answers later), and successfully unless that scrape failed and
/// failures are propagated.
pub proof fn law_shutdown_is_honoured(policy: ErrorPolicy, events: Seq<LoopEvent>, i: int)
    requires
        is_run(policy, events),
        0 <= i < events.len(),
        shutdown_pending_from(policy, events, i),
    ensures
        run_actions(policy, events).len() <= i + 3,
        forall|j: int|
            i < j < run_actions(policy, events).len() ==> !(#[trigger] run_actions(
                policy,
                events,
            )[j] is Scrape),
        events.len() >= i + 2 ==> run_actions(policy, events).last() is Finish,
        (forall|m: int| i <= m < events.len() ==> !(#[trigger] events[m] matches LoopEvent::Scraped(Err(_))))
            ==> forall|j: int|
            i < j < run_actions(policy, events).len() && (#[trigger] run_actions(policy, events)[j] is Finish)
                ==> run_actions(policy, events)[j] == LoopAction::Finish(Ok(())),
{
    lemma_run_shape(policy, events);
    let actions = run_actions(policy, events);
    assert(answers(actions[i], events[i]));
    assert(actions[i + 1] == loop_next(policy, events[i]));
    if events.len() > i + 1 {
        let n = i + 1;
        assert(answers(actions[n], events[n]));
        assert(actions[n + 1] == loop_next(policy, events[n]));
        assert(!(actions[n] is Scrape));
        assert(actions[n + 1] is Finish);
        if events.len() > n + 1 {
            assert(answers(actions[n + 1], events[n + 1]));
        }
        assert(actions.last() == actions[n + 1]);
    } else {
        assert(actions.last() == actions[i + 1]);
    }
}

/// What publishing the records of one scrape asks to be done next.
#[derive(Debug)]
pub enum PublishAction {
    /// Send the record at this index.
    Send(usize),
    /// Stop publishing, with this outcome.
    Finish(Result<(), ScraperError>),
}

/// The first step of publishing `count` records.
pub open spec fn publish_first(count: usize) -> PublishAction {
    if count == 0 {
        PublishAction::Finish(Ok(()))
    } else {
        PublishAction::Send(0)
    }
}

/// The step after sending record `index` of `count`, given how the sending went.
pub open spec fn publish_after(count: usize, index: usize, outcome: Result<(), ScraperError>) -> PublishAction {
    match outcome {
        Ok(()) => if index + 1 < count {
            PublishAction::Send((index + 1) as usize)
        } else {
            PublishAction::Finish(Ok(()))
        },
        Err(e) => PublishAction::Finish(Err(e)),
    }
}

/// The first step of publishing `count` records: send the first, or stop
/// when there is none.
pub fn publish_start(count: usize) -> (action: PublishAction)
    ensures
        action == publish_first(count),
{
    if count == 0 {
        PublishAction::Finish(Ok(()))
    } else {
        PublishAction::Send(0)
    }
}

/// The step after sending record `index` of `count`: the next record, or the
/// end, or the first failure.
pub fn publish_next(count: usize, index: usize, outcome: Result<(), ScraperError>) -> (action: PublishAction)
    requires
        index < count,
    ensures
        action == publish_after(count, index, outcome),
{
    match outcome {
        Ok(()) => if index + 1 < count {
            PublishAction::Send(index + 1)
        } else {
            PublishAction::Finish(Ok(()))
        },
        Err(e) => PublishAction::Finish(Err(e)),
    }
}

/// The steps of publishing `count` records whose sendings go as `outcomes`.
pub open spec fn publish_run(count: usize, outcomes: Seq<Result<(), ScraperError>>) -> Seq<PublishAction>
    decreases outcomes.len(),
{
    if outcomes.len() == 0 {
        seq![publish_first(count)]
    } else {
        let before = publish_run(count, outcomes.drop_last());
        before.push(
            match before.last() {
                PublishAction::Send(i) => publish_after(count, i, outcomes.last()),
                PublishAction::Finish(r) => PublishAction::Finish(r),
            },
        )
    }
}

/// Whether `outcomes` can happen: each answers a request to send.
pub open spec fn is_publish_run(count: usize, outcomes: Seq<Result<(), ScraperError>>) -> bool {
    forall|i: int| 0 <= i < outcomes.len() ==> #[trigger] publish_run(count, outcomes)[i] is Send
}

proof fn lemma_publish_shape(count: usize, outcomes: Seq<Result<(), ScraperError>>)
    ensures
        publish_run(count, outcomes).len() == outcomes.len() + 1,
        publish_run(count, outcomes)[0] == publish_first(count),
        forall|i: int|
            0 <= i < outcomes.len() ==> #[trigger] publish_run(count, outcomes)[i + 1] == match publish_run(
                count,
                outcomes,
            )[i] {
                PublishAction::Send(k) => publish_after(count, k, outcomes[i]),
                PublishAction::Finish(r) => PublishAction::Finish(r),
            },
    decreases outcomes.len(),
{
    if outcomes.len() > 0 {
        let init = outcomes.drop_last();
        lemma_publish_shape(count, init);
        let run = publish_run(count, outcomes);
        assert forall|i: int| 0 <= i < outcomes.len() implies #[trigger] run[i + 1] == match run[i] {
            PublishAction::Send(k) => publish_after(count, k, outcomes[i]),
            PublishAction::Finish(r) => PublishAction::Finish(r),
        } by {
            if i < init.len() {
                assert(run[i + 1] == publish_run(count, init)[i + 1]);
                assert(run[i] == publish_run(count, init)[i]);
                assert(outcomes[i] == init[i]);
            } else {
                assert(run[i] == publish_run(count, init).last());
            }
        }
    }
}

/// Records are sent in order, each once: the `i`th sending is of record `i`,
/// and every sending but the last went well.
pub proof fn law_records_sent_in_order(count: usize, outcomes: Seq<Result<(), ScraperError>>)
    requires
        is_publish_run(count, outcomes),
    ensures
        forall|i: int|
            0 <= i < outcomes.len() ==> #[trigger] publish_run(count, outcomes)[i] == PublishAction::Send(
                i as usize,
            ) && i < count,
        forall|i: int| 0 <= i < outcomes.len() - 1 ==> (#[trigger] outcomes[i]) is Ok,
    decreases outcomes.len(),
{
    lemma_publish_shape(count, outcomes);
    let run = publish_run(count, outcomes);
    if outcomes.len() > 0 {
        let init = outcomes.drop_last();
        lemma_publish_shape(count, init);
        assert forall|i: int| 0 <= i < init.len() implies #[trigger] publish_run(count, init)[i] is Send by {
            assert(publish_run(count, init)[i] == run[i]);
        }
        law_records_sent_in_order(count, init);
        let n = outcomes.len() - 1;
        assert(run[n] is Send);
        if n > 0 {
            let p = n - 1;
            assert(publish_run(count, init)[p] == run[p]);
            assert(run[p] == PublishAction::Send(p as usize));
            assert(outcomes[p] == init[p]);
            assert(run[p + 1] == publish_after(count, p as usize, outcomes[p]));
        }
        assert forall|i: int| 0 <= i < outcomes.len() - 1 implies (#[trigger] outcomes[i]) is Ok by {
            if i < n - 1 {
                assert(outcomes[i] == init[i]);
            } else {
                assert(run[i] == PublishAction::Send(i as usize));
                assert(run[i + 1] == publish_after(count, i as usize, outcomes[i]));
            }
        }
    }
}

/// Publishing stops at the first failed sending, with its error; when every
/// record was sent well, it ends successfully.
pub proof fn law_publishing_stops_at_first_failure(count: usize, outcomes: Seq<Result<(), ScraperError>>)
    requires
        is_publish_run(count, outcomes),
    ensures
        outcomes.len() > 0 && outcomes.last() is Err ==> publish_run(count, outcomes).last()
            == PublishAction::Finish(Err(outcomes.last()->Err_0)),
        outcomes.len() == count && (forall|i: int| 0 <= i < outcomes.len() ==> (#[trigger] outcomes[i]) is Ok)
            ==> publish_run(count, outcomes).last() == PublishAction::Finish(Ok(())),
{
    lemma_publish_shape(count, outcomes);
    law_records_sent_in_order(count, outcomes);
    let run = publish_run(count, outcomes);
    if outcomes.len() > 0 {
        let n = outcomes.len() - 1;
        assert(run[n] == PublishAction::Send(n as usize));
        assert(run[n + 1] == publish_after(count, n as usize, outcomes[n]));
        assert(run.last() == run[n + 1]);
    }
}

/// After record `index` of `count` was sent well, the next record is sent
/// when there is one, and publishing ends successfully after the last.
pub proof fn law_next_record_follows_a_good_sending(count: usize, index: usize)
    requires
        index < count,
    ensures
        index + 1 < count ==> publish_after(count, index, Ok(())) == PublishAction::Send(
            (index + 1) as usize,
        ),
        index + 1 == count ==> publish_after(count, index, Ok(())) == PublishAction::Finish(Ok(())),
{
}

/// When every sending goes well, each record is sent in turn: after `m < count`
/// good sendings the next step sends record `m`; after `count` of them
/// publishing ends successfully.
pub proof fn law_all_records_sent_when_sendings_succeed(
    count: usize,
    outcomes: Seq<Result<(), ScraperError>>,
)
    requires
        outcomes.len() <= count,
        forall|i: int| 0 <= i < outcomes.len() ==> (#[trigger] outcomes[i]) is Ok,
    ensures
        is_publish_run(count, outcomes),
        forall|i: int|
            0 <= i < outcomes.len() ==> #[trigger] publish_run(count, outcomes)[i] == PublishAction::Send(
                i as usize,
            ),
        outcomes.len() < count ==> publish_run(count, outcomes).last() == PublishAction::Send(
            outcomes.len() as usize,
        ),
        outcomes.len() == count ==> publish_run(count, outcomes).last() == PublishAction::Finish(Ok(())),
    decreases outcomes.len(),
{
    lemma_publish_shape(count, outcomes);
    let run = publish_run(count, outcomes);
    if outcomes.len() > 0 {
        let init = outcomes.drop_last();
        assert forall|i: int| 0 <= i < init.len() implies (#[trigger] init[i]) is Ok by {
            assert(init[i] == outcomes[i]);
        }
        law_all_records_sent_when_sendings_succeed(count, init);
        lemma_publish_shape(count, init);
        let n = init.len() as int;
        assert forall|i: int| 0 <= i <= n implies #[trigger] run[i] == publish_run(count, init)[i] by {
        }
        assert(run[n] == PublishAction::Send(n as usize));
        assert(outcomes[n] is Ok);
        assert(run[n + 1] == publish_after(count, n as usize, outcomes[n]));
        assert(run.last() == run[n + 1]);
    } else {
        assert(run.last() == run[0]);
    }
}

} // verus!
