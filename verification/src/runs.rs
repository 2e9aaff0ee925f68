//! What holds of every run of the download machine, whatever the host
//! reports.

use vstd::prelude::*;
use crate::pipeline::coherent;
use crate::pipeline::next;
use crate::pipeline::segment_index;
use crate::pipeline::ActionView;
use crate::pipeline::EventView;
use crate::pipeline::PipelineView;
use crate::pipeline::StageView;

verus! {

/// The state that `events`, taken in order, lead to from `state`.
pub open spec fn state_after(state: PipelineView, events: Seq<EventView>) -> PipelineView
    decreases events.len(),
{
    if events.len() == 0 {
        state
    } else {
        next(state_after(state, events.drop_last()), events.last()).0
    }
}

/// The action that answers event `i` of a run from `state`.
pub open spec fn action_at(state: PipelineView, events: Seq<EventView>, i: int) -> ActionView {
    next(state_after(state, events.subrange(0, i)), events[i]).1
}

/// The key of `url` will not be asked for: the cache holds it, or it is
/// being fetched, or the download has ended.
pub open spec fn key_settled(state: PipelineView, url: Seq<char>) -> bool {
    ||| state.keys.contains_key(url)
    ||| state.stage is Finished
    ||| (state.stage matches StageView::KeyData(i, _) && state.segments[i as int].encryption.unwrap().key_url
        == url)
}

/// A key that is settled is not asked for and stays settled; a key that is
/// asked for is settled from then on. No key leaves the cache.
pub proof fn law_step_settles_keys(state: PipelineView, event: EventView, url: Seq<char>)
    ensures
        key_settled(state, url) ==> next(state, event).1 != ActionView::GetKey(url),
        key_settled(state, url) ==> key_settled(next(state, event).0, url),
        next(state, event).1 == ActionView::GetKey(url) ==> key_settled(
            next(state, event).0,
            url,
        ),
        next(state, event).1 == ActionView::GetKey(url) ==> !state.keys.contains_key(url),
        state.keys.contains_key(url) ==> next(state, event).0.keys.contains_key(url),
{
}

/// A state that makes sense is followed by one that does.
pub proof fn law_step_stays_coherent(state: PipelineView, event: EventView)
    requires
        coherent(state),
    ensures
        coherent(next(state, event).0),
{
}

/// A key in the cache keeps its bytes: from a state that makes sense no
/// step changes what the cache holds for an address, it only adds keys for
/// addresses that it did not hold.
pub proof fn law_step_keeps_key_bytes(state: PipelineView, event: EventView, url: Seq<char>)
    requires
        coherent(state),
        state.keys.contains_key(url),
    ensures
        next(state, event).0.keys.contains_key(url),
        next(state, event).0.keys[url] == state.keys[url],
{
}

/// In a run from a state that makes sense every state makes sense, and a
/// key once in the cache is there with the same bytes ever after.
pub proof fn law_keys_stay_as_fetched(
    state: PipelineView,
    events: Seq<EventView>,
    url: Seq<char>,
)
    requires
        coherent(state),
        state.keys.contains_key(url),
    ensures
        coherent(state_after(state, events)),
        state_after(state, events).keys.contains_key(url),
        state_after(state, events).keys[url] == state.keys[url],
    decreases events.len(),
{
    if events.len() > 0 {
        law_keys_stay_as_fetched(state, events.drop_last(), url);
        let before = state_after(state, events.drop_last());
        law_step_stays_coherent(before, events.last());
        law_step_keeps_key_bytes(before, events.last(), url);
    }
}

/// Once settled, a key is never asked for in the rest of a run.
proof fn lemma_settled_for_good(
    state: PipelineView,
    events: Seq<EventView>,
    url: Seq<char>,
    from: int,
    n: int,
)
    requires
        0 <= from <= n <= events.len(),
        key_settled(state_after(state, events.subrange(0, from)), url),
    ensures
        key_settled(state_after(state, events.subrange(0, n)), url),
        forall|j: int| from <= j < n ==> action_at(state, events, j) != ActionView::GetKey(url),
    decreases n - from,
{
    if from < n {
        lemma_settled_for_good(state, events, url, from, n - 1);
        assert(events.subrange(0, n).drop_last() =~= events.subrange(0, n - 1));
        assert(events.subrange(0, n).last() == events[n - 1]);
        law_step_settles_keys(state_after(state, events.subrange(0, n - 1)), events[n - 1], url);
    }
}

/// No key is fetched twice.
///
/// In a run from any state, whatever events the host hands in, the actions
/// that ask for a key all name different addresses: two segments under one
/// key cost one fetch.
pub proof fn law_each_key_fetched_once(
    state: PipelineView,
    events: Seq<EventView>,
    i: int,
    j: int,
    url: Seq<char>,
)
    requires
        0 <= i < j < events.len(),
        action_at(state, events, i) == ActionView::GetKey(url),
    ensures
        action_at(state, events, j) != ActionView::GetKey(url),
{
    let at = state_after(state, events.subrange(0, i));
    law_step_settles_keys(at, events[i], url);
    assert(events.subrange(0, i + 1).drop_last() =~= events.subrange(0, i));
    assert(events.subrange(0, i + 1).last() == events[i]);
    lemma_settled_for_good(state, events, url, i + 1, j + 1);
}

/// A key is asked for only while the cache does not hold it.
pub proof fn law_key_asked_when_missing(state: PipelineView, events: Seq<EventView>, i: int)
    requires
        0 <= i < events.len(),
        action_at(state, events, i) is GetKey,
    ensures
        !state_after(state, events.subrange(0, i)).keys.contains_key(
            action_at(state, events, i)->GetKey_0,
        ),
{
    law_step_settles_keys(
        state_after(state, events.subrange(0, i)),
        events[i],
        action_at(state, events, i)->GetKey_0,
    );
}

/// The reports made so far reach `completed` of `total`, and the download
/// has come too far for the number of segments to change.
pub open spec fn reported_up_to(state: PipelineView, completed: nat, total: nat) -> bool {
    ||| state.stage is Finished
    ||| (segment_index(state.stage) matches Some(i) && i + 1 >= completed && state.segments.len()
        == total)
}

/// Every report counts the segment taken up: it says `i + 1` of the number
/// of segments when segment `i` is taken up, which is at least 1 and at
/// most that number. After it the reports go on from there.
pub proof fn law_step_reports_in_order(
    state: PipelineView,
    event: EventView,
    completed: nat,
    total: nat,
)
    ensures
        next(state, event).1 == (ActionView::Report { completed, total }) ==> {
            &&& 1 <= completed <= total
            &&& total == next(state, event).0.segments.len()
            &&& next(state, event).0.stage == StageView::Reported((completed - 1) as nat)
            &&& reported_up_to(next(state, event).0, completed, total)
        },
        reported_up_to(state, completed, total) ==> reported_up_to(
            next(state, event).0,
            completed,
            total,
        ),
        reported_up_to(state, completed, total) ==> (next(state, event).1 matches ActionView::Report {
            completed: c,
            total: t,
        } ==> c > completed && t == total),
{
}

/// What has been reported stays reported, and later reports count higher.
proof fn lemma_reports_go_on(
    state: PipelineView,
    events: Seq<EventView>,
    completed: nat,
    total: nat,
    from: int,
    n: int,
)
    requires
        0 <= from <= n <= events.len(),
        reported_up_to(state_after(state, events.subrange(0, from)), completed, total),
    ensures
        reported_up_to(state_after(state, events.subrange(0, n)), completed, total),
        forall|j: int|
            from <= j < n ==> (#[trigger] action_at(state, events, j) matches ActionView::Report {
                completed: c,
                total: t,
            } ==> c > completed && t == total),
    decreases n - from,
{
    if from < n {
        lemma_reports_go_on(state, events, completed, total, from, n - 1);
        assert(events.subrange(0, n).drop_last() =~= events.subrange(0, n - 1));
        assert(events.subrange(0, n).last() == events[n - 1]);
        law_step_reports_in_order(
            state_after(state, events.subrange(0, n - 1)),
            events[n - 1],
            completed,
            total,
        );
    }
}

/// Progress never goes back.
///
/// In a run from any state, of two reports the later one counts more
/// segments completed, of the same total; and every report counts at least
/// one segment and at most the total.
pub proof fn law_progress_increases(
    state: PipelineView,
    events: Seq<EventView>,
    i: int,
    j: int,
)
    requires
        0 <= i < j < events.len(),
        action_at(state, events, i) is Report,
        action_at(state, events, j) is Report,
    ensures
        1 <= action_at(state, events, i)->completed <= action_at(state, events, i)->total,
        action_at(state, events, i)->completed < action_at(state, events, j)->completed,
        action_at(state, events, i)->total == action_at(state, events, j)->total,
{
    let completed = action_at(state, events, i)->completed;
    let total = action_at(state, events, i)->total;
    law_step_reports_in_order(
        state_after(state, events.subrange(0, i)),
        events[i],
        completed,
        total,
    );
    assert(events.subrange(0, i + 1).drop_last() =~= events.subrange(0, i));
    assert(events.subrange(0, i + 1).last() == events[i]);
    lemma_reports_go_on(state, events, completed, total, i + 1, j + 1);
}

/// The segments up to index `written` have been written, or the download
/// has ended.
pub open spec fn written_up_to(state: PipelineView, written: nat) -> bool {
    ||| state.stage is Finished
    ||| (state.stage matches StageView::Written(i) && i >= written)
    ||| (segment_index(state.stage) matches Some(i) && i > written)
}

/// A write is that of the segment whose bytes or key just came, and leaves
/// the machine waiting for that write; what is written later belongs to a
/// later segment.
pub proof fn law_step_writes_in_order(state: PipelineView, event: EventView, written: nat)
    ensures
        next(state, event).1 is Write ==> {
            &&& segment_index(state.stage) is Some
            &&& !(state.stage is Written)
            &&& next(state, event).0.stage == StageView::Written(
                segment_index(state.stage).unwrap(),
            )
        },
        written_up_to(state, written) ==> written_up_to(next(state, event).0, written),
        written_up_to(state, written) && next(state, event).1 is Write ==> segment_index(
            state.stage,
        ).unwrap() > written,
{
}

/// What has been written stays behind.
proof fn lemma_writes_go_on(
    state: PipelineView,
    events: Seq<EventView>,
    written: nat,
    from: int,
    n: int,
)
    requires
        0 <= from <= n <= events.len(),
        written_up_to(state_after(state, events.subrange(0, from)), written),
    ensures
        written_up_to(state_after(state, events.subrange(0, n)), written),
        forall|j: int|
            from <= j < n && (#[trigger] action_at(state, events, j)) is Write ==> segment_index(
                state_after(state, events.subrange(0, j)).stage,
            ).unwrap() > written,
    decreases n - from,
{
    if from < n {
        lemma_writes_go_on(state, events, written, from, n - 1);
        assert(events.subrange(0, n).drop_last() =~= events.subrange(0, n - 1));
        assert(events.subrange(0, n).last() == events[n - 1]);
        law_step_writes_in_order(
            state_after(state, events.subrange(0, n - 1)),
            events[n - 1],
            written,
        );
    }
}

/// The output receives the segments in their order.
///
/// In a run from any state, of two writes the later one is that of a later
/// segment: nothing is written twice and nothing out of turn.
pub proof fn law_writes_follow_segment_order(
    state: PipelineView,
    events: Seq<EventView>,
    i: int,
    j: int,
)
    requires
        0 <= i < j < events.len(),
        action_at(state, events, i) is Write,
        action_at(state, events, j) is Write,
    ensures
        segment_index(state_after(state, events.subrange(0, i)).stage) is Some,
        segment_index(state_after(state, events.subrange(0, j)).stage) is Some,
        segment_index(state_after(state, events.subrange(0, i)).stage).unwrap() < segment_index(
            state_after(state, events.subrange(0, j)).stage,
        ).unwrap(),
{
    let at = state_after(state, events.subrange(0, i));
    let index = segment_index(at.stage).unwrap();
    law_step_writes_in_order(at, events[i], index);
    law_step_writes_in_order(state_after(state, events.subrange(0, j)), events[j], index);
    assert(events.subrange(0, i + 1).drop_last() =~= events.subrange(0, i));
    assert(events.subrange(0, i + 1).last() == events[i]);
    lemma_writes_go_on(state, events, index, i + 1, j + 1);
}

} // verus!
