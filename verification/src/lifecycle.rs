//! The worker's life as a run of events, and what holds of every run.

use crate::agent::{
    dispatched, freed_by, message_action, message_step, receive_step, reportable, reported, resolved,
    AgentState,
};
use crate::message::{Action, Completion, Message, Phase, PollMode, Stage, Task};
use crate::table::{lemma_head_is_vacant, lemma_insert_is_sound, lemma_remove_is_sound, no_entry};
use vstd::prelude::*;

verus! {

/// One thing that happens to the worker.
pub enum Event {
    /// A wait for a message ended, with a message or without.
    Received(Option<Message>),
    /// The engine reported the transfer under this token as finished, and
    /// the worker resolved it.
    Resolved(usize),
}

/// Whether `event` takes the worker from state `pre` to state `post`.
pub open spec fn event_step(pre: AgentState, event: Event, post: AgentState) -> bool {
    match event {
        Event::Received(received) => receive_step(pre, received, post),
        Event::Resolved(token) => pre.table.contains_key(token) && post == resolved(pre, token),
    }
}

/// Whether `event` shows a close to a worker in state `pre`: a close
/// message, or the end of a sleep with every sender gone.
pub open spec fn observes_close(pre: AgentState, event: Event) -> bool {
    match event {
        Event::Received(Some(Message::Close)) => true,
        Event::Received(None) => no_entry(pre.table),
        _ => false,
    }
}

/// Whether `event` removes the entry of `token`.
pub open spec fn removes(event: Event, token: usize) -> bool {
    event == Event::Received(Some(Message::Cancel(token))) || event == Event::Resolved(token)
}

/// Whether `event` hands `token` to a new transfer in state `pre`.
pub open spec fn assigns(pre: AgentState, event: Event, token: usize) -> bool {
    match event {
        Event::Received(Some(Message::BeginRequest(_))) => pre.next_token() == token,
        _ => false,
    }
}

/// Whether `states` is what a worker goes through as `events` happen in
/// order, from `states[0]` on.
pub open spec fn is_run(states: Seq<AgentState>, events: Seq<Event>) -> bool {
    &&& states.len() == events.len() + 1
    &&& forall|i: int|
        0 <= i < events.len() ==> event_step(states[i], #[trigger] events[i], states[i + 1])
}

/// Whether one of `events` showed a close to the worker on its way through
/// `states`.
pub open spec fn close_observed(states: Seq<AgentState>, events: Seq<Event>) -> bool {
    exists|i: int| 0 <= i < events.len() && observes_close(states[i], #[trigger] events[i])
}

/// One event sets the close flag if it shows a close, and otherwise leaves
/// the flag as it was.
pub proof fn lemma_step_close(pre: AgentState, event: Event, post: AgentState)
    requires
        event_step(pre, event, post),
    ensures
        post.close_requested == (pre.close_requested || observes_close(pre, event)),
{
}

/// One event keeps the state well formed, and the token in line names no
/// active transfer.
pub proof fn lemma_step_wf(pre: AgentState, event: Event, post: AgentState)
    requires
        pre.wf(),
        event_step(pre, event, post),
    ensures
        post.wf(),
        !pre.table.contains_key(pre.next_token()),
        !post.table.contains_key(post.next_token()),
{
    lemma_head_is_vacant(pre.table, pre.free, pre.slots);
    match event {
        Event::Received(Some(Message::BeginRequest(transfer))) => {
            lemma_insert_is_sound(pre.table, pre.free, pre.slots, transfer, post.free, post.slots);
        },
        Event::Received(Some(Message::Cancel(token))) => {
            if pre.table.contains_key(token) {
                lemma_remove_is_sound(pre.table, pre.free, pre.slots, token);
            }
        },
        Event::Resolved(token) => {
            lemma_remove_is_sound(pre.table, pre.free, pre.slots, token);
        },
        _ => {},
    }
    lemma_head_is_vacant(post.table, post.free, post.slots);
}

/// For each state and event, at most one state follows.
pub proof fn lemma_step_is_determined(
    pre: AgentState,
    event: Event,
    post: AgentState,
    other: AgentState,
)
    requires
        event_step(pre, event, post),
        event_step(pre, event, other),
    ensures
        post == other,
{
}

/// Every state of a run from a well-formed state is well formed.
pub proof fn lemma_run_wf(states: Seq<AgentState>, events: Seq<Event>, at: int)
    requires
        is_run(states, events),
        states[0].wf(),
        0 <= at <= events.len(),
    ensures
        states[at].wf(),
    decreases at,
{
    if at > 0 {
        lemma_run_wf(states, events, at - 1);
        assert(event_step(states[at - 1], events[at - 1], states[at]));
        lemma_step_wf(states[at - 1], events[at - 1], states[at]);
    }
}

/// Whatever the order of messages and completions, the close flag is set at
/// the end of a run if and only if it was set at the start or an event of
/// the run showed a close; and the worker is then terminated if and only if,
/// besides, no transfer is active. Its loop ends there, wherever it stands,
/// and nowhere else.
pub proof fn lemma_terminated_iff_close_and_empty(states: Seq<AgentState>, events: Seq<Event>)
    requires
        is_run(states, events),
    ensures
        states.last().close_requested == (states[0].close_requested || close_observed(
            states,
            events,
        )),
        (states.last().phase() == Phase::Terminated) == ((states[0].close_requested
            || close_observed(states, events)) && no_entry(states.last().table)),
        forall|stage: Stage|
            (#[trigger] states.last().next_task(stage) == Task::Shutdown) == ((
            states[0].close_requested || close_observed(states, events)) && no_entry(
                states.last().table,
            )),
    decreases events.len(),
{
    if events.len() == 0 {
        assert(!close_observed(states, events));
    } else {
        let n = events.len() - 1;
        let before = states.drop_last();
        let earlier = events.drop_last();
        assert(is_run(before, earlier)) by {
            assert forall|i: int| 0 <= i < earlier.len() implies event_step(
                before[i],
                #[trigger] earlier[i],
                before[i + 1],
            ) by {
                assert(event_step(states[i], events[i], states[i + 1]));
            }
        }
        lemma_terminated_iff_close_and_empty(before, earlier);
        assert(event_step(states[n], events[n], states[n + 1]));
        lemma_step_close(states[n], events[n], states[n + 1]);
        if close_observed(before, earlier) {
            let i = choose|i: int|
                0 <= i < earlier.len() && observes_close(before[i], #[trigger] earlier[i]);
            assert(observes_close(states[i], events[i]));
        }
        if observes_close(states[n], events[n]) {
            assert(close_observed(states, events));
        }
        if close_observed(states, events) {
            let i = choose|i: int|
                0 <= i < events.len() && observes_close(states[i], #[trigger] events[i]);
            if i < n {
                assert(observes_close(before[i], earlier[i]));
            }
        }
    }
}

/// A new transfer gets a token that names no active transfer, and every
/// transfer that was active keeps its own token.
pub proof fn lemma_new_token_is_free(pre: AgentState, transfer: u64, post: AgentState)
    requires
        pre.wf(),
        message_step(pre, Message::BeginRequest(transfer), post),
    ensures
        message_action(pre, Message::BeginRequest(transfer)) == (Action::Register {
            token: pre.next_token(),
            transfer,
        }),
        !pre.table.contains_key(pre.next_token()),
        post.table.contains_key(pre.next_token()) && post.table[pre.next_token()] == transfer,
        forall|token: usize| #[trigger]
            pre.table.contains_key(token) ==> post.table.contains_key(token) && post.table[token]
                == pre.table[token],
{
    lemma_head_is_vacant(pre.table, pre.free, pre.slots);
}

/// The entry of a token stays, with the transfer it names, for as long as no
/// event removes it.
pub proof fn lemma_entry_stays(
    states: Seq<AgentState>,
    events: Seq<Event>,
    from: int,
    to: int,
    token: usize,
)
    requires
        is_run(states, events),
        states[0].wf(),
        0 <= from <= to <= events.len(),
        states[from].table.contains_key(token),
        forall|k: int| from <= k < to ==> !removes(#[trigger] events[k], token),
    ensures
        states[to].table.contains_key(token),
        states[to].table[token] == states[from].table[token],
    decreases to - from,
{
    if from < to {
        lemma_entry_stays(states, events, from, to - 1, token);
        lemma_run_wf(states, events, to - 1);
        assert(event_step(states[to - 1], events[to - 1], states[to]));
        assert(!removes(events[to - 1], token));
    }
}

/// A token that names an active transfer is handed out again only after an
/// event has removed its entry.
pub proof fn lemma_token_reused_only_after_removal(
    states: Seq<AgentState>,
    events: Seq<Event>,
    from: int,
    to: int,
    token: usize,
)
    requires
        is_run(states, events),
        states[0].wf(),
        0 <= from <= to < events.len(),
        states[from].table.contains_key(token),
        assigns(states[to], events[to], token),
    ensures
        exists|k: int| from <= k < to && removes(#[trigger] events[k], token),
{
    if forall|k: int| from <= k < to ==> !removes(#[trigger] events[k], token) {
        lemma_entry_stays(states, events, from, to, token);
        lemma_run_wf(states, events, to);
    }
}

/// The state after the transfers that `events` name were resolved one by
/// one, in order.
pub open spec fn resolved_in_turn(pre: AgentState, events: Seq<Completion>) -> AgentState
    decreases events.len(),
{
    if events.len() == 0 {
        pre
    } else {
        resolved(resolved_in_turn(pre, events.drop_last()), events.last().token)
    }
}

/// To resolve a batch is to resolve its transfers one by one, in order; and
/// each of them is still active when its turn comes.
pub proof fn lemma_batch_is_resolved_in_turn(pre: AgentState, events: Seq<Completion>)
    requires
        reportable(pre.table, events),
    ensures
        resolved_in_turn(pre, events) == dispatched(pre, events),
        events.len() > 0 ==> resolved_in_turn(pre, events.drop_last()).table.contains_key(
            events.last().token,
        ),
    decreases events.len(),
{
    if events.len() > 0 {
        let n = events.len() - 1;
        let earlier = events.drop_last();
        let last = events[n].token;
        assert(reportable(pre.table, earlier)) by {
            assert forall|i: int| 0 <= i < earlier.len() implies pre.table.contains_key(
                #[trigger] earlier[i].token,
            ) by {
                assert(pre.table.contains_key(events[i].token));
            }
            assert forall|i: int, j: int| 0 <= i < j < earlier.len() implies (
            #[trigger] earlier[i]).token != (#[trigger] earlier[j]).token by {
                assert(events[i].token != events[j].token);
            }
        }
        lemma_batch_is_resolved_in_turn(pre, earlier);
        let mid = dispatched(pre, earlier);
        assert(!reported(earlier, n, last)) by {
            if reported(earlier, n, last) {
                let i = choose|i: int| 0 <= i < n && (#[trigger] earlier[i]).token == last;
                assert(events[i].token != events[n].token);
            }
        }
        assert(pre.table.contains_key(events[n].token));
        assert forall|t: usize| reported(events, n + 1, t) == (reported(earlier, n, t) || t
            == last) by {
            if reported(events, n + 1, t) {
                let i = choose|i: int| 0 <= i < n + 1 && (#[trigger] events[i]).token == t;
                if i < n {
                    assert(earlier[i].token == t);
                }
            }
            if reported(earlier, n, t) {
                let i = choose|i: int| 0 <= i < n && (#[trigger] earlier[i]).token == t;
                assert(events[i].token == t);
            }
            if t == last {
                assert(events[n].token == t);
            }
        }
        assert(resolved(mid, last).table =~= dispatched(pre, events).table);
        assert(resolved(mid, last).free =~= dispatched(pre, events).free) by {
            assert forall|i: int| 0 <= i < n implies freed_by(earlier, n)[i] == freed_by(
                events,
                n + 1,
            )[i + 1] by {
                assert(earlier[n - 1 - i] == events[n - 1 - i]);
            }
        }
    }
}

/// A cancel or a resume for a token that names no active transfer leaves the
/// state as it was and asks nothing of the engine; the resume is worth a
/// warning.
pub proof fn lemma_absent_token_is_ignored(pre: AgentState, token: usize, post: AgentState)
    requires
        !pre.table.contains_key(token),
    ensures
        message_step(pre, Message::Cancel(token), post) == (post == pre),
        message_step(pre, Message::UnpauseWrite(token), post) == (post == pre),
        message_action(pre, Message::Cancel(token)) == Action::Nothing,
        message_action(pre, Message::UnpauseWrite(token)) == (Action::UnknownResume { token }),
{
}

/// A worker sleeps for its next message exactly while no transfer is
/// active; and a worker that is not terminated and has none has seen no
/// close.
pub proof fn lemma_idle_worker_sleeps(state: AgentState)
    ensures
        (state.poll_mode() == PollMode::Blocking) == no_entry(state.table),
        no_entry(state.table) ==> state.phase() != Phase::CloseRequested,
{
}

} // verus!
