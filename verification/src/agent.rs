//! The worker's decisions: what each message and each finished transfer does
//! to the token table and to the worker's life.

use crate::message::{
    Action, Completion, Message, Phase, PollMode, Resolution, Stage, Task,
};
use crate::table::{
    chain_is_sound, head_of, insertion_takes, lemma_head_is_vacant, no_entry, TokenTable,
};
use vstd::prelude::*;

verus! {

/// The longest the worker waits for the engine, in milliseconds. A wake-up
/// signal that was lost or merged with another delays the loop by no more.
pub const DEFAULT_TIMEOUT_MS: u64 = 1000;

/// The worker's state as a mathematical value.
pub struct AgentState {
    /// The active transfers, by token.
    pub table: Map<usize, u64>,
    /// The tokens that were freed, in the order in which they are handed
    /// out again: the one freed last comes first.
    pub free: Seq<usize>,
    /// The number of tokens that were ever in use at once. It is the token
    /// that the next transfer gets where none is free.
    pub slots: usize,
    /// Whether a close was seen.
    pub close_requested: bool,
}

impl AgentState {
    /// The token that the next transfer will get.
    pub open spec fn next_token(self) -> usize {
        head_of(self.free, self.slots)
    }

    /// Freed tokens and active transfers fit together: every active token
    /// was counted, no freed token is active, and none is freed twice.
    pub open spec fn wf(self) -> bool {
        chain_is_sound(self.table, self.free, self.slots)
    }

    /// The phase of a worker in this state.
    pub open spec fn phase(self) -> Phase {
        if !self.close_requested {
            Phase::Running
        } else if no_entry(self.table) {
            Phase::Terminated
        } else {
            Phase::CloseRequested
        }
    }

    /// How a worker in this state waits for a message.
    pub open spec fn poll_mode(self) -> PollMode {
        if no_entry(self.table) {
            PollMode::Blocking
        } else {
            PollMode::NonBlocking
        }
    }

    /// What the loop of a worker in this state does after `stage`. A
    /// terminated worker ends, wherever its loop stands. Any other takes
    /// messages for as long as they come, and then serves the engine.
    pub open spec fn next_task(self, stage: Stage) -> Task {
        if self.phase() == Phase::Terminated {
            Task::Shutdown
        } else {
            match stage {
                Stage::TurnStart => Task::Poll(self.poll_mode()),
                Stage::Polled { more: true } => Task::Poll(self.poll_mode()),
                Stage::Polled { more: false } => Task::Serve,
            }
        }
    }
}

/// What the worker asks of the engine when `message` reaches it in state
/// `pre`.
pub open spec fn message_action(pre: AgentState, message: Message) -> Action {
    match message {
        Message::Close => Action::Nothing,
        Message::BeginRequest(transfer) => Action::Register { token: pre.next_token(), transfer },
        Message::Cancel(token) => if pre.table.contains_key(token) {
            Action::Abort { token, transfer: pre.table[token] }
        } else {
            Action::Nothing
        },
        Message::UnpauseWrite(token) => if pre.table.contains_key(token) {
            Action::ResumeWrite { token, transfer: pre.table[token] }
        } else {
            Action::UnknownResume { token }
        },
    }
}

/// Whether `message` takes the worker from state `pre` to state `post`.
/// For each `pre` and `message` at most one `post` does.
pub open spec fn message_step(pre: AgentState, message: Message, post: AgentState) -> bool {
    match message {
        Message::Close => post == (AgentState { close_requested: true, ..pre }),
        Message::BeginRequest(transfer) => {
            &&& post.table == pre.table.insert(pre.next_token(), transfer)
            &&& insertion_takes(pre.free, pre.slots, post.free, post.slots)
            &&& post.close_requested == pre.close_requested
        },
        Message::Cancel(token) => if pre.table.contains_key(token) {
            post == resolved(pre, token)
        } else {
            post == pre
        },
        Message::UnpauseWrite(_) => post == pre,
    }
}

/// The state after the entry of `token` was removed: the token is free and
/// comes next.
pub open spec fn resolved(pre: AgentState, token: usize) -> AgentState {
    AgentState { table: pre.table.remove(token), free: seq![token] + pre.free, ..pre }
}

/// What becomes of the finished transfer `done` in a worker whose table is
/// `table`.
pub open spec fn resolution_of(table: Map<usize, u64>, done: Completion) -> Resolution {
    match done.failure {
        None => Resolution::Complete { token: done.token, transfer: table[done.token] },
        Some(code) => Resolution::Fail { token: done.token, transfer: table[done.token], code },
    }
}

/// Whether the engine may report `events` in one batch to a worker whose
/// table is `table`: each names an active transfer, and none is named twice.
pub open spec fn reportable(table: Map<usize, u64>, events: Seq<Completion>) -> bool {
    &&& forall|i: int| 0 <= i < events.len() ==> table.contains_key(#[trigger] events[i].token)
    &&& forall|i: int, j: int|
        0 <= i < j < events.len() ==> (#[trigger] events[i]).token != (#[trigger] events[j]).token
}

/// What the engine's word on one transfer amounts to: a finished transfer
/// if the engine gives both a result and the token, and nothing otherwise.
pub open spec fn completion_from(result: Option<Result<(), u32>>, token: Option<usize>) -> Option<
    Completion,
> {
    match (result, token) {
        (Some(Ok(())), Some(token)) => Some(Completion { token, failure: None }),
        (Some(Err(code)), Some(token)) => Some(Completion { token, failure: Some(code) }),
        _ => None,
    }
}

/// Reads the engine's word on one transfer: its result, if it has finished,
/// and its token, if the engine could tell it.
pub fn completion_of(result: Option<Result<(), u32>>, token: Option<usize>) -> (completion: Option<
    Completion,
>)
    ensures
        completion == completion_from(result, token),
{
    match (result, token) {
        (Some(Ok(())), Some(token)) => Some(Completion { token, failure: None }),
        (Some(Err(code)), Some(token)) => Some(Completion { token, failure: Some(code) }),
        _ => None,
    }
}

/// Whether one of the first `n` of `events` names `token`.
pub open spec fn reported(events: Seq<Completion>, n: int, token: usize) -> bool {
    exists|i: int| 0 <= i < n && (#[trigger] events[i]).token == token
}

/// The tokens that the first `n` of `events` name, the last of them first:
/// the order in which they are handed out again.
pub open spec fn freed_by(events: Seq<Completion>, n: int) -> Seq<usize> {
    Seq::new(n as nat, |i: int| events[n - 1 - i].token)
}

/// The state of a worker in state `pre` after the engine reported `events`
/// in one batch: the transfers named are gone, and their tokens are free,
/// the last one named coming next.
pub open spec fn dispatched(pre: AgentState, events: Seq<Completion>) -> AgentState {
    if events.len() == 0 {
        pre
    } else {
        AgentState {
            table: pre.table.remove_keys(
                Set::new(|token: usize| reported(events, events.len() as int, token)),
            ),
            free: freed_by(events, events.len() as int) + pre.free,
            ..pre
        }
    }
}

/// Whether the outcome `received` of one wait for a message takes the worker
/// from state `pre` to state `post`. Without a message nothing changes, but
/// for this: an idle worker slept until every sender was gone, and takes
/// that for a close.
pub open spec fn receive_step(pre: AgentState, received: Option<Message>, post: AgentState) -> bool {
    match received {
        Some(message) => message_step(pre, message, post),
        None => post == (AgentState {
            close_requested: pre.close_requested || no_entry(pre.table),
            ..pre
        }),
    }
}

/// What the worker asks of the engine after the outcome `received` of one
/// wait for a message.
pub open spec fn receive_action(pre: AgentState, received: Option<Message>) -> Action {
    match received {
        Some(message) => message_action(pre, message),
        None => Action::Nothing,
    }
}

/// What one wait for a message led to.
#[derive(Clone, Copy, Debug, PartialEq, Eq, Structural)]
pub struct Polled {
    /// What the engine is to do.
    pub action: Action,
    /// Whether to wait for a further message before turning to the engine.
    pub more: bool,
}

/// The timeout of one wait: the engine's suggestion, cut to the default
/// bound, or that bound where the engine suggests none.
pub open spec fn bounded_timeout(suggested: Option<u64>) -> u64 {
    match suggested {
        Some(ms) => if ms < DEFAULT_TIMEOUT_MS {
            ms
        } else {
            DEFAULT_TIMEOUT_MS
        },
        None => DEFAULT_TIMEOUT_MS,
    }
}

/// The timeout of the worker's next wait, in milliseconds, from what the
/// engine suggests. It is never longer than the default bound.
pub fn wait_timeout(suggested: Option<u64>) -> (timeout: u64)
    ensures
        timeout == bounded_timeout(suggested),
        timeout <= DEFAULT_TIMEOUT_MS,
{
    match suggested {
        Some(ms) => if ms < DEFAULT_TIMEOUT_MS {
            ms
        } else {
            DEFAULT_TIMEOUT_MS
        },
        None => DEFAULT_TIMEOUT_MS,
    }
}

/// The state that the worker thread owns: the token table and the close
/// flag.
pub struct Agent {
    requests: TokenTable,
    close_requested: bool,
}

impl View for Agent {
    type V = AgentState;

    closed spec fn view(&self) -> AgentState {
        AgentState {
            table: self.requests@,
            free: self.requests.free(),
            slots: self.requests.slot_count(),
            close_requested: self.close_requested,
        }
    }
}

impl Agent {
    #[verifier::type_invariant]
    closed spec fn sound(self) -> bool {
        self.requests.wf()
    }

    /// A worker with no active transfer, no token ever used and no close
    /// seen.
    pub fn new() -> (agent: Agent)
        ensures
            no_entry(agent@.table),
            agent@.free == Seq::<usize>::empty(),
            agent@.slots == 0,
            agent@.next_token() == 0,
            !agent@.close_requested,
            agent@.wf(),
    {
        Agent { requests: TokenTable::new(), close_requested: false }
    }

    /// The token that the next transfer will get. In every worker it names
    /// no active transfer.
    pub fn vacant_token(&self) -> (token: usize)
        ensures
            token == self@.next_token(),
            !self@.table.contains_key(token),
            self@.wf(),
    {
        self.requests.vacant_token()
    }

    /// Whether a close was seen.
    pub fn close_requested(&self) -> (flag: bool)
        ensures
            flag == self@.close_requested,
    {
        self.close_requested
    }

    /// Whether no transfer is active.
    pub fn is_idle(&self) -> (idle: bool)
        ensures
            idle == no_entry(self@.table),
    {
        self.requests.is_empty()
    }

    /// Whether `token` names an active transfer.
    pub fn is_active(&self, token: usize) -> (active: bool)
        ensures
            active == self@.table.contains_key(token),
    {
        self.requests.contains(token)
    }

    /// The worker's phase.
    pub fn phase(&self) -> (phase: Phase)
        ensures
            phase == self@.phase(),
    {
        if !self.close_requested {
            Phase::Running
        } else if self.requests.is_empty() {
            Phase::Terminated
        } else {
            Phase::CloseRequested
        }
    }

    /// Whether the loop ends here: a close was seen and no transfer is
    /// active.
    pub fn should_stop(&self) -> (stop: bool)
        ensures
            stop == (self@.close_requested && no_entry(self@.table)),
            stop == (self@.phase() == Phase::Terminated),
    {
        self.close_requested && self.requests.is_empty()
    }

    /// How to wait for the next message: asleep while no transfer is active,
    /// without waiting while one is, so that its I/O is served.
    pub fn poll_mode(&self) -> (mode: PollMode)
        ensures
            mode == self@.poll_mode(),
            (mode == PollMode::Blocking) == no_entry(self@.table),
    {
        if self.requests.is_empty() {
            PollMode::Blocking
        } else {
            PollMode::NonBlocking
        }
    }

    /// What the loop does after `stage`. It ends as soon as a close was seen
    /// and no transfer is active, and only then; it never waits for a
    /// further message after that. It sleeps for a message only while no
    /// transfer is active.
    pub fn next_task(&self, stage: Stage) -> (task: Task)
        ensures
            task == self@.next_task(stage),
            (task == Task::Shutdown) == (self@.phase() == Phase::Terminated),
            (task == Task::Shutdown) == (self@.close_requested && no_entry(self@.table)),
            (task == Task::Poll(PollMode::Blocking)) ==> no_entry(self@.table)
                && !self@.close_requested,
            (task == Task::Poll(PollMode::NonBlocking)) ==> !no_entry(self@.table),
    {
        if self.should_stop() {
            Task::Shutdown
        } else {
            match stage {
                Stage::TurnStart => Task::Poll(self.poll_mode()),
                Stage::Polled { more } => if more {
                    Task::Poll(self.poll_mode())
                } else {
                    Task::Serve
                },
            }
        }
    }

    /// Applies one message and returns what the engine is to do.
    ///
    /// A new transfer gets the token in line, which names no transfer that is
    /// active. A cancel removes the entry of its token. A cancel or a resume
    /// for a token that names no active transfer changes nothing and asks
    /// nothing of the engine. A close sets the flag and removes nothing.
    pub fn handle_message(&mut self, message: Message) -> (action: Action)
        ensures
            message_step(old(self)@, message, final(self)@),
            action == message_action(old(self)@, message),
            old(self)@.wf(),
            !old(self)@.table.contains_key(old(self)@.next_token()),
            final(self)@.wf(),
    {
        proof {
            use_type_invariant(&*self);
        }
        match message {
            Message::Close => {
                self.close_requested = true;
                Action::Nothing
            },
            Message::BeginRequest(transfer) => {
                let token = self.requests.insert(transfer);
                Action::Register { token, transfer }
            },
            Message::Cancel(token) => {
                match self.requests.get(token) {
                    Some(transfer) => {
                        self.requests.remove(token);
                        Action::Abort { token, transfer }
                    },
                    None => Action::Nothing,
                }
            },
            Message::UnpauseWrite(token) => {
                match self.requests.get(token) {
                    Some(transfer) => Action::ResumeWrite { token, transfer },
                    None => Action::UnknownResume { token },
                }
            },
        }
    }

    /// Takes the outcome of one wait for a message, made in the mode that
    /// `poll_mode` gave: a message is applied, and the worker waits for the
    /// next. Without one the worker turns to the engine; if it was idle, every
    /// sender is gone, and it takes that for a close.
    pub fn receive(&mut self, received: Option<Message>) -> (polled: Polled)
        ensures
            receive_step(old(self)@, received, final(self)@),
            polled.action == receive_action(old(self)@, received),
            polled.more == received.is_some(),
            final(self)@.wf(),
    {
        proof {
            use_type_invariant(&*self);
        }
        match received {
            Some(message) => {
                let action = self.handle_message(message);
                Polled { action, more: true }
            },
            None => {
                if self.requests.is_empty() {
                    self.close_requested = true;
                }
                Polled { action: Action::Nothing, more: false }
            },
        }
    }

    /// Whether `events` can be resolved as one batch: each names an active
    /// transfer, and none is named twice.
    pub fn is_reportable(&self, events: &Vec<Completion>) -> (ok: bool)
        ensures
            ok == reportable(self@.table, events@),
    {
        let mut i: usize = 0;
        while i < events.len()
            invariant
                i <= events.len(),
                forall|k: int| 0 <= k < i ==> self@.table.contains_key(#[trigger] events@[k].token),
                forall|a: int, b: int|
                    0 <= a < b < i ==> (#[trigger] events@[a]).token != (#[trigger] events@[b]).token,
            decreases events.len() - i,
        {
            if !self.requests.contains(events[i].token) {
                assert(!self@.table.contains_key(events@[i as int].token));
                return false;
            }
            let mut j: usize = 0;
            while j < i
                invariant
                    j <= i < events.len(),
                    forall|a: int|
                        0 <= a < j ==> (#[trigger] events@[a]).token != events@[i as int].token,
                decreases i - j,
            {
                if events[j].token == events[i].token {
                    assert(events@[j as int].token == events@[i as int].token);
                    return false;
                }
                j += 1;
            }
            i += 1;
        }
        true
    }

    /// Resolves the transfers that the engine reports as finished, in the
    /// order reported: each entry is removed, and for each exactly one
    /// callback is returned, completion or failure. Transfers that are not
    /// named stay as they are.
    pub fn dispatch(&mut self, events: &Vec<Completion>) -> (resolutions: Vec<Resolution>)
        requires
            reportable(old(self)@.table, events@),
        ensures
            resolutions@.len() == events@.len(),
            forall|i: int|
                0 <= i < events@.len() ==> #[trigger] resolutions@[i] == resolution_of(
                    old(self)@.table,
                    events@[i],
                ),
            final(self)@ == dispatched(old(self)@, events@),
            forall|i: int|
                0 <= i < events@.len() ==> !final(self)@.table.contains_key(
                    #[trigger] events@[i].token,
                ),
            forall|token: usize|
                final(self)@.table.contains_key(token) ==> old(self)@.table.contains_key(token)
                    && final(self)@.table[token] == old(self)@.table[token],
            final(self)@.wf(),
    {
        let ghost pre = self@;
        proof {
            use_type_invariant(&*self);
        }
        let mut resolutions: Vec<Resolution> = Vec::new();
        let mut i: usize = 0;
        while i < events.len()
            invariant
                i <= events.len(),
                reportable(pre.table, events@),
                resolutions@.len() == i,
                forall|k: int|
                    0 <= k < i ==> #[trigger] resolutions@[k] == resolution_of(
                        pre.table,
                        events@[k],
                    ),
                self@.close_requested == pre.close_requested,
                forall|t: usize|
                    self@.table.contains_key(t) <==> pre.table.contains_key(t) && !reported(
                        events@,
                        i as int,
                        t,
                    ),
                forall|t: usize| self@.table.contains_key(t) ==> self@.table[t] == pre.table[t],
                self@.slots == pre.slots,
                self@.free == freed_by(events@, i as int) + pre.free,
                i == 0 ==> self@ == pre,
            decreases events.len() - i,
        {
            let done = events[i];
            proof {
                assert(pre.table.contains_key(events@[i as int].token));
                if reported(events@, i as int, done.token) {
                    let j = choose|j: int| 0 <= j < i && (#[trigger] events@[j]).token == done.token;
                    assert(events@[j].token != events@[i as int].token);
                }
            }
            let ghost before = self@;
            let resolution = match done.failure {
                None => self.complete_request(done.token),
                Some(code) => self.fail_request(done.token, code),
            };
            resolutions.push(resolution);
            proof {
                assert forall|t: usize|
                    self@.table.contains_key(t) <==> pre.table.contains_key(t) && !reported(
                        events@,
                        i + 1,
                        t,
                    ) by {
                    if reported(events@, i + 1, t) {
                        let j = choose|j: int| 0 <= j < i + 1 && (#[trigger] events@[j]).token == t;
                        if j < i {
                            assert(reported(events@, i as int, t));
                        }
                    }
                    if reported(events@, i as int, t) {
                        let j = choose|j: int| 0 <= j < i && (#[trigger] events@[j]).token == t;
                        assert(0 <= j < i + 1 && events@[j].token == t);
                    }
                    if t == done.token {
                        assert(events@[i as int].token == t);
                        assert(reported(events@, i + 1, t));
                    }
                }
            }
            i += 1;
        }
        proof {
            if events@.len() > 0 {
                assert(self@.table =~= dispatched(pre, events@).table);
            }
            assert forall|i: int| 0 <= i < events@.len() implies !self@.table.contains_key(
                #[trigger] events@[i].token,
            ) by {
                assert(reported(events@, events@.len() as int, events@[i].token));
            }
        }
        resolutions
    }

    /// Resolves `events` as one batch if that can be done, and otherwise
    /// leaves the worker as it was and returns nothing.
    pub fn try_dispatch(&mut self, events: &Vec<Completion>) -> (resolutions: Option<
        Vec<Resolution>,
    >)
        ensures
            resolutions.is_some() == reportable(old(self)@.table, events@),
            match resolutions {
                Some(calls) => {
                    &&& calls@.len() == events@.len()
                    &&& forall|i: int|
                        0 <= i < events@.len() ==> #[trigger] calls@[i] == resolution_of(
                            old(self)@.table,
                            events@[i],
                        )
                    &&& final(self)@ == dispatched(old(self)@, events@)
                    &&& forall|i: int|
                        0 <= i < events@.len() ==> !final(self)@.table.contains_key(
                            #[trigger] events@[i].token,
                        )
                },
                None => final(self)@ == old(self)@,
            },
            final(self)@.wf(),
    {
        proof {
            use_type_invariant(&*self);
        }
        if self.is_reportable(events) {
            Some(self.dispatch(events))
        } else {
            None
        }
    }

    /// Resolves a transfer that finished well: removes its entry and returns
    /// the call of its handler's completion callback.
    pub fn complete_request(&mut self, token: usize) -> (resolution: Resolution)
        requires
            old(self)@.table.contains_key(token),
        ensures
            final(self)@ == resolved(old(self)@, token),
            resolution == (Resolution::Complete { token, transfer: old(self)@.table[token] }),
            final(self)@.wf(),
    {
        let transfer = self.requests.remove(token);
        Resolution::Complete { token, transfer }
    }

    /// Resolves a transfer that the engine failed with `code`: removes its
    /// entry and returns the call of its handler's failure callback.
    pub fn fail_request(&mut self, token: usize, code: u32) -> (resolution: Resolution)
        requires
            old(self)@.table.contains_key(token),
        ensures
            final(self)@ == resolved(old(self)@, token),
            resolution == (Resolution::Fail { token, transfer: old(self)@.table[token], code }),
            final(self)@.wf(),
    {
        let transfer = self.requests.remove(token);
        Resolution::Fail { token, transfer, code }
    }
}

} // verus!
