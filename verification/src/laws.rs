//! What holds of the manager as a whole, whatever happens to it.
use vstd::prelude::*;

use crate::actor::ActorView;
use crate::ids::{MessageId, ProgramId};
use crate::journal::{DispatchOutcome, JournalNote};
use crate::manager::{step_taken, RunStep};
use crate::message::{Balance, DispatchKind, DispatchView, MessageView};
use crate::program::{MockResponse, ProgramView};
use crate::state::{
    appended, lemma_all_woken_keeps, lemma_released_keeps, without_message, BlockInfo, State,
};

verus! {

impl<M> State<M> {
    /// Whether every uninitialized actor has its program.
    pub open spec fn programs_present(self) -> bool {
        forall|id: ProgramId| #[trigger]
            self.actors.contains_key(id) ==> self.actors[id].0.valid()
    }

    /// Whether every waiting dispatch is filed under its own destination and message.
    pub open spec fn wait_list_filed(self) -> bool {
        forall|at: (ProgramId, MessageId)| #[trigger]
            self.wait_list.contains_key(at) ==> self.wait_list[at].message.dest == at.0
                && self.wait_list[at].message.id == at.1
    }

    /// Whether messages wait only for the initialization of actors that are uninitialized and
    /// know which message is to initialize them.
    pub open spec fn waits_are_due(self) -> bool {
        forall|id: ProgramId| #[trigger]
            self.wait_init_list.contains_key(id) && self.actors.contains_key(id)
                ==> self.actors[id].0 is Uninitialized && !(
            self.actors[id].0 matches ActorView::Uninitialized(None, _))
    }

    /// Whether every message of the log is in the mailbox of its destination.
    pub open spec fn log_in_mailbox(self) -> bool {
        forall|i: int|
            0 <= i < self.log.len() ==> self.mailbox.contains_key((#[trigger] self.log[i]).dest)
                && self.mailbox[self.log[i].dest].contains(self.log[i])
    }

    /// What holds in every state of the manager. There are only so many mailboxes.
    pub open spec fn valid(self) -> bool {
        &&& self.programs_present()
        &&& self.wait_list_filed()
        &&& self.waits_are_due()
        &&& self.log_in_mailbox()
        &&& self.mailbox.dom().finite()
    }

    /// What is in the mailbox of `id`.
    pub open spec fn mail(self, id: ProgramId) -> Seq<MessageView> {
        if self.mailbox.contains_key(id) {
            self.mailbox[id]
        } else {
            Seq::empty()
        }
    }

    /// What the start of a run on `message` brings into the mailbox of `id`.
    pub open spec fn first_mail(self, message: MessageView, id: ProgramId) -> Seq<MessageView> {
        if !self.actors.contains_key(message.dest) && id == message.dest {
            seq![message]
        } else {
            Seq::empty()
        }
    }

    /// Whether every mock is where it belongs.
    pub open spec fn mocks_present(self) -> bool {
        forall|id: ProgramId| #[trigger]
            self.actors.contains_key(id) ==> {
                &&& !(self.actors[id].0 matches ActorView::Initialized(ProgramView::Mock(None)))
                &&& !(self.actors[id].0 matches ActorView::Uninitialized(
                    _,
                    Some(ProgramView::Mock(None)),
                ))
            }
    }

    /// Whether everything that is queued or waits is for an actor.
    pub open spec fn destinations_known(self) -> bool {
        &&& forall|i: int|
            0 <= i < self.dispatch_queue.len() ==> self.actors.contains_key(
                (#[trigger] self.dispatch_queue[i]).message.dest,
            )
        &&& forall|at: (ProgramId, MessageId)| #[trigger]
            self.wait_list.contains_key(at) ==> self.actors.contains_key(
                self.wait_list[at].message.dest,
            )
    }
}

/// A manager that was just made is valid.
pub proof fn law_initial_is_valid<M>(block_info: BlockInfo, msg_nonce: u64, id_nonce: u64)
    ensures
        State::<M>::initial(block_info, msg_nonce, id_nonce).valid(),
        State::<M>::initial(block_info, msg_nonce, id_nonce).mocks_present(),
        State::<M>::initial(block_info, msg_nonce, id_nonce).destinations_known(),
{
}

/// Sending a message leaves a valid state valid.
proof fn lemma_sent_valid<M>(state: State<M>, dispatch: DispatchView)
    requires
        state.valid(),
    ensures
        state.sent(dispatch).valid(),
{
    let after = state.sent(dispatch);
    let dest = dispatch.message.dest;
    if !state.actors.contains_key(dest) {
        let message = dispatch.message;
        assert(after.mailbox[dest].last() == message);
        assert(after.mailbox[dest].contains(message));
        assert forall|i: int| 0 <= i < after.log.len() implies after.mailbox.contains_key(
            (#[trigger] after.log[i]).dest,
        ) && after.mailbox[after.log[i].dest].contains(after.log[i]) by {
            if i < state.log.len() {
                assert(after.log[i] == state.log[i]);
                lemma_appended_keeps(state.mailbox, dest, message, state.log[i].dest, state.log[i]);
            } else {
                assert(after.log[i] == message);
            }
        }
    }
}

/// What a list had before something was appended it has after.
proof fn lemma_appended_keeps<T>(
    lists: Map<ProgramId, Seq<T>>,
    id: ProgramId,
    item: T,
    at: ProgramId,
    kept: T,
)
    requires
        lists.contains_key(at),
        lists[at].contains(kept),
    ensures
        appended(lists, id, item).contains_key(at),
        appended(lists, id, item)[at].contains(kept),
{
    let i = choose|i: int| 0 <= i < lists[at].len() && lists[at][i] == kept;
    if at == id {
        assert(lists[at].push(item)[i] == kept);
    }
}

/// A message from outside leaves a valid state valid, whether it is for an actor or for a user.
pub proof fn law_start_keeps_valid<M>(state: State<M>, message: MessageView)
    requires
        state.valid(),
    ensures
        state.prepared(message.id, message.source).routed(message).valid(),
{
    let prepared = state.prepared(message.id, message.source);
    assert(prepared.routed(message).log.len() == 0);
}

/// Waking dispatches leaves a valid state valid.
proof fn lemma_all_woken_valid<M>(state: State<M>, program_id: ProgramId, ids: Seq<MessageId>)
    requires
        state.valid(),
    ensures
        state.all_woken(program_id, ids).valid(),
    decreases ids.len(),
{
    if ids.len() > 0 {
        lemma_all_woken_valid(state, program_id, ids.drop_last());
    }
}

/// The end of an initialization leaves a valid state valid.
proof fn lemma_released_valid<M>(state: State<M>, program_id: ProgramId, actor: ActorView<M>)
    requires
        state.valid(),
        state.actors.contains_key(program_id),
        actor.valid(),
    ensures
        state.with_actor(program_id, actor).released(program_id).valid(),
{
    let changed = state.with_actor(program_id, actor);
    if state.wait_init_list.contains_key(program_id) {
        let opened = State {
            wait_init_list: changed.wait_init_list.remove(program_id),
            ..changed
        };
        assert(opened.valid());
        lemma_all_woken_valid(opened, program_id, changed.wait_init_list[program_id]);
    }
}

/// Every note of a journal leaves a valid state valid.
pub proof fn law_note_keeps_valid<M>(state: State<M>, note: JournalNote)
    requires
        state.valid(),
        state.accepts(note),
    ensures
        state.noted(note).valid(),
{
    match note {
        JournalNote::MessageDispatched(outcome) => {
            lemma_outcome_valid(state, outcome);
        },
        JournalNote::SendDispatch { dispatch, .. } => {
            lemma_sent_valid(state, dispatch@);
        },
        _ => {},
    }
}

/// However the run on a dispatch ended, a valid state stays valid.
proof fn lemma_outcome_valid<M>(state: State<M>, outcome: DispatchOutcome)
    requires
        state.valid(),
        state.accepts_outcome(outcome),
    ensures
        state.dispatched(outcome).valid(),
{
    match outcome {
        DispatchOutcome::InitSuccess { program_id, .. } => {
            lemma_released_valid(
                state,
                program_id,
                state.actors[program_id].0.initialized(),
            );
        },
        DispatchOutcome::InitFailure { program_id, .. } => {
            lemma_released_valid(state, program_id, ActorView::Dormant);
        },
        _ => {},
    }
}

/// Handling the first dispatch of the queue leaves a valid state valid: whether the dispatch is put
/// aside, handed out to be run, or handled by a mock, whatever the mock answers.
pub proof fn law_step_keeps_valid<M>(state: State<M>, response: MockResponse, called: M)
    requires
        state.valid(),
        state.can_step(),
        state.dispatch_queue.len() > 0,
    ensures
        ({
            let dispatch = state.dispatch_queue[0];
            let dest = dispatch.message.dest;
            let actor = state.actors[dest].0;
            &&& state.popped().valid()
            &&& actor.keeps_waiting(dispatch.message) ==> state.popped().waiting_for_init(
                dispatch,
            ).valid()
            &&& actor.mock() is Some && !actor.keeps_waiting(dispatch.message)
                ==> state.popped().without_mock(dest).answered(dispatch, response).with_mock(
                dest,
                called,
            ).valid()
        }),
{
    let dispatch = state.dispatch_queue[0];
    let dest = dispatch.message.dest;
    let actor = state.actors[dest].0;
    if actor.mock() is Some && !actor.keeps_waiting(dispatch.message) {
        let taken = state.popped().without_mock(dest);
        assert(taken.valid());
        lemma_answered_valid(taken, dispatch, response);
    }
}

/// The answer of a mock leaves a valid state valid.
proof fn lemma_answered_valid<M>(state: State<M>, dispatch: DispatchView, response: MockResponse)
    requires
        state.valid(),
        state.accepts_response(dispatch, response),
    ensures
        state.answered(dispatch, response).valid(),
{
    let message = dispatch.message;
    match response {
        Ok(reply) => {
            let ended = if dispatch.kind is Init {
                state.init_succeeded(message.dest)
            } else {
                state
            };
            if dispatch.kind is Init {
                lemma_released_valid(
                    state,
                    message.dest,
                    state.actors[message.dest].0.initialized(),
                );
            }
            if let Some(payload) = reply {
                lemma_replied_valid(ended, message, payload@, 0);
            }
        },
        Err(_) => {
            let ended = if dispatch.kind is Init {
                state.init_failed(message.id, message.dest)
            } else {
                state.failed(message.id)
            };
            if dispatch.kind is Init {
                lemma_released_valid(state, message.dest, ActorView::Dormant);
            }
            lemma_replied_valid(ended, message, Seq::empty(), 1);
        },
    }
}

/// The reply of a mock leaves a valid state valid.
proof fn lemma_replied_valid<M>(
    state: State<M>,
    message: MessageView,
    payload: Seq<u8>,
    exit_code: i32,
)
    requires
        state.valid(),
    ensures
        state.replied(message, payload, exit_code).valid(),
{
    let counted = State { msg_nonce: (state.msg_nonce + 1) as u64, ..state };
    assert(counted.valid());
    let reply = MessageView::new_reply(
        MessageId { low: state.msg_nonce as u128, high: 0 },
        message.dest,
        message.source,
        payload,
        0,
        message.id,
        exit_code,
    );
    lemma_sent_valid(counted, DispatchView::new_reply(reply));
}

/// Something that happens to the manager.
pub enum Event<M> {
    /// A run starts on a message from outside.
    Start(MessageView),
    /// The first dispatch of the queue is put aside until its destination is initialized.
    Wait,
    /// The first dispatch of the queue is handed out to be run.
    Hand,
    /// The first dispatch of the queue is handled by a mock, which gives the response and is then
    /// as stated.
    Mock(MockResponse, M),
    /// A note of a journal is handled.
    Note(JournalNote),
}

impl<M> State<M> {
    /// Whether `event` can happen: what the functions of the manager require, and which way the
    /// first dispatch of the queue goes.
    pub open spec fn permits(self, event: Event<M>) -> bool {
        let dispatch = self.dispatch_queue[0];
        let actor = self.actors[dispatch.message.dest].0;
        match event {
            Event::Start(_) => self.dispatch_queue.len() == 0,
            Event::Wait => {
                &&& self.dispatch_queue.len() > 0
                &&& self.can_step()
                &&& actor.keeps_waiting(dispatch.message)
            },
            Event::Hand => {
                &&& self.dispatch_queue.len() > 0
                &&& self.can_step()
                &&& !actor.keeps_waiting(dispatch.message)
                &&& actor.mock() is None
            },
            Event::Mock(..) => {
                &&& self.dispatch_queue.len() > 0
                &&& self.can_step()
                &&& !actor.keeps_waiting(dispatch.message)
                &&& actor.mock() is Some
            },
            Event::Note(note) => self.accepts(note),
        }
    }

    /// The state after `event`.
    pub open spec fn after(self, event: Event<M>) -> State<M> {
        let dispatch = self.dispatch_queue[0];
        let dest = dispatch.message.dest;
        match event {
            Event::Start(message) => self.prepared(message.id, message.source).routed(message),
            Event::Wait => self.popped().waiting_for_init(dispatch),
            Event::Hand => self.popped(),
            Event::Mock(response, called) => self.popped().without_mock(dest).answered(
                dispatch,
                response,
            ).with_mock(dest, called),
            Event::Note(note) => self.noted(note),
        }
    }

    /// The state after `events`, one after the other.
    pub open spec fn after_all(self, events: Seq<Event<M>>) -> State<M>
        decreases events.len(),
    {
        if events.len() == 0 {
            self
        } else {
            self.after_all(events.drop_last()).after(events.last())
        }
    }

    /// Whether `events` can happen, one after the other.
    pub open spec fn permits_all(self, events: Seq<Event<M>>) -> bool
        decreases events.len(),
    {
        events.len() > 0 ==> self.permits_all(events.drop_last()) && self.after_all(
            events.drop_last(),
        ).permits(events.last())
    }
}

/// Every step of a run is an event: what a step says that it did is what happened.
pub proof fn law_steps_are_events<M>(
    before: State<M>,
    existential_deposit: Balance,
    step: RunStep,
    after: State<M>,
)
    requires
        before.can_step(),
        step_taken(before, existential_deposit, step, after),
    ensures
        match step {
            RunStep::Idle => before.dispatch_queue.len() == 0 && after == before,
            RunStep::Waiting => before.permits(Event::Wait) && after == before.after(Event::Wait),
            RunStep::MockRun => forall|response: MockResponse, called: M| #[trigger]
                before.permits(Event::Mock(response, called)),
            RunStep::Process(_) => before.permits(Event::Hand) && after == before.after(
                Event::Hand,
            ),
        },
{
}

/// Whatever happens to a manager in a valid state, its state is valid: in every state that is
/// reached, uninitialized actors have their programs, what waits is filed under its own
/// destination and message, messages wait only for actors that are to be initialized, and the log
/// is in the mailbox.
pub proof fn law_always_valid<M>(state: State<M>, events: Seq<Event<M>>)
    requires
        state.valid(),
        state.permits_all(events),
    ensures
        state.after_all(events).valid(),
    decreases events.len(),
{
    if events.len() > 0 {
        law_always_valid(state, events.drop_last());
        let before = state.after_all(events.drop_last());
        match events.last() {
            Event::Start(message) => law_start_keeps_valid(before, message),
            Event::Mock(response, called) => law_step_keeps_valid(before, response, called),
            Event::Note(note) => law_note_keeps_valid(before, note),
            _ => {},
        }
    }
}

/// Whatever happens, no mock is lost: between two events every mock is where it belongs.
pub proof fn law_mocks_stay<M>(state: State<M>, events: Seq<Event<M>>)
    requires
        state.mocks_present(),
        state.permits_all(events),
    ensures
        state.after_all(events).mocks_present(),
    decreases events.len(),
{
    if events.len() > 0 {
        law_mocks_stay(state, events.drop_last());
        let before = state.after_all(events.drop_last());
        match events.last() {
            Event::Mock(response, called) => law_called_mock_is_kept(before, response, called),
            Event::Note(note) => law_note_keeps_mocks(before, note),
            _ => {},
        }
    }
}

/// From the start of a run on, the destination of its message, if it is an actor, is never an
/// uninitialized one that does not know which message is to initialize it.
pub proof fn law_destination_knows_its_first_message<M>(
    state: State<M>,
    message: MessageView,
    events: Seq<Event<M>>,
)
    requires
        state.after(Event::Start(message)).permits_all(events),
    ensures
        ({
            let after = state.after(Event::Start(message)).after_all(events);
            after.actors.contains_key(message.dest) ==> !(
            after.actors[message.dest].0 matches ActorView::Uninitialized(None, _))
        }),
{
    law_lives_go_forward(state.after(Event::Start(message)), events);
    let started = state.after(Event::Start(message));
    let after = started.after_all(events);
    if after.actors.contains_key(message.dest) {
        assert(after.actors.dom().contains(message.dest));
        assert(started.actors.contains_key(message.dest));
    }
}

/// Whatever happens, no actor appears, and none goes back in its life. One that stays uninitialized
/// keeps its program and the message that is to initialize it.
pub proof fn law_lives_go_forward<M>(state: State<M>, events: Seq<Event<M>>)
    requires
        state.permits_all(events),
    ensures
        state.after_all(events).actors.dom().subset_of(state.actors.dom()),
        lifecycle_kept(state, state.after_all(events)),
    decreases events.len(),
{
    if events.len() > 0 {
        law_lives_go_forward(state, events.drop_last());
        let before = state.after_all(events.drop_last());
        let after = before.after(events.last());
        match events.last() {
            Event::Mock(response, called) => {
                let dispatch = before.dispatch_queue[0];
                let dest = dispatch.message.dest;
                let taken = before.popped().without_mock(dest);
                lemma_released_keeps(
                    taken.with_actor(dest, taken.actors[dest].0.initialized()),
                    dest,
                );
                lemma_released_keeps(taken.with_actor(dest, ActorView::Dormant), dest);
            },
            Event::Note(note) => {
                law_note_keeps_actors(before, note);
            },
            _ => {},
        }
        assert(lifecycle_kept(before, after));
        assert forall|id: ProgramId| #[trigger]
            after.actors.contains_key(id) implies before.actors.contains_key(id) by {
            if events.last() is Note {
                assert(after.actors.dom().contains(id));
            }
        }
        assert forall|id: ProgramId|
            #![trigger after.actors.contains_key(id)]
            state.actors.contains_key(id) && after.actors.contains_key(id) implies lives_on(
            state.actors[id].0,
            after.actors[id].0,
        ) by {
            assert(before.actors.contains_key(id));
        }
    }
}

/// One event of a run other than its start leaves the run what it was: failures are remembered,
/// the log grows at its end, and message numbers do not go back.
proof fn lemma_event_remembers<M>(state: State<M>, event: Event<M>)
    requires
        state.permits(event),
        !(event is Start),
    ensures
        remembered(state, state.after(event)),
{
    let after = state.after(event);
    match event {
        Event::Mock(response, called) => {
            let dispatch = state.dispatch_queue[0];
            let dest = dispatch.message.dest;
            let taken = state.popped().without_mock(dest);
            lemma_released_keeps(
                taken.with_actor(dest, taken.actors[dest].0.initialized()),
                dest,
            );
            lemma_released_keeps(taken.with_actor(dest, ActorView::Dormant), dest);
        },
        Event::Note(note) => {
            law_note_keeps_run(state, note);
        },
        _ => {},
    }
    assert(after.log.take(state.log.len() as int) =~= state.log);
}

/// Whether `after` can come later than `before` in one run: nothing that the run has to remember
/// was forgotten.
pub open spec fn remembered<M>(before: State<M>, after: State<M>) -> bool {
    &&& before.main_failed ==> after.main_failed
    &&& before.others_failed ==> after.others_failed
    &&& after.msg_id == before.msg_id
    &&& after.origin == before.origin
    &&& before.log.len() <= after.log.len()
    &&& after.log.take(before.log.len() as int) == before.log
    &&& before.msg_nonce <= after.msg_nonce
}

/// Within a run no failure is ever forgotten, the run stays the run on its message, the log only
/// grows, and message numbers never go back.
pub proof fn law_run_remembers<M>(state: State<M>, events: Seq<Event<M>>)
    requires
        state.permits_all(events),
        forall|i: int| 0 <= i < events.len() ==> !(#[trigger] events[i] is Start),
    ensures
        remembered(state, state.after_all(events)),
    decreases events.len(),
{
    if events.len() == 0 {
        assert(state.log.take(state.log.len() as int) =~= state.log);
    } else {
        let front = events.drop_last();
        assert forall|i: int| 0 <= i < front.len() implies !(#[trigger] front[i] is Start) by {
            assert(front[i] == events[i]);
        }
        law_run_remembers(state, front);
        let before = state.after_all(front);
        assert(!(events[events.len() - 1] is Start));
        lemma_event_remembers(before, events.last());
        let after = state.after_all(events);
        assert(after.log.take(state.log.len() as int) =~= before.log.take(
            state.log.len() as int,
        )) by {
            assert forall|i: int| 0 <= i < state.log.len() implies after.log[i] == before.log[i] by {
                assert(after.log.take(before.log.len() as int)[i] == after.log[i]);
            }
        }
    }
}

/// How many items `lists` hold together.
pub open spec fn item_count<T>(lists: Map<ProgramId, Seq<T>>) -> nat
    decreases lists.dom().len(),
{
    if lists.dom().finite() && lists.dom().len() > 0 {
        let id = lists.dom().choose();
        lists[id].len() + item_count(lists.remove(id))
    } else {
        0
    }
}

/// The items of all lists are those of one of them and those of the others.
proof fn lemma_item_count<T>(lists: Map<ProgramId, Seq<T>>, id: ProgramId)
    requires
        lists.dom().finite(),
        lists.contains_key(id),
    ensures
        item_count(lists) == lists[id].len() + item_count(lists.remove(id)),
    decreases lists.dom().len(),
{
    let first = lists.dom().choose();
    assert(lists.dom().len() > 0);
    if first != id {
        lemma_item_count(lists.remove(first), id);
        lemma_item_count(lists.remove(id), first);
        assert(lists.remove(first).remove(id) =~= lists.remove(id).remove(first));
    }
}

/// What is appended is one item more.
proof fn lemma_appended_count<T>(lists: Map<ProgramId, Seq<T>>, id: ProgramId, item: T)
    requires
        lists.dom().finite(),
    ensures
        appended(lists, id, item).dom().finite(),
        item_count(appended(lists, id, item)) == item_count(lists) + 1,
{
    let after = appended(lists, id, item);
    assert(after.dom() =~= lists.dom().insert(id));
    lemma_item_count(after, id);
    if lists.contains_key(id) {
        lemma_item_count(lists, id);
        assert(after.remove(id) =~= lists.remove(id));
    } else {
        assert(after.remove(id) =~= lists);
    }
}

/// The messages of `log` that are for `id`, in order.
pub open spec fn addressed_to(log: Seq<MessageView>, id: ProgramId) -> Seq<MessageView> {
    log.filter(|message: MessageView| message.dest == id)
}

/// One event of a run other than its start brings at most one message to a user: that goes to the
/// end of the log and of the mailbox of its destination, which is no actor.
proof fn lemma_event_delivers<M>(state: State<M>, event: Event<M>)
    requires
        state.permits(event),
        !(event is Start),
    ensures
        ({
            let after = state.after(event);
            let message = after.log.last();
            ||| after.log == state.log && after.mailbox == state.mailbox
            ||| {
                &&& after.log == state.log.push(message)
                &&& after.mailbox == appended(state.mailbox, message.dest, message)
                &&& !state.actors.contains_key(message.dest)
            }
        }),
        state.after(event).actors.dom().subset_of(state.actors.dom()),
{
    match event {
        Event::Mock(response, called) => {
            let dispatch = state.dispatch_queue[0];
            let dest = dispatch.message.dest;
            let taken = state.popped().without_mock(dest);
            lemma_released_keeps(
                taken.with_actor(dest, taken.actors[dest].0.initialized()),
                dest,
            );
            lemma_released_keeps(taken.with_actor(dest, ActorView::Dormant), dest);
        },
        Event::Note(note) => {
            lemma_note_and_release(state, note);
            law_note_keeps_actors(state, note);
        },
        _ => {},
    }
}

/// Whether the log of `after` is all that users got since `before`, when the log was empty: nobody
/// that it is for is an actor, and each got just what is theirs of it, behind what was there.
pub open spec fn log_delivered<M>(before: State<M>, after: State<M>) -> bool {
    &&& forall|i: int|
        0 <= i < after.log.len() ==> !after.actors.contains_key((#[trigger] after.log[i]).dest)
    &&& forall|id: ProgramId| #[trigger]
        after.mail(id) == before.mail(id) + addressed_to(after.log, id)
    &&& forall|id: ProgramId| #[trigger]
        before.mailbox.contains_key(id) ==> after.mailbox.contains_key(id)
    &&& after.mailbox.dom().finite()
    &&& item_count(after.mailbox) == item_count(before.mailbox) + after.log.len()
}

/// After the start of a run, its log is all that users get.
proof fn lemma_log_delivered<M>(state: State<M>, events: Seq<Event<M>>)
    requires
        state.permits_all(events),
        forall|i: int| 0 <= i < events.len() ==> !(#[trigger] events[i] is Start),
        state.log.len() == 0,
        state.mailbox.dom().finite(),
    ensures
        log_delivered(state, state.after_all(events)),
    decreases events.len(),
{
    reveal(Seq::filter);
    if events.len() == 0 {
        assert forall|id: ProgramId| #[trigger]
            state.mail(id) == state.mail(id) + addressed_to(state.log, id) by {
            assert(addressed_to(state.log, id) =~= Seq::empty());
            assert(state.mail(id) + addressed_to(state.log, id) =~= state.mail(id));
        }
    } else {
        let front = events.drop_last();
        assert forall|i: int| 0 <= i < front.len() implies !(#[trigger] front[i] is Start) by {
            assert(front[i] == events[i]);
        }
        lemma_log_delivered(state, front);
        let before = state.after_all(front);
        assert(!(events[events.len() - 1] is Start));
        lemma_event_delivers(before, events.last());
        let after = state.after_all(events);
        let message = after.log.last();
        assert forall|id: ProgramId| #[trigger] after.actors.contains_key(id) implies
            before.actors.contains_key(id) by {
            assert(after.actors.dom().contains(id));
        }
        if after.log == before.log && after.mailbox == before.mailbox {
            assert forall|id: ProgramId| #[trigger]
                after.mail(id) == state.mail(id) + addressed_to(after.log, id) by {
                assert(before.mail(id) == state.mail(id) + addressed_to(before.log, id));
            }
        } else {
            lemma_appended_count(before.mailbox, message.dest, message);
            assert forall|i: int| 0 <= i < after.log.len() implies !after.actors.contains_key(
                (#[trigger] after.log[i]).dest,
            ) by {
                if i < before.log.len() {
                    assert(after.log[i] == before.log[i]);
                }
            }
            assert(after.log.drop_last() =~= before.log);
            assert forall|id: ProgramId| #[trigger]
                after.mail(id) == state.mail(id) + addressed_to(after.log, id) by {
                assert(before.mail(id) == state.mail(id) + addressed_to(before.log, id));
                if id == message.dest {
                    assert(addressed_to(after.log, id) == addressed_to(before.log, id).push(
                        message,
                    ));
                    assert(after.mail(id) =~= before.mail(id).push(message));
                } else {
                    assert(addressed_to(after.log, id) == addressed_to(before.log, id));
                    assert(after.mail(id) == before.mail(id));
                }
                assert(after.mail(id) =~= state.mail(id) + addressed_to(after.log, id));
            }
        }
    }
}

/// The log of a run is what users got in it. Nobody that it is for is an actor, and each of its
/// messages is in the mailbox of its destination. No mailbox loses anything: behind what was there
/// comes the message of the run, if it is for a user and theirs, and then what is theirs of the
/// log. So the mailboxes together grow by the log, and by the message of the run if it is for a
/// user.
pub proof fn law_log_is_delivered<M>(
    state: State<M>,
    message: MessageView,
    events: Seq<Event<M>>,
)
    requires
        state.mailbox.dom().finite(),
        state.after(Event::Start(message)).permits_all(events),
        forall|i: int| 0 <= i < events.len() ==> !(#[trigger] events[i] is Start),
    ensures
        ({
            let after = state.after(Event::Start(message)).after_all(events);
            &&& forall|i: int|
                0 <= i < after.log.len() ==> {
                    let dest = (#[trigger] after.log[i]).dest;
                    &&& !after.actors.contains_key(dest)
                    &&& after.mailbox.contains_key(dest)
                    &&& after.mailbox[dest].contains(after.log[i])
                }
            &&& forall|id: ProgramId| #[trigger]
                after.mail(id) == state.mail(id) + state.first_mail(message, id) + addressed_to(
                    after.log,
                    id,
                )
            &&& forall|id: ProgramId| #[trigger]
                state.mailbox.contains_key(id) ==> after.mailbox.contains_key(id)
                    && state.mailbox[id].is_prefix_of(after.mailbox[id])
            &&& item_count(after.mailbox) == item_count(state.mailbox) + after.log.len() + (
            if state.actors.contains_key(message.dest) {
                0nat
            } else {
                1nat
            })
        }),
{
    let started = state.after(Event::Start(message));
    let after = started.after_all(events);
    if !state.actors.contains_key(message.dest) {
        lemma_appended_count(state.mailbox, message.dest, message);
    }
    lemma_log_delivered(started, events);
    assert forall|i: int| 0 <= i < after.log.len() implies {
        let dest = (#[trigger] after.log[i]).dest;
        &&& !after.actors.contains_key(dest)
        &&& after.mailbox.contains_key(dest)
        &&& after.mailbox[dest].contains(after.log[i])
    } by {
        let sent = after.log[i];
        let theirs = addressed_to(after.log, sent.dest);
        after.log.lemma_filter_contains(|other: MessageView| other.dest == sent.dest, i);
        let k = theirs.index_of(sent);
        assert(after.mail(sent.dest) == started.mail(sent.dest) + theirs);
        assert(after.mail(sent.dest)[started.mail(sent.dest).len() + k] == sent);
    }
    assert forall|id: ProgramId| #[trigger]
        after.mail(id) == state.mail(id) + state.first_mail(message, id) + addressed_to(
        after.log,
        id,
    ) by {
        assert(after.mail(id) == started.mail(id) + addressed_to(after.log, id));
        assert(started.mail(id) =~= state.mail(id) + state.first_mail(message, id));
    }
    assert forall|id: ProgramId| #[trigger]
        state.mailbox.contains_key(id) implies after.mailbox.contains_key(id)
        && state.mailbox[id].is_prefix_of(after.mailbox[id]) by {
        assert(started.mailbox.contains_key(id));
        assert(after.mail(id).take(state.mail(id).len() as int) =~= state.mail(id));
    }
}

/// The first message that an uninitialized actor gets, if it is no reply, is the one that
/// initializes it: it is queued for `init`, and the actor knows it from then on.
pub proof fn law_first_message_initializes<M>(state: State<M>, message: MessageView)
    requires
        state.actors.contains_key(message.dest),
        state.actors[message.dest].0 matches ActorView::Uninitialized(None, _),
        message.reply is None,
    ensures
        state.routed(message).dispatch_queue.last().kind == DispatchKind::Init,
        state.routed(message).dispatch_queue.last().message == message,
        state.routed(message).actors[message.dest].0 matches ActorView::Uninitialized(Some(id), _)
            && id == message.id,
        !state.routed(message).actors[message.dest].0.keeps_waiting(message),
{
}

/// After a message from outside, its destination, if it is an actor, is never an uninitialized
/// one that does not know its first message, so that the run can take its first step. Where a mock
/// is to be called, a number for its reply has to be left.
pub proof fn law_started_run_can_step<M>(state: State<M>, message: MessageView)
    requires
        state.dispatch_queue.len() == 0,
        state.actors.contains_key(message.dest) && state.actors[message.dest].0.mock() is Some
            ==> state.msg_nonce < u64::MAX,
    ensures
        state.prepared(message.id, message.source).routed(message).can_step(),
{
}

/// Neither a reply nor the message that initializes an actor ever waits for the actor's
/// initialization; nothing waits for an actor that is initialized or dormant.
pub proof fn law_who_never_waits<M>(actor: ActorView<M>, message: MessageView)
    ensures
        message.reply is Some ==> !actor.keeps_waiting(message),
        actor.entry_point(message) is Init ==> !actor.keeps_waiting(message),
        !(actor is Uninitialized) ==> !actor.keeps_waiting(message),
{
}

/// Waking a dispatch undoes putting it aside, except that the dispatch is now the last of the
/// queue. Another one that waited in its place is gone.
pub proof fn law_wake_undoes_wait<M>(state: State<M>, dispatch: DispatchView)
    ensures
        state.waiting(dispatch).woken(dispatch.message.dest, dispatch.message.id) == (State {
            dispatch_queue: without_message(state.dispatch_queue, dispatch.message.id).push(
                dispatch,
            ),
            wait_list: state.wait_list.remove((dispatch.message.dest, dispatch.message.id)),
            ..state
        }),
{
    let at = (dispatch.message.dest, dispatch.message.id);
    assert(state.wait_list.insert(at, dispatch).remove(at) =~= state.wait_list.remove(at));
}

/// A dispatch that was woken does not wait any more: waking it again does nothing.
pub proof fn law_wake_is_once<M>(state: State<M>, program_id: ProgramId, id: MessageId)
    ensures
        state.woken(program_id, id).woken(program_id, id) == state.woken(program_id, id),
{
}

/// Consuming a message takes out of the queue the first dispatch of that message, and nothing
/// else.
pub proof fn law_consumed_takes_the_first(queue: Seq<DispatchView>, id: MessageId, first: int)
    requires
        0 <= first < queue.len(),
        queue[first].message.id == id,
        forall|i: int| 0 <= i < first ==> (#[trigger] queue[i]).message.id != id,
    ensures
        without_message(queue, id) == queue.remove(first),
    decreases queue.len(),
{
    if first == 0 {
        assert(queue.drop_first() =~= queue.remove(0));
    } else {
        let rest = queue.drop_first();
        assert(queue[0].message.id != id);
        assert forall|i: int| 0 <= i < first - 1 implies (#[trigger] rest[i]).message.id != id by {
            assert(rest[i] == queue[i + 1]);
        }
        law_consumed_takes_the_first(rest, id, first - 1);
        assert(seq![queue[0]] + rest.remove(first - 1) =~= queue.remove(first));
    }
}

/// Consuming a message of which nothing is queued leaves the queue as it is.
pub proof fn law_consumed_leaves_others(queue: Seq<DispatchView>, id: MessageId)
    requires
        forall|i: int| 0 <= i < queue.len() ==> (#[trigger] queue[i]).message.id != id,
    ensures
        without_message(queue, id) == queue,
    decreases queue.len(),
{
    if queue.len() > 0 {
        let rest = queue.drop_first();
        assert(queue[0].message.id != id);
        assert forall|i: int| 0 <= i < rest.len() implies (#[trigger] rest[i]).message.id != id by {
            assert(rest[i] == queue[i + 1]);
        }
        law_consumed_leaves_others(rest, id);
        assert(seq![queue[0]] + rest =~= queue);
    }
}

/// Nothing waits any more under the woken messages, and whatever waited under them is queued.
/// What waits under anything else goes on waiting, and what was queued stays queued, in front.
pub proof fn law_all_woken<M>(state: State<M>, program_id: ProgramId, ids: Seq<MessageId>)
    ensures
        ({
            let after = state.all_woken(program_id, ids);
            &&& forall|i: int|
                0 <= i < ids.len() ==> !after.wait_list.contains_key(
                    (program_id, #[trigger] ids[i]),
                )
            &&& forall|i: int|
                0 <= i < ids.len() && state.wait_list.contains_key((program_id, #[trigger] ids[i]))
                    ==> after.dispatch_queue.contains(state.wait_list[(program_id, ids[i])])
            &&& forall|at: (ProgramId, MessageId)|
                at.0 != program_id || !ids.contains(at.1) ==> {
                    &&& #[trigger] after.wait_list.contains_key(at) == state.wait_list.contains_key(
                        at,
                    )
                    &&& after.wait_list[at] == state.wait_list[at]
                }
            &&& state.dispatch_queue.len() <= after.dispatch_queue.len()
            &&& after.dispatch_queue.take(state.dispatch_queue.len() as int)
                == state.dispatch_queue
        }),
    decreases ids.len(),
{
    let after = state.all_woken(program_id, ids);
    if ids.len() == 0 {
        assert(state.dispatch_queue.take(state.dispatch_queue.len() as int)
            =~= state.dispatch_queue);
    } else {
        let front = ids.drop_last();
        let last = ids.last();
        let before = state.all_woken(program_id, front);
        law_all_woken(state, program_id, front);
        assert forall|x: MessageId| ids.contains(x) == (front.contains(x) || x == last) by {
            if front.contains(x) {
                let k = front.index_of(x);
                assert(ids[k] == x);
            }
            if x == last {
                assert(ids[ids.len() - 1] == x);
            }
            if ids.contains(x) && x != last {
                let k = ids.index_of(x);
                assert(front[k] == x);
            }
        }
        assert forall|d: DispatchView| before.dispatch_queue.contains(
            d,
        ) implies #[trigger] after.dispatch_queue.contains(d) by {
            let k = before.dispatch_queue.index_of(d);
            assert(after.dispatch_queue[k] == d);
        }
        assert forall|i: int| 0 <= i < ids.len() implies !after.wait_list.contains_key(
            (program_id, #[trigger] ids[i]),
        ) by {
            if i < front.len() {
                assert(front[i] == ids[i]);
            }
        }
        assert forall|i: int|
            0 <= i < ids.len() && state.wait_list.contains_key(
                (program_id, #[trigger] ids[i]),
            ) implies after.dispatch_queue.contains(state.wait_list[(program_id, ids[i])]) by {
            let at = (program_id, ids[i]);
            if i < front.len() {
                assert(front[i] == ids[i]);
            } else if front.contains(last) {
                let k = front.index_of(last);
                assert(front[k] == ids[i]);
            } else {
                assert(before.wait_list.contains_key(at));
                assert(after.dispatch_queue.last() == state.wait_list[at]);
            }
        }
        assert(after.dispatch_queue.take(state.dispatch_queue.len() as int)
            =~= before.dispatch_queue.take(state.dispatch_queue.len() as int));
    }
}

/// Where distinct messages all wait, waking them queues their dispatches in the order of the
/// messages.
pub proof fn law_woken_in_order<M>(state: State<M>, program_id: ProgramId, ids: Seq<MessageId>)
    requires
        ids.no_duplicates(),
        forall|i: int|
            0 <= i < ids.len() ==> state.wait_list.contains_key((program_id, #[trigger] ids[i])),
    ensures
        state.all_woken(program_id, ids).dispatch_queue == state.dispatch_queue + Seq::new(
            ids.len(),
            |i: int| state.wait_list[(program_id, ids[i])],
        ),
    decreases ids.len(),
{
    let woken = Seq::new(ids.len(), |i: int| state.wait_list[(program_id, ids[i])]);
    if ids.len() == 0 {
        assert(state.dispatch_queue + woken =~= state.dispatch_queue);
    } else {
        let front = ids.drop_last();
        let last = ids.last();
        assert(front.no_duplicates());
        assert forall|i: int| 0 <= i < front.len() implies state.wait_list.contains_key(
            (program_id, #[trigger] front[i]),
        ) by {
            assert(front[i] == ids[i]);
        }
        law_woken_in_order(state, program_id, front);
        law_all_woken(state, program_id, front);
        assert(!front.contains(last)) by {
            if front.contains(last) {
                let k = front.index_of(last);
                assert(ids[k] == ids[ids.len() - 1]);
            }
        }
        assert(ids[ids.len() - 1] == last);
        let before = state.all_woken(program_id, front);
        assert(before.wait_list.contains_key((program_id, last)));
        assert(state.all_woken(program_id, ids).dispatch_queue =~= state.dispatch_queue + woken);
    }
}

/// The release of what waited for an initialization leaves nothing that waits for it: whatever
/// waited is queued.
proof fn lemma_release_is_complete<M>(state: State<M>, program_id: ProgramId)
    ensures
        no_longer_waits(state, program_id, state.released(program_id)),
{
    if state.wait_init_list.contains_key(program_id) {
        let opened = State { wait_init_list: state.wait_init_list.remove(program_id), ..state };
        let ids = state.wait_init_list[program_id];
        lemma_all_woken_keeps(opened, program_id, ids);
        law_all_woken(opened, program_id, ids);
    } else {
        assert(state.wait_init_list.remove(program_id) =~= state.wait_init_list);
    }
}

/// Whether nothing waits for the initialization of `program_id` in `after`, and all that waited
/// for it in `before` is queued.
pub open spec fn no_longer_waits<M>(
    before: State<M>,
    program_id: ProgramId,
    after: State<M>,
) -> bool {
    &&& after.wait_init_list == before.wait_init_list.remove(program_id)
    &&& before.wait_init_list.contains_key(program_id) ==> forall|i: int|
        0 <= i < before.wait_init_list[program_id].len() ==> {
            let at = (program_id, #[trigger] before.wait_init_list[program_id][i]);
            &&& !after.wait_list.contains_key(at)
            &&& before.wait_list.contains_key(at) ==> after.dispatch_queue.contains(
                before.wait_list[at],
            )
        }
}

/// The end of an initialization, good or bad, leaves nothing that waits for it: whatever waited
/// is queued.
pub proof fn law_initialization_releases<M>(
    state: State<M>,
    program_id: ProgramId,
    message_id: MessageId,
)
    ensures
        no_longer_waits(state, program_id, state.init_succeeded(program_id)),
        no_longer_waits(state, program_id, state.init_failed(message_id, program_id)),
{
    lemma_release_is_complete(
        state.with_actor(program_id, state.actors[program_id].0.initialized()),
        program_id,
    );
    lemma_release_is_complete(state.with_actor(program_id, ActorView::Dormant), program_id);
}

/// A message that came too early is not lost: once the initialization of its destination has
/// ended, good or bad, its dispatch is queued as it was.
pub proof fn law_early_message_is_handled_later<M>(
    state: State<M>,
    dispatch: DispatchView,
    init_id: MessageId,
)
    ensures
        ({
            let dest = dispatch.message.dest;
            let waiting = state.waiting_for_init(dispatch);
            &&& waiting.init_succeeded(dest).dispatch_queue.contains(dispatch)
            &&& waiting.init_failed(init_id, dest).dispatch_queue.contains(dispatch)
        }),
{
    let dest = dispatch.message.dest;
    let waiting = state.waiting_for_init(dispatch);
    let ids = waiting.wait_init_list[dest];
    law_initialization_releases(waiting, dest, init_id);
    assert(ids[ids.len() - 1] == dispatch.message.id);
    assert(waiting.wait_list[(dest, ids[ids.len() - 1])] == dispatch);
}

/// A transfer between two actors moves the value from the one to the other and changes nothing
/// else. An actor that gives to itself stays as it is.
pub proof fn law_transfer_conserves<M>(
    state: State<M>,
    from: ProgramId,
    to: ProgramId,
    value: Balance,
)
    requires
        state.can_transfer(from, Some(to), value),
        state.actors.contains_key(from),
        state.actors.contains_key(to),
    ensures
        ({
            let after = state.transferred(from, Some(to), value);
            &&& from == to ==> after == state
            &&& from != to ==> after.balance(from) == state.balance(from) - value
                && after.balance(to) == state.balance(to) + value
            &&& after.balance(from) + after.balance(to) == state.balance(from) + state.balance(to)
            &&& after.actors.dom() == state.actors.dom()
            &&& forall|id: ProgramId| #[trigger]
                state.actors.contains_key(id) ==> after.actors[id].0 == state.actors[id].0
            &&& forall|id: ProgramId|
                id != from && id != to ==> #[trigger] after.balance(id) == state.balance(id)
            &&& after == (State { actors: after.actors, ..state })
        }),
{
    let after = state.transferred(from, Some(to), value);
    assert(after.actors.dom() =~= state.actors.dom());
    if from == to {
        assert(after.actors =~= state.actors);
    }
}

/// What goes to nobody goes nowhere, and what goes to one who is no actor is lost to an actor
/// that gives it.
pub proof fn law_transfer_to_no_actor<M>(
    state: State<M>,
    from: ProgramId,
    to: Option<ProgramId>,
    value: Balance,
)
    requires
        state.can_transfer(from, to, value),
        to matches Some(to) ==> !state.actors.contains_key(to),
    ensures
        ({
            let after = state.transferred(from, to, value);
            &&& to is None ==> after == state
            &&& !state.actors.contains_key(from) ==> after == state
            &&& to is Some && state.actors.contains_key(from) ==> after.balance(from)
                == state.balance(from) - value
        }),
{
}

/// One who is no actor can give any value: the actor that takes it owns that much more.
pub proof fn law_transfer_from_no_actor<M>(
    state: State<M>,
    from: ProgramId,
    to: ProgramId,
    value: Balance,
)
    requires
        state.can_transfer(from, Some(to), value),
        !state.actors.contains_key(from),
        state.actors.contains_key(to),
    ensures
        state.transferred(from, Some(to), value) == state.with_balance(
            to,
            state.balance(to) + value,
        ),
        state.transferred(from, Some(to), value).balance(to) == state.balance(to) + value,
{
}

/// What is sent goes to exactly one place. For an actor it is queued, with a gas limit: the one
/// it had, or else the largest. For anyone else it is in the mailbox and in the log, as it was.
pub proof fn law_sent_goes_to_one_place<M>(state: State<M>, dispatch: DispatchView)
    ensures
        ({
            let after = state.sent(dispatch);
            let message = dispatch.message;
            if state.actors.contains_key(message.dest) {
                let queued = after.dispatch_queue.last();
                &&& after.dispatch_queue.len() == state.dispatch_queue.len() + 1
                &&& after.dispatch_queue.drop_last() == state.dispatch_queue
                &&& queued.message.gas_limit is Some
                &&& message.gas_limit is Some ==> queued == dispatch
                &&& message.gas_limit is None ==> queued.message.gas_limit == Some(u64::MAX)
                &&& queued == (DispatchView {
                    message: MessageView { gas_limit: queued.message.gas_limit, ..message },
                    ..dispatch
                })
                &&& after.mailbox == state.mailbox
                &&& after.log == state.log
            } else {
                &&& after.dispatch_queue == state.dispatch_queue
                &&& after.log == state.log.push(message)
                &&& after.mailbox[message.dest].last() == message
                &&& forall|id: ProgramId|
                    id != message.dest ==> #[trigger] after.mailbox.contains_key(id)
                        == state.mailbox.contains_key(id) && after.mailbox[id] == state.mailbox[id]
            }
        }),
{
    let after = state.sent(dispatch);
    if state.actors.contains_key(dispatch.message.dest) {
        assert(after.dispatch_queue.drop_last() =~= state.dispatch_queue);
    }
}

/// A mock that fails is answered for: a reply with the exit code 1 and without payload goes to
/// the sender of the message, under the next number. The message is noted as failed.
pub proof fn law_failure_is_answered<M>(
    state: State<M>,
    dispatch: DispatchView,
    explanation: &'static str,
)
    requires
        state.accepts_response(dispatch, Err(explanation)),
    ensures
        ({
            let after = state.answered(dispatch, Err(explanation));
            let message = dispatch.message;
            let reply = MessageView::new_reply(
                MessageId { low: state.msg_nonce as u128, high: 0 },
                message.dest,
                message.source,
                Seq::empty(),
                0,
                message.id,
                1,
            );
            &&& after.msg_nonce == state.msg_nonce + 1
            &&& state.actors.contains_key(message.source) ==> after.dispatch_queue.last()
                == DispatchView::new_reply(reply).imbued()
            &&& !state.actors.contains_key(message.source) ==> after.log == state.log.push(reply)
                && after.mailbox[message.source].last() == reply
            &&& if message.id == state.msg_id {
                after.main_failed && after.others_failed == state.others_failed
            } else {
                after.others_failed && after.main_failed == state.main_failed
            }
            &&& dispatch.kind is Init ==> after.actors[message.dest].0 is Dormant
        }),
{
    let dest = dispatch.message.dest;
    lemma_released_keeps(state.with_actor(dest, ActorView::Dormant), dest);
}

/// A mock that does not fail is answered for exactly as it asks: with a reply of the exit code 0
/// that carries its payload, under the next number, or with no reply at all. Nothing is noted as
/// failed.
pub proof fn law_success_is_answered_on_demand<M>(
    state: State<M>,
    dispatch: DispatchView,
    reply: Option<Vec<u8>>,
)
    requires
        state.accepts_response(dispatch, Ok(reply)),
    ensures
        ({
            let after = state.answered(dispatch, Ok(reply));
            let message = dispatch.message;
            &&& after.main_failed == state.main_failed
            &&& after.others_failed == state.others_failed
            &&& dispatch.kind is Init ==> after.actors[message.dest].0 is Initialized
            &&& match reply {
                None => {
                    &&& after.msg_nonce == state.msg_nonce
                    &&& after.log == state.log
                    &&& after.mailbox == state.mailbox
                },
                Some(payload) => {
                    let sent = MessageView::new_reply(
                        MessageId { low: state.msg_nonce as u128, high: 0 },
                        message.dest,
                        message.source,
                        payload@,
                        0,
                        message.id,
                        0,
                    );
                    &&& after.msg_nonce == state.msg_nonce + 1
                    &&& state.actors.contains_key(message.source) ==> after.dispatch_queue.last()
                        == DispatchView::new_reply(sent).imbued()
                    &&& !state.actors.contains_key(message.source) ==> after.log == state.log.push(
                        sent,
                    ) && after.mailbox[message.source].last() == sent
                },
            }
        }),
{
    let dest = dispatch.message.dest;
    lemma_released_keeps(
        state.with_actor(dest, state.actors[dest].0.initialized()),
        dest,
    );
}

/// Whether an actor that was `before` can later be `after`. An initialized or dormant one never
/// becomes uninitialized again, and a dormant one stays dormant. One that stays uninitialized keeps
/// the message that is to initialize it, once there is one, and its program: a WebAssembly program
/// as it was, and a mock, which can itself be changed by a reply, as a mock.
pub open spec fn lives_on<M>(before: ActorView<M>, after: ActorView<M>) -> bool {
    &&& before is Dormant ==> after is Dormant
    &&& after matches ActorView::Uninitialized(init, program) ==> {
        &&& before is Uninitialized
        &&& before->Uninitialized_0 is Some ==> init == before->Uninitialized_0
        &&& match before->Uninitialized_1 {
            Some(ProgramView::Mock(_)) => program matches Some(ProgramView::Mock(_)),
            other => program == other,
        }
    }
}

/// Whether every actor that is there before and after can have changed in between as it did.
pub open spec fn lifecycle_kept<M>(before: State<M>, after: State<M>) -> bool {
    forall|id: ProgramId|
        #![trigger after.actors.contains_key(id)]
        before.actors.contains_key(id) && after.actors.contains_key(id) ==> lives_on(
            before.actors[id].0,
            after.actors[id].0,
        )
}

/// No note of a journal makes an actor. Only the exit of an actor removes one, and only that one.
/// No actor goes back in its life.
pub proof fn law_note_keeps_actors<M>(state: State<M>, note: JournalNote)
    requires
        state.accepts(note),
    ensures
        note matches JournalNote::ExitDispatch { id_exited, .. }
            ==> state.noted(note).actors == state.actors.remove(id_exited),
        !(note is ExitDispatch) ==> state.noted(note).actors.dom() == state.actors.dom(),
        lifecycle_kept(state, state.noted(note)),
{
    lemma_note_and_release(state, note);
    if !(note is ExitDispatch) {
        assert(state.noted(note).actors.dom() =~= state.actors.dom());
    }
}

/// What the release of waiting dispatches leaves alone, for the two notes that end an
/// initialization.
proof fn lemma_note_and_release<M>(state: State<M>, note: JournalNote)
    ensures
        note matches JournalNote::MessageDispatched(
            DispatchOutcome::InitSuccess { program_id, .. },
        ) ==> {
            let changed = state.with_actor(
                program_id,
                state.actors[program_id].0.initialized(),
            );
            let after = state.noted(note);
            after == (State {
                dispatch_queue: after.dispatch_queue,
                wait_list: after.wait_list,
                wait_init_list: after.wait_init_list,
                ..changed
            })
        },
        note matches JournalNote::MessageDispatched(
            DispatchOutcome::InitFailure { message_id, program_id, .. },
        ) ==> {
            let changed = state.with_actor(program_id, ActorView::Dormant).failed(message_id);
            let after = state.noted(note);
            after == (State {
                dispatch_queue: after.dispatch_queue,
                wait_list: after.wait_list,
                wait_init_list: after.wait_init_list,
                ..changed
            })
        },
{
    match note {
        JournalNote::MessageDispatched(DispatchOutcome::InitSuccess { program_id, .. }) => {
            lemma_released_keeps(
                state.with_actor(program_id, state.actors[program_id].0.initialized()),
                program_id,
            );
        },
        JournalNote::MessageDispatched(DispatchOutcome::InitFailure { program_id, .. }) => {
            lemma_released_keeps(state.with_actor(program_id, ActorView::Dormant), program_id);
        },
        _ => {},
    }
}

/// Within a run a failure is never forgotten, the run stays the run on its message, and the log
/// only grows.
pub proof fn law_note_keeps_run<M>(state: State<M>, note: JournalNote)
    ensures
        ({
            let after = state.noted(note);
            &&& state.main_failed ==> after.main_failed
            &&& state.others_failed ==> after.others_failed
            &&& after.msg_id == state.msg_id
            &&& after.origin == state.origin
            &&& after.block_info == state.block_info
            &&& after.msg_nonce == state.msg_nonce
            &&& after.id_nonce == state.id_nonce
            &&& state.log.len() <= after.log.len()
            &&& after.log.take(state.log.len() as int) == state.log
        }),
{
    lemma_note_and_release(state, note);
    let after = state.noted(note);
    assert(after.log.take(state.log.len() as int) =~= state.log);
}

/// A run starts with nothing failed and nothing in the log.
pub proof fn law_run_starts_clean<M>(state: State<M>, message: MessageView)
    ensures
        ({
            let after = state.prepared(message.id, message.source).routed(message);
            &&& !after.main_failed
            &&& !after.others_failed
            &&& after.log.len() == 0
            &&& after.msg_id == message.id
            &&& after.origin == message.source
        }),
{
}

/// The message of a run is what the main failure is about: a failure of that message is the main
/// one, and a failure of any other message is another one.
pub proof fn law_failures_are_told_apart<M>(state: State<M>, id: MessageId)
    ensures
        state.failed(id).main_failed == (state.main_failed || id == state.msg_id),
        state.failed(id).others_failed == (state.others_failed || id != state.msg_id),
{
}

/// No note of a journal loses a mock.
pub proof fn law_note_keeps_mocks<M>(state: State<M>, note: JournalNote)
    requires
        state.mocks_present(),
        state.accepts(note),
    ensures
        state.noted(note).mocks_present(),
{
    lemma_note_and_release(state, note);
}

/// A mock that is called is back in its actor afterwards, as the call left it, unless its
/// initialization failed. An actor that is still to be initialized waits for the same message as
/// before. No other mock is touched.
pub proof fn law_called_mock_is_kept<M>(state: State<M>, response: MockResponse, called: M)
    requires
        state.mocks_present(),
        state.dispatch_queue.len() > 0,
        ({
            let dispatch = state.dispatch_queue[0];
            let dest = dispatch.message.dest;
            &&& state.actors.contains_key(dest)
            &&& state.actors[dest].0.mock() is Some
            &&& state.popped().without_mock(dest).accepts_response(dispatch, response)
        }),
    ensures
        ({
            let dispatch = state.dispatch_queue[0];
            let dest = dispatch.message.dest;
            let actor = state.actors[dest].0;
            let after = state.popped().without_mock(dest).answered(dispatch, response).with_mock(
                dest,
                called,
            );
            &&& after.mocks_present()
            &&& after.actors.dom() == state.actors.dom()
            &&& after.actors[dest].0 == if dispatch.kind is Init && response is Err {
                ActorView::Dormant
            } else if dispatch.kind is Init || actor is Initialized {
                ActorView::Initialized(ProgramView::Mock(Some(called)))
            } else {
                ActorView::Uninitialized(
                    actor->Uninitialized_0,
                    Some(ProgramView::Mock(Some(called))),
                )
            }
            &&& after.actors[dest].1 == state.actors[dest].1
            &&& forall|id: ProgramId| #[trigger]
                state.actors.contains_key(id) && id != dest ==> after.actors[id]
                    == state.actors[id]
        }),
{
    let dispatch = state.dispatch_queue[0];
    let dest = dispatch.message.dest;
    let taken = state.popped().without_mock(dest);
    let after = taken.answered(dispatch, response).with_mock(dest, called);
    lemma_released_keeps(taken.with_actor(dest, taken.actors[dest].0.initialized()), dest);
    lemma_released_keeps(taken.with_actor(dest, ActorView::Dormant), dest);
    assert(after.actors.dom() =~= state.actors.dom());
}

/// Waking dispatches that are for actors queues only dispatches that are for actors.
proof fn lemma_all_woken_known<M>(state: State<M>, program_id: ProgramId, ids: Seq<MessageId>)
    requires
        state.destinations_known(),
    ensures
        state.all_woken(program_id, ids).destinations_known(),
    decreases ids.len(),
{
    if ids.len() > 0 {
        lemma_all_woken_known(state, program_id, ids.drop_last());
        lemma_all_woken_keeps(state, program_id, ids.drop_last());
    }
}

/// What is left of a queue after a message was consumed was in it before.
proof fn lemma_without_message_contained(queue: Seq<DispatchView>, id: MessageId)
    ensures
        without_message(queue, id).len() <= queue.len(),
        forall|i: int|
            0 <= i < without_message(queue, id).len() ==> queue.contains(
                #[trigger] without_message(queue, id)[i],
            ),
    decreases queue.len(),
{
    if queue.len() > 0 {
        let rest = queue.drop_first();
        lemma_without_message_contained(rest, id);
        assert forall|d: DispatchView| #[trigger] rest.contains(d) implies queue.contains(d) by {
            let k = rest.index_of(d);
            assert(queue[k + 1] == d);
        }
        assert(queue.contains(queue[0]));
        let left = without_message(queue, id);
        assert forall|i: int| 0 <= i < left.len() implies queue.contains(#[trigger] left[i]) by {
            if queue[0].message.id == id {
                assert(rest.contains(rest[i]));
            } else if i > 0 {
                assert(left[i] == without_message(rest, id)[i - 1]);
            }
        }
    }
}

/// A message from outside is queued only for an actor.
pub proof fn law_start_keeps_destinations<M>(state: State<M>, message: MessageView)
    requires
        state.destinations_known(),
    ensures
        state.prepared(message.id, message.source).routed(message).destinations_known(),
{
}

/// Every note of a journal queues, and sets aside, only what is for actors. The law is not about
/// the exit of an actor, nor about a wait on behalf of one who is no actor.
pub proof fn law_note_keeps_destinations<M>(state: State<M>, note: JournalNote)
    requires
        state.destinations_known(),
        state.accepts(note),
        !(note is ExitDispatch),
        note matches JournalNote::WaitDispatch(dispatch) ==> state.actors.contains_key(
            dispatch@.message.dest,
        ),
    ensures
        state.noted(note).destinations_known(),
{
    match note {
        JournalNote::MessageDispatched(DispatchOutcome::InitSuccess { program_id, .. }) => {
            lemma_released_known(state, program_id, state.actors[program_id].0.initialized());
        },
        JournalNote::MessageDispatched(DispatchOutcome::InitFailure { program_id, .. }) => {
            lemma_released_known(state, program_id, ActorView::Dormant);
        },
        JournalNote::MessageConsumed(id) => {
            lemma_consumed_known(state, id);
        },
        JournalNote::WaitDispatch(dispatch) => {
            lemma_consumed_known(state, dispatch@.message.id);
        },
        _ => {},
    }
}

/// Handling the first dispatch of the queue queues, and sets aside, only what is for actors,
/// whatever a mock answers.
pub proof fn law_step_keeps_destinations<M>(state: State<M>, response: MockResponse, called: M)
    requires
        state.destinations_known(),
        state.can_step(),
        state.dispatch_queue.len() > 0,
    ensures
        ({
            let dispatch = state.dispatch_queue[0];
            let dest = dispatch.message.dest;
            let actor = state.actors[dest].0;
            &&& state.popped().destinations_known()
            &&& actor.keeps_waiting(dispatch.message) ==> state.popped().waiting_for_init(
                dispatch,
            ).destinations_known()
            &&& actor.mock() is Some && !actor.keeps_waiting(dispatch.message)
                ==> state.popped().without_mock(dest).answered(dispatch, response).with_mock(
                dest,
                called,
            ).destinations_known()
        }),
{
    let dispatch = state.dispatch_queue[0];
    let dest = dispatch.message.dest;
    let actor = state.actors[dest].0;
    assert forall|i: int| 0 <= i < state.popped().dispatch_queue.len() implies #[trigger]
        state.popped().dispatch_queue[i] == state.dispatch_queue[i + 1] by {
    }
    assert(state.popped().destinations_known());
    lemma_consumed_known(state.popped(), dispatch.message.id);
    if actor.mock() is Some && !actor.keeps_waiting(dispatch.message) {
        let taken = state.popped().without_mock(dest);
        assert(taken.destinations_known());
        lemma_answered_known(taken, dispatch, response);
    }
}

/// Consuming a message leaves only what is for actors.
proof fn lemma_consumed_known<M>(state: State<M>, id: MessageId)
    requires
        state.destinations_known(),
    ensures
        state.consumed(id).destinations_known(),
{
    lemma_without_message_contained(state.dispatch_queue, id);
    let left = state.consumed(id).dispatch_queue;
    assert forall|i: int| 0 <= i < left.len() implies state.actors.contains_key(
        (#[trigger] left[i]).message.dest,
    ) by {
        let k = state.dispatch_queue.index_of(left[i]);
        assert(state.dispatch_queue[k] == left[i]);
    }
}

/// The end of an initialization queues only what is for actors.
proof fn lemma_released_known<M>(state: State<M>, program_id: ProgramId, actor: ActorView<M>)
    requires
        state.destinations_known(),
        state.actors.contains_key(program_id),
    ensures
        state.with_actor(program_id, actor).released(program_id).destinations_known(),
{
    let changed = state.with_actor(program_id, actor);
    assert(changed.destinations_known());
    if changed.wait_init_list.contains_key(program_id) {
        let opened = State {
            wait_init_list: changed.wait_init_list.remove(program_id),
            ..changed
        };
        assert(opened.destinations_known());
        lemma_all_woken_known(opened, program_id, changed.wait_init_list[program_id]);
    }
}

/// The answer of a mock queues only what is for actors.
proof fn lemma_answered_known<M>(state: State<M>, dispatch: DispatchView, response: MockResponse)
    requires
        state.destinations_known(),
        state.accepts_response(dispatch, response),
    ensures
        state.answered(dispatch, response).destinations_known(),
{
    if dispatch.kind is Init {
        let dest = dispatch.message.dest;
        lemma_released_known(state, dest, state.actors[dest].0.initialized());
        lemma_released_known(state, dest, ActorView::Dormant);
    }
}

} // verus!
