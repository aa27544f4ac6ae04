//! The state of the manager as mathematics, and what each event does to it.
use vstd::prelude::*;

use crate::actor::ActorView;
use crate::ids::{MessageId, ProgramId};
use crate::journal::{DispatchOutcome, JournalNote};
use crate::message::{bytes_view, Balance, DispatchKind, DispatchView, MessageView};
use crate::program::{CoreProgramView, MockResponse, ProgramView};

verus! {

/// The block in which messages are handled.
#[derive(Clone, Copy, PartialEq, Eq, Debug, Structural)]
pub struct BlockInfo {
    /// Number of the block.
    pub height: u32,
    /// Time of the block, in seconds since the start of 1970.
    pub timestamp: u64,
}

/// What the manager holds.
#[verifier::ext_equal]
pub struct State<M> {
    /// The current block.
    pub block_info: BlockInfo,
    /// Number of the next message that the manager makes.
    pub msg_nonce: u64,
    /// Where the search for the number of a new program starts.
    pub id_nonce: u64,
    /// The actors, and what each of them owns.
    pub actors: Map<ProgramId, (ActorView<M>, Balance)>,
    /// The dispatches that are to be handled, in order.
    pub dispatch_queue: Seq<DispatchView>,
    /// The messages for users.
    pub mailbox: Map<ProgramId, Seq<MessageView>>,
    /// The dispatches that wait until they are woken, by their destination and message.
    pub wait_list: Map<(ProgramId, MessageId), DispatchView>,
    /// The messages that wait until a program is initialized.
    pub wait_init_list: Map<ProgramId, Seq<MessageId>>,
    /// Who sent the message of the current run.
    pub origin: ProgramId,
    /// The message of the current run.
    pub msg_id: MessageId,
    /// The messages that went to users in the current run.
    pub log: Seq<MessageView>,
    /// Whether the message of the current run failed.
    pub main_failed: bool,
    /// Whether another message failed in the current run.
    pub others_failed: bool,
}

/// `queue` without its first dispatch of the message `id`.
pub open spec fn without_message(queue: Seq<DispatchView>, id: MessageId) -> Seq<DispatchView>
    decreases queue.len(),
{
    if queue.len() == 0 {
        queue
    } else if queue[0].message.id == id {
        queue.drop_first()
    } else {
        seq![queue[0]] + without_message(queue.drop_first(), id)
    }
}

/// What `lists` has for `id`, with `item` behind it.
pub open spec fn appended<T>(lists: Map<ProgramId, Seq<T>>, id: ProgramId, item: T) -> Map<
    ProgramId,
    Seq<T>,
> {
    if lists.contains_key(id) {
        lists.insert(id, lists[id].push(item))
    } else {
        lists.insert(id, seq![item])
    }
}

impl<M> State<M> {
    /// The state in which nothing has happened yet.
    pub open spec fn initial(block_info: BlockInfo, msg_nonce: u64, id_nonce: u64) -> State<M> {
        State {
            block_info,
            msg_nonce,
            id_nonce,
            actors: Map::empty(),
            dispatch_queue: Seq::empty(),
            mailbox: Map::empty(),
            wait_list: Map::empty(),
            wait_init_list: Map::empty(),
            origin: ProgramId { low: 0, high: 0 },
            msg_id: MessageId { low: 0, high: 0 },
            log: Seq::empty(),
            main_failed: false,
            others_failed: false,
        }
    }

    /// The state with `actor` in place of the actor `id`.
    pub open spec fn with_actor(self, id: ProgramId, actor: ActorView<M>) -> State<M> {
        State { actors: self.actors.insert(id, (actor, self.actors[id].1)), ..self }
    }

    /// The state at the start of the run on the message `msg_id` of `origin`.
    pub open spec fn prepared(self, msg_id: MessageId, origin: ProgramId) -> State<M> {
        State {
            msg_id,
            origin,
            log: Seq::empty(),
            main_failed: false,
            others_failed: false,
            ..self
        }
    }

    /// The state after `message` came from outside: it is queued for an actor, and goes to the
    /// mailbox of anyone else.
    pub open spec fn routed(self, message: MessageView) -> State<M> {
        if self.actors.contains_key(message.dest) {
            let actor = self.actors[message.dest].0.with_init_message(message.id);
            let dispatch = DispatchView {
                kind: if actor is Dormant {
                    DispatchKind::Handle
                } else {
                    actor.entry_point(message)
                },
                message,
                payload_store: None,
            };
            State {
                dispatch_queue: self.dispatch_queue.push(dispatch),
                ..self.with_actor(message.dest, actor)
            }
        } else {
            State { mailbox: appended(self.mailbox, message.dest, message), ..self }
        }
    }

    /// The state after the handling of the message `id` failed.
    pub open spec fn failed(self, id: MessageId) -> State<M> {
        if self.msg_id == id {
            State { main_failed: true, ..self }
        } else {
            State { others_failed: true, ..self }
        }
    }

    /// The state after the message `id` is done with.
    pub open spec fn consumed(self, id: MessageId) -> State<M> {
        State { dispatch_queue: without_message(self.dispatch_queue, id), ..self }
    }

    /// The state after `dispatch` was sent: it is queued for an actor, with as much gas as there
    /// can be if no gas was set for it. For anyone else its message goes to the mailbox and into
    /// the log.
    pub open spec fn sent(self, dispatch: DispatchView) -> State<M> {
        let dest = dispatch.message.dest;
        if self.actors.contains_key(dest) {
            State { dispatch_queue: self.dispatch_queue.push(dispatch.imbued()), ..self }
        } else {
            State {
                mailbox: appended(self.mailbox, dest, dispatch.message),
                log: self.log.push(dispatch.message),
                ..self
            }
        }
    }

    /// The state after `dispatch` was put aside until it is woken.
    pub open spec fn waiting(self, dispatch: DispatchView) -> State<M> {
        State {
            wait_list: self.wait_list.insert(
                (dispatch.message.dest, dispatch.message.id),
                dispatch,
            ),
            ..self.consumed(dispatch.message.id)
        }
    }

    /// The state after the dispatch of the message `id` to `program_id` was woken.
    pub open spec fn woken(self, program_id: ProgramId, id: MessageId) -> State<M> {
        if self.wait_list.contains_key((program_id, id)) {
            State {
                dispatch_queue: self.dispatch_queue.push(self.wait_list[(program_id, id)]),
                wait_list: self.wait_list.remove((program_id, id)),
                ..self
            }
        } else {
            self
        }
    }

    /// The state after the dispatches of the messages `ids` to `program_id` were woken, one
    /// after the other.
    pub open spec fn all_woken(self, program_id: ProgramId, ids: Seq<MessageId>) -> State<M>
        decreases ids.len(),
    {
        if ids.len() == 0 {
            self
        } else {
            self.all_woken(program_id, ids.drop_last()).woken(program_id, ids.last())
        }
    }

    /// The state after all that waited for the initialization of `program_id` was queued.
    pub open spec fn released(self, program_id: ProgramId) -> State<M> {
        if self.wait_init_list.contains_key(program_id) {
            State {
                wait_init_list: self.wait_init_list.remove(program_id),
                ..self
            }.all_woken(program_id, self.wait_init_list[program_id])
        } else {
            self
        }
    }

    /// The state after `program_id` was initialized.
    pub open spec fn init_succeeded(self, program_id: ProgramId) -> State<M> {
        self.with_actor(program_id, self.actors[program_id].0.initialized()).released(program_id)
    }

    /// The state after the message `id` failed to initialize `program_id`.
    pub open spec fn init_failed(self, id: MessageId, program_id: ProgramId) -> State<M> {
        self.with_actor(program_id, ActorView::Dormant).released(program_id).failed(id)
    }

    /// The state after the run on a dispatch ended with `outcome`.
    pub open spec fn dispatched(self, outcome: DispatchOutcome) -> State<M> {
        match outcome {
            DispatchOutcome::Success(_) => self,
            DispatchOutcome::NoExecution(_) => self,
            DispatchOutcome::MessageTrap { message_id, .. } => self.failed(message_id),
            DispatchOutcome::InitSuccess { program_id, .. } => self.init_succeeded(program_id),
            DispatchOutcome::InitFailure { message_id, program_id, .. } => self.init_failed(
                message_id,
                program_id,
            ),
        }
    }

    /// The state after `id` left for good.
    pub open spec fn exited(self, id: ProgramId) -> State<M> {
        State { actors: self.actors.remove(id), ..self }
    }

    /// The state with `nonce` as the message counter of `program_id`, if that is an initialized
    /// WebAssembly program.
    pub open spec fn with_nonce(self, program_id: ProgramId, nonce: u64) -> State<M> {
        match self.actors[program_id].0.core_program() {
            Some(program) => self.with_actor(
                program_id,
                ActorView::Initialized(
                    ProgramView::Genuine(CoreProgramView { message_nonce: nonce, ..program }),
                ),
            ),
            None => self,
        }
    }

    /// The state with `data` as the page `number` of the WebAssembly program `program_id`.
    pub open spec fn with_page(
        self,
        program_id: ProgramId,
        number: u32,
        data: Option<Seq<u8>>,
    ) -> State<M> {
        match self.actors[program_id].0.core_program() {
            Some(program) => self.with_actor(
                program_id,
                ActorView::Initialized(
                    ProgramView::Genuine(
                        match data {
                            Some(data) => program.with_page(number, data),
                            None => program.without_page(number),
                        },
                    ),
                ),
            ),
            None => self,
        }
    }

    /// What `id` owns; nothing, if it is no actor.
    pub open spec fn balance(self, id: ProgramId) -> int {
        if self.actors.contains_key(id) {
            self.actors[id].1 as int
        } else {
            0
        }
    }

    /// The state in which the actor `id`, if there is one, owns `amount`.
    pub open spec fn with_balance(self, id: ProgramId, amount: int) -> State<M> {
        if self.actors.contains_key(id) {
            State { actors: self.actors.insert(id, (self.actors[id].0, amount as u128)), ..self }
        } else {
            self
        }
    }

    /// The state after `from` gave `value` away. One who is no actor can give any value.
    pub open spec fn debited(self, from: ProgramId, value: Balance) -> State<M> {
        self.with_balance(from, self.balance(from) - value)
    }

    /// The state after `to` got `value`.
    pub open spec fn credited(self, to: ProgramId, value: Balance) -> State<M> {
        self.with_balance(to, self.balance(to) + value)
    }

    /// Whether `from` can give `value` to `to`: an actor that gives owns as much, and what an
    /// actor that takes then owns is not too much to count.
    pub open spec fn can_transfer(
        self,
        from: ProgramId,
        to: Option<ProgramId>,
        value: Balance,
    ) -> bool {
        to matches Some(to) ==> {
            &&& self.actors.contains_key(from) ==> value <= self.balance(from)
            &&& self.actors.contains_key(to) ==> self.debited(from, value).balance(to) + value
                <= u128::MAX
        }
    }

    /// The state after `from` gave `value` to `to`.
    pub open spec fn transferred(
        self,
        from: ProgramId,
        to: Option<ProgramId>,
        value: Balance,
    ) -> State<M> {
        match to {
            Some(to) => self.debited(from, value).credited(to, value),
            None => self,
        }
    }

    /// Whether `note` speaks of what there is: of actors that exist, and that are in the state
    /// in which such a note can come.
    pub open spec fn accepts(self, note: JournalNote) -> bool {
        match note {
            JournalNote::MessageDispatched(outcome) => self.accepts_outcome(outcome),
            JournalNote::UpdateNonce { program_id, .. } => self.actors.contains_key(program_id),
            JournalNote::UpdatePage { program_id, .. } => self.actors.contains_key(program_id)
                && self.actors[program_id].0.core_program() is Some,
            JournalNote::SendValue { from, to, value } => self.can_transfer(from, to, value),
            _ => true,
        }
    }

    /// Whether the run on a dispatch can end with `outcome`.
    pub open spec fn accepts_outcome(self, outcome: DispatchOutcome) -> bool {
        match outcome {
            DispatchOutcome::InitSuccess { program_id, .. } => self.actors.contains_key(program_id)
                && self.actors[program_id].0.can_be_initialized(),
            DispatchOutcome::InitFailure { program_id, .. } => self.actors.contains_key(program_id),
            _ => true,
        }
    }

    /// The state after `note`.
    pub open spec fn noted(self, note: JournalNote) -> State<M> {
        match note {
            JournalNote::MessageDispatched(outcome) => self.dispatched(outcome),
            JournalNote::GasBurned { .. } => self,
            JournalNote::ExitDispatch { id_exited, .. } => self.exited(id_exited),
            JournalNote::MessageConsumed(id) => self.consumed(id),
            JournalNote::SendDispatch { dispatch, .. } => self.sent(dispatch@),
            JournalNote::WaitDispatch(dispatch) => self.waiting(dispatch@),
            JournalNote::WakeMessage { program_id, awakening_id, .. } => self.woken(
                program_id,
                awakening_id,
            ),
            JournalNote::UpdateNonce { program_id, nonce } => self.with_nonce(program_id, nonce),
            JournalNote::UpdatePage { program_id, page_number, data } => self.with_page(
                program_id,
                page_number,
                bytes_view(data),
            ),
            JournalNote::SendValue { from, to, value } => self.transferred(from, to, value),
            JournalNote::StoreNewPrograms { .. } => self,
        }
    }

    /// The state after the first dispatch of the queue left it.
    pub open spec fn popped(self) -> State<M> {
        State { dispatch_queue: self.dispatch_queue.drop_first(), ..self }
    }

    /// The state after `dispatch` was put aside until its destination is initialized.
    pub open spec fn waiting_for_init(self, dispatch: DispatchView) -> State<M> {
        State {
            wait_init_list: appended(
                self.wait_init_list,
                dispatch.message.dest,
                dispatch.message.id,
            ),
            ..self
        }.waiting(dispatch)
    }

    /// The state after the manager made a reply of its own to `message` and sent it.
    pub open spec fn replied(
        self,
        message: MessageView,
        payload: Seq<u8>,
        exit_code: i32,
    ) -> State<M> {
        let reply = MessageView::new_reply(
            MessageId { low: self.msg_nonce as u128, high: 0 },
            message.dest,
            message.source,
            payload,
            0,
            message.id,
            exit_code,
        );
        State { msg_nonce: (self.msg_nonce + 1) as u64, ..self }.sent(
            DispatchView::new_reply(reply),
        )
    }

    /// The state after the mock that `dispatch` was for answered with `response`, but for the
    /// mock itself.
    pub open spec fn answered(self, dispatch: DispatchView, response: MockResponse) -> State<M> {
        let message = dispatch.message;
        match response {
            Ok(reply) => {
                let state = if dispatch.kind is Init {
                    self.init_succeeded(message.dest)
                } else {
                    self
                };
                match reply {
                    Some(payload) => state.replied(message, payload@, 0),
                    None => state,
                }
            },
            Err(_) => {
                let state = if dispatch.kind is Init {
                    self.init_failed(message.id, message.dest)
                } else {
                    self.failed(message.id)
                };
                state.replied(message, Seq::empty(), 1)
            },
        }
    }

    /// The state after `mock` went back to the actor `id`, if that is still there and not dormant.
    pub open spec fn with_mock(self, id: ProgramId, mock: M) -> State<M> {
        if self.actors.contains_key(id) {
            self.with_actor(id, self.actors[id].0.with_mock(mock))
        } else {
            self
        }
    }

    /// The state after the mock of the actor `id` was taken away.
    pub open spec fn without_mock(self, id: ProgramId) -> State<M> {
        self.with_actor(id, self.actors[id].0.without_mock())
    }

    /// Whether the mock that `dispatch` was for can answer with `response`.
    pub open spec fn accepts_response(
        self,
        dispatch: DispatchView,
        response: MockResponse,
    ) -> bool {
        let dest = dispatch.message.dest;
        &&& dispatch.kind is Init ==> self.actors.contains_key(dest)
        &&& dispatch.kind is Init && response is Ok ==> self.actors[dest].0.can_be_initialized()
        &&& !(response matches Ok(None)) ==> self.msg_nonce < u64::MAX
    }

    /// Whether the first dispatch of the queue, if there is one, can be handled: its destination
    /// is an actor, and one that knows the message that is to initialize it. A mock that is to
    /// be initialized is uninitialized, and the reply of a mock can be numbered.
    pub open spec fn can_step(self) -> bool {
        self.dispatch_queue.len() > 0 ==> {
            let dispatch = self.dispatch_queue[0];
            let dest = dispatch.message.dest;
            let actor = self.actors[dest].0;
            &&& self.actors.contains_key(dest)
            &&& !(actor matches ActorView::Uninitialized(None, _))
            &&& actor.mock() is Some && !actor.keeps_waiting(dispatch.message) ==> {
                &&& self.msg_nonce < u64::MAX
                &&& dispatch.kind is Init ==> actor.can_be_initialized()
            }
        }
    }
}

/// Waking dispatches changes nothing but the queue and the wait list.
pub proof fn lemma_all_woken_keeps<M>(state: State<M>, program_id: ProgramId, ids: Seq<MessageId>)
    ensures
        state.all_woken(program_id, ids) == (State {
            dispatch_queue: state.all_woken(program_id, ids).dispatch_queue,
            wait_list: state.all_woken(program_id, ids).wait_list,
            ..state
        }),
    decreases ids.len(),
{
    if ids.len() > 0 {
        lemma_all_woken_keeps(state, program_id, ids.drop_last());
    }
}

/// Releasing what waited for an initialization changes nothing but the queue and the lists of
/// what waits.
pub proof fn lemma_released_keeps<M>(state: State<M>, program_id: ProgramId)
    ensures
        state.released(program_id) == (State {
            dispatch_queue: state.released(program_id).dispatch_queue,
            wait_list: state.released(program_id).wait_list,
            wait_init_list: state.released(program_id).wait_init_list,
            ..state
        }),
{
    if state.wait_init_list.contains_key(program_id) {
        lemma_all_woken_keeps(
            State { wait_init_list: state.wait_init_list.remove(program_id), ..state },
            program_id,
            state.wait_init_list[program_id],
        );
    }
}

} // verus!
