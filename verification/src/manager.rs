//! The manager of actors: it routes messages, runs mocks, and keeps what programs ask for.
use std::collections::VecDeque;

use vstd::prelude::*;

use crate::actor::{Actor, ActorView};
use crate::ids::{CodeHash, MessageId, ProgramId};
use crate::journal::{DispatchOutcome, JournalNote};
use crate::maps::{MessageMap, ProgramMap};
use crate::message::{
    bytes_view, clone_messages, dispatch_views, message_views, Balance, Dispatch, DispatchKind, DispatchView,
    Message, MessageView,
};
use crate::program::{
    call_mock, mock_called, ExecutableActor, MockResponse, Program, WasmProgram,
};
use crate::state::{appended, lemma_released_keeps, without_message, BlockInfo, State};

verus! {

/// Everything that is known of the actors and of the messages between them. `M` is the type of
/// the mocks.
#[derive(Debug)]
pub struct ExtManager<M> {
    /// The current block.
    pub block_info: BlockInfo,
    /// Number of the next message that the manager makes.
    pub msg_nonce: u64,
    /// Where the search for the number of a new program starts.
    pub id_nonce: u64,
    /// The actors, and what each of them owns.
    pub actors: ProgramMap<(Actor<M>, Balance)>,
    /// The dispatches that are to be handled, in order.
    pub dispatch_queue: VecDeque<Dispatch>,
    /// The messages for users.
    pub mailbox: ProgramMap<Vec<Message>>,
    /// The dispatches that wait until they are woken, by their destination and message.
    pub wait_list: MessageMap<Dispatch>,
    /// The messages that wait until a program is initialized.
    pub wait_init_list: ProgramMap<Vec<MessageId>>,
    /// Who sent the message of the current run.
    pub origin: ProgramId,
    /// The message of the current run.
    pub msg_id: MessageId,
    /// The messages that went to users in the current run.
    pub log: Vec<Message>,
    /// Whether the message of the current run failed.
    pub main_failed: bool,
    /// Whether another message failed in the current run.
    pub others_failed: bool,
}

/// What the entries of the actors hold.
pub open spec fn actor_views<M>(actors: Map<ProgramId, (Actor<M>, Balance)>) -> Map<
    ProgramId,
    (ActorView<M>, Balance),
> {
    actors.map_values(|entry: (Actor<M>, Balance)| (entry.0@, entry.1))
}

/// What the entries of a mailbox hold.
pub open spec fn mailbox_views(mailbox: Map<ProgramId, Vec<Message>>) -> Map<
    ProgramId,
    Seq<MessageView>,
> {
    mailbox.map_values(|messages: Vec<Message>| message_views(messages@))
}

/// What the entries of a wait list hold.
pub open spec fn wait_list_views(wait_list: Map<(ProgramId, MessageId), Dispatch>) -> Map<
    (ProgramId, MessageId),
    DispatchView,
> {
    wait_list.map_values(|dispatch: Dispatch| dispatch@)
}

/// What the entries of a list of messages that wait for an initialization hold.
pub open spec fn wait_init_views(lists: Map<ProgramId, Vec<MessageId>>) -> Map<
    ProgramId,
    Seq<MessageId>,
> {
    lists.map_values(|ids: Vec<MessageId>| ids@)
}

impl<M> View for ExtManager<M> {
    type V = State<M>;

    open spec fn view(&self) -> State<M> {
        State {
            block_info: self.block_info,
            msg_nonce: self.msg_nonce,
            id_nonce: self.id_nonce,
            actors: actor_views(self.actors@),
            dispatch_queue: dispatch_views(self.dispatch_queue@),
            mailbox: mailbox_views(self.mailbox@),
            wait_list: wait_list_views(self.wait_list@),
            wait_init_list: wait_init_views(self.wait_init_list@),
            origin: self.origin,
            msg_id: self.msg_id,
            log: message_views(self.log@),
            main_failed: self.main_failed,
            others_failed: self.others_failed,
        }
    }
}

/// A WebAssembly run that the manager asks for.
#[derive(Debug)]
pub struct ProcessRequest {
    /// What is to be run; nothing, if the destination has no program.
    pub actor: Option<ExecutableActor>,
    /// The dispatch that is to be handled.
    pub dispatch: Dispatch,
    /// The current block.
    pub block_info: BlockInfo,
    /// What an actor has to own to exist.
    pub existential_deposit: Balance,
    /// Who sent the message of the current run.
    pub origin: ProgramId,
}

/// What became of the first dispatch of the queue.
#[derive(Debug)]
pub enum RunStep {
    /// There was none: the run is over.
    Idle,
    /// It was put aside until its destination is initialized.
    Waiting,
    /// A mock handled it.
    MockRun,
    /// It is to be run; the notes of the run's journal are then to be handled.
    Process(ProcessRequest),
}

/// What a run came to.
#[derive(Debug)]
pub struct RunResult {
    /// Whether the message of the run failed.
    pub main_failed: bool,
    /// Whether another message failed in the run.
    pub others_failed: bool,
    /// The messages that went to users in the run, in order.
    pub log: Vec<Message>,
}

/// Whether `step` and, unless a mock was run, `after` are what the handling of the first dispatch
/// of the queue of `before` comes to.
pub open spec fn step_taken<M>(
    before: State<M>,
    existential_deposit: Balance,
    step: RunStep,
    after: State<M>,
) -> bool {
    if before.dispatch_queue.len() == 0 {
        step is Idle && after == before
    } else {
        let dispatch = before.dispatch_queue[0];
        let dest = dispatch.message.dest;
        let (actor, balance) = before.actors[dest];
        if actor.keeps_waiting(dispatch.message) {
            step is Waiting && after == before.popped().waiting_for_init(dispatch)
        } else if actor.genuine() is None && actor.mock() is Some {
            step is MockRun
        } else {
            &&& after == before.popped()
            &&& step matches RunStep::Process(request) && {
                &&& request.dispatch@ == dispatch
                &&& request.block_info == before.block_info
                &&& request.existential_deposit == existential_deposit
                &&& request.origin == before.origin
                &&& match request.actor {
                    Some(executable) => actor.genuine() == Some(executable@.program)
                        && executable@.balance == balance,
                    None => actor.genuine() is None,
                }
            }
        }
    }
}

impl<M> ExtManager<M> {
    /// A manager without actors, at the block that has the given time.
    pub fn new(timestamp: u64) -> (manager: Self)
        ensures
            manager@ == State::<M>::initial(BlockInfo { height: 0, timestamp }, 1, 1),
    {
        let manager = ExtManager {
            block_info: BlockInfo { height: 0, timestamp },
            msg_nonce: 1,
            id_nonce: 1,
            ..Default::default()
        };
        manager
    }
}

impl<M> Default for ExtManager<M> {
    /// A manager without actors, in which every counter is zero.
    fn default() -> (manager: Self)
        ensures
            manager@ == State::<M>::initial(BlockInfo { height: 0, timestamp: 0 }, 0, 0),
    {
        let manager = ExtManager {
            block_info: BlockInfo { height: 0, timestamp: 0 },
            msg_nonce: 0,
            id_nonce: 0,
            actors: ProgramMap::new(),
            dispatch_queue: VecDeque::new(),
            mailbox: ProgramMap::new(),
            wait_list: MessageMap::new(),
            wait_init_list: ProgramMap::new(),
            origin: ProgramId { low: 0, high: 0 },
            msg_id: MessageId { low: 0, high: 0 },
            log: Vec::new(),
            main_failed: false,
            others_failed: false,
        };
        assert(manager@ =~= State::<M>::initial(BlockInfo { height: 0, timestamp: 0 }, 0, 0));
        manager
    }
}

impl<M> ExtManager<M> {
    /// The number of a new message. No number is given twice.
    pub fn fetch_inc_message_nonce(&mut self) -> (nonce: u64)
        requires
            old(self)@.msg_nonce < u64::MAX,
        ensures
            nonce == old(self)@.msg_nonce,
            final(self)@ == (State { msg_nonce: (nonce + 1) as u64, ..old(self)@ }),
    {
        let nonce = self.msg_nonce;
        self.msg_nonce += 1;
        nonce
    }

    /// The first number, from where the search starts, that no actor has. The next search starts
    /// there.
    pub fn free_id_nonce(&mut self) -> (nonce: u64)
        requires
            exists|free: u64|
                old(self)@.id_nonce <= free && !(#[trigger] old(self)@.actors.contains_key(
                    ProgramId { low: free as u128, high: 0 },
                )),
        ensures
            old(self)@.id_nonce <= nonce,
            !old(self)@.actors.contains_key(ProgramId { low: nonce as u128, high: 0 }),
            forall|taken: u64|
                old(self)@.id_nonce <= taken < nonce ==> #[trigger] old(self)@.actors.contains_key(
                    ProgramId { low: taken as u128, high: 0 },
                ),
            final(self)@ == (State { id_nonce: nonce, ..old(self)@ }),
    {
        let ghost free = choose|free: u64|
            old(self)@.id_nonce <= free && !(#[trigger] old(self)@.actors.contains_key(
                ProgramId { low: free as u128, high: 0 },
            ));
        while self.actors.contains_key(&ProgramId::from(self.id_nonce))
            invariant
                self@ == (State { id_nonce: self.id_nonce, ..old(self)@ }),
                old(self)@.id_nonce <= self.id_nonce <= free,
                !old(self)@.actors.contains_key(ProgramId { low: free as u128, high: 0 }),
                forall|taken: u64|
                    old(self)@.id_nonce <= taken < self.id_nonce ==> #[trigger] old(
                        self,
                    )@.actors.contains_key(ProgramId { low: taken as u128, high: 0 }),
            decreases free - self.id_nonce,
        {
            assert(self@.actors.contains_key(ProgramId { low: self.id_nonce as u128, high: 0 }));
            self.id_nonce += 1;
        }
        self.id_nonce
    }
}

impl<M> ExtManager<M> {
    /// The entry point of `actor` that `message` is for. An uninitialized actor has to know the
    /// message that is to initialize it, unless `message` is a reply.
    pub fn get_entry_point(message: &Message, actor: &Actor<M>) -> (kind: DispatchKind)
        requires
            message@.reply is None ==> !(actor@ matches ActorView::Uninitialized(None, _)),
        ensures
            kind == actor@.entry_point(message@),
    {
        if message.reply.is_some() {
            return DispatchKind::HandleReply;
        }
        match actor {
            Actor::Uninitialized(Some(id), _) if *id == message.id => DispatchKind::Init,
            _ => DispatchKind::Handle,
        }
    }

    /// Forgets the last run, and notes the message of the next one and its sender. Nothing may
    /// be left of the last run.
    pub fn prepare_for(&mut self, msg_id: MessageId, origin: ProgramId)
        requires
            old(self)@.dispatch_queue.len() == 0,
        ensures
            final(self)@ == old(self)@.prepared(msg_id, origin),
    {
        self.msg_id = msg_id;
        self.origin = origin;
        self.log.clear();
        self.main_failed = false;
        self.others_failed = false;
        assert(self@ =~= old(self)@.prepared(msg_id, origin));
    }

    /// Starts the run on `message`: queues it if it is for an actor, and puts it into the
    /// mailbox if it is not. The first message that an uninitialized actor gets in this way is
    /// the one that initializes it.
    pub fn start_run(&mut self, message: Message)
        requires
            old(self)@.dispatch_queue.len() == 0,
        ensures
            final(self)@ == old(self)@.prepared(message@.id, message@.source).routed(message@),
    {
        self.prepare_for(message.id, message.source);
        let ghost prepared = self@;
        let dest = message.dest;
        match self.actors.remove(&dest) {
            Some((mut actor, balance)) => {
                let ghost before = actor@;
                let kind = if actor.is_dormant() {
                    DispatchKind::Handle
                } else {
                    if let Actor::Uninitialized(init, _) = &mut actor {
                        if init.is_none() {
                            *init = Some(message.id);
                        }
                    }
                    assert(actor@ == before.with_init_message(message@.id));
                    Self::get_entry_point(&message, &actor)
                };
                self.actors.insert(dest, (actor, balance));
                self.dispatch_queue.push_back(Dispatch { kind, message, payload_store: None });
                assert(self@ =~= prepared.routed(message@));
            },
            None => {
                self.store_in_mailbox(message);
                assert(self@ =~= prepared.routed(message@));
            },
        }
    }

    /// Puts `message` into the mailbox of its destination.
    fn store_in_mailbox(&mut self, message: Message)
        ensures
            final(self)@ == (State {
                mailbox: appended(old(self)@.mailbox, message@.dest, message@),
                ..old(self)@
            }),
    {
        let dest = message.dest;
        let mut messages = match self.mailbox.remove(&dest) {
            Some(messages) => messages,
            None => Vec::new(),
        };
        let ghost before = message_views(messages@);
        messages.push(message);
        assert(message_views(messages@) =~= before.push(message@));
        self.mailbox.insert(dest, messages);
        assert(before =~= if old(self)@.mailbox.contains_key(dest) {
            old(self)@.mailbox[dest]
        } else {
            seq![]
        });
        assert(seq![].push(message@) =~= seq![message@]);
        assert(self@.mailbox =~= appended(old(self)@.mailbox, message@.dest, message@));
    }

    /// Notes that the message `id` waits until `dest` is initialized.
    fn store_for_init(&mut self, dest: ProgramId, id: MessageId)
        ensures
            final(self)@ == (State {
                wait_init_list: appended(old(self)@.wait_init_list, dest, id),
                ..old(self)@
            }),
    {
        let mut ids = match self.wait_init_list.remove(&dest) {
            Some(ids) => ids,
            None => Vec::new(),
        };
        let ghost before = ids@;
        ids.push(id);
        self.wait_init_list.insert(dest, ids);
        assert(before =~= if old(self)@.wait_init_list.contains_key(dest) {
            old(self)@.wait_init_list[dest]
        } else {
            seq![]
        });
        assert(seq![].push(id) =~= seq![id]);
        assert(self@.wait_init_list =~= appended(old(self)@.wait_init_list, dest, id));
    }

    /// Notes that the handling of the message `msg_id` failed.
    pub fn mark_failed(&mut self, msg_id: MessageId)
        ensures
            final(self)@ == old(self)@.failed(msg_id),
    {
        if self.msg_id == msg_id {
            self.main_failed = true;
        } else {
            self.others_failed = true;
        }
    }

    /// Notes that `program_id` was initialized by the message `message_id`, and queues all that
    /// waited for it.
    pub fn init_success(&mut self, message_id: MessageId, program_id: ProgramId)
        requires
            old(self)@.actors.contains_key(program_id),
            old(self)@.actors[program_id].0.can_be_initialized(),
        ensures
            final(self)@ == old(self)@.init_succeeded(program_id),
    {
        if let Some((mut actor, balance)) = self.actors.remove(&program_id) {
            actor.set_initialized();
            self.actors.insert(program_id, (actor, balance));
        }
        assert(self@ =~= old(self)@.with_actor(
            program_id,
            old(self)@.actors[program_id].0.initialized(),
        ));
        self.move_waiting_msgs_to_queue(message_id, program_id);
    }

    /// Notes that the message `message_id` failed to initialize `program_id`, and queues all that
    /// waited for the program to be initialized.
    pub fn init_failure(&mut self, message_id: MessageId, program_id: ProgramId)
        requires
            old(self)@.actors.contains_key(program_id),
        ensures
            final(self)@ == old(self)@.init_failed(message_id, program_id),
    {
        if let Some((_, balance)) = self.actors.remove(&program_id) {
            self.actors.insert(program_id, (Actor::Dormant, balance));
        }
        assert(self@ =~= old(self)@.with_actor(program_id, ActorView::Dormant));
        self.move_waiting_msgs_to_queue(message_id, program_id);
        self.mark_failed(message_id);
    }

    /// Queues all that waited for `program_id` to be initialized, in the order in which it came.
    pub fn move_waiting_msgs_to_queue(&mut self, message_id: MessageId, program_id: ProgramId)
        ensures
            final(self)@ == old(self)@.released(program_id),
    {
        if let Some(ids) = self.wait_init_list.remove(&program_id) {
            let ghost start = State {
                wait_init_list: old(self)@.wait_init_list.remove(program_id),
                ..old(self)@
            };
            assert(self@ =~= start);
            for i in 0..ids.len()
                invariant
                    self@ == start.all_woken(program_id, ids@.take(i as int)),
            {
                self.wake_message(message_id, program_id, ids[i]);
                assert(ids@.take(i + 1).drop_last() =~= ids@.take(i as int));
            }
            assert(ids@.take(ids@.len() as int) =~= ids@);
        }
    }

    /// Whether `dispatch`, which was in the queue, has to wait until its destination is
    /// initialized.
    pub fn check_is_for_wait_list(&self, dispatch: &Dispatch) -> (result: bool)
        requires
            self@.actors.contains_key(dispatch@.message.dest),
            !(self@.actors[dispatch@.message.dest].0 matches ActorView::Uninitialized(None, _)),
        ensures
            result == self@.actors[dispatch@.message.dest].0.keeps_waiting(dispatch@.message),
    {
        match self.actors.get(&dispatch.message.dest) {
            Some((Actor::Uninitialized(Some(id), _), _)) => dispatch.message.reply.is_none()
                && *id != dispatch.message.id,
            _ => false,
        }
    }
}

impl<M> ExtManager<M> {
    /// Notes how the run on a dispatch ended.
    pub fn message_dispatched(&mut self, outcome: DispatchOutcome)
        requires
            old(self)@.accepts_outcome(outcome),
        ensures
            final(self)@ == old(self)@.dispatched(outcome),
    {
        match outcome {
            DispatchOutcome::MessageTrap { message_id, .. } => self.mark_failed(message_id),
            DispatchOutcome::Success(_) | DispatchOutcome::NoExecution(_) => {},
            DispatchOutcome::InitFailure { message_id, program_id, .. } => self.init_failure(
                message_id,
                program_id,
            ),
            DispatchOutcome::InitSuccess { message_id, program_id, .. } => self.init_success(
                message_id,
                program_id,
            ),
        }
    }

    /// Gas is not counted.
    pub fn gas_burned(&mut self, _message_id: MessageId, _amount: u64)
        ensures
            final(self)@ == old(self)@,
    {
    }

    /// Removes an actor that left for good. What it owned is gone with it.
    pub fn exit_dispatch(&mut self, id_exited: ProgramId, _value_destination: ProgramId)
        ensures
            final(self)@ == old(self)@.exited(id_exited),
    {
        self.actors.remove(&id_exited);
        assert(self@ =~= old(self)@.exited(id_exited));
    }

    /// Takes the first dispatch of the message `message_id` out of the queue, if there is one.
    pub fn message_consumed(&mut self, message_id: MessageId)
        ensures
            final(self)@ == old(self)@.consumed(message_id),
    {
        let mut index: usize = 0;
        let ghost queue = self@.dispatch_queue;
        assert(queue.skip(0) =~= queue);
        assert(queue.take(0) + without_message(queue, message_id) =~= without_message(
            queue,
            message_id,
        ));
        while index < self.dispatch_queue.len()
            invariant
                index <= self.dispatch_queue@.len(),
                self@ == old(self)@,
                queue == self@.dispatch_queue,
                without_message(queue, message_id) == queue.take(index as int) + without_message(
                    queue.skip(index as int),
                    message_id,
                ),
            decreases self.dispatch_queue@.len() - index,
        {
            let ghost rest = queue.skip(index as int);
            assert(rest[0] == queue[index as int]);
            if self.dispatch_queue[index].message.id == message_id {
                self.dispatch_queue.remove(index);
                assert(self@.dispatch_queue =~= queue.take(index as int) + rest.drop_first());
                assert(self@ =~= old(self)@.consumed(message_id));
                return;
            }
            assert(rest.drop_first() =~= queue.skip(index + 1));
            assert(queue.take(index as int) + (seq![rest[0]] + without_message(
                queue.skip(index + 1),
                message_id,
            )) =~= queue.take(index + 1) + without_message(queue.skip(index + 1), message_id));
            index += 1;
        }
        assert(without_message(queue, message_id) =~= queue);
        assert(self@ =~= old(self)@.consumed(message_id));
    }

    /// Sends `dispatch`: queues it if it is for an actor, and puts its message into the mailbox
    /// and the log if it is not. A message without a gas limit is given the largest one.
    pub fn send_dispatch(&mut self, _message_id: MessageId, mut dispatch: Dispatch)
        ensures
            final(self)@ == old(self)@.sent(dispatch@),
    {
        let ghost sent = dispatch@;
        if self.actors.contains_key(&dispatch.message.dest) {
            if dispatch.message.gas_limit.is_none() {
                dispatch.message.gas_limit = Some(u64::MAX);
            }
            self.dispatch_queue.push_back(dispatch);
        } else {
            self.store_in_mailbox(dispatch.message.clone());
            self.log.push(dispatch.message);
        }
        assert(self@ =~= old(self)@.sent(sent));
    }

    /// Puts `dispatch` aside until it is woken.
    pub fn wait_dispatch(&mut self, dispatch: Dispatch)
        ensures
            final(self)@ == old(self)@.waiting(dispatch@),
    {
        self.message_consumed(dispatch.message.id);
        self.wait_list.insert((dispatch.message.dest, dispatch.message.id), dispatch);
        assert(self@ =~= old(self)@.waiting(dispatch@));
    }

    /// Queues the dispatch of the message `awakening_id` to `program_id`, if it waits.
    pub fn wake_message(
        &mut self,
        _message_id: MessageId,
        program_id: ProgramId,
        awakening_id: MessageId,
    )
        ensures
            final(self)@ == old(self)@.woken(program_id, awakening_id),
    {
        if let Some(dispatch) = self.wait_list.remove(&(program_id, awakening_id)) {
            self.dispatch_queue.push_back(dispatch);
        }
        assert(self@ =~= old(self)@.woken(program_id, awakening_id));
    }

    /// Sets the message counter of `program_id`, if that is an initialized WebAssembly program.
    pub fn update_nonce(&mut self, program_id: ProgramId, nonce: u64)
        requires
            old(self)@.actors.contains_key(program_id),
        ensures
            final(self)@ == old(self)@.with_nonce(program_id, nonce),
    {
        if let Some((mut actor, balance)) = self.actors.remove(&program_id) {
            if let Some(program) = actor.as_mut_core_prog() {
                program.set_message_nonce(nonce);
            }
            self.actors.insert(program_id, (actor, balance));
        }
        assert(self@ =~= old(self)@.with_nonce(program_id, nonce));
    }

    /// Sets or removes a page of the initialized WebAssembly program `program_id`. Data that does
    /// not have the size of a page is not stored.
    pub fn update_page(&mut self, program_id: ProgramId, page_number: u32, data: Option<Vec<u8>>)
        requires
            old(self)@.actors.contains_key(program_id),
            old(self)@.actors[program_id].0.core_program() is Some,
        ensures
            final(self)@ == old(self)@.with_page(
                program_id,
                page_number,
                bytes_view(data),
            ),
    {
        let ghost page = bytes_view(data);
        if let Some((mut actor, balance)) = self.actors.remove(&program_id) {
            if let Some(program) = actor.as_mut_core_prog() {
                match data {
                    Some(data) => {
                        let _ = program.set_page(page_number, data);
                    },
                    None => program.remove_page(page_number),
                }
            }
            self.actors.insert(program_id, (actor, balance));
        }
        assert(self@ =~= old(self)@.with_page(program_id, page_number, page));
    }

    /// Moves value from one actor to another. One who is no actor can give any value, and loses
    /// what is given. Without a taker nothing moves.
    pub fn send_value(&mut self, from: ProgramId, to: Option<ProgramId>, value: Balance)
        requires
            old(self)@.can_transfer(from, to, value),
        ensures
            final(self)@ == old(self)@.transferred(from, to, value),
    {
        if let Some(to) = to {
            if let Some((actor, balance)) = self.actors.remove(&from) {
                self.actors.insert(from, (actor, balance - value));
            }
            assert(self@ =~= old(self)@.debited(from, value));
            let ghost debited = self@;
            if let Some((actor, balance)) = self.actors.remove(&to) {
                self.actors.insert(to, (actor, balance + value));
            }
            assert(self@ =~= debited.credited(to, value));
        }
    }

    /// Programs that a program creates are not stored.
    pub fn store_new_programs(
        &mut self,
        _code_hash: CodeHash,
        _candidates: Vec<(ProgramId, MessageId)>,
    )
        ensures
            final(self)@ == old(self)@,
    {
    }
}

impl<M> ExtManager<M> {
    /// Whether the state is one in which `note` can come.
    pub fn accepts(&self, note: &JournalNote) -> (result: bool)
        ensures
            result == self@.accepts(*note),
    {
        match note {
            JournalNote::MessageDispatched(outcome) => self.accepts_outcome(outcome),
            JournalNote::UpdateNonce { program_id, .. } => self.actors.contains_key(program_id),
            JournalNote::UpdatePage { program_id, .. } => match self.actors.get(program_id) {
                Some((Actor::Initialized(Program::Genuine(_)), _)) => true,
                _ => false,
            },
            JournalNote::SendValue { from, to: Some(to), value } => self.can_transfer(
                from,
                to,
                *value,
            ),
            _ => true,
        }
    }

    /// Whether the run on a dispatch can end with `outcome`.
    pub fn accepts_outcome(&self, outcome: &DispatchOutcome) -> (result: bool)
        ensures
            result == self@.accepts_outcome(*outcome),
    {
        match outcome {
            DispatchOutcome::InitSuccess { program_id, .. } => match self.actors.get(program_id) {
                Some((actor, _)) => actor.can_be_initialized(),
                None => false,
            },
            DispatchOutcome::InitFailure { program_id, .. } => self.actors.contains_key(program_id),
            _ => true,
        }
    }

    /// Whether `from` can give `value` to `to`.
    pub fn can_transfer(&self, from: &ProgramId, to: &ProgramId, value: Balance) -> (result: bool)
        ensures
            result == self@.can_transfer(*from, Some(*to), value),
    {
        if let Some((_, balance)) = self.actors.get(from) {
            if *balance < value {
                return false;
            }
        }
        match self.actors.get(to) {
            Some((_, balance)) => *from == *to || *balance <= u128::MAX - value,
            None => true,
        }
    }

    /// Does what `note` asks for.
    pub fn handle_note(&mut self, note: JournalNote)
        requires
            old(self)@.accepts(note),
        ensures
            final(self)@ == old(self)@.noted(note),
    {
        match note {
            JournalNote::MessageDispatched(outcome) => self.message_dispatched(outcome),
            JournalNote::GasBurned { message_id, amount } => self.gas_burned(message_id, amount),
            JournalNote::ExitDispatch { id_exited, value_destination } => self.exit_dispatch(
                id_exited,
                value_destination,
            ),
            JournalNote::MessageConsumed(message_id) => self.message_consumed(message_id),
            JournalNote::SendDispatch { message_id, dispatch } => self.send_dispatch(
                message_id,
                dispatch,
            ),
            JournalNote::WaitDispatch(dispatch) => self.wait_dispatch(dispatch),
            JournalNote::WakeMessage { message_id, program_id, awakening_id } => self.wake_message(
                message_id,
                program_id,
                awakening_id,
            ),
            JournalNote::UpdateNonce { program_id, nonce } => self.update_nonce(program_id, nonce),
            JournalNote::UpdatePage { program_id, page_number, data } => self.update_page(
                program_id,
                page_number,
                data,
            ),
            JournalNote::SendValue { from, to, value } => self.send_value(from, to, value),
            JournalNote::StoreNewPrograms { code_hash, candidates } => self.store_new_programs(
                code_hash,
                candidates,
            ),
        }
    }
}

impl<M> ExtManager<M> {
    /// Makes a reply to `message` on behalf of its destination, and sends it.
    fn send_reply(&mut self, message: &Message, payload: Vec<u8>, exit_code: i32)
        requires
            old(self)@.msg_nonce < u64::MAX,
        ensures
            final(self)@ == old(self)@.replied(message@, payload@, exit_code),
    {
        let nonce = self.fetch_inc_message_nonce();
        let reply = Message::new_reply(
            MessageId::from(nonce),
            message.dest,
            message.source,
            payload,
            0,
            message.id,
            exit_code,
        );
        self.send_dispatch(message.id, Dispatch::new_reply(reply));
    }

    /// Does what the response of the mock that `dispatch` was for asks for, and gives the mock
    /// back to its actor unless that is gone or dormant. An answer that failed is replied to with
    /// an empty payload.
    pub fn finish_mock(&mut self, mock: M, dispatch: Dispatch, response: MockResponse)
        requires
            old(self)@.accepts_response(dispatch@, response),
        ensures
            final(self)@ == old(self)@.answered(dispatch@, response).with_mock(
                dispatch@.message.dest,
                mock,
            ),
    {
        let Dispatch { message, kind, .. } = dispatch;
        let message_id = message.id;
        let program_id = message.dest;
        let origin = message.source;
        match response {
            Ok(reply) => {
                if let DispatchKind::Init = kind {
                    self.message_dispatched(
                        DispatchOutcome::InitSuccess { message_id, program_id, origin },
                    );
                }
                proof {
                    lemma_released_keeps(old(self)@.with_actor(
                        program_id,
                        old(self)@.actors[program_id].0.initialized(),
                    ), program_id);
                }
                if let Some(payload) = reply {
                    self.send_reply(&message, payload, 0);
                }
            },
            Err(reason) => {
                if let DispatchKind::Init = kind {
                    self.message_dispatched(
                        DispatchOutcome::InitFailure { message_id, program_id, origin, reason },
                    );
                } else {
                    self.message_dispatched(
                        DispatchOutcome::MessageTrap { message_id, program_id, trap: Some(reason) },
                    );
                }
                proof {
                    lemma_released_keeps(
                        old(self)@.with_actor(program_id, ActorView::Dormant),
                        program_id,
                    );
                }
                self.send_reply(&message, Vec::new(), 1);
            },
        }
        let ghost answered = self@;
        assert(answered == old(self)@.answered(dispatch@, response));
        if let Some((actor, balance)) = self.actors.remove(&program_id) {
            let actor = match actor {
                Actor::Initialized(_) => Actor::Initialized(Program::Mock(Some(mock))),
                Actor::Uninitialized(init, Some(Program::Mock(_))) => Actor::Uninitialized(
                    init,
                    Some(Program::Mock(Some(mock))),
                ),
                other => other,
            };
            self.actors.insert(program_id, (actor, balance));
        }
        assert(self@ =~= answered.with_mock(program_id, mock));
    }

    /// The WebAssembly run of `executable_actor` on `dispatch`.
    pub fn process_dispatch(
        &self,
        executable_actor: Option<ExecutableActor>,
        dispatch: Dispatch,
        existential_deposit: Balance,
    ) -> (request: ProcessRequest)
        ensures
            request == (ProcessRequest {
                actor: executable_actor,
                dispatch,
                block_info: self@.block_info,
                existential_deposit,
                origin: self@.origin,
            }),
    {
        ProcessRequest {
            actor: executable_actor,
            dispatch,
            block_info: self.block_info,
            existential_deposit,
            origin: self.origin,
        }
    }

    /// The WebAssembly run of a program on `dispatch`.
    pub fn process_normal(
        &self,
        executable_actor: ExecutableActor,
        dispatch: Dispatch,
        existential_deposit: Balance,
    ) -> (request: ProcessRequest)
        ensures
            request == (ProcessRequest {
                actor: Some(executable_actor),
                dispatch,
                block_info: self@.block_info,
                existential_deposit,
                origin: self@.origin,
            }),
    {
        self.process_dispatch(Some(executable_actor), dispatch, existential_deposit)
    }

    /// The run on a `dispatch` whose destination has no program.
    pub fn process_dormant(&self, dispatch: Dispatch, existential_deposit: Balance) -> (request:
        ProcessRequest)
        ensures
            request == (ProcessRequest {
                actor: None,
                dispatch,
                block_info: self@.block_info,
                existential_deposit,
                origin: self@.origin,
            }),
    {
        self.process_dispatch(None, dispatch, existential_deposit)
    }

    /// Whether the first dispatch of the queue, if there is one, can be handled.
    pub fn can_step(&self) -> (result: bool)
        ensures
            result == self@.can_step(),
    {
        if self.dispatch_queue.len() == 0 {
            return true;
        }
        let dispatch = &self.dispatch_queue[0];
        match self.actors.get(&dispatch.message.dest) {
            None => false,
            Some((Actor::Uninitialized(None, _), _)) => false,
            Some((Actor::Uninitialized(Some(id), Some(Program::Mock(Some(_)))), _)) => {
                let waits = dispatch.message.reply.is_none() && *id != dispatch.message.id;
                waits || self.msg_nonce < u64::MAX
            },
            Some((Actor::Initialized(Program::Mock(Some(_))), _)) => {
                self.msg_nonce < u64::MAX && dispatch.kind != DispatchKind::Init
            },
            Some(_) => true,
        }
    }

    /// What the run came to.
    pub fn finish_run(&self) -> (result: RunResult)
        ensures
            result.main_failed == self@.main_failed,
            result.others_failed == self@.others_failed,
            message_views(result.log@) == self@.log,
    {
        RunResult {
            main_failed: self.main_failed,
            others_failed: self.others_failed,
            log: clone_messages(&self.log),
        }
    }
}

impl<M: WasmProgram> ExtManager<M> {
    /// Calls `mock`, which was taken out of the destination of `dispatch`, at the entry point
    /// that `dispatch` is for, and does what its response asks for. The mock is told of a failure.
    pub fn process_mock(&mut self, mut mock: M, dispatch: Dispatch)
        requires
            forall|callee: &mut M, argument: Vec<u8>, response: MockResponse| #[trigger]
                mock_called(callee, dispatch@.kind, argument, response) && *callee == mock
                    && argument@ == dispatch@.message.payload ==> old(self)@.accepts_response(
                    dispatch@,
                    response,
                ),
        ensures
            exists|callee: &mut M, argument: Vec<u8>, response: MockResponse|
                {
                    let answered = old(self)@.answered(dispatch@, response);
                    let dest = dispatch@.message.dest;
                    &&& #[trigger] mock_called(callee, dispatch@.kind, argument, response)
                    &&& *callee == mock
                    &&& argument@ == dispatch@.message.payload
                    &&& match response {
                        Ok(_) => final(self)@ == answered.with_mock(dest, *final(callee)),
                        Err(explanation) => exists|listener: &mut M|
                            {
                                &&& #[trigger] call_ensures(M::debug, (listener, explanation), ())
                                &&& *listener == *final(callee)
                                &&& final(self)@ == answered.with_mock(dest, *final(listener))
                            },
                    }
                },
    {
        let payload = dispatch.message.payload.clone();
        assert(payload@ =~= dispatch@.message.payload);
        let response = call_mock(&mut mock, dispatch.kind, payload);
        assert(old(self)@.accepts_response(dispatch@, response));
        self.finish_mock(mock, dispatch, response);
    }

    /// Handles the first dispatch of the queue, or says what is to be run for it.
    pub fn run_step(&mut self, existential_deposit: Balance) -> (step: RunStep)
        requires
            old(self)@.can_step(),
        ensures
            step_taken(old(self)@, existential_deposit, step, final(self)@),
            step is MockRun ==> {
                let dispatch = old(self)@.dispatch_queue[0];
                let dest = dispatch.message.dest;
                exists|callee: &mut M, argument: Vec<u8>, response: MockResponse|
                    {
                        let answered = old(self)@.popped().without_mock(dest).answered(
                            dispatch,
                            response,
                        );
                        &&& #[trigger] mock_called(callee, dispatch.kind, argument, response)
                        &&& Some(*callee) == old(self)@.actors[dest].0.mock()
                        &&& argument@ == dispatch.message.payload
                        &&& match response {
                            Ok(_) => final(self)@ == answered.with_mock(dest, *final(callee)),
                            Err(explanation) => exists|listener: &mut M|
                                {
                                    &&& #[trigger] call_ensures(
                                        M::debug,
                                        (listener, explanation),
                                        (),
                                    )
                                    &&& *listener == *final(callee)
                                    &&& final(self)@ == answered.with_mock(dest, *final(listener))
                                },
                        }
                    }
            },
    {
        let dispatch = match self.dispatch_queue.pop_front() {
            Some(dispatch) => dispatch,
            None => {
                assert(self@ =~= old(self)@);
                return RunStep::Idle;
            },
        };
        assert(self@.dispatch_queue =~= old(self)@.dispatch_queue.drop_first());
        assert(self@ =~= old(self)@.popped());
        let dest = dispatch.message.dest;
        let message_id = dispatch.message.id;
        if self.check_is_for_wait_list(&dispatch) {
            self.store_for_init(dest, message_id);
            self.wait_dispatch(dispatch);
            return RunStep::Waiting;
        }
        if let Some((mut actor, balance)) = self.actors.remove(&dest) {
            let executable_actor = actor.get_executable_actor(balance);
            let mock = if executable_actor.is_none() {
                actor.take_mock()
            } else {
                None
            };
            self.actors.insert(dest, (actor, balance));
            if let Some(executable_actor) = executable_actor {
                assert(self@ =~= old(self)@.popped());
                return RunStep::Process(
                    self.process_normal(executable_actor, dispatch, existential_deposit),
                );
            }
            if let Some(mock) = mock {
                assert(self@ =~= old(self)@.popped().without_mock(dest));
                self.process_mock(mock, dispatch);
                return RunStep::MockRun;
            }
        }
        assert(self@ =~= old(self)@.popped());
        RunStep::Process(self.process_dormant(dispatch, existential_deposit))
    }
}

} // verus!
