//! What each operation of the manager does, in terms of what the manager holds before and after.
use vstd::prelude::*;

use crate::actor::ActorView;
use crate::ids::{MessageId, ProgramId};
use crate::journal::{DispatchOutcome, JournalNote};
use crate::laws::{law_consumed_leaves_others, law_consumed_takes_the_first};
use crate::manager::{step_taken, RunStep};
use crate::message::{Balance, DispatchKind, DispatchView, MessageView};
use crate::program::{CoreProgramView, MockResponse, ProgramView};
use crate::state::{
    appended, lemma_all_woken_keeps, lemma_released_keeps, without_message, BlockInfo, State,
};

verus! {

/// Whether `after` is `before` with `item` put at the end of the list of `id`.
pub open spec fn grew_by<T>(
    before: Map<ProgramId, Seq<T>>,
    after: Map<ProgramId, Seq<T>>,
    id: ProgramId,
    item: T,
) -> bool {
    &&& after.dom() == before.dom().insert(id)
    &&& after[id] == (if before.contains_key(id) {
        before[id]
    } else {
        Seq::empty()
    }).push(item)
    &&& forall|other: ProgramId| #[trigger]
        before.contains_key(other) && other != id ==> after[other] == before[other]
}

/// Appending puts an item at the end of one list and leaves the others alone.
proof fn lemma_appended_grew<T>(lists: Map<ProgramId, Seq<T>>, id: ProgramId, item: T)
    ensures
        grew_by(lists, appended(lists, id, item), id, item),
{
    let after = appended(lists, id, item);
    assert(after.dom() =~= lists.dom().insert(id));
    if !lists.contains_key(id) {
        assert(after[id] =~= Seq::<T>::empty().push(item));
    }
}

/// A manager that was just made has no actors, no messages and no run, and counts from where it is
/// told to.
pub proof fn law_new_manager_is_empty<M>(block_info: BlockInfo, msg_nonce: u64, id_nonce: u64)
    ensures
        ({
            let state = State::<M>::initial(block_info, msg_nonce, id_nonce);
            &&& state.block_info == block_info
            &&& state.msg_nonce == msg_nonce
            &&& state.id_nonce == id_nonce
            &&& state.actors.dom().is_empty()
            &&& state.mailbox.dom().is_empty()
            &&& state.wait_list.dom().is_empty()
            &&& state.wait_init_list.dom().is_empty()
            &&& state.dispatch_queue.len() == 0
            &&& state.log.len() == 0
            &&& !state.main_failed
            &&& !state.others_failed
            &&& state.origin.low == 0 && state.origin.high == 0
            &&& state.msg_id.low == 0 && state.msg_id.high == 0
        }),
{
}

/// A run that is prepared knows its message and its sender, and nothing of the run before it.
/// Everything that outlives a run is as it was.
pub proof fn law_prepared_run_is_fresh<M>(state: State<M>, id: MessageId, origin: ProgramId)
    ensures
        ({
            let after = state.prepared(id, origin);
            &&& after.msg_id == id
            &&& after.origin == origin
            &&& after.log.len() == 0
            &&& !after.main_failed
            &&& !after.others_failed
            &&& after == (State {
                msg_id: after.msg_id,
                origin: after.origin,
                log: after.log,
                main_failed: after.main_failed,
                others_failed: after.others_failed,
                ..state
            })
        }),
{
}

/// The message of a run is queued for its destination exactly as it was sent, whatever actor that
/// is: one dispatch comes to the end of the queue, which has the message in every field and nothing
/// put aside. For a dormant actor it is for `handle`. Otherwise a reply is for `handle_reply`, the
/// message that is to initialize the actor for `init`, and any other one for `handle`. An actor that
/// waits for its first message takes this one for it. Nothing else changes.
pub proof fn law_message_is_queued_as_sent<M>(state: State<M>, message: MessageView)
    requires
        state.actors.contains_key(message.dest),
    ensures
        ({
            let after = state.prepared(message.id, message.source).routed(message);
            let queued = after.dispatch_queue.last();
            let (actor, balance) = state.actors[message.dest];
            &&& after.dispatch_queue.len() == state.dispatch_queue.len() + 1
            &&& after.dispatch_queue.drop_last() == state.dispatch_queue
            &&& queued.message == message
            &&& queued.payload_store is None
            &&& actor is Dormant ==> queued.kind is Handle
            &&& !(actor is Dormant) ==> {
                &&& queued.kind is HandleReply <==> message.reply is Some
                &&& queued.kind is Init <==> {
                    &&& message.reply is None
                    &&& actor is Uninitialized
                    &&& actor->Uninitialized_0 is None || actor->Uninitialized_0 == Some(message.id)
                }
            }
            &&& after.actors == state.actors.insert(
                message.dest,
                (
                    match actor {
                        ActorView::Uninitialized(None, program) => ActorView::Uninitialized(
                            Some(message.id),
                            program,
                        ),
                        other => other,
                    },
                    balance,
                ),
            )
            &&& after.msg_id == message.id
            &&& after.origin == message.source
            &&& after.log.len() == 0
            &&& !after.main_failed
            &&& !after.others_failed
            &&& after == (State {
                actors: after.actors,
                dispatch_queue: after.dispatch_queue,
                msg_id: after.msg_id,
                origin: after.origin,
                log: after.log,
                main_failed: after.main_failed,
                others_failed: after.others_failed,
                ..state
            })
        }),
{
    let after = state.prepared(message.id, message.source).routed(message);
    assert(after.dispatch_queue.drop_last() =~= state.dispatch_queue);
}

/// The message of a run that is for no actor comes to the end of the mailbox of its destination,
/// exactly as it was sent. It is not logged, and nothing is queued or changed for it.
pub proof fn law_message_for_a_user_is_kept<M>(state: State<M>, message: MessageView)
    requires
        !state.actors.contains_key(message.dest),
    ensures
        ({
            let after = state.prepared(message.id, message.source).routed(message);
            &&& grew_by(state.mailbox, after.mailbox, message.dest, message)
            &&& after.msg_id == message.id
            &&& after.origin == message.source
            &&& after.log.len() == 0
            &&& !after.main_failed
            &&& !after.others_failed
            &&& after == (State {
                mailbox: after.mailbox,
                msg_id: after.msg_id,
                origin: after.origin,
                log: after.log,
                main_failed: after.main_failed,
                others_failed: after.others_failed,
                ..state
            })
        }),
{
    lemma_appended_grew(state.mailbox, message.dest, message);
}

/// What is sent to an actor comes to the end of the queue as it is, but that a missing gas limit
/// becomes the largest one. What is sent to anyone else comes, as it is, to the end of the log and
/// of their mailbox. Nothing else changes.
pub proof fn law_sent_arrives<M>(state: State<M>, dispatch: DispatchView)
    ensures
        ({
            let after = state.sent(dispatch);
            let message = dispatch.message;
            if state.actors.contains_key(message.dest) {
                &&& after.dispatch_queue == state.dispatch_queue.push(
                    DispatchView {
                        kind: dispatch.kind,
                        message: MessageView {
                            gas_limit: Some(
                                match message.gas_limit {
                                    Some(limit) => limit,
                                    None => 0xffff_ffff_ffff_ffff,
                                },
                            ),
                            ..message
                        },
                        payload_store: dispatch.payload_store,
                    },
                )
                &&& after == (State { dispatch_queue: after.dispatch_queue, ..state })
            } else {
                &&& after.log == state.log.push(message)
                &&& grew_by(state.mailbox, after.mailbox, message.dest, message)
                &&& after == (State { log: after.log, mailbox: after.mailbox, ..state })
            }
        }),
{
    lemma_appended_grew(state.mailbox, dispatch.message.dest, dispatch.message);
}

/// A message that is done with leaves the queue: the first dispatch of it, and no other, is gone.
/// Where nothing is queued of it, nothing changes.
pub proof fn law_consumed_leaves_the_queue<M>(state: State<M>, id: MessageId, first: int)
    requires
        0 <= first <= state.dispatch_queue.len(),
        forall|i: int| 0 <= i < first ==> (#[trigger] state.dispatch_queue[i]).message.id != id,
        first < state.dispatch_queue.len() ==> state.dispatch_queue[first].message.id == id,
    ensures
        ({
            let after = state.consumed(id);
            &&& after.dispatch_queue == if first < state.dispatch_queue.len() {
                state.dispatch_queue.remove(first)
            } else {
                state.dispatch_queue
            }
            &&& after == (State { dispatch_queue: after.dispatch_queue, ..state })
        }),
{
    if first < state.dispatch_queue.len() {
        law_consumed_takes_the_first(state.dispatch_queue, id, first);
    } else {
        law_consumed_leaves_others(state.dispatch_queue, id);
    }
}

/// A dispatch that is put aside waits, as it is, under its own destination and message, and its
/// message is done with. Nothing else changes.
pub proof fn law_put_aside_waits<M>(state: State<M>, dispatch: DispatchView)
    ensures
        ({
            let after = state.waiting(dispatch);
            &&& after.wait_list == state.wait_list.insert(
                (dispatch.message.dest, dispatch.message.id),
                dispatch,
            )
            &&& after.dispatch_queue == state.consumed(dispatch.message.id).dispatch_queue
            &&& after == (State {
                wait_list: after.wait_list,
                dispatch_queue: after.dispatch_queue,
                ..state
            })
        }),
{
}

/// A dispatch that is woken comes, as it is, to the end of the queue and waits no more. Where none
/// waits, nothing changes.
pub proof fn law_woken_is_queued<M>(state: State<M>, program_id: ProgramId, id: MessageId)
    ensures
        ({
            let at = (program_id, id);
            let after = state.woken(program_id, id);
            &&& after.wait_list == state.wait_list.remove(at)
            &&& after.dispatch_queue == if state.wait_list.contains_key(at) {
                state.dispatch_queue.push(state.wait_list[at])
            } else {
                state.dispatch_queue
            }
            &&& after == (State {
                wait_list: after.wait_list,
                dispatch_queue: after.dispatch_queue,
                ..state
            })
        }),
{
    if !state.wait_list.contains_key((program_id, id)) {
        assert(state.wait_list.remove((program_id, id)) =~= state.wait_list);
    }
}

/// Waking many is waking one after the other, in their order.
pub proof fn law_woken_one_by_one<M>(
    state: State<M>,
    program_id: ProgramId,
    ids: Seq<MessageId>,
    id: MessageId,
)
    ensures
        state.all_woken(program_id, Seq::empty()) == state,
        state.all_woken(program_id, ids.push(id)) == state.all_woken(program_id, ids).woken(
            program_id,
            id,
        ),
{
    assert(ids.push(id).drop_last() =~= ids);
}

/// What waking does to the queue and to the wait list depends on nothing else.
proof fn lemma_all_woken_same<M>(
    state: State<M>,
    other: State<M>,
    program_id: ProgramId,
    ids: Seq<MessageId>,
)
    requires
        state.dispatch_queue == other.dispatch_queue,
        state.wait_list == other.wait_list,
    ensures
        state.all_woken(program_id, ids).dispatch_queue == other.all_woken(
            program_id,
            ids,
        ).dispatch_queue,
        state.all_woken(program_id, ids).wait_list == other.all_woken(program_id, ids).wait_list,
    decreases ids.len(),
{
    if ids.len() > 0 {
        lemma_all_woken_same(state, other, program_id, ids.drop_last());
    }
}

/// Whether, from `before` to `after`, everything was woken that waited for the initialization of
/// `program_id`, in the order in which it came, and nothing else.
pub open spec fn let_go<M>(before: State<M>, after: State<M>, program_id: ProgramId) -> bool {
    let ids = if before.wait_init_list.contains_key(program_id) {
        before.wait_init_list[program_id]
    } else {
        Seq::empty()
    };
    &&& after.wait_init_list == before.wait_init_list.remove(program_id)
    &&& after.dispatch_queue == before.all_woken(program_id, ids).dispatch_queue
    &&& after.wait_list == before.all_woken(program_id, ids).wait_list
}

/// The release of what waited lets go of all of it, and touches only the queue and the lists.
proof fn lemma_released_lets_go<M>(before: State<M>, changed: State<M>, program_id: ProgramId)
    requires
        changed.dispatch_queue == before.dispatch_queue,
        changed.wait_list == before.wait_list,
        changed.wait_init_list == before.wait_init_list,
    ensures
        let_go(before, changed.released(program_id), program_id),
        changed.released(program_id) == (State {
            dispatch_queue: changed.released(program_id).dispatch_queue,
            wait_list: changed.released(program_id).wait_list,
            wait_init_list: changed.released(program_id).wait_init_list,
            ..changed
        }),
{
    lemma_released_keeps(changed, program_id);
    if changed.wait_init_list.contains_key(program_id) {
        let opened = State {
            wait_init_list: changed.wait_init_list.remove(program_id),
            ..changed
        };
        let ids = changed.wait_init_list[program_id];
        lemma_all_woken_same(before, opened, program_id, ids);
        lemma_all_woken_keeps(opened, program_id, ids);
    } else {
        assert(changed.wait_init_list.remove(program_id) =~= changed.wait_init_list);
    }
}

/// What waited for an initialization is woken when it is released, and nothing but the queue and
/// the lists of what waits changes.
pub proof fn law_released_is_woken<M>(state: State<M>, program_id: ProgramId)
    ensures
        let_go(state, state.released(program_id), program_id),
        state.released(program_id) == (State {
            dispatch_queue: state.released(program_id).dispatch_queue,
            wait_list: state.released(program_id).wait_list,
            wait_init_list: state.released(program_id).wait_init_list,
            ..state
        }),
{
    lemma_released_lets_go(state, state, program_id);
}

/// A program whose initialization succeeded is initialized: its actor goes on with the program it
/// had, owns what it owned, and all that waited for it is woken. Nothing is noted as failed, and
/// no other actor changes.
pub proof fn law_success_initializes<M>(
    state: State<M>,
    program_id: ProgramId,
    init: Option<MessageId>,
    program: ProgramView<M>,
)
    requires
        state.actors.contains_key(program_id),
        state.actors[program_id].0 == ActorView::Uninitialized(init, Some(program)),
    ensures
        ({
            let after = state.init_succeeded(program_id);
            &&& after.actors == state.actors.insert(
                program_id,
                (
                    ActorView::Initialized(
                        match program {
                            ProgramView::Genuine(genuine) => ProgramView::Genuine(
                                CoreProgramView { initialized: true, ..genuine },
                            ),
                            ProgramView::Mock(mock) => ProgramView::Mock(mock),
                        },
                    ),
                    state.actors[program_id].1,
                ),
            )
            &&& let_go(state, after, program_id)
            &&& after == (State {
                actors: after.actors,
                dispatch_queue: after.dispatch_queue,
                wait_list: after.wait_list,
                wait_init_list: after.wait_init_list,
                ..state
            })
        }),
{
    lemma_released_lets_go(
        state,
        state.with_actor(program_id, state.actors[program_id].0.initialized()),
        program_id,
    );
}

/// A program whose initialization failed is dormant: its actor owns what it owned, all that waited
/// for it is woken, and its message is noted as failed. No other actor changes.
pub proof fn law_failure_makes_dormant<M>(
    state: State<M>,
    id: MessageId,
    program_id: ProgramId,
)
    requires
        state.actors.contains_key(program_id),
    ensures
        ({
            let after = state.init_failed(id, program_id);
            &&& after.actors == state.actors.insert(
                program_id,
                (ActorView::Dormant, state.actors[program_id].1),
            )
            &&& let_go(state, after, program_id)
            &&& after.main_failed == (state.main_failed || state.msg_id == id)
            &&& after.others_failed == (state.others_failed || state.msg_id != id)
            &&& after == (State {
                actors: after.actors,
                dispatch_queue: after.dispatch_queue,
                wait_list: after.wait_list,
                wait_init_list: after.wait_init_list,
                main_failed: after.main_failed,
                others_failed: after.others_failed,
                ..state
            })
        }),
{
    lemma_released_lets_go(state, state.with_actor(program_id, ActorView::Dormant), program_id);
}

/// A failure is noted of the message of the run, or of the others, and nothing else changes.
pub proof fn law_failure_is_noted<M>(state: State<M>, id: MessageId)
    ensures
        ({
            let after = state.failed(id);
            &&& after.main_failed == (state.main_failed || state.msg_id == id)
            &&& after.others_failed == (state.others_failed || state.msg_id != id)
            &&& after == (State {
                main_failed: after.main_failed,
                others_failed: after.others_failed,
                ..state
            })
        }),
{
}

/// Only a trap and a failed initialization count as failures, and they count as failures of their
/// own message. Every other note leaves both marks as they are, whatever message it is about.
pub proof fn law_only_failures_count<M>(state: State<M>, note: JournalNote)
    ensures
        ({
            let after = state.noted(note);
            match note {
                JournalNote::MessageDispatched(
                    DispatchOutcome::MessageTrap { message_id, .. },
                ) => {
                    &&& after.main_failed == (state.main_failed || state.msg_id == message_id)
                    &&& after.others_failed == (state.others_failed || state.msg_id != message_id)
                },
                JournalNote::MessageDispatched(
                    DispatchOutcome::InitFailure { message_id, .. },
                ) => {
                    &&& after.main_failed == (state.main_failed || state.msg_id == message_id)
                    &&& after.others_failed == (state.others_failed || state.msg_id != message_id)
                },
                _ => {
                    &&& after.main_failed == state.main_failed
                    &&& after.others_failed == state.others_failed
                },
            }
        }),
{
    match note {
        JournalNote::MessageDispatched(DispatchOutcome::InitSuccess { program_id, .. }) => {
            lemma_released_keeps(
                state.with_actor(program_id, state.actors[program_id].0.initialized()),
                program_id,
            );
        },
        JournalNote::MessageDispatched(DispatchOutcome::InitFailure { program_id, .. }) => {
            lemma_released_keeps(state.with_actor(program_id, ActorView::Dormant), program_id);
        },
        _ => {},
    }
}

/// The outcome of a run on a dispatch has the effect that belongs to it, on the message and the
/// program that it names. A message that was handled, or for which nothing was run, changes
/// nothing.
pub proof fn law_outcome_has_its_effect<M>(state: State<M>, outcome: DispatchOutcome)
    ensures
        match outcome {
            DispatchOutcome::Success(_) => state.dispatched(outcome) == state,
            DispatchOutcome::NoExecution(_) => state.dispatched(outcome) == state,
            DispatchOutcome::MessageTrap { message_id, .. } => state.dispatched(outcome)
                == state.failed(message_id),
            DispatchOutcome::InitSuccess { program_id, .. } => state.dispatched(outcome)
                == state.init_succeeded(program_id),
            DispatchOutcome::InitFailure { message_id, program_id, .. } => state.dispatched(outcome)
                == state.init_failed(message_id, program_id),
        },
{
}

/// Each note of a journal has the effect that belongs to it, with what it names. Burned gas and new
/// programs change nothing.
pub proof fn law_note_has_its_effect<M>(state: State<M>, note: JournalNote)
    ensures
        match note {
            JournalNote::MessageDispatched(outcome) => state.noted(note) == state.dispatched(
                outcome,
            ),
            JournalNote::GasBurned { .. } => state.noted(note) == state,
            JournalNote::StoreNewPrograms { .. } => state.noted(note) == state,
            JournalNote::ExitDispatch { id_exited, .. } => state.noted(note) == state.exited(
                id_exited,
            ),
            JournalNote::MessageConsumed(id) => state.noted(note) == state.consumed(id),
            JournalNote::SendDispatch { dispatch, .. } => state.noted(note) == state.sent(
                dispatch@,
            ),
            JournalNote::WaitDispatch(dispatch) => state.noted(note) == state.waiting(dispatch@),
            JournalNote::WakeMessage { program_id, awakening_id, .. } => state.noted(note)
                == state.woken(program_id, awakening_id),
            JournalNote::UpdateNonce { program_id, nonce } => state.noted(note)
                == state.with_nonce(program_id, nonce),
            JournalNote::UpdatePage { program_id, page_number, data: Some(data) } => state.noted(
                note,
            ) == state.with_page(program_id, page_number, Some(data@)),
            JournalNote::UpdatePage { program_id, page_number, data: None } => state.noted(note)
                == state.with_page(program_id, page_number, None),
            JournalNote::SendValue { from, to, value } => state.noted(note) == state.transferred(
                from,
                to,
                value,
            ),
        },
{
}

/// An actor that exits is gone, and nothing else changes.
pub proof fn law_exited_is_gone<M>(state: State<M>, id: ProgramId)
    ensures
        state.exited(id).actors == state.actors.remove(id),
        state.exited(id) == (State { actors: state.exited(id).actors, ..state }),
{
}

/// The message counter of an initialized WebAssembly program becomes what it is told to be, and
/// nothing else changes. There is no such counter of any other actor.
pub proof fn law_nonce_is_set<M>(state: State<M>, program_id: ProgramId, nonce: u64)
    requires
        state.actors.contains_key(program_id),
    ensures
        ({
            let after = state.with_nonce(program_id, nonce);
            match state.actors[program_id].0 {
                ActorView::Initialized(ProgramView::Genuine(program)) => {
                    &&& after.actors == state.actors.insert(
                        program_id,
                        (
                            ActorView::Initialized(
                                ProgramView::Genuine(
                                    CoreProgramView { message_nonce: nonce, ..program },
                                ),
                            ),
                            state.actors[program_id].1,
                        ),
                    )
                    &&& after == (State { actors: after.actors, ..state })
                },
                _ => after == state,
            }
        }),
{
}

/// A page of an initialized WebAssembly program holds what it is told to hold, whether or not it
/// was there before, if that has the size of a page. A page that is to go is gone. No other page
/// changes, nor anything else.
pub proof fn law_page_is_set<M>(
    state: State<M>,
    program_id: ProgramId,
    number: u32,
    data: Option<Seq<u8>>,
    program: CoreProgramView,
)
    requires
        state.actors.contains_key(program_id),
        state.actors[program_id].0 == ActorView::<M>::Initialized(ProgramView::Genuine(program)),
    ensures
        ({
            let after = state.with_page(program_id, number, data);
            let pages = match data {
                Some(data) => if data.len() == program.page_size {
                    program.pages.insert(number, data)
                } else {
                    program.pages
                },
                None => program.pages.remove(number),
            };
            &&& after.actors == state.actors.insert(
                program_id,
                (
                    ActorView::Initialized(
                        ProgramView::Genuine(CoreProgramView { pages, ..program }),
                    ),
                    state.actors[program_id].1,
                ),
            )
            &&& after == (State { actors: after.actors, ..state })
        }),
{
}

/// A transfer takes the value from the one who gives and gives it to the one who takes, so far as
/// they are actors. Every actor stays what it is, and nothing else changes. Where nobody takes,
/// nothing changes at all.
pub proof fn law_transfer_moves_value<M>(
    state: State<M>,
    from: ProgramId,
    to: Option<ProgramId>,
    value: Balance,
)
    requires
        state.actors.contains_key(from) ==> value <= state.actors[from].1,
        to matches Some(taker) ==> state.actors.contains_key(taker) && taker != from
            ==> state.actors[taker].1 + value <= u128::MAX,
    ensures
        ({
            let after = state.transferred(from, to, value);
            &&& to is None ==> after == state
            &&& to matches Some(taker) ==> {
                &&& after.actors.dom() == state.actors.dom()
                &&& forall|id: ProgramId| #[trigger]
                    state.actors.contains_key(id) ==> {
                        let given: int = if id == from {
                            value as int
                        } else {
                            0
                        };
                        let taken: int = if id == taker {
                            value as int
                        } else {
                            0
                        };
                        &&& after.actors[id].0 == state.actors[id].0
                        &&& after.actors[id].1 == state.actors[id].1 - given + taken
                    }
            }
            &&& after == (State { actors: after.actors, ..state })
        }),
{
    let after = state.transferred(from, to, value);
    assert(after.actors.dom() =~= state.actors.dom());
}

/// A transfer can be made exactly if the one who gives, if it is an actor, owns as much, and the
/// one who takes, if it is another actor, can own that much more. Where nobody takes, it always
/// can.
pub proof fn law_who_can_transfer<M>(
    state: State<M>,
    from: ProgramId,
    to: Option<ProgramId>,
    value: Balance,
)
    ensures
        state.can_transfer(from, to, value) <==> match to {
            None => true,
            Some(taker) => {
                &&& state.actors.contains_key(from) ==> value <= state.actors[from].1
                &&& state.actors.contains_key(taker) && taker != from
                    ==> state.actors[taker].1 + value <= u128::MAX
            },
        },
{
}

/// A note is accepted exactly if what it needs is there: an end of an initialization needs its
/// actor, and a good end one that is uninitialized and has its program; a counter needs its actor,
/// a page an initialized WebAssembly program, and a transfer enough to give and room to take.
/// Every other note is always accepted.
pub proof fn law_which_notes_are_accepted<M>(state: State<M>, note: JournalNote)
    ensures
        state.accepts(note) <==> match note {
            JournalNote::MessageDispatched(DispatchOutcome::InitSuccess { program_id, .. }) => {
                &&& state.actors.contains_key(program_id)
                &&& state.actors[program_id].0 is Uninitialized
                &&& state.actors[program_id].0->Uninitialized_1 is Some
            },
            JournalNote::MessageDispatched(
                DispatchOutcome::InitFailure { program_id, .. },
            ) => state.actors.contains_key(program_id),
            JournalNote::UpdateNonce { program_id, .. } => state.actors.contains_key(program_id),
            JournalNote::UpdatePage { program_id, .. } => {
                &&& state.actors.contains_key(program_id)
                &&& state.actors[program_id].0 matches ActorView::Initialized(
                    ProgramView::Genuine(_),
                )
            },
            JournalNote::SendValue { from, to: Some(taker), value } => {
                &&& state.actors.contains_key(from) ==> value <= state.actors[from].1
                &&& state.actors.contains_key(taker) && taker != from
                    ==> state.actors[taker].1 + value <= u128::MAX
            },
            _ => true,
        },
        note matches JournalNote::MessageDispatched(outcome) ==> state.accepts(note)
            == state.accepts_outcome(outcome),
{
}

/// The first dispatch of the queue leaves it, and nothing else changes.
pub proof fn law_first_leaves_the_queue<M>(state: State<M>)
    requires
        state.dispatch_queue.len() > 0,
    ensures
        state.dispatch_queue == seq![state.dispatch_queue[0]] + state.popped().dispatch_queue,
        state.popped() == (State { dispatch_queue: state.popped().dispatch_queue, ..state }),
{
    assert(state.dispatch_queue =~= seq![state.dispatch_queue[0]]
        + state.popped().dispatch_queue);
}

/// A dispatch that has to wait for an initialization is put aside like any other, and its message
/// comes to the end of those that wait for the initialization of its destination.
pub proof fn law_early_dispatch_waits<M>(state: State<M>, dispatch: DispatchView)
    ensures
        ({
            let after = state.waiting_for_init(dispatch);
            let message = dispatch.message;
            &&& grew_by(state.wait_init_list, after.wait_init_list, message.dest, message.id)
            &&& after.wait_list == state.wait_list.insert((message.dest, message.id), dispatch)
            &&& after.dispatch_queue == state.consumed(message.id).dispatch_queue
            &&& after == (State {
                wait_init_list: after.wait_init_list,
                wait_list: after.wait_list,
                dispatch_queue: after.dispatch_queue,
                ..state
            })
        }),
{
    lemma_appended_grew(state.wait_init_list, dispatch.message.dest, dispatch.message.id);
}

/// Taking the mock of an actor away, and giving a mock back to it, changes that and nothing else.
/// One who is no actor is given nothing.
pub proof fn law_mock_of_one_actor_changes<M>(state: State<M>, id: ProgramId, mock: M)
    requires
        state.actors.contains_key(id),
    ensures
        state.without_mock(id).actors == state.actors.insert(
            id,
            (
                match state.actors[id].0 {
                    ActorView::Initialized(ProgramView::Mock(_)) => ActorView::Initialized(
                        ProgramView::Mock(None),
                    ),
                    ActorView::Uninitialized(
                        init,
                        Some(ProgramView::Mock(_)),
                    ) => ActorView::Uninitialized(init, Some(ProgramView::Mock(None))),
                    other => other,
                },
                state.actors[id].1,
            ),
        ),
        state.without_mock(id) == (State { actors: state.without_mock(id).actors, ..state }),
        state.with_mock(id, mock).actors == state.actors.insert(
            id,
            (
                match state.actors[id].0 {
                    ActorView::Initialized(_) => ActorView::Initialized(
                        ProgramView::Mock(Some(mock)),
                    ),
                    ActorView::Uninitialized(
                        init,
                        Some(ProgramView::Mock(_)),
                    ) => ActorView::Uninitialized(init, Some(ProgramView::Mock(Some(mock)))),
                    other => other,
                },
                state.actors[id].1,
            ),
        ),
        state.with_mock(id, mock) == (State { actors: state.with_mock(id, mock).actors, ..state }),
        forall|other: ProgramId|
            !state.actors.contains_key(other) ==> #[trigger] state.with_mock(other, mock) == state,
{
}

/// Whether, from `before` to `after`, a reply to `message` was made and sent, and nothing else was
/// done. The reply goes back to the sender, from the destination, under the next number. It carries
/// no value, answers `message` with `exit_code`, and is handled as a reply: by an actor with the
/// largest gas limit, while a user gets it, without one, in the mailbox and the log.
pub open spec fn reply_sent<M>(
    before: State<M>,
    after: State<M>,
    message: MessageView,
    payload: Seq<u8>,
    exit_code: i32,
) -> bool {
    let reply = MessageView {
        id: MessageId { low: before.msg_nonce as u128, high: 0 },
        source: message.dest,
        dest: message.source,
        payload,
        gas_limit: None,
        value: 0,
        reply: Some((message.id, exit_code)),
    };
    &&& after.msg_nonce == before.msg_nonce + 1
    &&& if before.actors.contains_key(message.source) {
        &&& after.dispatch_queue == before.dispatch_queue.push(
            DispatchView {
                kind: DispatchKind::HandleReply,
                message: MessageView { gas_limit: Some(0xffff_ffff_ffff_ffff), ..reply },
                payload_store: None,
            },
        )
        &&& after == (State {
            msg_nonce: after.msg_nonce,
            dispatch_queue: after.dispatch_queue,
            ..before
        })
    } else {
        &&& after.log == before.log.push(reply)
        &&& grew_by(before.mailbox, after.mailbox, message.source, reply)
        &&& after == (State {
            msg_nonce: after.msg_nonce,
            log: after.log,
            mailbox: after.mailbox,
            ..before
        })
    }
}

/// A reply that the manager makes goes back to the sender of the message.
pub proof fn law_reply_goes_back<M>(
    state: State<M>,
    message: MessageView,
    payload: Seq<u8>,
    exit_code: i32,
)
    requires
        state.msg_nonce < u64::MAX,
    ensures
        reply_sent(state, state.replied(message, payload, exit_code), message, payload, exit_code),
{
    let reply = MessageView::new_reply(
        MessageId { low: state.msg_nonce as u128, high: 0 },
        message.dest,
        message.source,
        payload,
        0,
        message.id,
        exit_code,
    );
    lemma_appended_grew(state.mailbox, message.source, reply);
}

/// What a mock answers is what is done. First, a mock that was called to be initialized ends its
/// initialization, good or bad, and a failure at another entry point is noted of the message. Then a
/// mock that answered with a payload has it sent back with the exit code 0, and one that failed has
/// an empty payload sent back with the exit code 1. One that answered with nothing sends nothing.
pub proof fn law_answer_is_carried_out<M>(
    state: State<M>,
    dispatch: DispatchView,
    payload: Vec<u8>,
    explanation: &'static str,
)
    ensures
        ({
            let message = dispatch.message;
            let succeeded = state.answered(dispatch, Ok(None));
            let replied = state.answered(dispatch, Ok(Some(payload)));
            let failed = state.answered(dispatch, Err(explanation));
            let ended = if dispatch.kind is Init {
                state.init_failed(message.id, message.dest)
            } else {
                state.failed(message.id)
            };
            &&& dispatch.kind is Init ==> succeeded == state.init_succeeded(message.dest)
            &&& !(dispatch.kind is Init) ==> succeeded == state
            &&& state.msg_nonce < u64::MAX ==> {
                &&& reply_sent(succeeded, replied, message, payload@, 0)
                &&& reply_sent(ended, failed, message, Seq::empty(), 1)
            }
        }),
{
    let message = dispatch.message;
    let dest = message.dest;
    lemma_released_keeps(state.with_actor(dest, state.actors[dest].0.initialized()), dest);
    lemma_released_keeps(state.with_actor(dest, ActorView::Dormant), dest);
    if state.msg_nonce < u64::MAX {
        law_reply_goes_back(state.answered(dispatch, Ok(None)), message, payload@, 0);
        law_reply_goes_back(
            if dispatch.kind is Init {
                state.init_failed(message.id, dest)
            } else {
                state.failed(message.id)
            },
            message,
            Seq::empty(),
            1,
        );
    }
}

/// Every reply to an actor, of a mock that answered or that failed, is handled as a reply.
pub proof fn law_replies_are_handled_as_replies<M>(
    state: State<M>,
    dispatch: DispatchView,
    response: MockResponse,
)
    requires
        !(response matches Ok(None)),
        state.actors.contains_key(dispatch.message.source),
        dispatch.kind is Init ==> state.actors.contains_key(dispatch.message.dest),
    ensures
        ({
            let queued = state.answered(dispatch, response).dispatch_queue.last();
            &&& queued.kind is HandleReply
            &&& queued.message.reply is Some
            &&& queued.message.reply.unwrap().0 == dispatch.message.id
            &&& queued.message.reply.unwrap().1 == if response is Ok {
                0i32
            } else {
                1i32
            }
            &&& queued.message.dest == dispatch.message.source
            &&& queued.message.source == dispatch.message.dest
        }),
{
    let dest = dispatch.message.dest;
    lemma_released_keeps(state.with_actor(dest, state.actors[dest].0.initialized()), dest);
    lemma_released_keeps(state.with_actor(dest, ActorView::Dormant), dest);
}

/// A response can be carried out exactly if an actor that is to be initialized is there, and for a
/// good end uninitialized with its program, and a reply, where there is to be one, can be numbered.
pub proof fn law_which_responses_are_accepted<M>(
    state: State<M>,
    dispatch: DispatchView,
    response: MockResponse,
)
    ensures
        state.accepts_response(dispatch, response) <==> {
            let dest = dispatch.message.dest;
            &&& dispatch.kind is Init ==> state.actors.contains_key(dest)
            &&& dispatch.kind is Init && response is Ok ==> {
                &&& state.actors[dest].0 is Uninitialized
                &&& state.actors[dest].0->Uninitialized_1 is Some
            }
            &&& response is Err || response->Ok_0 is Some ==> state.msg_nonce < u64::MAX
        },
{
}

/// The first dispatch of a queue can be handled unless its destination is no actor, or one that is
/// uninitialized and does not know its first message, or runs a mock that would be called while
/// there is no number left for a reply, or for its initialization after it was initialized.
pub proof fn law_which_steps_can_be_taken<M>(state: State<M>)
    ensures
        state.dispatch_queue.len() == 0 ==> state.can_step(),
        state.dispatch_queue.len() > 0 ==> {
            let dispatch = state.dispatch_queue[0];
            let message = dispatch.message;
            let actor = state.actors[message.dest].0;
            &&& !state.actors.contains_key(message.dest) ==> !state.can_step()
            &&& state.actors.contains_key(message.dest) ==> state.can_step() == match actor {
                ActorView::Uninitialized(None, _) => false,
                ActorView::Uninitialized(Some(init), Some(ProgramView::Mock(Some(_)))) => {
                    ||| message.reply is None && message.id != init
                    ||| state.msg_nonce < u64::MAX
                },
                ActorView::Initialized(ProgramView::Mock(Some(_))) => state.msg_nonce < u64::MAX
                    && !(dispatch.kind is Init),
                _ => true,
            }
        },
{
}

/// A step handles the first dispatch of the queue and says what became of it. It waits exactly if
/// its destination is uninitialized, and it is neither a reply nor the dispatch of the message that
/// is to initialize the actor. Otherwise a WebAssembly program is handed out as it is, with what its
/// actor owns, to be run on the dispatch as it is; a mock is called; and where there is neither, the
/// dispatch is handed out alone. What is handed out leaves the queue, and nothing else changes.
pub proof fn law_step_handles_the_first<M>(
    before: State<M>,
    existential_deposit: Balance,
    step: RunStep,
    after: State<M>,
)
    requires
        step_taken(before, existential_deposit, step, after),
    ensures
        before.dispatch_queue.len() == 0 ==> step is Idle && after == before,
        before.dispatch_queue.len() > 0 ==> {
            let dispatch = before.dispatch_queue[0];
            let message = dispatch.message;
            let rest = before.dispatch_queue.subrange(1, before.dispatch_queue.len() as int);
            let (actor, balance) = before.actors[message.dest];
            let early = actor is Uninitialized && message.reply is None
                && actor->Uninitialized_0 != Some(message.id);
            let genuine = match actor {
                ActorView::Initialized(ProgramView::Genuine(program)) => Some(program),
                ActorView::Uninitialized(_, Some(ProgramView::Genuine(program))) => Some(program),
                _ => None,
            };
            let has_mock = match actor {
                ActorView::Initialized(ProgramView::Mock(mock)) => mock is Some,
                ActorView::Uninitialized(_, Some(ProgramView::Mock(mock))) => mock is Some,
                _ => false,
            };
            &&& step is Waiting <==> early
            &&& step is MockRun <==> !early && has_mock
            &&& step is Process <==> !early && !has_mock
            &&& early ==> {
                &&& after.wait_list == before.wait_list.insert(
                    (message.dest, message.id),
                    dispatch,
                )
                &&& grew_by(before.wait_init_list, after.wait_init_list, message.dest, message.id)
                &&& after.dispatch_queue == without_message(rest, message.id)
                &&& after == (State {
                    wait_list: after.wait_list,
                    wait_init_list: after.wait_init_list,
                    dispatch_queue: after.dispatch_queue,
                    ..before
                })
            }
            &&& step matches RunStep::Process(request) ==> {
                &&& request.dispatch@ == dispatch
                &&& request.block_info == before.block_info
                &&& request.existential_deposit == existential_deposit
                &&& request.origin == before.origin
                &&& request.actor is Some <==> genuine is Some
                &&& request.actor matches Some(executable) ==> {
                    &&& genuine == Some(executable.program@)
                    &&& executable.balance == balance
                }
                &&& after.dispatch_queue == rest
                &&& after == (State { dispatch_queue: after.dispatch_queue, ..before })
            }
        },
{
    if before.dispatch_queue.len() > 0 {
        let message = before.dispatch_queue[0].message;
        lemma_appended_grew(before.wait_init_list, message.dest, message.id);
        assert(before.dispatch_queue.drop_first() =~= before.dispatch_queue.subrange(
            1,
            before.dispatch_queue.len() as int,
        ));
    }
}

} // verus!
