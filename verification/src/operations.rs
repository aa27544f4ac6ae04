//! What holds of every call of an operation: of what goes in, and of what comes out.
use vstd::prelude::*;

use crate::actor::{Actor, ActorView};
use crate::effects::{
    grew_by, law_message_for_a_user_is_kept, law_message_is_queued_as_sent,
    law_only_failures_count, law_sent_arrives, law_transfer_moves_value,
};
use crate::ids::{CodeHash, MessageId, ProgramId};
use crate::journal::{DispatchOutcome, JournalNote};
use crate::manager::{step_taken, ExtManager, ProcessRequest, RunResult, RunStep};
use crate::message::{
    message_views, Balance, Dispatch, DispatchKind, DispatchView, Message, MessageView,
};
use crate::program::{
    CoreProgram, CoreProgramView, ExecutableActor, MockResponse, PageSizeMismatch, Program,
    ProgramView, WasmProgram,
};
use crate::state::State;

verus! {

/// A reply that is made says what it was made of, and no gas is set for it.
pub proof fn law_made_reply(
    id: MessageId,
    source: ProgramId,
    dest: ProgramId,
    payload: Vec<u8>,
    value: Balance,
    reply_to: MessageId,
    exit_code: i32,
    message: Message,
)
    requires
        call_ensures(
            Message::new_reply,
            (id, source, dest, payload, value, reply_to, exit_code),
            message,
        ),
    ensures
        message.id == id,
        message.source == source,
        message.dest == dest,
        message.payload@ == payload@,
        message.gas_limit is None,
        message.value == value,
        message.reply == Some((reply_to, exit_code)),
{
}

/// A copy of a message, and a copy of a program, is equal to it in everything.
pub proof fn law_copies_are_equal(
    message: Message,
    message_copy: Message,
    program: CoreProgram,
    program_copy: CoreProgram,
)
    requires
        call_ensures(Message::clone, (&message,), message_copy),
        call_ensures(CoreProgram::clone, (&program,), program_copy),
    ensures
        message_copy.id == message.id,
        message_copy.source == message.source,
        message_copy.dest == message.dest,
        message_copy.payload@ == message.payload@,
        message_copy.gas_limit == message.gas_limit,
        message_copy.value == message.value,
        message_copy.reply == message.reply,
        program_copy.id == program.id,
        program_copy.code@ == program.code@,
        program_copy.page_size == program.page_size,
        program_copy.message_nonce == program.message_nonce,
        program_copy.initialized == program.initialized,
        program_copy@.pages == program@.pages,
{
}

/// A reply, whatever its exit code, is dispatched to the entry point that handles replies, as it is.
pub proof fn law_dispatched_reply(message: Message, dispatch: Dispatch)
    requires
        call_ensures(Dispatch::new_reply, (message,), dispatch),
    ensures
        dispatch.kind is HandleReply,
        dispatch.message@ == message@,
        dispatch.payload_store is None,
{
}

/// A program that is made has the code that it was given, nothing in storage, and was not
/// initialized. An actor that is made has that program, and waits for its first message.
pub proof fn law_made_programs<M>(
    id: ProgramId,
    code: Vec<u8>,
    page_size: usize,
    core: CoreProgram,
    genuine: Program<M>,
    mock: M,
    mocked: Program<M>,
    program: Program<M>,
    actor: Actor<M>,
)
    requires
        call_ensures(CoreProgram::new, (id, code, page_size), core),
        call_ensures(Program::<M>::new, (core,), genuine),
        call_ensures(Program::<M>::new_mock, (mock,), mocked),
        call_ensures(Actor::<M>::new, (program,), actor),
    ensures
        core.id == id,
        core.code@ == code@,
        core.page_size == page_size,
        core@.pages.is_empty(),
        core.message_nonce == 0,
        !core.initialized,
        genuine@ == ProgramView::<M>::Genuine(core@),
        mocked@ == ProgramView::Mock(Some(mock)),
        actor@ == ActorView::Uninitialized(None, Some(program@)),
{
}

/// A page that is stored, if it has the size of a page, is what is read afterwards, whether or not
/// it was there before; otherwise nothing is stored, and the caller learns of it. A page that is
/// removed is not there afterwards. Other pages, and the rest of the program, stay as they are.
pub proof fn law_pages_of_a_program()
    ensures
        forall|
            program: &mut CoreProgram,
            number: u32,
            data: Vec<u8>,
            result: Result<(), PageSizeMismatch>,
        | #[trigger]
            call_ensures(CoreProgram::set_page, (program, number, data), result) ==> {
                &&& result is Ok <==> data@.len() == program.page_size
                &&& final(program)@.pages == if data@.len() == program.page_size {
                    program@.pages.insert(number, data@)
                } else {
                    program@.pages
                }
                &&& final(program)@ == (CoreProgramView {
                    pages: final(program)@.pages,
                    ..program@
                })
            },
        forall|program: &mut CoreProgram, number: u32| #[trigger]
            call_ensures(CoreProgram::remove_page, (program, number), ()) ==> {
                &&& final(program)@.pages == program@.pages.remove(number)
                &&& final(program)@ == (CoreProgramView {
                    pages: final(program)@.pages,
                    ..program@
                })
            },
{
}

/// The counter of a program is what it was set to, and a program that was initialized knows it.
/// The rest of the program stays as it is.
pub proof fn law_marks_of_a_program()
    ensures
        forall|program: &mut CoreProgram, nonce: u64| #[trigger]
            call_ensures(CoreProgram::set_message_nonce, (program, nonce), ()) ==> final(program)@
                == (CoreProgramView { message_nonce: nonce, ..program@ }),
        forall|program: &mut CoreProgram| #[trigger]
            call_ensures(CoreProgram::set_initialized, (program,), ()) ==> final(program)@ == (
            CoreProgramView { initialized: true, ..program@ }),
{
}

/// What an actor hands out to be run is its WebAssembly program, in every field, with the balance
/// that is asked for. An actor without one hands out nothing.
pub proof fn law_handed_out_program<M>(
    actor: Actor<M>,
    balance: Balance,
    result: Option<ExecutableActor>,
)
    requires
        call_ensures(Actor::<M>::get_executable_actor, (&actor, balance), result),
    ensures
        ({
            let genuine = match actor {
                Actor::Initialized(Program::Genuine(program)) => Some(program),
                Actor::Uninitialized(_, Some(Program::Genuine(program))) => Some(program),
                _ => None,
            };
            &&& result is Some <==> genuine is Some
            &&& result matches Some(executable) ==> {
                let program = genuine.unwrap();
                &&& executable.balance == balance
                &&& executable.program.id == program.id
                &&& executable.program.code@ == program.code@
                &&& executable.program.page_size == program.page_size
                &&& executable.program.message_nonce == program.message_nonce
                &&& executable.program.initialized == program.initialized
                &&& executable.program@.pages == program@.pages
            }
        }),
{
}

/// An actor says of itself what it is.
pub proof fn law_actor_says_what_it_is<M>(
    actor: Actor<M>,
    dormant: bool,
    uninitialized: bool,
    can_be_initialized: bool,
)
    requires
        call_ensures(Actor::<M>::is_dormant, (&actor,), dormant),
        call_ensures(Actor::<M>::is_uninitialized, (&actor,), uninitialized),
        call_ensures(Actor::<M>::can_be_initialized, (&actor,), can_be_initialized),
    ensures
        dormant <==> actor is Dormant,
        uninitialized <==> actor is Uninitialized,
        can_be_initialized <==> actor is Uninitialized && actor->Uninitialized_1 is Some,
{
}

/// An actor that is initialized goes on with its program, which knows of it. The mock that is taken
/// out of an actor is the one that was in it.
pub proof fn law_actor_changes<M>()
    ensures
        forall|actor: &mut Actor<M>| #[trigger]
            call_ensures(Actor::<M>::set_initialized, (actor,), ()) ==> match actor@ {
                ActorView::Uninitialized(_, Some(ProgramView::Genuine(program))) => final(actor)@
                    == ActorView::<M>::Initialized(
                    ProgramView::Genuine(CoreProgramView { initialized: true, ..program }),
                ),
                ActorView::Uninitialized(_, Some(ProgramView::Mock(mock))) => final(actor)@
                    == ActorView::Initialized(ProgramView::Mock(mock)),
                _ => true,
            },
        forall|actor: &mut Actor<M>, mock: Option<M>| #[trigger]
            call_ensures(Actor::<M>::take_mock, (actor,), mock) ==> match actor@ {
                ActorView::Initialized(ProgramView::Mock(held)) => {
                    &&& mock == held
                    &&& final(actor)@ == ActorView::<M>::Initialized(ProgramView::Mock(None))
                },
                ActorView::Uninitialized(init, Some(ProgramView::Mock(held))) => {
                    &&& mock == held
                    &&& final(actor)@ == ActorView::<M>::Uninitialized(
                        init,
                        Some(ProgramView::Mock(None)),
                    )
                },
                _ => mock is None && final(actor)@ == actor@,
            },
{
}

/// A new manager is at block zero of the time that it was given, counts messages and programs from
/// one, and holds nothing. A default one counts from zero, at time zero.
pub proof fn law_made_managers<M>(
    timestamp: u64,
    manager: ExtManager<M>,
    default: ExtManager<M>,
)
    requires
        call_ensures(ExtManager::<M>::new, (timestamp,), manager),
        call_ensures(ExtManager::<M>::default, (), default),
    ensures
        manager.block_info.height == 0,
        manager.block_info.timestamp == timestamp,
        manager.msg_nonce == 1,
        manager.id_nonce == 1,
        default.block_info.height == 0,
        default.block_info.timestamp == 0,
        default.msg_nonce == 0,
        default.id_nonce == 0,
        manager@ == (State {
            block_info: manager.block_info,
            msg_nonce: 1,
            id_nonce: 1,
            ..default@
        }),
        default@.actors.is_empty(),
        default@.mailbox.is_empty(),
        default@.wait_list.is_empty(),
        default@.wait_init_list.is_empty(),
        default@.dispatch_queue.len() == 0,
        default@.log.len() == 0,
        !default.main_failed,
        !default.others_failed,
{
}

/// The number of a message is the next one, so that two numbers that follow each other differ. The
/// number of a new program is the first, from where the search starts, that no actor has. Nothing
/// but the counter changes.
pub proof fn law_numbers<M>()
    ensures
        forall|manager: &mut ExtManager<M>, nonce: u64| #[trigger]
            call_ensures(ExtManager::<M>::fetch_inc_message_nonce, (manager,), nonce) ==> {
                &&& nonce == manager.msg_nonce
                &&& manager.msg_nonce < u64::MAX ==> final(manager).msg_nonce == nonce + 1
                &&& final(manager)@ == (State { msg_nonce: final(manager).msg_nonce, ..manager@ })
            },
        forall|manager: &mut ExtManager<M>, nonce: u64| #[trigger]
            call_ensures(ExtManager::<M>::free_id_nonce, (manager,), nonce) ==> {
                &&& manager.id_nonce <= nonce
                &&& !manager@.actors.contains_key(ProgramId { low: nonce as u128, high: 0 })
                &&& forall|taken: u64|
                    manager.id_nonce <= taken < nonce ==> #[trigger] manager@.actors.contains_key(
                        ProgramId { low: taken as u128, high: 0 },
                    )
                &&& final(manager).id_nonce == nonce
                &&& final(manager)@ == (State { id_nonce: nonce, ..manager@ })
            },
{
}

/// A run on a message hands the message on exactly as it was sent: to its destination, if that is an
/// actor, as the one dispatch of the queue, at the entry point that it is for; to the mailbox of its
/// destination otherwise.
pub proof fn law_started_run<M>()
    ensures
        forall|manager: &mut ExtManager<M>, message: Message|
            #![trigger call_ensures(ExtManager::<M>::start_run, (manager, message), ())]
            call_ensures(ExtManager::<M>::start_run, (manager, message), ())
                && manager@.dispatch_queue.len() == 0 ==> {
                let after = final(manager)@;
                let (actor, balance) = manager@.actors[message.dest];
                &&& after.msg_id == message.id
                &&& after.origin == message.source
                &&& after.log.len() == 0
                &&& !after.main_failed && !after.others_failed
                &&& manager@.actors.contains_key(message.dest) ==> {
                    &&& after.dispatch_queue.len() == 1
                    &&& after.dispatch_queue[0].message == message@
                    &&& after.dispatch_queue[0].payload_store is None
                    &&& after.dispatch_queue[0].kind == if actor is Dormant {
                        DispatchKind::Handle
                    } else if message.reply is Some {
                        DispatchKind::HandleReply
                    } else if actor is Uninitialized && (actor->Uninitialized_0 is None
                        || actor->Uninitialized_0 == Some(message.id)) {
                        DispatchKind::Init
                    } else {
                        DispatchKind::Handle
                    }
                    &&& after.actors == manager@.actors.insert(
                        message.dest,
                        (
                            match actor {
                                ActorView::Uninitialized(None, program) => ActorView::Uninitialized(
                                    Some(message.id),
                                    program,
                                ),
                                other => other,
                            },
                            balance,
                        ),
                    )
                    &&& after.mailbox == manager@.mailbox
                }
                &&& !manager@.actors.contains_key(message.dest) ==> {
                    &&& after.dispatch_queue.len() == 0
                    &&& after.actors == manager@.actors
                    &&& grew_by(manager@.mailbox, after.mailbox, message.dest, message@)
                }
                &&& after.wait_list == manager@.wait_list
                &&& after.wait_init_list == manager@.wait_init_list
                &&& after.block_info == manager@.block_info
                &&& after.msg_nonce == manager@.msg_nonce
                &&& after.id_nonce == manager@.id_nonce
            },
{
    assert forall|manager: &mut ExtManager<M>, message: Message|
        #![trigger call_ensures(ExtManager::<M>::start_run, (manager, message), ())]
        call_ensures(ExtManager::<M>::start_run, (manager, message), ())
            && manager@.dispatch_queue.len() == 0 implies {
        let after = final(manager)@;
        let (actor, balance) = manager@.actors[message.dest];
        &&& after.msg_id == message.id
        &&& after.origin == message.source
        &&& after.log.len() == 0
        &&& !after.main_failed && !after.others_failed
        &&& manager@.actors.contains_key(message.dest) ==> {
            &&& after.dispatch_queue.len() == 1
            &&& after.dispatch_queue[0].message == message@
            &&& after.dispatch_queue[0].payload_store is None
        }
        &&& !manager@.actors.contains_key(message.dest) ==> grew_by(
            manager@.mailbox,
            after.mailbox,
            message.dest,
            message@,
        )
    } by {
        if manager@.actors.contains_key(message.dest) {
            law_message_is_queued_as_sent(manager@, message@);
        } else {
            law_message_for_a_user_is_kept(manager@, message@);
        }
    }
}

/// A message is for `handle_reply` if it is a reply, for `init` if it is the one that is to
/// initialize the actor, and else for `handle`. It waits if its destination is uninitialized, and it
/// is neither.
pub proof fn law_entry_points<M>(
    manager: ExtManager<M>,
    dispatch: Dispatch,
    message: Message,
    actor: Actor<M>,
    kind: DispatchKind,
    waits: bool,
)
    requires
        call_ensures(ExtManager::<M>::get_entry_point, (&message, &actor), kind),
        call_ensures(ExtManager::<M>::check_is_for_wait_list, (&manager, &dispatch), waits),
    ensures
        kind == if message.reply is Some {
            DispatchKind::HandleReply
        } else if actor@ is Uninitialized && actor@->Uninitialized_0 == Some(message.id) {
            DispatchKind::Init
        } else {
            DispatchKind::Handle
        },
        waits <==> {
            let dest = manager@.actors[dispatch.message.dest].0;
            &&& dest is Uninitialized
            &&& dispatch.message.reply is None
            &&& dest->Uninitialized_0 != Some(dispatch.message.id)
        },
{
}

/// The end of a run on a dispatch changes the marks of failure only if it is a trap or a failed
/// initialization, and then the mark that its message belongs to. That a message was handled, or
/// that nothing was run for it, changes nothing at all.
pub proof fn law_reported_outcomes<M>()
    ensures
        forall|manager: &mut ExtManager<M>, outcome: DispatchOutcome|
            #![trigger call_ensures(ExtManager::<M>::message_dispatched, (manager, outcome), ())]
            call_ensures(ExtManager::<M>::message_dispatched, (manager, outcome), ()) ==> {
                let failed = match outcome {
                    DispatchOutcome::MessageTrap { message_id, .. } => Some(message_id),
                    DispatchOutcome::InitFailure { message_id, .. } => Some(message_id),
                    _ => None,
                };
                &&& final(manager).main_failed == (manager.main_failed || failed == Some(
                    manager.msg_id,
                ))
                &&& final(manager).others_failed == (manager.others_failed || (failed is Some
                    && failed != Some(manager.msg_id)))
                &&& outcome is Success || outcome is NoExecution ==> final(manager)@ == manager@
            },
        forall|manager: &mut ExtManager<M>, note: JournalNote|
            #![trigger call_ensures(ExtManager::<M>::handle_note, (manager, note), ())]
            call_ensures(ExtManager::<M>::handle_note, (manager, note), ()) && !(
            note is MessageDispatched) ==> final(manager).main_failed == manager.main_failed
                && final(manager).others_failed == manager.others_failed,
{
    assert forall|manager: &mut ExtManager<M>, outcome: DispatchOutcome|
        #![trigger call_ensures(ExtManager::<M>::message_dispatched, (manager, outcome), ())]
        call_ensures(ExtManager::<M>::message_dispatched, (manager, outcome), ()) implies {
        let failed = match outcome {
            DispatchOutcome::MessageTrap { message_id, .. } => Some(message_id),
            DispatchOutcome::InitFailure { message_id, .. } => Some(message_id),
            _ => None,
        };
        &&& final(manager).main_failed == (manager.main_failed || failed == Some(manager.msg_id))
        &&& final(manager).others_failed == (manager.others_failed || (failed is Some && failed
            != Some(manager.msg_id)))
        &&& outcome is Success || outcome is NoExecution ==> final(manager)@ == manager@
    } by {
        law_only_failures_count(manager@, JournalNote::MessageDispatched(outcome));
        assert(final(manager)@.main_failed == final(manager).main_failed);
        assert(final(manager)@.others_failed == final(manager).others_failed);
    }
    assert forall|manager: &mut ExtManager<M>, note: JournalNote|
        #![trigger call_ensures(ExtManager::<M>::handle_note, (manager, note), ())]
        call_ensures(ExtManager::<M>::handle_note, (manager, note), ()) && !(
        note is MessageDispatched) implies final(manager).main_failed == manager.main_failed
        && final(manager).others_failed == manager.others_failed by {
        law_only_failures_count(manager@, note);
        assert(final(manager)@.main_failed == final(manager).main_failed);
        assert(final(manager)@.others_failed == final(manager).others_failed);
    }
}

/// What a run changed of a program is stored: a page holds what it is told to hold, if that has the
/// size of a page, and is gone if it is told to go; the counter is what it is told to be.
pub proof fn law_stored_changes<M>()
    ensures
        forall|
            manager: &mut ExtManager<M>,
            program_id: ProgramId,
            number: u32,
            data: Option<Vec<u8>>,
        |
            #![trigger call_ensures(
                ExtManager::<M>::update_page,
                (manager, program_id, number, data),
                (),
            )]
            call_ensures(ExtManager::<M>::update_page, (manager, program_id, number, data), ())
                && manager@.actors.contains_key(program_id) ==> {
                manager@.actors[program_id].0 matches ActorView::Initialized(
                    ProgramView::Genuine(program),
                ) ==> {
                    let pages = match data {
                        Some(page) => if page@.len() == program.page_size {
                            program.pages.insert(number, page@)
                        } else {
                            program.pages
                        },
                        None => program.pages.remove(number),
                    };
                    final(manager)@ == (State {
                        actors: manager@.actors.insert(
                            program_id,
                            (
                                ActorView::Initialized(
                                    ProgramView::Genuine(CoreProgramView { pages, ..program }),
                                ),
                                manager@.actors[program_id].1,
                            ),
                        ),
                        ..manager@
                    })
                }
            },
        forall|manager: &mut ExtManager<M>, program_id: ProgramId, nonce: u64|
            #![trigger call_ensures(ExtManager::<M>::update_nonce, (manager, program_id, nonce), ())]
            call_ensures(ExtManager::<M>::update_nonce, (manager, program_id, nonce), ())
                && manager@.actors.contains_key(program_id) ==> {
                match manager@.actors[program_id].0 {
                    ActorView::Initialized(ProgramView::Genuine(program)) => final(manager)@ == (
                    State {
                        actors: manager@.actors.insert(
                            program_id,
                            (
                                ActorView::Initialized(
                                    ProgramView::Genuine(
                                        CoreProgramView { message_nonce: nonce, ..program },
                                    ),
                                ),
                                manager@.actors[program_id].1,
                            ),
                        ),
                        ..manager@
                    }),
                    _ => final(manager)@ == manager@,
                }
            },
{
}

/// What is sent arrives as it was sent, but that an actor gets it with a gas limit.
pub proof fn law_sent_dispatch<M>()
    ensures
        forall|manager: &mut ExtManager<M>, cause: MessageId, dispatch: Dispatch|
            #![trigger call_ensures(ExtManager::<M>::send_dispatch, (manager, cause, dispatch), ())]
            call_ensures(ExtManager::<M>::send_dispatch, (manager, cause, dispatch), ()) ==> {
                let after = final(manager)@;
                let message = dispatch.message;
                if manager@.actors.contains_key(message.dest) {
                    after == (State {
                        dispatch_queue: manager@.dispatch_queue.push(
                            DispatchView {
                                message: MessageView {
                                    gas_limit: Some(
                                        match message.gas_limit {
                                            Some(limit) => limit,
                                            None => 0xffff_ffff_ffff_ffff,
                                        },
                                    ),
                                    ..message@
                                },
                                ..dispatch@
                            },
                        ),
                        ..manager@
                    })
                } else {
                    &&& after.log == manager@.log.push(message@)
                    &&& grew_by(manager@.mailbox, after.mailbox, message.dest, message@)
                    &&& after == (State { log: after.log, mailbox: after.mailbox, ..manager@ })
                }
            },
{
    assert forall|manager: &mut ExtManager<M>, cause: MessageId, dispatch: Dispatch|
        #![trigger call_ensures(ExtManager::<M>::send_dispatch, (manager, cause, dispatch), ())]
        call_ensures(ExtManager::<M>::send_dispatch, (manager, cause, dispatch), ())
            && !manager@.actors.contains_key(dispatch.message.dest) implies grew_by(
        manager@.mailbox,
        final(manager)@.mailbox,
        dispatch.message.dest,
        dispatch.message@,
    ) by {
        law_sent_arrives(manager@, dispatch@);
    }
}

/// A transfer takes a value from the one who gives and gives it to the one who takes, so far as they
/// are actors, and changes nothing else. Where nobody takes, nothing changes.
pub proof fn law_sent_value<M>()
    ensures
        forall|manager: &mut ExtManager<M>, from: ProgramId, to: Option<ProgramId>, value: Balance|
            #![trigger call_ensures(ExtManager::<M>::send_value, (manager, from, to, value), ())]
            call_ensures(ExtManager::<M>::send_value, (manager, from, to, value), ())
                && manager@.can_transfer(from, to, value) ==> {
                let after = final(manager)@;
                &&& to is None ==> after == manager@
                &&& to matches Some(taker) ==> {
                    &&& after.actors.dom() == manager@.actors.dom()
                    &&& forall|id: ProgramId| #[trigger]
                        manager@.actors.contains_key(id) ==> {
                            let given: int = if id == from {
                                value as int
                            } else {
                                0
                            };
                            let taken: int = if id == taker {
                                value as int
                            } else {
                                0
                            };
                            &&& after.actors[id].0 == manager@.actors[id].0
                            &&& after.actors[id].1 == manager@.actors[id].1 - given + taken
                        }
                }
                &&& after == (State { actors: after.actors, ..manager@ })
            },
{
    assert forall|manager: &mut ExtManager<M>, from: ProgramId, to: Option<ProgramId>, value: Balance|
        #![trigger call_ensures(ExtManager::<M>::send_value, (manager, from, to, value), ())]
        call_ensures(ExtManager::<M>::send_value, (manager, from, to, value), ())
            && manager@.can_transfer(from, to, value) && to is Some implies final(manager)@.actors.dom()
        == manager@.actors.dom() by {
        law_transfer_moves_value(manager@, from, to, value);
    }
}

/// Each of the remaining operations changes the manager as the event that it stands for changes
/// what the manager holds. Burned gas and new programs change nothing.
pub proof fn law_operations_are_events<M>()
    ensures
        forall|manager: &mut ExtManager<M>, id: MessageId, origin: ProgramId| #[trigger]
            call_ensures(ExtManager::<M>::prepare_for, (manager, id, origin), ())
                ==> final(manager)@ == manager@.prepared(id, origin),
        forall|manager: &mut ExtManager<M>, id: MessageId| #[trigger]
            call_ensures(ExtManager::<M>::mark_failed, (manager, id), ()) ==> final(manager)@
                == manager@.failed(id),
        forall|manager: &mut ExtManager<M>, id: MessageId, program_id: ProgramId| #[trigger]
            call_ensures(ExtManager::<M>::init_success, (manager, id, program_id), ())
                ==> final(manager)@ == manager@.init_succeeded(program_id),
        forall|manager: &mut ExtManager<M>, id: MessageId, program_id: ProgramId| #[trigger]
            call_ensures(ExtManager::<M>::init_failure, (manager, id, program_id), ())
                ==> final(manager)@ == manager@.init_failed(id, program_id),
        forall|manager: &mut ExtManager<M>, id: MessageId, program_id: ProgramId| #[trigger]
            call_ensures(
                ExtManager::<M>::move_waiting_msgs_to_queue,
                (manager, id, program_id),
                (),
            ) ==> final(manager)@ == manager@.released(program_id),
        forall|manager: &mut ExtManager<M>, outcome: DispatchOutcome| #[trigger]
            call_ensures(ExtManager::<M>::message_dispatched, (manager, outcome), ())
                ==> final(manager)@ == manager@.dispatched(outcome),
        forall|manager: &mut ExtManager<M>, id: MessageId, amount: u64| #[trigger]
            call_ensures(ExtManager::<M>::gas_burned, (manager, id, amount), ())
                ==> final(manager)@ == manager@,
        forall|
            manager: &mut ExtManager<M>,
            code_hash: CodeHash,
            candidates: Vec<(ProgramId, MessageId)>,
        | #[trigger]
            call_ensures(
                ExtManager::<M>::store_new_programs,
                (manager, code_hash, candidates),
                (),
            ) ==> final(manager)@ == manager@,
        forall|manager: &mut ExtManager<M>, id: ProgramId, heir: ProgramId| #[trigger]
            call_ensures(ExtManager::<M>::exit_dispatch, (manager, id, heir), ())
                ==> final(manager)@ == (State { actors: manager@.actors.remove(id), ..manager@ }),
        forall|manager: &mut ExtManager<M>, id: MessageId| #[trigger]
            call_ensures(ExtManager::<M>::message_consumed, (manager, id), ()) ==> final(manager)@
                == manager@.consumed(id),
        forall|manager: &mut ExtManager<M>, dispatch: Dispatch| #[trigger]
            call_ensures(ExtManager::<M>::wait_dispatch, (manager, dispatch), ())
                ==> final(manager)@ == manager@.waiting(dispatch@),
        forall|
            manager: &mut ExtManager<M>,
            cause: MessageId,
            program_id: ProgramId,
            id: MessageId,
        | #[trigger]
            call_ensures(ExtManager::<M>::wake_message, (manager, cause, program_id, id), ())
                ==> final(manager)@ == manager@.woken(program_id, id),
        forall|manager: &mut ExtManager<M>, note: JournalNote| #[trigger]
            call_ensures(ExtManager::<M>::handle_note, (manager, note), ()) ==> final(manager)@
                == manager@.noted(note),
        forall|
            manager: &mut ExtManager<M>,
            mock: M,
            dispatch: Dispatch,
            response: MockResponse,
        | #[trigger]
            call_ensures(
                ExtManager::<M>::finish_mock,
                (manager, mock, dispatch, response),
                (),
            ) ==> final(manager)@ == manager@.answered(dispatch@, response).with_mock(
                dispatch.message.dest,
                mock,
            ),
{
}

/// What the manager says that it accepts is what it accepts.
pub proof fn law_tests_say_what_is_accepted<M>(
    manager: ExtManager<M>,
    note: JournalNote,
    outcome: DispatchOutcome,
    from: ProgramId,
    to: ProgramId,
    value: Balance,
    accepts: bool,
    accepts_outcome: bool,
    can_transfer: bool,
    can_step: bool,
)
    requires
        call_ensures(ExtManager::<M>::accepts, (&manager, &note), accepts),
        call_ensures(ExtManager::<M>::accepts_outcome, (&manager, &outcome), accepts_outcome),
        call_ensures(ExtManager::<M>::can_transfer, (&manager, &from, &to, value), can_transfer),
        call_ensures(ExtManager::<M>::can_step, (&manager,), can_step),
    ensures
        accepts == manager@.accepts(note),
        accepts_outcome == manager@.accepts(JournalNote::MessageDispatched(outcome)),
        can_transfer == manager@.accepts(JournalNote::SendValue { from, to: Some(to), value }),
        can_step == manager@.can_step(),
{
}

/// What is asked for is the run of the program that is given on the dispatch that is given, in the
/// current block and on behalf of who sent the message of the run.
pub proof fn law_asked_for_runs<M>(
    manager: ExtManager<M>,
    optional: Option<ExecutableActor>,
    executable: ExecutableActor,
    dispatch: Dispatch,
    existential_deposit: Balance,
    request: ProcessRequest,
    normal: ProcessRequest,
    dormant: ProcessRequest,
)
    requires
        call_ensures(
            ExtManager::<M>::process_dispatch,
            (&manager, optional, dispatch, existential_deposit),
            request,
        ),
        call_ensures(
            ExtManager::<M>::process_normal,
            (&manager, executable, dispatch, existential_deposit),
            normal,
        ),
        call_ensures(
            ExtManager::<M>::process_dormant,
            (&manager, dispatch, existential_deposit),
            dormant,
        ),
    ensures
        request.actor == optional,
        request.dispatch == dispatch,
        request.block_info == manager.block_info,
        request.existential_deposit == existential_deposit,
        request.origin == manager.origin,
        normal == (ProcessRequest { actor: Some(executable), ..request }),
        dormant == (ProcessRequest { actor: None, ..request }),
{
}

/// A step of a run is what the handling of the first dispatch of the queue comes to.
pub proof fn law_taken_step<M: WasmProgram>()
    ensures
        forall|manager: &mut ExtManager<M>, existential_deposit: Balance, step: RunStep| #[trigger]
            call_ensures(ExtManager::<M>::run_step, (manager, existential_deposit), step)
                ==> step_taken(manager@, existential_deposit, step, final(manager)@),
{
}

/// The result of a run is what the manager noted in it: both marks of failure, and every message of
/// the log, in order and as it is.
pub proof fn law_result_of_a_run<M>(manager: ExtManager<M>, result: RunResult)
    requires
        call_ensures(ExtManager::<M>::finish_run, (&manager,), result),
    ensures
        result.main_failed == manager.main_failed,
        result.others_failed == manager.others_failed,
        result.log@.len() == manager.log@.len(),
        forall|i: int|
            0 <= i < manager.log@.len() ==> (#[trigger] result.log@[i])@ == manager.log@[i]@,
{
    assert(message_views(result.log@).len() == message_views(manager.log@).len());
    assert forall|i: int| 0 <= i < manager.log@.len() implies (#[trigger] result.log@[i])@
        == manager.log@[i]@ by {
        assert(message_views(result.log@)[i] == message_views(manager.log@)[i]);
    }
}

} // verus!
