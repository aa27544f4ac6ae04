//! What holds of messages, programs and actors taken by themselves.
use vstd::prelude::*;
use vstd::std_specs::convert::FromSpec;

use crate::actor::{Actor, ActorView};
use crate::ids::{MessageId, ProgramId};
use crate::manager::ExtManager;
use crate::message::{
    bytes_view, dispatch_views, message_views, Balance, Dispatch, DispatchKind, DispatchView,
    Message, MessageView,
};
use crate::program::{
    mock_called, CoreProgram, CoreProgramView, ExecutableActor, MockResponse, Program,
    ProgramView, WasmProgram,
};

verus! {

/// A number becomes the identifier that has it as its value, so that different numbers become
/// different identifiers.
pub proof fn law_identifier_has_its_number(number: u64, other: u64)
    ensures
        <ProgramId as FromSpec<u64>>::obeys_from_spec(),
        <MessageId as FromSpec<u64>>::obeys_from_spec(),
        <ProgramId as FromSpec<u64>>::from_spec(number).low == number,
        <ProgramId as FromSpec<u64>>::from_spec(number).high == 0,
        <MessageId as FromSpec<u64>>::from_spec(number).low == number,
        <MessageId as FromSpec<u64>>::from_spec(number).high == 0,
        number != other ==> <ProgramId as FromSpec<u64>>::from_spec(number)
            != <ProgramId as FromSpec<u64>>::from_spec(other),
        number != other ==> <MessageId as FromSpec<u64>>::from_spec(number)
            != <MessageId as FromSpec<u64>>::from_spec(other),
{
}

/// Identifiers that have the same key are the same.
pub proof fn law_key_tells_identifiers_apart(
    program: ProgramId,
    other_program: ProgramId,
    message: MessageId,
    other_message: MessageId,
)
    ensures
        program.key() == other_program.key() ==> program == other_program,
        message.key() == other_message.key() ==> message == other_message,
{
}

/// What is said of a message is said of everything that it holds.
pub proof fn law_message_is_seen_whole(message: Message)
    ensures
        message@.id == message.id,
        message@.source == message.source,
        message@.dest == message.dest,
        message@.payload == message.payload@,
        message@.gas_limit == message.gas_limit,
        message@.value == message.value,
        message@.reply == message.reply,
{
}

/// What is said of a dispatch is said of everything that it holds.
pub proof fn law_dispatch_is_seen_whole(dispatch: Dispatch)
    ensures
        dispatch@.kind == dispatch.kind,
        dispatch@.message == dispatch.message@,
        dispatch.payload_store is Some <==> dispatch@.payload_store is Some,
        dispatch.payload_store matches Some(bytes) ==> dispatch@.payload_store == Some(bytes@),
{
}

/// Bytes that are there are seen, and only those.
pub proof fn law_bytes_are_seen(bytes: Option<Vec<u8>>)
    ensures
        bytes is None ==> bytes_view(bytes) is None,
        bytes matches Some(data) ==> bytes_view(bytes) == Some(data@),
{
}

/// Messages and dispatches in a sequence are seen each in its place, and no others.
pub proof fn law_sequences_are_seen_whole(messages: Seq<Message>, dispatches: Seq<Dispatch>)
    ensures
        message_views(messages).len() == messages.len(),
        forall|i: int|
            0 <= i < messages.len() ==> #[trigger] message_views(messages)[i] == messages[i]@,
        dispatch_views(dispatches).len() == dispatches.len(),
        forall|i: int|
            0 <= i < dispatches.len() ==> #[trigger] dispatch_views(dispatches)[i]
                == dispatches[i]@,
{
}

/// What is said of a WebAssembly program is said of everything that it holds.
pub proof fn law_program_is_seen_whole(program: CoreProgram)
    ensures
        program@.id == program.id,
        program@.code == program.code@,
        program@.page_size == program.page_size,
        program@.message_nonce == program.message_nonce,
        program@.initialized == program.initialized,
        program@.pages.dom() == program.pages@.dom(),
        forall|number: u32| #[trigger]
            program.pages@.contains_key(number) ==> program@.pages[number]
                == program.pages@[number]@,
{
    assert(program@.pages.dom() =~= program.pages@.dom());
}

/// What is said of an actor is said of the program that it has, and of how far its initialization
/// has come.
pub proof fn law_actor_is_seen_whole<M>(actor: Actor<M>, executable: ExecutableActor)
    ensures
        match actor {
            Actor::Initialized(Program::Genuine(program)) => actor@ == ActorView::<M>::Initialized(
                ProgramView::Genuine(program@),
            ),
            Actor::Initialized(Program::Mock(mock)) => actor@ == ActorView::Initialized(
                ProgramView::Mock(mock),
            ),
            Actor::Uninitialized(init, Some(Program::Genuine(program))) => actor@ == ActorView::<
                M,
            >::Uninitialized(init, Some(ProgramView::Genuine(program@))),
            Actor::Uninitialized(init, Some(Program::Mock(mock))) => actor@
                == ActorView::Uninitialized(init, Some(ProgramView::Mock(mock))),
            Actor::Uninitialized(init, None) => actor@ == ActorView::<M>::Uninitialized(init, None),
            Actor::Dormant => actor@ == ActorView::<M>::Dormant,
        },
        executable@.program == executable.program@,
        executable@.balance == executable.balance,
{
}

/// What is said of a manager is said of everything that it holds.
pub proof fn law_manager_is_seen_whole<M>(manager: ExtManager<M>)
    ensures
        manager@.block_info == manager.block_info,
        manager@.msg_nonce == manager.msg_nonce,
        manager@.id_nonce == manager.id_nonce,
        manager@.origin == manager.origin,
        manager@.msg_id == manager.msg_id,
        manager@.main_failed == manager.main_failed,
        manager@.others_failed == manager.others_failed,
        manager@.actors.dom() == manager.actors@.dom(),
        forall|id: ProgramId| #[trigger]
            manager.actors@.contains_key(id) ==> manager@.actors[id].0 == manager.actors@[id].0@
                && manager@.actors[id].1 == manager.actors@[id].1,
        manager@.dispatch_queue.len() == manager.dispatch_queue@.len(),
        forall|i: int|
            0 <= i < manager.dispatch_queue@.len() ==> #[trigger] manager@.dispatch_queue[i]
                == manager.dispatch_queue@[i]@,
        manager@.log.len() == manager.log@.len(),
        forall|i: int|
            0 <= i < manager.log@.len() ==> #[trigger] manager@.log[i] == manager.log@[i]@,
        manager@.mailbox.dom() == manager.mailbox@.dom(),
        forall|id: ProgramId| #[trigger]
            manager.mailbox@.contains_key(id) ==> manager@.mailbox[id].len()
                == manager.mailbox@[id]@.len(),
        forall|id: ProgramId, i: int|
            manager.mailbox@.contains_key(id) && 0 <= i < manager.mailbox@[id]@.len()
                ==> #[trigger] manager@.mailbox[id][i] == manager.mailbox@[id]@[i]@,
        manager@.wait_list.dom() == manager.wait_list@.dom(),
        forall|at: (ProgramId, MessageId)| #[trigger]
            manager.wait_list@.contains_key(at) ==> manager@.wait_list[at]
                == manager.wait_list@[at]@,
        manager@.wait_init_list.dom() == manager.wait_init_list@.dom(),
        forall|id: ProgramId| #[trigger]
            manager.wait_init_list@.contains_key(id) ==> manager@.wait_init_list[id]
                == manager.wait_init_list@[id]@,
{
    assert(manager@.actors.dom() =~= manager.actors@.dom());
    assert(manager@.mailbox.dom() =~= manager.mailbox@.dom());
    assert(manager@.wait_list.dom() =~= manager.wait_list@.dom());
    assert(manager@.wait_init_list.dom() =~= manager.wait_init_list@.dom());
}

/// A reply says whom it is from and for, what it says and carries, and which message it answers
/// with which exit code. No gas is set for it.
pub proof fn law_reply_says_what_it_answers(
    id: MessageId,
    source: ProgramId,
    dest: ProgramId,
    payload: Seq<u8>,
    value: Balance,
    reply_to: MessageId,
    exit_code: i32,
)
    ensures
        ({
            let reply = MessageView::new_reply(
                id,
                source,
                dest,
                payload,
                value,
                reply_to,
                exit_code,
            );
            &&& reply.id == id
            &&& reply.source == source
            &&& reply.dest == dest
            &&& reply.payload == payload
            &&& reply.value == value
            &&& reply.gas_limit is None
            &&& reply.reply == Some((reply_to, exit_code))
        }),
{
}

/// A reply, whatever its exit code, is for the entry point that handles replies. Its message is
/// dispatched as it is.
pub proof fn law_reply_is_handled_as_a_reply(message: MessageView)
    ensures
        DispatchView::new_reply(message).kind is HandleReply,
        DispatchView::new_reply(message).message == message,
        DispatchView::new_reply(message).payload_store is None,
{
}

/// A dispatch without a gas limit is given the largest one, one that has a limit keeps it, and
/// nothing else of a dispatch changes. Doing it again changes nothing.
pub proof fn law_gas_is_filled_in(dispatch: DispatchView)
    ensures
        dispatch.imbued().message.gas_limit == Some(
            match dispatch.message.gas_limit {
                Some(limit) => limit,
                None => 0xffff_ffff_ffff_ffff,
            },
        ),
        dispatch.imbued() == (DispatchView {
            message: MessageView {
                gas_limit: dispatch.imbued().message.gas_limit,
                ..dispatch.message
            },
            ..dispatch
        }),
        dispatch.imbued().imbued() == dispatch.imbued(),
{
}

/// Each entry point of a mock is reached by the dispatches that are for it, with the payload and
/// the response of that call.
pub proof fn law_entry_points_of_a_mock<M: WasmProgram>()
    ensures
        forall|mock: &mut M, payload: Vec<u8>, response: MockResponse| #[trigger]
            mock_called(mock, DispatchKind::Init, payload, response) == call_ensures(
                M::init,
                (mock, payload),
                response,
            ),
        forall|mock: &mut M, payload: Vec<u8>, response: MockResponse| #[trigger]
            mock_called(mock, DispatchKind::Handle, payload, response) == call_ensures(
                M::handle,
                (mock, payload),
                response,
            ),
        forall|mock: &mut M, payload: Vec<u8>, response: MockResponse| #[trigger]
            mock_called(mock, DispatchKind::HandleReply, payload, response) == call_ensures(
                M::handle_reply,
                (mock, payload),
                response,
            ),
{
}

/// A page that is stored holds what was stored last, whether or not the page was there before. No
/// other page changes, nor anything else of the program. Data that does not have the size of a page
/// is not stored.
pub proof fn law_stored_page_is_read_back(
    program: CoreProgramView,
    number: u32,
    data: Seq<u8>,
    earlier: Seq<u8>,
)
    ensures
        ({
            let after = program.with_page(number, data);
            &&& data.len() == program.page_size ==> {
                &&& after.pages.contains_key(number)
                &&& after.pages[number] == data
                &&& after.pages == program.pages.insert(number, data)
                &&& program.with_page(number, earlier).with_page(number, data) == after
            }
            &&& data.len() != program.page_size ==> after.pages == program.pages
            &&& after == (CoreProgramView { pages: after.pages, ..program })
        }),
{
    assert(program.pages.insert(number, earlier).insert(number, data) =~= program.pages.insert(
        number,
        data,
    ));
}

/// A page that is removed is not there any more. No other page changes, nor anything else of the
/// program. Removing a page undoes storing it, where it was not there before.
pub proof fn law_removed_page_is_gone(program: CoreProgramView, number: u32, data: Seq<u8>)
    ensures
        ({
            let after = program.without_page(number);
            &&& !after.pages.contains_key(number)
            &&& after.pages == program.pages.remove(number)
            &&& after == (CoreProgramView { pages: after.pages, ..program })
            &&& program.with_page(number, data).without_page(number) == after
        }),
{
    assert(program.pages.insert(number, data).remove(number) =~= program.pages.remove(number));
}

/// What an actor hands out to be run is the WebAssembly program that it has, in every field, and
/// nothing where it has none.
pub proof fn law_program_is_handed_out_as_it_is<M>(
    program: CoreProgramView,
    mock: Option<M>,
    init: Option<MessageId>,
)
    ensures
        ActorView::<M>::Initialized(ProgramView::Genuine(program)).genuine() == Some(program),
        ActorView::<M>::Uninitialized(init, Some(ProgramView::Genuine(program))).genuine() == Some(
            program,
        ),
        ActorView::Initialized(ProgramView::Mock(mock)).genuine() is None,
        ActorView::Uninitialized(init, Some(ProgramView::Mock(mock))).genuine() is None,
        ActorView::<M>::Uninitialized(init, None).genuine() is None,
        ActorView::<M>::Dormant.genuine() is None,
{
}

/// Only an initialized WebAssembly program can be changed by its own runs, and it is the one that
/// the actor has.
pub proof fn law_program_that_runs_can_change<M>(
    program: CoreProgramView,
    mock: Option<M>,
    init: Option<MessageId>,
    uninitialized: Option<ProgramView<M>>,
)
    ensures
        ActorView::<M>::Initialized(ProgramView::Genuine(program)).core_program() == Some(program),
        ActorView::Initialized(ProgramView::Mock(mock)).core_program() is None,
        ActorView::Uninitialized(init, uninitialized).core_program() is None,
        ActorView::<M>::Dormant.core_program() is None,
{
}

/// The mock of an actor is the one that it has. Taken out, it is not there; given back, it is there
/// again, and nothing else of the actor has changed.
pub proof fn law_mock_is_taken_and_given_back<M>(
    actor: ActorView<M>,
    program: CoreProgramView,
    mock: Option<M>,
    called: M,
    init: Option<MessageId>,
)
    ensures
        ActorView::Initialized(ProgramView::Mock(mock)).mock() == mock,
        ActorView::Uninitialized(init, Some(ProgramView::Mock(mock))).mock() == mock,
        ActorView::<M>::Initialized(ProgramView::Genuine(program)).mock() is None,
        ActorView::<M>::Uninitialized(init, Some(ProgramView::Genuine(program))).mock() is None,
        ActorView::<M>::Uninitialized(init, None).mock() is None,
        ActorView::<M>::Dormant.mock() is None,
        actor.without_mock().mock() is None,
        actor.mock() is None ==> actor.without_mock() == actor,
        actor.mock() is Some ==> {
            &&& actor.with_mock(called).mock() == Some(called)
            &&& actor.without_mock().with_mock(called) == actor.with_mock(called)
            &&& actor.without_mock().with_mock(actor.mock().unwrap()) == actor
        },
        ActorView::Initialized(ProgramView::Mock(mock)).with_mock(called) == ActorView::Initialized(
            ProgramView::Mock(Some(called)),
        ),
        ActorView::Uninitialized(init, Some(ProgramView::Mock(mock))).with_mock(called)
            == ActorView::Uninitialized(init, Some(ProgramView::Mock(Some(called)))),
        ActorView::Dormant.with_mock(called) == ActorView::<M>::Dormant,
        ActorView::Initialized(ProgramView::Genuine(program)).with_mock(called)
            == ActorView::Initialized(ProgramView::Mock(Some(called))),
        ActorView::Uninitialized(init, Some(ProgramView::Genuine(program))).with_mock(called)
            == ActorView::<M>::Uninitialized(init, Some(ProgramView::Genuine(program))),
        ActorView::Uninitialized(init, None).with_mock(called) == ActorView::<M>::Uninitialized(
            init,
            None,
        ),
{
}

/// An actor that is initialized goes on with the program that it had. A WebAssembly program knows
/// of it and is otherwise unchanged.
pub proof fn law_initialized_actor_keeps_its_program<M>(
    program: CoreProgramView,
    mock: Option<M>,
    init: Option<MessageId>,
)
    ensures
        ActorView::<M>::Uninitialized(init, Some(ProgramView::Genuine(program))).initialized()
            == ActorView::<M>::Initialized(
            ProgramView::Genuine(CoreProgramView { initialized: true, ..program }),
        ),
        ActorView::Uninitialized(init, Some(ProgramView::Mock(mock))).initialized()
            == ActorView::Initialized(ProgramView::Mock(mock)),
{
}

/// An actor can be initialized exactly if it is uninitialized and has its program.
pub proof fn law_who_can_be_initialized<M>(
    program: ProgramView<M>,
    init: Option<MessageId>,
)
    ensures
        ActorView::Uninitialized(init, Some(program)).can_be_initialized(),
        ActorView::Uninitialized(init, Some(program)).valid(),
        !ActorView::<M>::Uninitialized(init, None).can_be_initialized(),
        !ActorView::<M>::Uninitialized(init, None).valid(),
        !ActorView::Initialized(program).can_be_initialized(),
        ActorView::Initialized(program).valid(),
        !ActorView::<M>::Dormant.can_be_initialized(),
        ActorView::<M>::Dormant.valid(),
{
}

/// An uninitialized actor takes the first message for the one that is to initialize it, and no
/// later one. Its program, and any other actor, stays as it is.
pub proof fn law_first_message_is_remembered<M>(
    actor: ActorView<M>,
    program: Option<ProgramView<M>>,
    first: MessageId,
    id: MessageId,
)
    ensures
        ActorView::Uninitialized(None, program).with_init_message(id) == ActorView::Uninitialized(
            Some(id),
            program,
        ),
        ActorView::Uninitialized(Some(first), program).with_init_message(id)
            == ActorView::Uninitialized(Some(first), program),
        !(actor is Uninitialized) ==> actor.with_init_message(id) == actor,
        actor.with_init_message(first).with_init_message(id) == actor.with_init_message(first),
{
}

/// A reply is for `handle_reply`, the message that is to initialize an actor is for `init`, and
/// everything else is for `handle`.
pub proof fn law_entry_point_of_a_message<M>(actor: ActorView<M>, message: MessageView)
    ensures
        actor.entry_point(message) is HandleReply <==> message.reply is Some,
        actor.entry_point(message) is Init <==> {
            &&& message.reply is None
            &&& actor is Uninitialized
            &&& actor->Uninitialized_0 == Some(message.id)
        },
{
}

/// A message waits exactly if its destination is uninitialized, and the message is neither a reply
/// nor the one that is to initialize the actor.
pub proof fn law_who_waits<M>(actor: ActorView<M>, message: MessageView)
    ensures
        actor.keeps_waiting(message) <==> {
            &&& actor is Uninitialized
            &&& message.reply is None
            &&& actor->Uninitialized_0 != Some(message.id)
        },
{
}

} // verus!
