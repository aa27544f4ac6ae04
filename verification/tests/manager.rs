use std::cell::RefCell;
use std::rc::Rc;

use gtest::actor::Actor;
use gtest::ids::{CodeHash, MessageId, ProgramId};
use gtest::journal::{DispatchOutcome, JournalNote};
use gtest::manager::{ExtManager, ProcessRequest, RunStep};
use gtest::message::{Dispatch, DispatchKind, Message};
use gtest::program::{CoreProgram, MockResponse, Program, WasmProgram};
use gtest::state::BlockInfo;

const USER: u64 = 100;
const DEPOSIT: u128 = 500;

/// A mock that notes its calls and answers with what it was given.
struct Recorder {
    calls: Rc<RefCell<Vec<(&'static str, Vec<u8>)>>>,
    responses: Vec<MockResponse>,
}

impl Recorder {
    fn answer(&mut self, entry: &'static str, payload: Vec<u8>) -> MockResponse {
        self.calls.borrow_mut().push((entry, payload));
        if self.responses.is_empty() {
            Ok(None)
        } else {
            self.responses.remove(0)
        }
    }
}

impl WasmProgram for Recorder {
    fn init(&mut self, payload: Vec<u8>) -> MockResponse {
        self.answer("init", payload)
    }

    fn handle(&mut self, payload: Vec<u8>) -> MockResponse {
        self.answer("handle", payload)
    }

    fn handle_reply(&mut self, payload: Vec<u8>) -> MockResponse {
        self.answer("handle_reply", payload)
    }

    fn debug(&mut self, data: &str) {
        self.calls.borrow_mut().push(("debug", data.as_bytes().to_vec()));
    }
}

type Manager = ExtManager<Recorder>;
type Calls = Rc<RefCell<Vec<(&'static str, Vec<u8>)>>>;

fn program(number: u64) -> ProgramId {
    ProgramId::from(number)
}

fn message_id(number: u64) -> MessageId {
    MessageId::from(number)
}

fn message(id: u64, source: u64, dest: u64, payload: &[u8]) -> Message {
    Message {
        id: message_id(id),
        source: program(source),
        dest: program(dest),
        payload: payload.to_vec(),
        gas_limit: Some(1000),
        value: 0,
        reply: None,
    }
}

fn reply(id: u64, source: u64, dest: u64, reply_to: u64) -> Message {
    Message { reply: Some((message_id(reply_to), 0)), ..message(id, source, dest, b"re") }
}

fn dispatch(kind: DispatchKind, message: Message) -> Dispatch {
    Dispatch { kind, message, payload_store: None }
}

fn add_mock(manager: &mut Manager, number: u64, responses: Vec<MockResponse>) -> Calls {
    let calls: Calls = Rc::new(RefCell::new(Vec::new()));
    let mock = Recorder { calls: calls.clone(), responses };
    manager.actors.insert(program(number), (Actor::new(Program::new_mock(mock)), 0));
    calls
}

fn add_genuine(manager: &mut Manager, number: u64, balance: u128) {
    let core = CoreProgram::new(program(number), vec![7, 8, 9], 4);
    manager.actors.insert(program(number), (Actor::new(Program::new(core)), balance));
}

/// Makes the genuine program `number` an initialized one.
fn initialize(manager: &mut Manager, number: u64) {
    manager.message_dispatched(DispatchOutcome::InitSuccess {
        message_id: message_id(1),
        origin: program(USER),
        program_id: program(number),
    });
}

/// Takes steps until nothing is left to do but to run a program.
fn run(manager: &mut Manager) -> Option<ProcessRequest> {
    loop {
        assert!(manager.can_step());
        match manager.run_step(DEPOSIT) {
            RunStep::Idle => return None,
            RunStep::Process(request) => return Some(request),
            RunStep::Waiting | RunStep::MockRun => {}
        }
    }
}

fn core_program(manager: &Manager, number: u64) -> &CoreProgram {
    match manager.actors.get(&program(number)) {
        Some((Actor::Initialized(Program::Genuine(core)), _)) => core,
        Some((Actor::Uninitialized(_, Some(Program::Genuine(core))), _)) => core,
        _ => panic!("no genuine program"),
    }
}

fn balance(manager: &Manager, number: u64) -> u128 {
    manager.actors.get(&program(number)).unwrap().1
}

fn queued_ids(manager: &Manager) -> Vec<MessageId> {
    manager.dispatch_queue.iter().map(|dispatch| dispatch.message.id).collect()
}

#[test]
fn new_manager_has_nothing() {
    let manager = Manager::new(1234);
    assert_eq!(manager.block_info, BlockInfo { height: 0, timestamp: 1234 });
    assert_eq!(manager.msg_nonce, 1);
    assert_eq!(manager.id_nonce, 1);
    assert!(manager.dispatch_queue.is_empty());
    assert!(manager.log.is_empty());
    assert!(!manager.main_failed);
    assert!(!manager.others_failed);
    assert!(!manager.actors.contains_key(&program(1)));
}

#[test]
fn default_manager_counts_from_zero() {
    let manager = Manager::default();
    assert_eq!(manager.block_info, BlockInfo { height: 0, timestamp: 0 });
    assert_eq!(manager.msg_nonce, 0);
    assert_eq!(manager.id_nonce, 0);
}

#[test]
fn message_numbers_are_not_given_twice() {
    let mut manager = Manager::new(0);
    assert_eq!(manager.fetch_inc_message_nonce(), 1);
    assert_eq!(manager.fetch_inc_message_nonce(), 2);
    assert_eq!(manager.msg_nonce, 3);
}

#[test]
fn free_id_skips_taken_numbers() {
    let mut manager = Manager::new(0);
    assert_eq!(manager.free_id_nonce(), 1);
    add_genuine(&mut manager, 1, 0);
    add_genuine(&mut manager, 2, 0);
    add_genuine(&mut manager, 4, 0);
    assert_eq!(manager.free_id_nonce(), 3);
    assert_eq!(manager.id_nonce, 3);
    add_genuine(&mut manager, 3, 0);
    assert_eq!(manager.free_id_nonce(), 5);
}

#[test]
fn ids_are_made_of_numbers() {
    assert_eq!(ProgramId::from(7), ProgramId { low: 7, high: 0 });
    assert_eq!(MessageId::from(8), MessageId { low: 8, high: 0 });
}

#[test]
fn message_to_user_goes_to_mailbox() {
    let mut manager = Manager::new(0);
    manager.start_run(message(1, USER, 2, b"hi"));
    manager.dispatch_queue.clear();
    manager.start_run(message(2, USER, 2, b"ho"));
    assert!(manager.dispatch_queue.is_empty());
    let mail = manager.mailbox.get(&program(2)).unwrap();
    assert_eq!(mail.len(), 2);
    assert_eq!(mail[0].payload, b"hi");
    assert_eq!(mail[1].payload, b"ho");
    let result = manager.finish_run();
    assert!(!result.main_failed);
    assert!(!result.others_failed);
    assert_eq!(result.log.len(), 0);
}

#[test]
fn first_message_initializes() {
    let mut manager = Manager::new(0);
    let calls = add_mock(&mut manager, 1, vec![]);
    manager.start_run(message(5, USER, 1, b"one"));
    assert_eq!(manager.dispatch_queue[0].kind, DispatchKind::Init);
    assert_eq!(manager.msg_id, message_id(5));
    assert_eq!(manager.origin, program(USER));
    assert!(run(&mut manager).is_none());
    manager.start_run(message(6, USER, 1, b"two"));
    assert_eq!(manager.dispatch_queue[0].kind, DispatchKind::Handle);
    assert!(run(&mut manager).is_none());
    assert_eq!(
        *calls.borrow(),
        vec![("init", b"one".to_vec()), ("handle", b"two".to_vec())]
    );
}

#[test]
fn reply_goes_to_handle_reply() {
    let mut manager = Manager::new(0);
    let calls = add_mock(&mut manager, 1, vec![]);
    manager.start_run(message(5, USER, 1, b"one"));
    run(&mut manager);
    manager.start_run(reply(6, USER, 1, 5));
    run(&mut manager);
    assert_eq!(calls.borrow()[1], ("handle_reply", b"re".to_vec()));
}

#[test]
fn mock_reply_to_user_is_logged() {
    let mut manager = Manager::new(0);
    add_mock(&mut manager, 1, vec![Ok(Some(b"pong".to_vec()))]);
    manager.start_run(message(5, USER, 1, b"ping"));
    run(&mut manager);
    let result = manager.finish_run();
    assert!(!result.main_failed);
    assert!(!result.others_failed);
    assert_eq!(result.log.len(), 1);
    let answer = &result.log[0];
    assert_eq!(answer.id, message_id(1));
    assert_eq!(answer.source, program(1));
    assert_eq!(answer.dest, program(USER));
    assert_eq!(answer.payload, b"pong");
    assert_eq!(answer.gas_limit, None);
    assert_eq!(answer.value, 0);
    assert_eq!(answer.reply, Some((message_id(5), 0)));
    assert_eq!(manager.mailbox.get(&program(USER)).unwrap()[0].payload, b"pong");
    assert_eq!(manager.msg_nonce, 2);
}

#[test]
fn mock_reply_to_actor_is_queued_with_gas() {
    let mut manager = Manager::new(0);
    let first = add_mock(&mut manager, 1, vec![Ok(None)]);
    add_mock(&mut manager, 2, vec![Ok(Some(b"pong".to_vec()))]);
    manager.start_run(message(5, USER, 1, b"init"));
    run(&mut manager);
    manager.start_run(message(6, 1, 2, b"ping"));
    assert!(matches!(manager.run_step(DEPOSIT), RunStep::MockRun));
    assert_eq!(manager.dispatch_queue.len(), 1);
    assert_eq!(manager.dispatch_queue[0].kind, DispatchKind::HandleReply);
    assert_eq!(manager.dispatch_queue[0].message.gas_limit, Some(u64::MAX));
    assert!(manager.log.is_empty());
    run(&mut manager);
    assert_eq!(first.borrow()[1], ("handle_reply", b"pong".to_vec()));
}

#[test]
fn failed_init_makes_dormant() {
    let mut manager = Manager::new(0);
    let calls = add_mock(&mut manager, 1, vec![Err("no")]);
    manager.start_run(message(5, USER, 1, b"init"));
    run(&mut manager);
    assert!(manager.actors.get(&program(1)).unwrap().0.is_dormant());
    assert_eq!(
        *calls.borrow(),
        vec![("init", b"init".to_vec()), ("debug", b"no".to_vec())]
    );
    let result = manager.finish_run();
    assert!(result.main_failed);
    assert!(!result.others_failed);
    assert_eq!(result.log.len(), 1);
    assert_eq!(result.log[0].payload, b"");
    assert_eq!(result.log[0].reply, Some((message_id(5), 1)));

    // A dormant actor has nothing to run.
    manager.start_run(message(6, USER, 1, b"again"));
    assert_eq!(manager.dispatch_queue[0].kind, DispatchKind::Handle);
    let request = run(&mut manager).unwrap();
    assert!(request.actor.is_none());
    assert_eq!(request.dispatch.message.id, message_id(6));
    assert_eq!(request.existential_deposit, DEPOSIT);
    assert_eq!(request.origin, program(USER));
}

#[test]
fn failed_handle_is_told_from_the_main_one() {
    let mut manager = Manager::new(0);
    let calls = add_mock(&mut manager, 1, vec![Ok(None), Err("bad"), Err("worse")]);
    manager.start_run(message(5, USER, 1, b"init"));
    run(&mut manager);
    manager.start_run(message(6, USER, 1, b"x"));
    run(&mut manager);
    let result = manager.finish_run();
    assert!(result.main_failed);
    assert!(!result.others_failed);
    assert_eq!(result.log[0].reply, Some((message_id(6), 1)));

    // The mock is still there, and the next run starts clean.
    manager.start_run(message(7, USER, 2, b"user"));
    assert!(!manager.main_failed);
    assert!(manager.log.is_empty());
    manager.send_dispatch(message_id(7), dispatch(DispatchKind::Handle, message(8, 3, 1, b"y")));
    run(&mut manager);
    let result = manager.finish_run();
    assert!(!result.main_failed);
    assert!(result.others_failed);
    assert_eq!(calls.borrow().len(), 5);
}

#[test]
fn early_messages_wait_for_init_and_keep_their_order() {
    let mut manager = Manager::new(0);
    add_genuine(&mut manager, 1, 20);
    manager.start_run(message(5, USER, 1, b"init"));
    let request = run(&mut manager).unwrap();
    let actor = request.actor.unwrap();
    assert_eq!(actor.balance, 20);
    assert_eq!(actor.program.code, vec![7, 8, 9]);
    assert!(!actor.program.initialized);
    assert_eq!(request.dispatch.kind, DispatchKind::Init);

    for id in [6, 7, 8] {
        manager.start_run(message(id, USER, 1, b"early"));
        assert!(matches!(manager.run_step(DEPOSIT), RunStep::Waiting));
        assert!(matches!(manager.run_step(DEPOSIT), RunStep::Idle));
    }
    assert_eq!(
        *manager.wait_init_list.get(&program(1)).unwrap(),
        vec![message_id(6), message_id(7), message_id(8)]
    );
    // One of them is woken before the others.
    manager.wake_message(message_id(5), program(1), message_id(7));
    assert_eq!(queued_ids(&manager), vec![message_id(7)]);

    initialize(&mut manager, 1);
    assert!(core_program(&manager, 1).initialized);
    assert_eq!(queued_ids(&manager), vec![message_id(7), message_id(6), message_id(8)]);
    assert!(manager.wait_init_list.get(&program(1)).is_none());
    assert!(manager.wait_list.get(&(program(1), message_id(6))).is_none());
    let request = run(&mut manager).unwrap();
    assert_eq!(request.dispatch.message.id, message_id(7));
    assert!(request.actor.unwrap().program.initialized);
}

#[test]
fn early_messages_are_released_by_a_failed_init_too() {
    let mut manager = Manager::new(0);
    add_genuine(&mut manager, 1, 0);
    manager.start_run(message(5, USER, 1, b"init"));
    run(&mut manager);
    manager.start_run(message(6, USER, 1, b"early"));
    run(&mut manager);
    manager.message_dispatched(DispatchOutcome::InitFailure {
        message_id: message_id(5),
        origin: program(USER),
        program_id: program(1),
        reason: "trap",
    });
    assert_eq!(queued_ids(&manager), vec![message_id(6)]);
    assert!(manager.actors.get(&program(1)).unwrap().0.is_dormant());
    // The run is the one on the early message.
    assert!(!manager.main_failed);
    assert!(manager.others_failed);
}

#[test]
fn reply_does_not_wait_for_init() {
    let mut manager = Manager::new(0);
    add_genuine(&mut manager, 1, 0);
    manager.start_run(message(5, USER, 1, b"init"));
    run(&mut manager);
    manager.start_run(reply(6, USER, 1, 2));
    let request = run(&mut manager).unwrap();
    assert_eq!(request.dispatch.kind, DispatchKind::HandleReply);
}

#[test]
fn mock_called_with_a_reply_before_init_is_given_back() {
    let mut manager = Manager::new(0);
    let calls = add_mock(&mut manager, 1, vec![]);
    manager.start_run(reply(6, USER, 1, 2));
    assert!(run(&mut manager).is_none());
    assert_eq!(*calls.borrow(), vec![("handle_reply", b"re".to_vec())]);
    match manager.actors.get(&program(1)) {
        Some((Actor::Uninitialized(init, Some(Program::Mock(Some(_)))), _)) => {
            assert_eq!(*init, Some(message_id(6)))
        }
        _ => panic!("the mock is gone"),
    }
    // The mock can be called again.
    manager.start_run(reply(7, USER, 1, 2));
    assert!(run(&mut manager).is_none());
    assert_eq!(calls.borrow().len(), 2);
}

#[test]
fn wake_undoes_wait() {
    let mut manager = Manager::new(0);
    add_genuine(&mut manager, 1, 0);
    manager.send_dispatch(message_id(9), dispatch(DispatchKind::Handle, message(1, 2, 1, b"a")));
    manager.send_dispatch(message_id(9), dispatch(DispatchKind::Handle, message(2, 2, 1, b"b")));
    let mut waiting = dispatch(DispatchKind::Handle, message(1, 2, 1, b"a"));
    waiting.payload_store = Some(vec![1, 2]);
    manager.wait_dispatch(waiting);
    assert_eq!(queued_ids(&manager), vec![message_id(2)]);
    assert!(manager.wait_list.get(&(program(1), message_id(1))).is_some());
    manager.wake_message(message_id(2), program(1), message_id(1));
    assert_eq!(queued_ids(&manager), vec![message_id(2), message_id(1)]);
    assert_eq!(manager.dispatch_queue[1].payload_store, Some(vec![1, 2]));
    manager.wake_message(message_id(2), program(1), message_id(1));
    assert_eq!(manager.dispatch_queue.len(), 2);
}

#[test]
fn consumed_message_leaves_the_queue_once() {
    let mut manager = Manager::new(0);
    add_genuine(&mut manager, 1, 0);
    for (id, payload) in [(1, b"a"), (2, b"b"), (1, b"c")] {
        manager.send_dispatch(
            message_id(9),
            dispatch(DispatchKind::Handle, message(id, 2, 1, payload)),
        );
    }
    manager.message_consumed(message_id(3));
    assert_eq!(manager.dispatch_queue.len(), 3);
    manager.message_consumed(message_id(1));
    assert_eq!(queued_ids(&manager), vec![message_id(2), message_id(1)]);
    assert_eq!(manager.dispatch_queue[1].message.payload, b"c");
}

#[test]
fn sent_message_keeps_its_gas_limit() {
    let mut manager = Manager::new(0);
    add_genuine(&mut manager, 1, 0);
    let mut unlimited = message(1, 2, 1, b"a");
    unlimited.gas_limit = None;
    manager.send_dispatch(message_id(9), dispatch(DispatchKind::Handle, unlimited));
    manager.send_dispatch(message_id(9), dispatch(DispatchKind::Handle, message(2, 2, 1, b"b")));
    assert_eq!(manager.dispatch_queue[0].message.gas_limit, Some(u64::MAX));
    assert_eq!(manager.dispatch_queue[1].message.gas_limit, Some(1000));
    let mut outward = message(3, 1, USER, b"c");
    outward.gas_limit = None;
    manager.send_dispatch(message_id(9), dispatch(DispatchKind::Handle, outward));
    assert_eq!(manager.log[0].gas_limit, None);
    assert_eq!(manager.mailbox.get(&program(USER)).unwrap()[0].id, message_id(3));
}

#[test]
fn value_moves_between_actors() {
    let mut manager = Manager::new(0);
    add_genuine(&mut manager, 1, 100);
    add_genuine(&mut manager, 2, 5);
    manager.send_value(program(1), Some(program(2)), 30);
    assert_eq!((balance(&manager, 1), balance(&manager, 2)), (70, 35));
    // To itself, to nobody, to a user, and from a user.
    manager.send_value(program(1), Some(program(1)), 70);
    assert_eq!(balance(&manager, 1), 70);
    manager.send_value(program(1), None, 1000);
    assert_eq!(balance(&manager, 1), 70);
    manager.send_value(program(1), Some(program(USER)), 20);
    assert_eq!(balance(&manager, 1), 50);
    manager.send_value(program(USER), Some(program(2)), 1000);
    assert_eq!(balance(&manager, 2), 1035);
}

#[test]
fn value_that_cannot_move_is_not_accepted() {
    let mut manager = Manager::new(0);
    add_genuine(&mut manager, 1, 100);
    add_genuine(&mut manager, 2, u128::MAX);
    let note = |from: u64, to: Option<u64>, value: u128| JournalNote::SendValue {
        from: program(from),
        to: to.map(program),
        value,
    };
    assert!(manager.accepts(&note(1, Some(USER), 100)));
    assert!(!manager.accepts(&note(1, Some(USER), 101)));
    assert!(manager.accepts(&note(1, None, 101)));
    assert!(!manager.accepts(&note(1, Some(2), 1)));
    assert!(manager.accepts(&note(1, Some(2), 0)));
    assert!(manager.accepts(&note(2, Some(2), u128::MAX)));
    assert!(!manager.accepts(&note(USER, Some(2), 1)));
    assert!(manager.accepts(&note(USER, Some(1), 1)));
}

#[test]
fn nonce_and_pages_are_stored() {
    let mut manager = Manager::new(0);
    add_genuine(&mut manager, 1, 0);
    let page = |data: Option<Vec<u8>>| JournalNote::UpdatePage {
        program_id: program(1),
        page_number: 3,
        data,
    };
    // Before the initialization a counter is not stored, and a page cannot come.
    manager.handle_note(JournalNote::UpdateNonce { program_id: program(1), nonce: 9 });
    assert_eq!(core_program(&manager, 1).message_nonce, 0);
    assert!(!manager.accepts(&page(None)));
    initialize(&mut manager, 1);
    manager.handle_note(JournalNote::UpdateNonce { program_id: program(1), nonce: 9 });
    assert_eq!(core_program(&manager, 1).message_nonce, 9);
    assert!(manager.accepts(&page(None)));
    manager.handle_note(page(Some(vec![1, 2, 3, 4])));
    assert_eq!(core_program(&manager, 1).pages.get(&3), Some(&vec![1, 2, 3, 4]));
    // Data of another size is not stored.
    manager.handle_note(page(Some(vec![1, 2, 3])));
    assert_eq!(core_program(&manager, 1).pages.get(&3), Some(&vec![1, 2, 3, 4]));
    manager.handle_note(page(None));
    assert!(core_program(&manager, 1).pages.is_empty());
}

#[test]
fn notes_about_unknown_programs_are_not_accepted() {
    let mut manager = Manager::new(0);
    add_genuine(&mut manager, 1, 0);
    let success = |number: u64| {
        JournalNote::MessageDispatched(DispatchOutcome::InitSuccess {
            message_id: message_id(5),
            origin: program(USER),
            program_id: program(number),
        })
    };
    let failure = |number: u64| {
        JournalNote::MessageDispatched(DispatchOutcome::InitFailure {
            message_id: message_id(5),
            origin: program(USER),
            program_id: program(number),
            reason: "trap",
        })
    };
    assert!(manager.accepts(&success(1)));
    assert!(!manager.accepts(&success(2)));
    assert!(manager.accepts(&failure(1)));
    assert!(!manager.accepts(&failure(2)));
    assert!(!manager.accepts(&JournalNote::UpdateNonce { program_id: program(2), nonce: 1 }));
    manager.handle_note(success(1));
    // An initialized program cannot be initialized again.
    assert!(!manager.accepts(&success(1)));
    assert!(manager.accepts(&failure(1)));
}

#[test]
fn other_notes() {
    let mut manager = Manager::new(0);
    add_genuine(&mut manager, 1, 40);
    manager.start_run(message(5, USER, 1, b"init"));
    manager.handle_note(JournalNote::GasBurned { message_id: message_id(5), amount: 3 });
    manager.handle_note(JournalNote::StoreNewPrograms {
        code_hash: CodeHash { low: 1, high: 2 },
        candidates: vec![(program(7), message_id(8))],
    });
    assert!(!manager.actors.contains_key(&program(7)));
    manager.handle_note(JournalNote::MessageDispatched(DispatchOutcome::Success(message_id(5))));
    manager.handle_note(JournalNote::MessageDispatched(DispatchOutcome::NoExecution(message_id(
        5,
    ))));
    assert!(!manager.main_failed);
    manager.handle_note(JournalNote::MessageDispatched(DispatchOutcome::MessageTrap {
        message_id: message_id(6),
        program_id: program(1),
        trap: None,
    }));
    assert!(!manager.main_failed);
    assert!(manager.others_failed);
    manager.handle_note(JournalNote::MessageDispatched(DispatchOutcome::MessageTrap {
        message_id: message_id(5),
        program_id: program(1),
        trap: Some("trap"),
    }));
    assert!(manager.main_failed);
    manager.handle_note(JournalNote::SendDispatch {
        message_id: message_id(5),
        dispatch: dispatch(DispatchKind::Handle, message(6, 1, USER, b"out")),
    });
    assert_eq!(manager.log.len(), 1);
    manager.handle_note(JournalNote::WaitDispatch(dispatch(
        DispatchKind::Init,
        message(5, USER, 1, b"init"),
    )));
    assert!(manager.dispatch_queue.is_empty());
    manager.handle_note(JournalNote::WakeMessage {
        message_id: message_id(6),
        program_id: program(1),
        awakening_id: message_id(5),
    });
    assert_eq!(manager.dispatch_queue.len(), 1);
    manager.handle_note(JournalNote::MessageConsumed(message_id(5)));
    assert!(manager.dispatch_queue.is_empty());
    manager.handle_note(JournalNote::ExitDispatch {
        id_exited: program(1),
        value_destination: program(USER),
    });
    assert!(!manager.actors.contains_key(&program(1)));
}

#[test]
fn step_needs_a_destination_that_can_be_run() {
    let mut manager = Manager::new(0);
    assert!(manager.can_step());
    add_genuine(&mut manager, 1, 0);
    manager.send_dispatch(message_id(9), dispatch(DispatchKind::Handle, message(1, 2, 1, b"a")));
    // The destination does not know the message that is to initialize it.
    assert!(!manager.can_step());
    initialize(&mut manager, 1);
    assert!(manager.can_step());
    // The destination is gone.
    manager.exit_dispatch(program(1), program(USER));
    assert!(!manager.can_step());
}

#[test]
fn step_needs_a_number_for_the_reply_of_a_mock() {
    let mut manager = Manager::new(0);
    add_mock(&mut manager, 1, vec![]);
    manager.start_run(message(5, USER, 1, b"init"));
    assert!(manager.can_step());
    manager.msg_nonce = u64::MAX;
    assert!(!manager.can_step());
}

#[test]
fn initialized_mock_cannot_be_initialized_again() {
    let mut manager = Manager::new(0);
    add_mock(&mut manager, 1, vec![]);
    manager.start_run(message(5, USER, 1, b"init"));
    run(&mut manager);
    manager.send_dispatch(message_id(9), dispatch(DispatchKind::Init, message(6, 2, 1, b"a")));
    assert!(!manager.can_step());
}

#[test]
fn mock_response_is_applied_on_its_own() {
    let mut manager = Manager::new(0);
    let calls = add_mock(&mut manager, 1, vec![]);
    manager.start_run(message(5, USER, 1, b"init"));
    let first = manager.dispatch_queue.pop_front().unwrap();
    let (mut actor, balance) = manager.actors.remove(&program(1)).unwrap();
    let mock = actor.take_mock().unwrap();
    assert!(actor.take_mock().is_none());
    manager.actors.insert(program(1), (actor, balance));
    manager.finish_mock(mock, first, Ok(Some(b"done".to_vec())));
    assert!(matches!(
        manager.actors.get(&program(1)),
        Some((Actor::Initialized(Program::Mock(Some(_))), _))
    ));
    assert_eq!(manager.log[0].payload, b"done");
    assert!(calls.borrow().is_empty());
}

#[test]
fn entry_points() {
    let fresh: Actor<Recorder> =
        Actor::new(Program::new(CoreProgram::new(program(1), vec![], 4)));
    assert!(fresh.is_uninitialized());
    assert_eq!(
        Manager::get_entry_point(&reply(1, 2, 1, 3), &fresh),
        DispatchKind::HandleReply
    );
    let known: Actor<Recorder> = Actor::Uninitialized(
        Some(message_id(1)),
        Some(Program::new(CoreProgram::new(program(1), vec![], 4))),
    );
    assert_eq!(Manager::get_entry_point(&message(1, 2, 1, b""), &known), DispatchKind::Init);
    assert_eq!(Manager::get_entry_point(&message(2, 2, 1, b""), &known), DispatchKind::Handle);
}

#[test]
fn wait_list_check() {
    let mut manager = Manager::new(0);
    add_genuine(&mut manager, 1, 0);
    manager.start_run(message(5, USER, 1, b"init"));
    let check = |manager: &Manager, message: Message| {
        manager.check_is_for_wait_list(&dispatch(DispatchKind::Handle, message))
    };
    assert!(!check(&manager, message(5, USER, 1, b"")));
    assert!(check(&manager, message(6, USER, 1, b"")));
    assert!(!check(&manager, reply(6, USER, 1, 5)));
    initialize(&mut manager, 1);
    assert!(!check(&manager, message(6, USER, 1, b"")));
}

#[test]
fn page_of_another_size_is_refused() {
    let mut core = CoreProgram::new(program(1), vec![], 2);
    assert!(core.set_page(0, vec![1]).is_err());
    assert!(core.set_page(0, vec![1, 2]).is_ok());
    assert_eq!(core.pages.len(), 1);
    core.remove_page(1);
    assert_eq!(core.pages.len(), 1);
    core.remove_page(0);
    assert!(core.pages.is_empty());
}

#[test]
fn run_of_a_program_from_start_to_end() {
    let mut manager = Manager::new(0);
    add_genuine(&mut manager, 1, 50);
    manager.start_run(message(5, USER, 1, b"init"));
    let request = run(&mut manager).unwrap();
    assert_eq!(request.block_info, manager.block_info);
    assert_eq!(request.dispatch.message.payload, b"init");
    let journal = vec![
        JournalNote::SendDispatch {
            message_id: message_id(5),
            dispatch: dispatch(DispatchKind::Handle, message(6, 1, USER, b"out")),
        },
        JournalNote::SendDispatch {
            message_id: message_id(5),
            dispatch: dispatch(DispatchKind::Handle, message(7, 1, 1, b"self")),
        },
        JournalNote::MessageDispatched(DispatchOutcome::InitSuccess {
            message_id: message_id(5),
            origin: program(USER),
            program_id: program(1),
        }),
        JournalNote::MessageConsumed(message_id(5)),
        JournalNote::SendValue { from: program(1), to: Some(program(USER)), value: 10 },
    ];
    for note in journal {
        assert!(manager.accepts(&note));
        manager.handle_note(note);
    }
    let request = run(&mut manager).unwrap();
    assert_eq!(request.dispatch.message.id, message_id(7));
    assert_eq!(request.actor.unwrap().balance, 40);
    manager.handle_note(JournalNote::MessageDispatched(DispatchOutcome::MessageTrap {
        message_id: message_id(7),
        program_id: program(1),
        trap: None,
    }));
    assert!(run(&mut manager).is_none());

    // The failure of the message to itself is remembered; what was logged is in the mailbox.
    let result = manager.finish_run();
    assert!(!result.main_failed);
    assert!(result.others_failed);
    assert_eq!(result.log.len(), 1);
    let mail = manager.mailbox.get(&program(USER)).unwrap();
    assert_eq!(mail[0].id, result.log[0].id);
    assert!(manager.actors.contains_key(&program(1)));
    assert!(!manager.actors.contains_key(&program(USER)));
}

#[test]
fn mailboxes_grow_by_the_log() {
    let mut manager = Manager::new(0);
    add_genuine(&mut manager, 1, 0);
    // A message for a user is in the mailbox, and not in the log.
    manager.start_run(message(5, 1, USER, b"first"));
    assert!(run(&mut manager).is_none());
    assert!(manager.log.is_empty());
    assert_eq!(manager.mailbox.get(&program(USER)).unwrap().len(), 1);
    manager.start_run(message(6, USER, 1, b"init"));
    assert!(run(&mut manager).is_some());
    for (id, dest) in [(7, USER), (8, USER + 1), (9, 1), (10, USER)] {
        manager.handle_note(JournalNote::SendDispatch {
            message_id: message_id(6),
            dispatch: dispatch(DispatchKind::Handle, message(id, 1, dest, b"out")),
        });
    }
    let mail = |user: u64| -> Vec<MessageId> {
        manager.mailbox.get(&program(user)).unwrap().iter().map(|message| message.id).collect()
    };
    assert_eq!(mail(USER), vec![message_id(5), message_id(7), message_id(10)]);
    assert_eq!(mail(USER + 1), vec![message_id(8)]);
    assert!(manager.mailbox.get(&program(1)).is_none());
    let log: Vec<MessageId> = manager.finish_run().log.iter().map(|message| message.id).collect();
    assert_eq!(log, vec![message_id(7), message_id(8), message_id(10)]);
}

#[test]
fn uninitialized_actor_keeps_its_first_message_and_program() {
    let mut manager = Manager::new(0);
    add_genuine(&mut manager, 1, 0);
    manager.start_run(message(5, USER, 1, b"init"));
    assert!(run(&mut manager).is_some());
    manager.handle_note(JournalNote::UpdateNonce { program_id: program(1), nonce: 9 });
    manager.start_run(message(6, USER, 1, b"early"));
    assert!(run(&mut manager).is_none());
    match manager.actors.get(&program(1)) {
        Some((Actor::Uninitialized(init, Some(Program::Genuine(core))), _)) => {
            assert_eq!(*init, Some(message_id(5)));
            assert_eq!(core.message_nonce, 0);
            assert!(!core.initialized);
        }
        _ => panic!("the program is gone"),
    }
}

#[test]
fn failed_init_of_an_initialized_mock_makes_it_dormant() {
    let mut manager = Manager::new(0);
    add_mock(&mut manager, 1, vec![Ok(None), Err("again")]);
    manager.start_run(message(5, USER, 1, b"init"));
    assert!(run(&mut manager).is_none());
    let (mut actor, balance) = manager.actors.remove(&program(1)).unwrap();
    let mock = actor.take_mock().unwrap();
    manager.actors.insert(program(1), (actor, balance));
    manager.process_mock(mock, dispatch(DispatchKind::Init, message(6, USER, 1, b"again")));
    assert!(manager.actors.get(&program(1)).unwrap().0.is_dormant());
    assert!(manager.others_failed);
    assert_eq!(manager.log[0].reply, Some((message_id(6), 1)));
}

#[test]
fn mock_that_does_not_reply_needs_no_number() {
    let mut manager = Manager::new(0);
    let calls = add_mock(&mut manager, 1, vec![]);
    manager.msg_nonce = u64::MAX;
    let (mut actor, balance) = manager.actors.remove(&program(1)).unwrap();
    let mock = actor.take_mock().unwrap();
    manager.actors.insert(program(1), (actor, balance));
    manager.process_mock(mock, dispatch(DispatchKind::Handle, message(6, USER, 1, b"a")));
    assert_eq!(*calls.borrow(), vec![("handle", b"a".to_vec())]);
    assert_eq!(manager.msg_nonce, u64::MAX);
    assert!(manager.log.is_empty());
}
