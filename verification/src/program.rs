//! Programs, and the actors that run them.
use std::collections::BTreeMap;

use vstd::prelude::*;

use crate::ids::ProgramId;
use crate::message::{Balance, DispatchKind};

verus! {

/// What a mock answers to a message: the payload of its reply, if it replies, or what went wrong.
pub type MockResponse = Result<Option<Vec<u8>>, &'static str>;

/// A program that is written by hand and stands in for a WebAssembly one: a mock.
pub trait WasmProgram {
    /// Called with the payload of the message that initializes the program.
    fn init(&mut self, payload: Vec<u8>) -> MockResponse;

    /// Called with the payload of a message.
    fn handle(&mut self, payload: Vec<u8>) -> MockResponse;

    /// Called with the payload of a reply.
    fn handle_reply(&mut self, payload: Vec<u8>) -> MockResponse;

    /// Called with the explanation of a failed call.
    fn debug(&mut self, data: &str);
}

/// Whether `response` is what the call of a mock at the entry point `kind` with `payload` came to.
pub open spec fn mock_called<M: WasmProgram>(
    mock: &mut M,
    kind: DispatchKind,
    payload: Vec<u8>,
    response: MockResponse,
) -> bool {
    match kind {
        DispatchKind::Init => call_ensures(M::init, (mock, payload), response),
        DispatchKind::Handle => call_ensures(M::handle, (mock, payload), response),
        DispatchKind::HandleReply => call_ensures(M::handle_reply, (mock, payload), response),
    }
}

/// Calls `mock` at the entry point `kind`, and tells it of a failure.
pub(crate) fn call_mock<M: WasmProgram>(
    mock: &mut M,
    kind: DispatchKind,
    payload: Vec<u8>,
) -> (response: MockResponse)
    ensures
        exists|callee: &mut M, argument: Vec<u8>|
            {
                &&& #[trigger] mock_called(callee, kind, argument, response)
                &&& *callee == *old(mock)
                &&& argument@ == payload@
                &&& match response {
                    Ok(_) => *final(mock) == *final(callee),
                    Err(explanation) => exists|listener: &mut M|
                        {
                            &&& #[trigger] call_ensures(M::debug, (listener, explanation), ())
                            &&& *listener == *final(callee)
                            &&& *final(mock) == *final(listener)
                        },
                }
            },
{
    let response = match kind {
        DispatchKind::Init => mock.init(payload),
        DispatchKind::Handle => mock.handle(payload),
        DispatchKind::HandleReply => mock.handle_reply(payload),
    };
    assert(forall|callee: &mut M, argument: Vec<u8>| #[trigger]
        call_ensures(M::init, (callee, argument), response) && kind is Init ==> mock_called(
            callee,
            kind,
            argument,
            response,
        ));
    assert(forall|callee: &mut M, argument: Vec<u8>| #[trigger]
        call_ensures(M::handle, (callee, argument), response) && kind is Handle ==> mock_called(
            callee,
            kind,
            argument,
            response,
        ));
    assert(forall|callee: &mut M, argument: Vec<u8>| #[trigger]
        call_ensures(M::handle_reply, (callee, argument), response) && kind is HandleReply
            ==> mock_called(callee, kind, argument, response));
    if let Err(explanation) = response {
        mock.debug(explanation);
    }
    response
}

/// A page was not as long as the pages of the program.
#[derive(Clone, Copy, PartialEq, Eq, Debug, Structural)]
pub struct PageSizeMismatch;

/// A WebAssembly program: its code, and what it has in storage.
#[derive(Debug)]
pub struct CoreProgram {
    /// Identifier of the program.
    pub id: ProgramId,
    /// Code of the program.
    pub code: Vec<u8>,
    /// How many bytes a page of the memory has.
    pub page_size: usize,
    /// The pages of the memory that are in storage.
    pub pages: BTreeMap<u32, Vec<u8>>,
    /// Counter from which the identifiers of the program's messages are made.
    pub message_nonce: u64,
    /// Whether the program was initialized.
    pub initialized: bool,
}

/// What a [`CoreProgram`] holds.
#[verifier::ext_equal]
pub struct CoreProgramView {
    /// Identifier of the program.
    pub id: ProgramId,
    /// Code of the program.
    pub code: Seq<u8>,
    /// How many bytes a page of the memory has.
    pub page_size: usize,
    /// The pages of the memory that are in storage.
    pub pages: Map<u32, Seq<u8>>,
    /// Counter from which the identifiers of the program's messages are made.
    pub message_nonce: u64,
    /// Whether the program was initialized.
    pub initialized: bool,
}

impl View for CoreProgram {
    type V = CoreProgramView;

    open spec fn view(&self) -> CoreProgramView {
        CoreProgramView {
            id: self.id,
            code: self.code@,
            page_size: self.page_size,
            pages: self.pages@.map_values(|page: Vec<u8>| page@),
            message_nonce: self.message_nonce,
            initialized: self.initialized,
        }
    }
}

impl CoreProgramView {
    /// The program with the page `number` set to `data`, or unchanged if `data` does not have
    /// the size of a page.
    pub open spec fn with_page(self, number: u32, data: Seq<u8>) -> CoreProgramView {
        if data.len() == self.page_size {
            CoreProgramView { pages: self.pages.insert(number, data), ..self }
        } else {
            self
        }
    }

    /// The program without the page `number`.
    pub open spec fn without_page(self, number: u32) -> CoreProgramView {
        CoreProgramView { pages: self.pages.remove(number), ..self }
    }
}

impl Clone for CoreProgram {
    fn clone(&self) -> (copy: Self)
        ensures
            copy@ == self@,
    {
        let code = self.code.clone();
        assert(code@ =~= self.code@);
        CoreProgram {
            id: self.id,
            code,
            page_size: self.page_size,
            pages: self.pages.clone(),
            message_nonce: self.message_nonce,
            initialized: self.initialized,
        }
    }
}

impl CoreProgram {
    /// A program that was not initialized and has nothing in storage.
    pub fn new(id: ProgramId, code: Vec<u8>, page_size: usize) -> (program: Self)
        ensures
            program@ == (CoreProgramView {
                id,
                code: code@,
                page_size,
                pages: Map::empty(),
                message_nonce: 0,
                initialized: false,
            }),
    {
        let program = CoreProgram {
            id,
            code,
            page_size,
            pages: BTreeMap::new(),
            message_nonce: 0,
            initialized: false,
        };
        assert(program@.pages =~= Map::empty());
        program
    }

    /// Notes that the program was initialized.
    pub fn set_initialized(&mut self)
        ensures
            final(self)@ == (CoreProgramView { initialized: true, ..old(self)@ }),
    {
        self.initialized = true;
    }

    /// Sets the message counter.
    pub fn set_message_nonce(&mut self, nonce: u64)
        ensures
            final(self)@ == (CoreProgramView { message_nonce: nonce, ..old(self)@ }),
    {
        self.message_nonce = nonce;
    }

    /// Puts the page `number` into storage, if `data` has the size of a page.
    pub fn set_page(&mut self, number: u32, data: Vec<u8>) -> (result: Result<
        (),
        PageSizeMismatch,
    >)
        ensures
            final(self)@ == old(self)@.with_page(number, data@),
            result is Ok <==> data@.len() == old(self).page_size,
    {
        if data.len() != self.page_size {
            return Err(PageSizeMismatch);
        }
        self.pages.insert(number, data);
        assert(self@.pages =~= old(self)@.with_page(number, data@).pages);
        Ok(())
    }

    /// Takes the page `number` out of storage.
    pub fn remove_page(&mut self, number: u32)
        ensures
            final(self)@ == old(self)@.without_page(number),
    {
        self.pages.remove(&number);
        assert(self@.pages =~= old(self)@.without_page(number).pages);
    }
}

/// What an actor runs.
#[derive(Debug)]
pub enum Program<M> {
    /// A WebAssembly program.
    Genuine(CoreProgram),
    /// A mock. It is absent only while it is being called.
    Mock(Option<M>),
}

/// What a [`Program`] holds.
#[verifier::ext_equal]
pub enum ProgramView<M> {
    /// A WebAssembly program.
    Genuine(CoreProgramView),
    /// A mock.
    Mock(Option<M>),
}

impl<M> View for Program<M> {
    type V = ProgramView<M>;

    open spec fn view(&self) -> ProgramView<M> {
        match *self {
            Program::Genuine(program) => ProgramView::Genuine(program@),
            Program::Mock(mock) => ProgramView::Mock(mock),
        }
    }
}

impl<M> Program<M> {
    /// The WebAssembly program `program`.
    pub fn new(program: CoreProgram) -> (result: Self)
        ensures
            result@ == ProgramView::<M>::Genuine(program@),
    {
        Program::Genuine(program)
    }

    /// The mock `mock`.
    pub fn new_mock(mock: M) -> (result: Self)
        ensures
            result@ == ProgramView::Mock(Some(mock)),
    {
        Program::Mock(Some(mock))
    }
}

/// A WebAssembly program that is ready to run, with the value its actor owns.
#[derive(Debug)]
pub struct ExecutableActor {
    /// The program.
    pub program: CoreProgram,
    /// What its actor owns.
    pub balance: Balance,
}

/// What an [`ExecutableActor`] holds.
#[verifier::ext_equal]
pub struct ExecutableActorView {
    /// The program.
    pub program: CoreProgramView,
    /// What its actor owns.
    pub balance: Balance,
}

impl View for ExecutableActor {
    type V = ExecutableActorView;

    open spec fn view(&self) -> ExecutableActorView {
        ExecutableActorView { program: self.program@, balance: self.balance }
    }
}

} // verus!
