//! Actors: programs together with how far their initialization has come.
use vstd::prelude::*;

use crate::ids::MessageId;
use crate::message::{Balance, DispatchKind, MessageView};
use crate::program::{CoreProgram, CoreProgramView, ExecutableActor, Program, ProgramView};

verus! {

/// A program, and how far its initialization has come.
#[derive(Debug)]
pub enum Actor<M> {
    /// The program was initialized.
    Initialized(Program<M>),
    /// The program was not initialized yet. The identifier is that of the message that is to
    /// initialize it, once there is one. The program is always there.
    Uninitialized(Option<MessageId>, Option<Program<M>>),
    /// The initialization of the program failed.
    Dormant,
}

/// What an [`Actor`] holds.
#[verifier::ext_equal]
pub enum ActorView<M> {
    /// The program was initialized.
    Initialized(ProgramView<M>),
    /// The program was not initialized yet.
    Uninitialized(Option<MessageId>, Option<ProgramView<M>>),
    /// The initialization of the program failed.
    Dormant,
}

impl<M> View for Actor<M> {
    type V = ActorView<M>;

    open spec fn view(&self) -> ActorView<M> {
        match *self {
            Actor::Initialized(program) => ActorView::Initialized(program@),
            Actor::Uninitialized(init, Some(program)) => ActorView::Uninitialized(
                init,
                Some(program@),
            ),
            Actor::Uninitialized(init, None) => ActorView::Uninitialized(init, None),
            Actor::Dormant => ActorView::Dormant,
        }
    }
}

impl<M> ActorView<M> {
    /// Whether the actor is as an actor should be: an uninitialized one has its program.
    pub open spec fn valid(self) -> bool {
        self matches ActorView::Uninitialized(_, program) ==> program is Some
    }

    /// Whether the actor is uninitialized and has its program.
    pub open spec fn can_be_initialized(self) -> bool {
        self matches ActorView::Uninitialized(_, program) && program is Some
    }

    /// The actor after its initialization succeeded.
    pub open spec fn initialized(self) -> ActorView<M> {
        match self {
            ActorView::Uninitialized(_, Some(ProgramView::Genuine(program))) =>
                ActorView::Initialized(
                ProgramView::Genuine(CoreProgramView { initialized: true, ..program }),
            ),
            ActorView::Uninitialized(_, Some(ProgramView::Mock(mock))) => ActorView::Initialized(
                ProgramView::Mock(mock),
            ),
            _ => self,
        }
    }

    /// The actor, in which `id` is the message that is to initialize it unless there is one
    /// already.
    pub open spec fn with_init_message(self, id: MessageId) -> ActorView<M> {
        match self {
            ActorView::Uninitialized(None, program) => ActorView::Uninitialized(Some(id), program),
            _ => self,
        }
    }

    /// The WebAssembly program of the actor, if that is what it runs.
    pub open spec fn genuine(self) -> Option<CoreProgramView> {
        match self {
            ActorView::Initialized(ProgramView::Genuine(program)) => Some(program),
            ActorView::Uninitialized(_, Some(ProgramView::Genuine(program))) => Some(program),
            _ => None,
        }
    }

    /// The mock of the actor, if that is what it runs and the mock is there.
    pub open spec fn mock(self) -> Option<M> {
        match self {
            ActorView::Initialized(ProgramView::Mock(mock)) => mock,
            ActorView::Uninitialized(_, Some(ProgramView::Mock(mock))) => mock,
            _ => None,
        }
    }

    /// The actor after its mock was taken away.
    pub open spec fn without_mock(self) -> ActorView<M> {
        match self {
            ActorView::Initialized(ProgramView::Mock(_)) => ActorView::Initialized(
                ProgramView::Mock(None),
            ),
            ActorView::Uninitialized(init, Some(ProgramView::Mock(_))) => ActorView::Uninitialized(
                init,
                Some(ProgramView::Mock(None)),
            ),
            _ => self,
        }
    }

    /// The actor after `mock` was given back to it: `mock` is what it runs if it is initialized, or
    /// if it runs a mock and is still to be initialized.
    pub open spec fn with_mock(self, mock: M) -> ActorView<M> {
        match self {
            ActorView::Initialized(_) => ActorView::Initialized(ProgramView::Mock(Some(mock))),
            ActorView::Uninitialized(init, Some(ProgramView::Mock(_))) => ActorView::Uninitialized(
                init,
                Some(ProgramView::Mock(Some(mock))),
            ),
            _ => self,
        }
    }

    /// The WebAssembly program of the actor, if the program was initialized.
    pub open spec fn core_program(self) -> Option<CoreProgramView> {
        match self {
            ActorView::Initialized(ProgramView::Genuine(program)) => Some(program),
            _ => None,
        }
    }

    /// The entry point of the actor that `message` is for.
    pub open spec fn entry_point(self, message: MessageView) -> DispatchKind {
        if message.reply is Some {
            DispatchKind::HandleReply
        } else if self matches ActorView::Uninitialized(Some(id), _) && id == message.id {
            DispatchKind::Init
        } else {
            DispatchKind::Handle
        }
    }

    /// Whether `message` has to wait until the actor is initialized: neither is it the message
    /// that initializes the actor, nor a reply.
    pub open spec fn keeps_waiting(self, message: MessageView) -> bool {
        self matches ActorView::Uninitialized(init, _) && message.reply is None && init != Some(
            message.id,
        )
    }
}

impl<M> Actor<M> {
    /// An actor for `program`, which is to be initialized.
    pub fn new(program: Program<M>) -> (actor: Self)
        ensures
            actor@ == ActorView::Uninitialized(None, Some(program@)),
            actor@.valid(),
    {
        Actor::Uninitialized(None, Some(program))
    }

    /// Notes that the initialization succeeded.
    pub fn set_initialized(&mut self)
        requires
            old(self)@.can_be_initialized(),
        ensures
            final(self)@ == old(self)@.initialized(),
            final(self)@ is Initialized,
    {
        if let Actor::Uninitialized(_, program) = self {
            if let Some(mut program) = program.take() {
                if let Program::Genuine(genuine) = &mut program {
                    genuine.set_initialized();
                }
                *self = Actor::Initialized(program);
            }
        }
    }

    /// Whether the initialization failed.
    pub fn is_dormant(&self) -> (result: bool)
        ensures
            result == (self@ is Dormant),
    {
        matches!(self, Actor::Dormant)
    }

    /// Whether the actor is still to be initialized.
    pub fn is_uninitialized(&self) -> (result: bool)
        ensures
            result == (self@ is Uninitialized),
    {
        matches!(self, Actor::Uninitialized(..))
    }

    /// Whether the actor is uninitialized and has its program.
    pub fn can_be_initialized(&self) -> (result: bool)
        ensures
            result == self@.can_be_initialized(),
    {
        matches!(self, Actor::Uninitialized(_, Some(_)))
    }

    /// The WebAssembly program of an initialized actor, if that is what it runs.
    pub fn as_mut_core_prog(&mut self) -> (result: Option<&mut CoreProgram>)
        ensures
            match result {
                Some(program) => old(self)@.core_program() == Some(program@) && final(self)@
                    == ActorView::<M>::Initialized(ProgramView::Genuine(final(program)@)),
                None => old(self)@.core_program() is None && final(self)@ == old(self)@,
            },
    {
        match self {
            Actor::Initialized(Program::Genuine(program)) => Some(program),
            _ => None,
        }
    }

    /// Takes the mock out of the actor.
    pub fn take_mock(&mut self) -> (mock: Option<M>)
        ensures
            mock == old(self)@.mock(),
            final(self)@ == old(self)@.without_mock(),
    {
        match self {
            Actor::Initialized(Program::Mock(mock)) => mock.take(),
            Actor::Uninitialized(_, Some(Program::Mock(mock))) => mock.take(),
            _ => None,
        }
    }

    /// A copy of the WebAssembly program, ready to run with the given balance.
    pub fn get_executable_actor(&self, balance: Balance) -> (result: Option<ExecutableActor>)
        ensures
            match result {
                Some(actor) => self@.genuine() == Some(actor@.program) && actor@.balance
                    == balance,
                None => self@.genuine() is None,
            },
    {
        match self {
            Actor::Initialized(Program::Genuine(program)) => Some(
                ExecutableActor { program: program.clone(), balance },
            ),
            Actor::Uninitialized(_, Some(Program::Genuine(program))) => Some(
                ExecutableActor { program: program.clone(), balance },
            ),
            _ => None,
        }
    }
}

} // verus!
