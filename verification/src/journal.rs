//! What the run of a program asks for: the notes of its journal.
use vstd::prelude::*;

use crate::ids::{CodeHash, MessageId, ProgramId};
use crate::message::{Balance, Dispatch};

verus! {

/// How the run on a dispatch ended.
#[derive(Clone, Copy, Debug)]
pub enum DispatchOutcome {
    /// The message was handled.
    Success(MessageId),
    /// The program trapped on the message.
    MessageTrap {
        /// The message.
        message_id: MessageId,
        /// The program.
        program_id: ProgramId,
        /// Why the program trapped, if that is known.
        trap: Option<&'static str>,
    },
    /// The program was initialized.
    InitSuccess {
        /// The message that initialized the program.
        message_id: MessageId,
        /// Who sent the message.
        origin: ProgramId,
        /// The program.
        program_id: ProgramId,
    },
    /// The initialization of the program failed.
    InitFailure {
        /// The message that was to initialize the program.
        message_id: MessageId,
        /// Who sent the message.
        origin: ProgramId,
        /// The program.
        program_id: ProgramId,
        /// What went wrong.
        reason: &'static str,
    },
    /// Nothing was run for the message.
    NoExecution(MessageId),
}

/// One thing that the run of a program asks for.
#[derive(Debug)]
pub enum JournalNote {
    /// The run on a dispatch ended.
    MessageDispatched(DispatchOutcome),
    /// Gas was burned on a message.
    GasBurned {
        /// The message.
        message_id: MessageId,
        /// How much gas.
        amount: u64,
    },
    /// A program left for good.
    ExitDispatch {
        /// The program.
        id_exited: ProgramId,
        /// Who is to have its value.
        value_destination: ProgramId,
    },
    /// A message is done with.
    MessageConsumed(MessageId),
    /// A message is sent.
    SendDispatch {
        /// The message that was handled when it was sent.
        message_id: MessageId,
        /// What is sent.
        dispatch: Dispatch,
    },
    /// A dispatch is to wait until it is woken.
    WaitDispatch(Dispatch),
    /// A waiting dispatch is woken.
    WakeMessage {
        /// The message that was handled when it was woken.
        message_id: MessageId,
        /// The program whose dispatch it is.
        program_id: ProgramId,
        /// The message of the dispatch.
        awakening_id: MessageId,
    },
    /// A program has a new message counter.
    UpdateNonce {
        /// The program.
        program_id: ProgramId,
        /// The counter.
        nonce: u64,
    },
    /// A page of a program's memory changed.
    UpdatePage {
        /// The program.
        program_id: ProgramId,
        /// The number of the page.
        page_number: u32,
        /// What the page holds, or nothing if the page is gone.
        data: Option<Vec<u8>>,
    },
    /// Value moves.
    SendValue {
        /// Who gives.
        from: ProgramId,
        /// Who takes. Where nobody takes, nothing moves.
        to: Option<ProgramId>,
        /// How much.
        value: Balance,
    },
    /// Programs were created from known code.
    StoreNewPrograms {
        /// Hash of the code.
        code_hash: CodeHash,
        /// The programs, each with the message that is to initialize it.
        candidates: Vec<(ProgramId, MessageId)>,
    },
}

} // verus!
