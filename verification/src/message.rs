//! Messages, and the dispatches that carry them to a program.
use vstd::prelude::*;

use crate::ids::{MessageId, ProgramId};

verus! {

/// Amount of value that an actor owns or that a message carries.
pub type Balance = u128;

/// What optional bytes hold.
pub open spec fn bytes_view(bytes: Option<Vec<u8>>) -> Option<Seq<u8>> {
    match bytes {
        Some(bytes) => Some(bytes@),
        None => None,
    }
}

/// A message from one actor to another.
#[derive(Debug)]
pub struct Message {
    /// Identifier of the message.
    pub id: MessageId,
    /// Who sent the message.
    pub source: ProgramId,
    /// Whom the message is for.
    pub dest: ProgramId,
    /// What the message says.
    pub payload: Vec<u8>,
    /// How much gas may be spent on the message, if that was decided.
    pub gas_limit: Option<u64>,
    /// How much value the message carries.
    pub value: Balance,
    /// For a reply: the message that it answers, and the exit code of that message.
    pub reply: Option<(MessageId, i32)>,
}

/// What a [`Message`] holds.
#[verifier::ext_equal]
pub struct MessageView {
    /// Identifier of the message.
    pub id: MessageId,
    /// Who sent the message.
    pub source: ProgramId,
    /// Whom the message is for.
    pub dest: ProgramId,
    /// What the message says.
    pub payload: Seq<u8>,
    /// How much gas may be spent on the message, if that was decided.
    pub gas_limit: Option<u64>,
    /// How much value the message carries.
    pub value: Balance,
    /// For a reply: the message that it answers, and the exit code of that message.
    pub reply: Option<(MessageId, i32)>,
}

impl View for Message {
    type V = MessageView;

    open spec fn view(&self) -> MessageView {
        MessageView {
            id: self.id,
            source: self.source,
            dest: self.dest,
            payload: self.payload@,
            gas_limit: self.gas_limit,
            value: self.value,
            reply: self.reply,
        }
    }
}

impl MessageView {
    /// The reply with the given identifier to the message `reply_to`. No gas is set for it.
    pub open spec fn new_reply(
        id: MessageId,
        source: ProgramId,
        dest: ProgramId,
        payload: Seq<u8>,
        value: Balance,
        reply_to: MessageId,
        exit_code: i32,
    ) -> MessageView {
        MessageView {
            id,
            source,
            dest,
            payload,
            gas_limit: None,
            value,
            reply: Some((reply_to, exit_code)),
        }
    }

    /// The message with the largest gas limit there is, unless it has a limit already.
    pub open spec fn imbued(self) -> MessageView {
        match self.gas_limit {
            Some(_) => self,
            None => MessageView { gas_limit: Some(u64::MAX), ..self },
        }
    }
}

impl Clone for Message {
    fn clone(&self) -> (copy: Self)
        ensures
            copy@ == self@,
    {
        let payload = self.payload.clone();
        assert(payload@ =~= self.payload@);
        Message {
            id: self.id,
            source: self.source,
            dest: self.dest,
            payload,
            gas_limit: self.gas_limit,
            value: self.value,
            reply: self.reply,
        }
    }
}

impl Message {
    /// The reply with the given identifier to the message `reply_to`. No gas is set for it.
    pub fn new_reply(
        id: MessageId,
        source: ProgramId,
        dest: ProgramId,
        payload: Vec<u8>,
        value: Balance,
        reply_to: MessageId,
        exit_code: i32,
    ) -> (message: Message)
        ensures
            message@ == MessageView::new_reply(
                id,
                source,
                dest,
                payload@,
                value,
                reply_to,
                exit_code,
            ),
    {
        Message {
            id,
            source,
            dest,
            payload,
            gas_limit: None,
            value,
            reply: Some((reply_to, exit_code)),
        }
    }
}

/// The entry point of a program that a dispatch is for.
#[derive(Clone, Copy, PartialEq, Eq, Debug, Structural)]
pub enum DispatchKind {
    /// The program is to be initialized.
    Init,
    /// The program is to handle a message.
    Handle,
    /// The program is to handle the reply to one of its messages.
    HandleReply,
}

/// A message on its way to an entry point of its destination.
#[derive(Debug)]
pub struct Dispatch {
    /// The entry point.
    pub kind: DispatchKind,
    /// The message.
    pub message: Message,
    /// What an earlier, suspended run on the message had put aside, in its encoded form.
    pub payload_store: Option<Vec<u8>>,
}

/// What a [`Dispatch`] holds.
#[verifier::ext_equal]
pub struct DispatchView {
    /// The entry point.
    pub kind: DispatchKind,
    /// The message.
    pub message: MessageView,
    /// What an earlier, suspended run on the message had put aside, in its encoded form.
    pub payload_store: Option<Seq<u8>>,
}

impl View for Dispatch {
    type V = DispatchView;

    open spec fn view(&self) -> DispatchView {
        DispatchView {
            kind: self.kind,
            message: self.message@,
            payload_store: bytes_view(self.payload_store),
        }
    }
}

impl DispatchView {
    /// The dispatch of a reply.
    pub open spec fn new_reply(message: MessageView) -> DispatchView {
        DispatchView { kind: DispatchKind::HandleReply, message, payload_store: None }
    }

    /// The dispatch with the largest gas limit there is, unless its message has a limit already.
    pub open spec fn imbued(self) -> DispatchView {
        DispatchView { message: self.message.imbued(), ..self }
    }
}

impl Dispatch {
    /// The dispatch of a reply.
    pub fn new_reply(message: Message) -> (dispatch: Dispatch)
        ensures
            dispatch@ == DispatchView::new_reply(message@),
    {
        Dispatch { kind: DispatchKind::HandleReply, message, payload_store: None }
    }
}

/// What a sequence of messages holds.
pub open spec fn message_views(messages: Seq<Message>) -> Seq<MessageView> {
    messages.map_values(|message: Message| message@)
}

/// What a sequence of dispatches holds.
pub open spec fn dispatch_views(dispatches: Seq<Dispatch>) -> Seq<DispatchView> {
    dispatches.map_values(|dispatch: Dispatch| dispatch@)
}

/// A copy of `messages`.
pub(crate) fn clone_messages(messages: &Vec<Message>) -> (copies: Vec<Message>)
    ensures
        message_views(copies@) == message_views(messages@),
{
    let mut copies: Vec<Message> = Vec::new();
    for i in 0..messages.len()
        invariant
            copies@.len() == i,
            forall|j: int| 0 <= j < i ==> (#[trigger] copies@[j])@ == messages@[j]@,
    {
        copies.push(messages[i].clone());
    }
    assert(message_views(copies@) =~= message_views(messages@));
    copies
}

} // verus!
