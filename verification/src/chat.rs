//! The operations that a caller sees: open a response stream for a message,
//! stop it, regenerate an answer, and feed the producer's events back in.
use vstd::prelude::*;
use vstd::string::StrSliceExecFns;
use crate::conversation::{has_message, message_slot, stepped_at, Conversation};
use crate::error::AiError;
use crate::message::{
    action_after, is_terminal, lemma_cancel_is_terminal, DeliveryStatus, Message, Role,
    StreamAction, StreamEvent,
};
use crate::rag::{normalize_all, normalizes_to, RagContentEntry, RagMetadata};
use crate::stream::{
    after_regenerate, after_retire, after_start, after_stop, distinct, is_live,
    lemma_operations_keep_distinct, lemma_stop_sets_flag, slot, start_result, StreamHandle,
    StreamRegistry,
};

verus! {

/// Who a message of a request speaks as.
#[derive(Debug, Clone, Copy, PartialEq, Eq, Structural)]
pub enum MessageType {
    System,
    User,
}

/// A request to answer a message.
#[derive(Debug)]
pub struct StreamMessageParams {
    pub message: String,
    pub message_type: MessageType,
    pub answer_stream_port: i64,
    pub question_stream_port: i64,
    /// The layout asked of the answer, handed on to the backend as given.
    pub format: Option<i64>,
    pub metadata: Vec<RagMetadata>,
}

/// What a started stream hands back: the message that was asked, the message
/// that will hold the answer, and the source material of the request.
#[derive(Debug)]
pub struct StreamStart {
    pub question_id: i64,
    pub answer_id: i64,
    pub metadata: Vec<RagContentEntry>,
}

/// The role under which a message of a request is recorded.
pub open spec fn role_of(message_type: MessageType) -> Role {
    match message_type {
        MessageType::System => Role::System,
        MessageType::User => Role::User,
    }
}

/// The longest message, in characters, that is accepted where a caller
/// sets no limit of its own.
pub const MAX_MESSAGE_LEN: usize = 100_000;

/// A message must hold something, and no more characters than `max_len`.
pub open spec fn message_verdict(message: Seq<char>, max_len: usize) -> Result<(), AiError> {
    if message.len() == 0 || message.len() > max_len {
        Err(AiError::InvalidMessage)
    } else {
        Ok(())
    }
}

/// Whether a stream may start: the message is judged first, then whether
/// the conversation is free, then whether two more messages can be numbered.
pub open spec fn stream_verdict(
    message: Seq<char>,
    max_len: usize,
    live: bool,
    next_message_id: i64,
) -> Result<(), AiError> {
    if message_verdict(message, max_len) is Err {
        Err(AiError::InvalidMessage)
    } else if live {
        Err(AiError::ConversationBusy)
    } else if next_message_id > i64::MAX - 2 {
        Err(AiError::IdentifiersExhausted)
    } else {
        Ok(())
    }
}

/// The handle that a stream for `answer_id` is entered with.
pub open spec fn new_handle(
    conversation_id: String,
    answer_id: i64,
    answer_port: i64,
    question_port: Option<i64>,
    format: Option<i64>,
    now: i64,
) -> StreamHandle {
    StreamHandle {
        conversation_id,
        message_id: answer_id,
        answer_port,
        question_port,
        format,
        cancelled: false,
        created_at: now,
    }
}

/// The empty message that waits for an answer.
pub open spec fn is_pending_answer(message: Message, conversation_id: String, id: i64, now: i64) -> bool {
    &&& message.id == id
    &&& message.conversation_id == conversation_id
    &&& message.role == Role::Assistant
    &&& message.content@ == Seq::<char>::empty()
    &&& message.created_at == now
    &&& message.status == DeliveryStatus::Pending
}

/// What a successful start leaves behind.
pub open spec fn started(
    before: Conversation,
    table: Seq<StreamHandle>,
    params: StreamMessageParams,
    now: i64,
    start: StreamStart,
    after: Conversation,
    table_after: Seq<StreamHandle>,
) -> bool {
    let n = before.messages@.len() as int;
    &&& start.question_id == before.next_message_id
    &&& start.answer_id == before.next_message_id + 1
    &&& start.metadata@.len() == params.metadata@.len()
    &&& forall|i: int|
        0 <= i < params.metadata@.len() ==> normalizes_to(
            params.metadata@[i],
            #[trigger] start.metadata@[i],
        )
    &&& after.id == before.id
    &&& after.rag_ids == before.rag_ids
    &&& after.next_message_id == before.next_message_id + 2
    &&& after.messages@.len() == n + 2
    &&& after.messages@.take(n) == before.messages@
    &&& after.messages@[n] == (Message {
        id: start.question_id,
        conversation_id: before.id,
        role: role_of(params.message_type),
        content: params.message,
        created_at: now,
        status: DeliveryStatus::Complete,
    })
    &&& is_pending_answer(after.messages@[n + 1], before.id, start.answer_id, now)
    &&& table_after == table.push(
        new_handle(
            before.id,
            start.answer_id,
            params.answer_stream_port,
            Some(params.question_stream_port),
            params.format,
            now,
        ),
    )
}

/// Judges the text of a message against the longest accepted length.
pub fn validate_message(message: &str, max_len: usize) -> (r: Result<(), AiError>)
    ensures
        r == message_verdict(message@, max_len),
{
    let length: usize = message.unicode_len();
    if length == 0 || length > max_len {
        Err(AiError::InvalidMessage)
    } else {
        Ok(())
    }
}

/// Records a message and opens the stream that will answer it. A request
/// that is refused changes nothing.
pub fn stream_chat_message(
    registry: &mut StreamRegistry,
    conversation: &mut Conversation,
    params: StreamMessageParams,
    now: i64,
    max_message_len: usize,
) -> (r: Result<StreamStart, AiError>)
    requires
        old(registry).wf(),
        old(conversation).wf(),
    ensures
        final(registry).wf(),
        final(conversation).wf(),
        match stream_verdict(
            params.message@,
            max_message_len,
            is_live(old(registry)@, old(conversation).id@),
            old(conversation).next_message_id,
        ) {
            Err(e) => r == Err::<StreamStart, AiError>(e) && *final(registry) == *old(registry)
                && *final(conversation) == *old(conversation),
            Ok(_) => r matches Ok(start) && started(
                *old(conversation),
                old(registry)@,
                params,
                now,
                start,
                *final(conversation),
                final(registry)@,
            ),
        },
{
    if validate_message(params.message.as_str(), max_message_len).is_err() {
        return Err(AiError::InvalidMessage);
    }
    if registry.is_active(conversation.id.as_str()) {
        return Err(AiError::ConversationBusy);
    }
    if conversation.next_message_id > i64::MAX - 2 {
        return Err(AiError::IdentifiersExhausted);
    }
    let metadata = normalize_all(params.metadata);
    let role = match params.message_type {
        MessageType::System => Role::System,
        MessageType::User => Role::User,
    };
    let question_id: i64 = conversation.next_message_id;
    let answer_id: i64 = question_id + 1;
    let asked = conversation.append_message(role, params.message, now, DeliveryStatus::Complete);
    let pending = conversation.append_message(
        Role::Assistant,
        String::new(),
        now,
        DeliveryStatus::Pending,
    );
    let handle = StreamHandle {
        conversation_id: conversation.id.clone(),
        message_id: answer_id,
        answer_port: params.answer_stream_port,
        question_port: Some(params.question_stream_port),
        format: params.format,
        cancelled: false,
        created_at: now,
    };
    let entered = registry.start(handle);
    proof {
        let n = old(conversation).messages@.len() as int;
        assert(conversation.messages@.take(n) == old(conversation).messages@);
    }
    Ok(StreamStart { question_id, answer_id, metadata })
}

/// The history after the stream of `message_id` was cancelled: that message
/// is at an end, with the content it had; every other message is as it was.
pub open spec fn cancelled_in(before: Seq<Message>, message_id: i64, after: Seq<Message>) -> bool {
    if has_message(before, message_id) {
        stepped_at(before, message_slot(before, message_id), StreamEvent::Started, true, after)
    } else {
        after == before
    }
}

/// What `stop_stream` leaves behind.
pub open spec fn stopped(
    table: Seq<StreamHandle>,
    before: Conversation,
    signalled: bool,
    table_after: Seq<StreamHandle>,
    after: Conversation,
) -> bool {
    &&& after.same_but_history(&before)
    &&& signalled == is_live(table, before.id@)
    &&& table_after == after_stop(table, before.id@)
    &&& signalled ==> cancelled_in(
        before.messages@,
        table[slot(table, before.id@)].message_id,
        after.messages@,
    )
    &&& !signalled ==> after.messages@ == before.messages@
}

/// After a stop that found a stream, the message that the stream was
/// filling is at an end, never `Pending` or `Streaming`: complete if it was
/// complete, failed otherwise, and with the content it had.
pub proof fn lemma_stopped_message_is_terminal(
    table: Seq<StreamHandle>,
    before: Conversation,
    table_after: Seq<StreamHandle>,
    after: Conversation,
)
    requires
        stopped(table, before, true, table_after, after),
        has_message(before.messages@, table[slot(table, before.id@)].message_id),
    ensures
        ({
            let i = message_slot(before.messages@, table[slot(table, before.id@)].message_id);
            &&& is_terminal(after.messages@[i].status)
            &&& after.messages@[i].id == before.messages@[i].id
            &&& after.messages@[i].content@ == before.messages@[i].content@
            &&& before.messages@[i].status is Complete ==> after.messages@[i].status is Complete
        }),
{
}

/// After a stop that found a stream, the producer's next event, whatever
/// it is, is answered with `Retire` and takes the handle out of the table.
/// The conversation is then free: a start that follows is let in, not
/// refused as busy.
pub proof fn lemma_stop_then_event_frees(
    table: Seq<StreamHandle>,
    before: Conversation,
    table_stopped: Seq<StreamHandle>,
    stopped_conversation: Conversation,
    event: StreamEvent,
    action: StreamAction,
    table_after: Seq<StreamHandle>,
    after: Conversation,
    next: StreamHandle,
)
    requires
        distinct(table),
        stopped(table, before, true, table_stopped, stopped_conversation),
        event_applied(table_stopped, stopped_conversation, event, action, table_after, after),
        next.conversation_id@ == before.id@,
    ensures
        action == StreamAction::Retire,
        !is_live(table_after, before.id@),
        distinct(table_after),
        start_result(table_after, next) == Ok::<(), AiError>(()),
        after_start(table_after, next) == table_after.push(next),
{
    let cid = before.id@;
    lemma_stop_sets_flag(table, cid);
    lemma_operations_keep_distinct(table, next, cid);
    lemma_operations_keep_distinct(table_stopped, next, cid);
    let handle = table_stopped[slot(table_stopped, cid)];
    let history = stopped_conversation.messages@;
    if has_message(history, handle.message_id) {
        let message = history[message_slot(history, handle.message_id)];
        lemma_cancel_is_terminal(message.status, message.content@, event);
    }
}

/// Stops the conversation's stream, if it has one: the handle gets its
/// cancellation flag, and the message that the stream was filling is at an
/// end when this returns. Returns whether there was a stream.
pub fn stop_stream(registry: &mut StreamRegistry, conversation: &mut Conversation) -> (signalled:
    bool)
    requires
        old(registry).wf(),
        old(conversation).wf(),
    ensures
        final(registry).wf(),
        final(conversation).wf(),
        stopped(
            old(registry)@,
            *old(conversation),
            signalled,
            final(registry)@,
            *final(conversation),
        ),
{
    match registry.find(conversation.id.as_str()) {
        None => {
            let unchanged = registry.stop(conversation.id.as_str());
            false
        },
        Some(i) => {
            let message_id: i64 = registry.handles[i].message_id;
            let flagged = registry.stop(conversation.id.as_str());
            let outcome = conversation.step_message(message_id, StreamEvent::Started, true);
            true
        },
    }
}

/// What `on_stream_event` leaves behind.
pub open spec fn event_applied(
    table: Seq<StreamHandle>,
    before: Conversation,
    event: StreamEvent,
    action: StreamAction,
    table_after: Seq<StreamHandle>,
    after: Conversation,
) -> bool {
    let cid = before.id@;
    let history = before.messages@;
    &&& after.same_but_history(&before)
    &&& if !is_live(table, cid) {
        action == StreamAction::Retire && table_after == table && after.messages@ == history
    } else {
        let handle = table[slot(table, cid)];
        &&& if has_message(history, handle.message_id) {
            &&& action == action_after(
                history[message_slot(history, handle.message_id)].status,
                event,
                handle.cancelled,
            )
            &&& stepped_at(
                history,
                message_slot(history, handle.message_id),
                event,
                handle.cancelled,
                after.messages@,
            )
        } else {
            action == StreamAction::Retire && after.messages@ == history
        }
        &&& table_after == if action == StreamAction::Retire {
            after_retire(table, cid)
        } else {
            table
        }
    }
}

/// Feeds one event of the producer into the conversation's live stream. The
/// message moves with it; once the message is at an end the handle leaves
/// the table. Without a live stream nothing changes and the producer is told
/// to retire.
pub fn on_stream_event(
    registry: &mut StreamRegistry,
    conversation: &mut Conversation,
    event: StreamEvent,
) -> (action: StreamAction)
    requires
        old(registry).wf(),
        old(conversation).wf(),
    ensures
        final(registry).wf(),
        final(conversation).wf(),
        event_applied(
            old(registry)@,
            *old(conversation),
            event,
            action,
            final(registry)@,
            *final(conversation),
        ),
{
    match registry.find(conversation.id.as_str()) {
        None => StreamAction::Retire,
        Some(i) => {
            let message_id: i64 = registry.handles[i].message_id;
            let cancelled = registry.handles[i].cancelled;
            let action = match conversation.step_message(message_id, event, cancelled) {
                Some(action) => action,
                None => StreamAction::Retire,
            };
            match action {
                StreamAction::Retire => {
                    let retired = registry.retire(conversation.id.as_str());
                },
                _ => {},
            }
            action
        },
    }
}

/// Whether an answer can be regenerated: the message must be there, and
/// one more message must be numbered.
pub open spec fn regenerate_verdict(history: Seq<Message>, message_id: i64, next_message_id: i64) -> Result<
    (),
    AiError,
> {
    if !has_message(history, message_id) {
        Err(AiError::MessageNotFound)
    } else if next_message_id == i64::MAX {
        Err(AiError::IdentifiersExhausted)
    } else {
        Ok(())
    }
}

/// What a successful `stream_regenerate_response` leaves behind.
pub open spec fn regenerated(
    table: Seq<StreamHandle>,
    before: Conversation,
    answer_stream_port: i64,
    format: Option<i64>,
    now: i64,
    table_after: Seq<StreamHandle>,
    after: Conversation,
) -> bool {
    let n = before.messages@.len() as int;
    let cid = before.id@;
    &&& after.id == before.id
    &&& after.rag_ids == before.rag_ids
    &&& after.next_message_id == before.next_message_id + 1
    &&& after.messages@.len() == n + 1
    &&& is_pending_answer(after.messages@[n], before.id, before.next_message_id, now)
    &&& if is_live(table, cid) {
        cancelled_in(before.messages@, table[slot(table, cid)].message_id, after.messages@.take(n))
    } else {
        after.messages@.take(n) == before.messages@
    }
    &&& is_live(table_after, cid)
    &&& table_after == after_regenerate(
        table,
        new_handle(before.id, before.next_message_id, answer_stream_port, None, format, now),
    )
}

/// Opens a new stream that answers again from an existing message. A stream
/// that the conversation still has is cancelled and gives way: its message is
/// at an end, and the new handle takes the place of the old one.
pub fn stream_regenerate_response(
    registry: &mut StreamRegistry,
    conversation: &mut Conversation,
    answer_message_id: i64,
    answer_stream_port: i64,
    format: Option<i64>,
    now: i64,
) -> (r: Result<i64, AiError>)
    requires
        old(registry).wf(),
        old(conversation).wf(),
    ensures
        final(registry).wf(),
        final(conversation).wf(),
        match regenerate_verdict(
            old(conversation).messages@,
            answer_message_id,
            old(conversation).next_message_id,
        ) {
            Err(e) => r == Err::<i64, AiError>(e) && *final(registry) == *old(registry)
                && *final(conversation) == *old(conversation),
            Ok(_) => r == Ok::<i64, AiError>(old(conversation).next_message_id) && regenerated(
                old(registry)@,
                *old(conversation),
                answer_stream_port,
                format,
                now,
                final(registry)@,
                *final(conversation),
            ),
        },
{
    if conversation.find_message(answer_message_id).is_none() {
        return Err(AiError::MessageNotFound);
    }
    if conversation.next_message_id == i64::MAX {
        return Err(AiError::IdentifiersExhausted);
    }
    let ghost n = conversation.messages@.len() as int;
    match registry.find(conversation.id.as_str()) {
        Some(i) => {
            let prior: i64 = registry.handles[i].message_id;
            let outcome = conversation.step_message(prior, StreamEvent::Started, true);
        },
        None => {},
    }
    let ghost settled = conversation.messages@;
    let answer_id: i64 = conversation.next_message_id;
    let pending = conversation.append_message(
        Role::Assistant,
        String::new(),
        now,
        DeliveryStatus::Pending,
    );
    let handle = StreamHandle {
        conversation_id: conversation.id.clone(),
        message_id: answer_id,
        answer_port: answer_stream_port,
        question_port: None,
        format,
        cancelled: false,
        created_at: now,
    };
    let retired = registry.regenerate(handle);
    proof {
        assert(conversation.messages@.take(n) == settled);
    }
    Ok(answer_id)
}

/// Follow-up questions that go with a message.
#[derive(Debug)]
pub struct RelatedQuestions {
    pub message_id: i64,
    pub items: Vec<String>,
}

/// Binds the questions that the backend proposed to the message they go
/// with, where the conversation holds that message.
pub fn get_related_questions(
    conversation: &Conversation,
    message_id: i64,
    proposed: Vec<String>,
) -> (r: Result<RelatedQuestions, AiError>)
    requires
        conversation.wf(),
    ensures
        r == if has_message(conversation.messages@, message_id) {
            Ok::<RelatedQuestions, AiError>(RelatedQuestions { message_id, items: proposed })
        } else {
            Err::<RelatedQuestions, AiError>(AiError::MessageNotFound)
        },
{
    match conversation.find_message(message_id) {
        Some(_) => Ok(RelatedQuestions { message_id, items: proposed }),
        None => Err(AiError::MessageNotFound),
    }
}

/// Whether an answer to `question_message_id` can be recorded.
pub open spec fn answer_verdict(
    history: Seq<Message>,
    question_message_id: i64,
    next_message_id: i64,
) -> Result<(), AiError> {
    regenerate_verdict(history, question_message_id, next_message_id)
}

/// Records an answer that the backend gave in one piece: a complete message
/// of the assistant at the end of the history. Returns its identifier.
pub fn generate_answer(
    conversation: &mut Conversation,
    question_message_id: i64,
    answer: String,
    now: i64,
) -> (r: Result<i64, AiError>)
    requires
        old(conversation).wf(),
    ensures
        final(conversation).wf(),
        match answer_verdict(
            old(conversation).messages@,
            question_message_id,
            old(conversation).next_message_id,
        ) {
            Err(e) => r == Err::<i64, AiError>(e) && *final(conversation) == *old(conversation),
            Ok(_) => {
                &&& r == Ok::<i64, AiError>(old(conversation).next_message_id)
                &&& final(conversation).id == old(conversation).id
                &&& final(conversation).rag_ids == old(conversation).rag_ids
                &&& final(conversation).next_message_id == old(conversation).next_message_id + 1
                &&& final(conversation).messages@ == old(conversation).messages@.push(
                    (Message {
                        id: old(conversation).next_message_id,
                        conversation_id: old(conversation).id,
                        role: Role::Assistant,
                        content: answer,
                        created_at: now,
                        status: DeliveryStatus::Complete,
                    }),
                )
            },
        },
{
    if conversation.find_message(question_message_id).is_none() {
        return Err(AiError::MessageNotFound);
    }
    conversation.append_message(Role::Assistant, answer, now, DeliveryStatus::Complete)
}

} // verus!
