//! The conversations of a process and the table of their streams, as one
//! value: requests name a conversation, and are routed to it.
//!
//! A caller that shares the orchestrator between tasks puts it behind one
//! lock; each operation is then one step, and no two starts for a
//! conversation can both find it free.
use vstd::prelude::*;
use crate::chat::{
    event_applied, generate_answer, get_related_questions, is_pending_answer, new_handle,
    on_stream_event, regenerate_verdict, regenerated, role_of, started, stop_stream, stopped,
    stream_chat_message, stream_regenerate_response, stream_verdict, validate_message,
    RelatedQuestions, StreamMessageParams, StreamStart, MAX_MESSAGE_LEN,
};
use crate::conversation::{has_message, Conversation};
use crate::error::AiError;
use crate::message::{
    all_after, all_before, last_of, page_after, page_before, page_len, DeliveryStatus, Message,
    Role, StreamAction, StreamEvent,
};
use crate::rag::normalizes_to;
use crate::stream::{is_live, StreamHandle, StreamRegistry};
use crate::text::same_text;

verus! {

/// The conversations, the table of their streams, and the longest accepted message.
pub struct ChatOrchestrator {
    pub registry: StreamRegistry,
    pub conversations: Vec<Conversation>,
    pub max_message_len: usize,
}

/// Place `i` of the table holds the conversation `cid`.
pub open spec fn conversation_at(table: Seq<Conversation>, cid: Seq<char>, i: int) -> bool {
    0 <= i < table.len() && table[i].id@ == cid
}

/// Whether the table holds the conversation `cid`.
pub open spec fn has_conversation(table: Seq<Conversation>, cid: Seq<char>) -> bool {
    exists|i: int| conversation_at(table, cid, i)
}

/// The place of the conversation `cid`, where there is one.
pub open spec fn conversation_slot(table: Seq<Conversation>, cid: Seq<char>) -> int {
    choose|i: int| conversation_at(table, cid, i)
}

/// Every conversation is well formed and no identifier occurs twice.
pub open spec fn table_wf(table: Seq<Conversation>) -> bool {
    &&& forall|i: int| 0 <= i < table.len() ==> (#[trigger] table[i]).wf()
    &&& forall|i: int, j: int|
        0 <= i < j < table.len() ==> (#[trigger] table[i]).id@ != (#[trigger] table[j]).id@
}

/// Nothing but the conversation at place `k` differs between the two.
pub open spec fn changed_at(before: Seq<Conversation>, k: int, after: Seq<Conversation>) -> bool {
    &&& after.len() == before.len()
    &&& 0 <= k < before.len()
    &&& forall|j: int| 0 <= j < before.len() && j != k ==> after[j] == before[j]
}

/// A conversation that has just been made.
pub open spec fn is_fresh(conversation: Conversation, cid: Seq<char>) -> bool {
    &&& conversation.id@ == cid
    &&& conversation.messages@.len() == 0
    &&& conversation.rag_ids@.len() == 0
    &&& conversation.next_message_id == 1
}

/// What the first message of a conversation leaves behind: the conversation
/// with the message numbered 1 and the pending answer numbered 2, and a
/// handle for the answer at the end of the table.
pub open spec fn started_fresh(
    cid: Seq<char>,
    table: Seq<StreamHandle>,
    params: StreamMessageParams,
    now: i64,
    start: StreamStart,
    after: Conversation,
    table_after: Seq<StreamHandle>,
) -> bool {
    &&& after.id@ == cid
    &&& start.question_id == 1
    &&& start.answer_id == 2
    &&& start.metadata@.len() == params.metadata@.len()
    &&& forall|i: int|
        0 <= i < params.metadata@.len() ==> normalizes_to(
            params.metadata@[i],
            #[trigger] start.metadata@[i],
        )
    &&& after.rag_ids@.len() == 0
    &&& after.next_message_id == 3
    &&& after.messages@.len() == 2
    &&& after.messages@[0] == (Message {
        id: 1,
        conversation_id: after.id,
        role: role_of(params.message_type),
        content: params.message,
        created_at: now,
        status: DeliveryStatus::Complete,
    })
    &&& is_pending_answer(after.messages@[1], after.id, 2, now)
    &&& table_after == table.push(
        new_handle(
            after.id,
            2,
            params.answer_stream_port,
            Some(params.question_stream_port),
            params.format,
            now,
        ),
    )
}

/// A change within one conversation that keeps its identifier keeps the
/// table well formed.
pub proof fn lemma_change_keeps_table(before: Seq<Conversation>, k: int, after: Seq<Conversation>)
    requires
        table_wf(before),
        changed_at(before, k, after),
        after[k].wf(),
        after[k].id@ == before[k].id@,
    ensures
        table_wf(after),
{
    assert forall|i: int| 0 <= i < after.len() implies (#[trigger] after[i]).wf() by {
        if i != k {
            assert(before[i].wf());
        }
    }
    assert forall|i: int, j: int| 0 <= i < j < after.len() implies (#[trigger] after[i]).id@ != (
    #[trigger] after[j]).id@ by {
        assert(before[i].id@ != before[j].id@);
        assert(after[i].id@ == before[i].id@);
        assert(after[j].id@ == before[j].id@);
    }
}

/// In a well-formed table a conversation has one place at most.
pub proof fn lemma_one_conversation(table: Seq<Conversation>, cid: Seq<char>, i: int, j: int)
    requires
        table_wf(table),
        conversation_at(table, cid, i),
        conversation_at(table, cid, j),
    ensures
        i == j,
{
    if i < j {
        assert(table[i].id@ != table[j].id@);
    }
    if j < i {
        assert(table[j].id@ != table[i].id@);
    }
}

impl ChatOrchestrator {
    /// The table of streams and the table of conversations are both well formed.
    pub open spec fn wf(&self) -> bool {
        self.registry.wf() && table_wf(self.conversations@)
    }

    /// The two hold the same streams, conversations and limits.
    pub open spec fn same_state(&self, other: &ChatOrchestrator) -> bool {
        &&& self.registry@ == other.registry@
        &&& self.conversations@ == other.conversations@
        &&& self.max_message_len == other.max_message_len
    }

    /// The identifier that the next message of `cid` gets.
    pub open spec fn next_message_id(&self, cid: Seq<char>) -> i64 {
        if has_conversation(self.conversations@, cid) {
            self.conversations@[conversation_slot(self.conversations@, cid)].next_message_id
        } else {
            1
        }
    }

    /// Whether a stream may start: the identifier must not be empty; the
    /// rest is judged as for a conversation at hand.
    pub open spec fn start_verdict(&self, cid: Seq<char>, message: Seq<char>) -> Result<
        (),
        AiError,
    > {
        if cid.len() == 0 {
            Err(AiError::EmptyIdentifier)
        } else {
            stream_verdict(
                message,
                self.max_message_len,
                is_live(self.registry@, cid),
                self.next_message_id(cid),
            )
        }
    }

    /// An orchestrator without conversations, with the usual limit on the
    /// length of a message.
    pub fn with_default_limit() -> (orchestrator: Self)
        ensures
            orchestrator.wf(),
            orchestrator.registry@.len() == 0,
            orchestrator.conversations@.len() == 0,
            orchestrator.max_message_len == MAX_MESSAGE_LEN,
    {
        Self::new(MAX_MESSAGE_LEN)
    }

    /// An orchestrator without conversations.
    pub fn new(max_message_len: usize) -> (orchestrator: Self)
        ensures
            orchestrator.wf(),
            orchestrator.registry@.len() == 0,
            orchestrator.conversations@.len() == 0,
            orchestrator.max_message_len == max_message_len,
    {
        ChatOrchestrator {
            registry: StreamRegistry::new(),
            conversations: Vec::new(),
            max_message_len,
        }
    }

    /// Whether the orchestrator is well formed.
    pub fn is_well_formed(&self) -> (ok: bool)
        ensures
            ok == self.wf(),
    {
        if !self.registry.is_well_formed() {
            return false;
        }
        let n = self.conversations.len();
        let mut i: usize = 0;
        while i < n
            invariant
                i <= n,
                n == self.conversations.len(),
                forall|a: int| 0 <= a < i ==> (#[trigger] self.conversations@[a]).wf(),
                forall|a: int, b: int|
                    0 <= a < b < n && a < i ==> (#[trigger] self.conversations@[a]).id@ != (
                    #[trigger] self.conversations@[b]).id@,
            decreases n - i,
        {
            if !self.conversations[i].is_well_formed() {
                assert(!self.conversations@[i as int].wf());
                return false;
            }
            let mut j: usize = i + 1;
            while j < n
                invariant
                    i < n,
                    i < j <= n,
                    n == self.conversations.len(),
                    forall|b: int|
                        i < b < j ==> self.conversations@[i as int].id@ != (
                        #[trigger] self.conversations@[b]).id@,
                decreases n - j,
            {
                if same_text(self.conversations[i].id.as_str(), self.conversations[j].id.as_str()) {
                    assert(self.conversations@[i as int].id@ == self.conversations@[j as int].id@);
                    return false;
                }
                j += 1;
            }
            i += 1;
        }
        true
    }

    /// Refuses a state that is not well formed, as an internal error.
    pub fn check(&self) -> (r: Result<(), AiError>)
        ensures
            r == if self.wf() {
                Ok::<(), AiError>(())
            } else {
                Err::<(), AiError>(AiError::InvariantViolated)
            },
    {
        if self.is_well_formed() {
            Ok(())
        } else {
            Err(AiError::InvariantViolated)
        }
    }

    /// The place of a conversation in the table.
    pub fn find_conversation(&self, chat_id: &str) -> (found: Option<usize>)
        requires
            self.wf(),
        ensures
            found is Some <==> has_conversation(self.conversations@, chat_id@),
            found matches Some(i) ==> i as int == conversation_slot(self.conversations@, chat_id@)
                && conversation_at(self.conversations@, chat_id@, i as int),
    {
        let mut i: usize = 0;
        while i < self.conversations.len()
            invariant
                self.wf(),
                i <= self.conversations.len(),
                forall|j: int| 0 <= j < i ==> !conversation_at(self.conversations@, chat_id@, j),
            decreases self.conversations.len() - i,
        {
            if same_text(self.conversations[i].id.as_str(), chat_id) {
                proof {
                    assert(conversation_at(self.conversations@, chat_id@, i as int));
                    lemma_one_conversation(
                        self.conversations@,
                        chat_id@,
                        i as int,
                        conversation_slot(self.conversations@, chat_id@),
                    );
                }
                return Some(i);
            }
            i += 1;
        }
        None
    }

    /// Whether the conversation has a live stream.
    pub fn is_active(&self, chat_id: &str) -> (active: bool)
        requires
            self.wf(),
        ensures
            active == is_live(self.registry@, chat_id@),
    {
        self.registry.is_active(chat_id)
    }

    /// The place of a conversation, which is made if it is not there yet.
    pub fn open_conversation(&mut self, chat_id: &str) -> (r: Result<usize, AiError>)
        requires
            old(self).wf(),
        ensures
            final(self).wf(),
            final(self).registry@ == old(self).registry@,
            final(self).max_message_len == old(self).max_message_len,
            chat_id@.len() == 0 ==> r == Err::<usize, AiError>(AiError::EmptyIdentifier)
                && final(self).conversations@ == old(self).conversations@,
            chat_id@.len() > 0 && has_conversation(old(self).conversations@, chat_id@) ==> (r
                matches Ok(k) && k as int == conversation_slot(old(self).conversations@, chat_id@)
                && final(self).conversations@ == old(self).conversations@),
            chat_id@.len() > 0 && !has_conversation(old(self).conversations@, chat_id@) ==> ({
                let table = final(self).conversations@;
                &&& r matches Ok(k) && k as int == old(self).conversations@.len()
                &&& table.len() == old(self).conversations@.len() + 1
                &&& table.drop_last() == old(self).conversations@
                &&& is_fresh(table.last(), chat_id@)
            }),
    {
        if chat_id.is_empty() {
            return Err(AiError::EmptyIdentifier);
        }
        match self.find_conversation(chat_id) {
            Some(i) => Ok(i),
            None => {
                match Conversation::new(chat_id.to_owned()) {
                    Ok(fresh) => {
                        let ghost before = self.conversations@;
                        let n = self.conversations.len();
                        self.conversations.push(fresh);
                        proof {
                            let now = self.conversations@;
                            assert(now.drop_last() == before);
                            assert forall|i: int, j: int| 0 <= i < j < now.len() implies (
                            #[trigger] now[i]).id@ != (#[trigger] now[j]).id@ by {
                                if j < before.len() {
                                    assert(before[i].id@ != before[j].id@);
                                } else {
                                    assert(!conversation_at(before, chat_id@, i));
                                }
                            }
                            assert forall|i: int| 0 <= i < now.len() implies (
                            #[trigger] now[i]).wf() by {
                                if i < before.len() {
                                    assert(before[i].wf());
                                }
                            }
                        }
                        Ok(n)
                    },
                    Err(e) => Err(e),
                }
            },
        }
    }

    /// Records a message in the conversation, which is made if this is its
    /// first message, and opens the stream that will answer it. A request
    /// that is refused changes nothing.
    pub fn stream_chat_message(
        &mut self,
        chat_id: &str,
        params: StreamMessageParams,
        now: i64,
    ) -> (r: Result<StreamStart, AiError>)
        requires
            old(self).wf(),
        ensures
            final(self).wf(),
            final(self).max_message_len == old(self).max_message_len,
            match old(self).start_verdict(chat_id@, params.message@) {
                Err(e) => r == Err::<StreamStart, AiError>(e) && final(self).same_state(old(self)),
                Ok(_) => r matches Ok(start) && if has_conversation(
                    old(self).conversations@,
                    chat_id@,
                ) {
                    let k = conversation_slot(old(self).conversations@, chat_id@);
                    &&& changed_at(old(self).conversations@, k, final(self).conversations@)
                    &&& started(
                        old(self).conversations@[k],
                        old(self).registry@,
                        params,
                        now,
                        start,
                        final(self).conversations@[k],
                        final(self).registry@,
                    )
                } else {
                    &&& final(self).conversations@.len() == old(self).conversations@.len() + 1
                    &&& final(self).conversations@.drop_last() == old(self).conversations@
                    &&& started_fresh(
                        chat_id@,
                        old(self).registry@,
                        params,
                        now,
                        start,
                        final(self).conversations@.last(),
                        final(self).registry@,
                    )
                },
            },
    {
        if chat_id.is_empty() {
            return Err(AiError::EmptyIdentifier);
        }
        let max_len = self.max_message_len;
        let ghost table = self.conversations@;
        match self.find_conversation(chat_id) {
            Some(k) => {
                let r = stream_chat_message(
                    &mut self.registry,
                    &mut self.conversations[k],
                    params,
                    now,
                    max_len,
                );
                proof {
                    assert(self.conversations@ =~= table.update(k as int, self.conversations@[k as int]));
                    if r is Err {
                        assert(self.conversations@ =~= table);
                    }
                    lemma_change_keeps_table(table, k as int, self.conversations@);
                }
                r
            },
            None => {
                if validate_message(params.message.as_str(), max_len).is_err() {
                    return Err(AiError::InvalidMessage);
                }
                if self.registry.is_active(chat_id) {
                    return Err(AiError::ConversationBusy);
                }
                let k = match self.open_conversation(chat_id) {
                    Ok(k) => k,
                    Err(e) => {
                        return Err(e);
                    },
                };
                let ghost opened = self.conversations@;
                let r = stream_chat_message(
                    &mut self.registry,
                    &mut self.conversations[k],
                    params,
                    now,
                    max_len,
                );
                proof {
                    let closed = self.conversations@;
                    assert(closed =~= opened.update(k as int, closed[k as int]));
                    assert(k as int == table.len());
                    assert(opened.drop_last() == table);
                    assert forall|i: int| 0 <= i < table.len() implies closed.drop_last()[i]
                        == table[i] by {
                        assert(opened.drop_last()[i] == opened[i]);
                    }
                    assert(closed.drop_last() =~= table);
                    assert(closed.last() == closed[k as int]);
                    lemma_change_keeps_table(opened, k as int, closed);
                }
                r
            },
        }
    }

    /// Stops the stream of a conversation, if it has one.
    pub fn stop_stream(&mut self, chat_id: &str) -> (r: Result<bool, AiError>)
        requires
            old(self).wf(),
        ensures
            final(self).wf(),
            final(self).max_message_len == old(self).max_message_len,
            !has_conversation(old(self).conversations@, chat_id@) ==> r == Err::<bool, AiError>(
                AiError::ConversationNotFound,
            ) && final(self).same_state(old(self)),
            has_conversation(old(self).conversations@, chat_id@) ==> ({
                let k = conversation_slot(old(self).conversations@, chat_id@);
                &&& r matches Ok(signalled) && stopped(
                    old(self).registry@,
                    old(self).conversations@[k],
                    signalled,
                    final(self).registry@,
                    final(self).conversations@[k],
                )
                &&& changed_at(old(self).conversations@, k, final(self).conversations@)
            }),
    {
        let ghost table = self.conversations@;
        match self.find_conversation(chat_id) {
            None => Err(AiError::ConversationNotFound),
            Some(k) => {
                let signalled = stop_stream(&mut self.registry, &mut self.conversations[k]);
                proof {
                    assert(self.conversations@ =~= table.update(k as int, self.conversations@[k as int]));
                    lemma_change_keeps_table(table, k as int, self.conversations@);
                }
                Ok(signalled)
            },
        }
    }

    /// Feeds one event of a producer into the stream of its conversation.
    pub fn on_stream_event(&mut self, chat_id: &str, event: StreamEvent) -> (r: Result<
        StreamAction,
        AiError,
    >)
        requires
            old(self).wf(),
        ensures
            final(self).wf(),
            final(self).max_message_len == old(self).max_message_len,
            !has_conversation(old(self).conversations@, chat_id@) ==> r == Err::<
                StreamAction,
                AiError,
            >(AiError::ConversationNotFound) && final(self).same_state(old(self)),
            has_conversation(old(self).conversations@, chat_id@) ==> ({
                let k = conversation_slot(old(self).conversations@, chat_id@);
                &&& r matches Ok(action) && event_applied(
                    old(self).registry@,
                    old(self).conversations@[k],
                    event,
                    action,
                    final(self).registry@,
                    final(self).conversations@[k],
                )
                &&& changed_at(old(self).conversations@, k, final(self).conversations@)
            }),
    {
        let ghost table = self.conversations@;
        match self.find_conversation(chat_id) {
            None => Err(AiError::ConversationNotFound),
            Some(k) => {
                let action = on_stream_event(&mut self.registry, &mut self.conversations[k], event);
                proof {
                    assert(self.conversations@ =~= table.update(k as int, self.conversations@[k as int]));
                    lemma_change_keeps_table(table, k as int, self.conversations@);
                }
                Ok(action)
            },
        }
    }

    /// Whether an answer of `cid` can be regenerated.
    pub open spec fn regenerate_verdict(&self, cid: Seq<char>, message_id: i64) -> Result<
        (),
        AiError,
    > {
        if !has_conversation(self.conversations@, cid) {
            Err(AiError::ConversationNotFound)
        } else {
            let conversation = self.conversations@[conversation_slot(self.conversations@, cid)];
            regenerate_verdict(conversation.messages@, message_id, conversation.next_message_id)
        }
    }

    /// Opens a new stream that answers again from an existing message of
    /// the conversation, in place of whatever stream the conversation had.
    pub fn stream_regenerate_response(
        &mut self,
        chat_id: &str,
        answer_message_id: i64,
        answer_stream_port: i64,
        format: Option<i64>,
        now: i64,
    ) -> (r: Result<i64, AiError>)
        requires
            old(self).wf(),
        ensures
            final(self).wf(),
            final(self).max_message_len == old(self).max_message_len,
            match old(self).regenerate_verdict(chat_id@, answer_message_id) {
                Err(e) => r == Err::<i64, AiError>(e) && final(self).same_state(old(self)),
                Ok(_) => {
                    let k = conversation_slot(old(self).conversations@, chat_id@);
                    &&& r == Ok::<i64, AiError>(old(self).conversations@[k].next_message_id)
                    &&& changed_at(old(self).conversations@, k, final(self).conversations@)
                    &&& regenerated(
                        old(self).registry@,
                        old(self).conversations@[k],
                        answer_stream_port,
                        format,
                        now,
                        final(self).registry@,
                        final(self).conversations@[k],
                    )
                },
            },
    {
        let ghost table = self.conversations@;
        match self.find_conversation(chat_id) {
            None => Err(AiError::ConversationNotFound),
            Some(k) => {
                let r = stream_regenerate_response(
                    &mut self.registry,
                    &mut self.conversations[k],
                    answer_message_id,
                    answer_stream_port,
                    format,
                    now,
                );
                proof {
                    assert(self.conversations@ =~= table.update(k as int, self.conversations@[k as int]));
                    if r is Err {
                        assert(self.conversations@ =~= table);
                    }
                    lemma_change_keeps_table(table, k as int, self.conversations@);
                }
                r
            },
        }
    }

    /// The last `limit` messages of the conversation before the cursor,
    /// oldest first. No message of another conversation is among them.
    pub fn load_prev_chat_messages(
        &self,
        chat_id: &str,
        limit: u64,
        before_message_id: Option<i64>,
    ) -> (r: Result<Vec<Message>, AiError>)
        requires
            self.wf(),
        ensures
            !has_conversation(self.conversations@, chat_id@) ==> r == Err::<Vec<Message>, AiError>(
                AiError::ConversationNotFound,
            ),
            has_conversation(self.conversations@, chat_id@) ==> ({
                let history =
                    self.conversations@[conversation_slot(self.conversations@, chat_id@)].messages@;
                r matches Ok(page) && page@ == page_before(history, before_message_id, limit as nat)
                    && page@ == last_of(all_before(history, before_message_id), limit as nat)
            }),
    {
        match self.find_conversation(chat_id) {
            None => Err(AiError::ConversationNotFound),
            Some(k) => Ok(self.conversations[k].load_prev_chat_messages(limit, before_message_id)),
        }
    }

    /// The first `limit` messages of the conversation behind the cursor,
    /// oldest first. No message of another conversation is among them.
    pub fn load_latest_chat_messages(
        &self,
        chat_id: &str,
        limit: u64,
        after_message_id: Option<i64>,
    ) -> (r: Result<Vec<Message>, AiError>)
        requires
            self.wf(),
        ensures
            !has_conversation(self.conversations@, chat_id@) ==> r == Err::<Vec<Message>, AiError>(
                AiError::ConversationNotFound,
            ),
            has_conversation(self.conversations@, chat_id@) ==> ({
                let history =
                    self.conversations@[conversation_slot(self.conversations@, chat_id@)].messages@;
                r matches Ok(page) && page@ == page_after(history, after_message_id, limit as nat)
                    && page@ == all_after(history, after_message_id).take(
                    page_len(limit as nat, all_after(history, after_message_id).len()),
                )
            }),
    {
        match self.find_conversation(chat_id) {
            None => Err(AiError::ConversationNotFound),
            Some(k) => Ok(self.conversations[k].load_latest_chat_messages(limit, after_message_id)),
        }
    }

    /// Replaces the sources of a conversation in one step.
    pub fn update_rag_ids(&mut self, chat_id: &str, rag_ids: Vec<String>) -> (r: Result<
        (),
        AiError,
    >)
        requires
            old(self).wf(),
        ensures
            final(self).wf(),
            final(self).registry@ == old(self).registry@,
            final(self).max_message_len == old(self).max_message_len,
            !has_conversation(old(self).conversations@, chat_id@) ==> r == Err::<(), AiError>(
                AiError::ConversationNotFound,
            ) && final(self).conversations@ == old(self).conversations@,
            has_conversation(old(self).conversations@, chat_id@) ==> ({
                let k = conversation_slot(old(self).conversations@, chat_id@);
                &&& r == Ok::<(), AiError>(())
                &&& changed_at(old(self).conversations@, k, final(self).conversations@)
                &&& final(self).conversations@[k].rag_ids == rag_ids
                &&& final(self).conversations@[k].id == old(self).conversations@[k].id
                &&& final(self).conversations@[k].messages == old(self).conversations@[k].messages
                &&& final(self).conversations@[k].next_message_id
                    == old(self).conversations@[k].next_message_id
            }),
    {
        let ghost table = self.conversations@;
        match self.find_conversation(chat_id) {
            None => Err(AiError::ConversationNotFound),
            Some(k) => {
                let conversation = &mut self.conversations[k];
                conversation.update_rag_ids(rag_ids);
                proof {
                    assert(self.conversations@ =~= table.update(k as int, self.conversations@[k as int]));
                    lemma_change_keeps_table(table, k as int, self.conversations@);
                }
                Ok(())
            },
        }
    }

    /// Binds the questions that the backend proposed to a message of the
    /// conversation.
    pub fn get_related_questions(&self, chat_id: &str, message_id: i64, proposed: Vec<String>) -> (r:
        Result<RelatedQuestions, AiError>)
        requires
            self.wf(),
        ensures
            r == if !has_conversation(self.conversations@, chat_id@) {
                Err::<RelatedQuestions, AiError>(AiError::ConversationNotFound)
            } else if !has_message(
                self.conversations@[conversation_slot(self.conversations@, chat_id@)].messages@,
                message_id,
            ) {
                Err::<RelatedQuestions, AiError>(AiError::MessageNotFound)
            } else {
                Ok::<RelatedQuestions, AiError>(RelatedQuestions { message_id, items: proposed })
            },
    {
        match self.find_conversation(chat_id) {
            None => Err(AiError::ConversationNotFound),
            Some(k) => get_related_questions(&self.conversations[k], message_id, proposed),
        }
    }

    /// Whether an answer to a message of `cid` can be recorded.
    pub open spec fn answer_verdict(&self, cid: Seq<char>, message_id: i64) -> Result<(), AiError> {
        self.regenerate_verdict(cid, message_id)
    }

    /// Records an answer that the backend gave in one piece, as a complete
    /// message of the assistant at the end of the conversation.
    pub fn generate_answer(
        &mut self,
        chat_id: &str,
        question_message_id: i64,
        answer: String,
        now: i64,
    ) -> (r: Result<i64, AiError>)
        requires
            old(self).wf(),
        ensures
            final(self).wf(),
            final(self).registry@ == old(self).registry@,
            final(self).max_message_len == old(self).max_message_len,
            match old(self).answer_verdict(chat_id@, question_message_id) {
                Err(e) => r == Err::<i64, AiError>(e) && final(self).conversations@ == old(self).conversations@,
                Ok(_) => {
                    let k = conversation_slot(old(self).conversations@, chat_id@);
                    let before = old(self).conversations@[k];
                    let after = final(self).conversations@[k];
                    &&& r == Ok::<i64, AiError>(before.next_message_id)
                    &&& changed_at(old(self).conversations@, k, final(self).conversations@)
                    &&& after.id == before.id
                    &&& after.rag_ids == before.rag_ids
                    &&& after.next_message_id == before.next_message_id + 1
                    &&& after.messages@ == before.messages@.push(
                        (Message {
                            id: before.next_message_id,
                            conversation_id: before.id,
                            role: Role::Assistant,
                            content: answer,
                            created_at: now,
                            status: DeliveryStatus::Complete,
                        }),
                    )
                },
            },
    {
        let ghost table = self.conversations@;
        match self.find_conversation(chat_id) {
            None => Err(AiError::ConversationNotFound),
            Some(k) => {
                let r = generate_answer(&mut self.conversations[k], question_message_id, answer, now);
                proof {
                    assert(self.conversations@ =~= table.update(k as int, self.conversations@[k as int]));
                    if r is Err {
                        assert(self.conversations@ =~= table);
                    }
                    lemma_change_keeps_table(table, k as int, self.conversations@);
                }
                r
            },
        }
    }

    /// A copy of the sources of a conversation.
    pub fn get_rag_ids(&self, chat_id: &str) -> (r: Result<Vec<String>, AiError>)
        requires
            self.wf(),
        ensures
            !has_conversation(self.conversations@, chat_id@) ==> r == Err::<Vec<String>, AiError>(
                AiError::ConversationNotFound,
            ),
            has_conversation(self.conversations@, chat_id@) ==> (r matches Ok(ids) && ids@
                == self.conversations@[conversation_slot(
                self.conversations@,
                chat_id@,
            )].rag_ids@),
    {
        match self.find_conversation(chat_id) {
            None => Err(AiError::ConversationNotFound),
            Some(k) => Ok(self.conversations[k].get_rag_ids()),
        }
    }
}

} // verus!
