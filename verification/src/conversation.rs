//! A conversation: its history in the order of arrival, and the sources
//! that retrieval may draw on.
use vstd::prelude::*;
use crate::error::AiError;
use crate::text::same_text;
use crate::message::{
    action_after, all_after, all_before, ascending, clone_message, last_of, load_latest,
    load_prev, page_after, page_before, page_len, stepped, DeliveryStatus, Message, Role,
    StreamAction, StreamEvent,
};

verus! {

/// A chat session: its messages in the order of arrival and its sources.
pub struct Conversation {
    pub id: String,
    pub messages: Vec<Message>,
    pub rag_ids: Vec<String>,
    pub next_message_id: i64,
}

/// Place `i` of the history holds the message `id`.
pub open spec fn message_at(messages: Seq<Message>, id: i64, i: int) -> bool {
    0 <= i < messages.len() && messages[i].id == id
}

/// Whether the history holds the message `id`.
pub open spec fn has_message(messages: Seq<Message>, id: i64) -> bool {
    exists|i: int| message_at(messages, id, i)
}

/// The place of the message `id`, where the history holds it.
pub open spec fn message_slot(messages: Seq<Message>, id: i64) -> int {
    choose|i: int| message_at(messages, id, i)
}

/// In an ascending history an identifier has one place at most.
pub proof fn lemma_one_place(messages: Seq<Message>, id: i64, i: int, j: int)
    requires
        ascending(messages),
        message_at(messages, id, i),
        message_at(messages, id, j),
    ensures
        i == j,
{
    if i < j {
        assert(messages[i].id < messages[j].id);
    }
    if j < i {
        assert(messages[j].id < messages[i].id);
    }
}

/// `after` is `before` with the message at place `i` moved by one event and
/// every other message as it was.
pub open spec fn stepped_at(
    before: Seq<Message>,
    i: int,
    event: StreamEvent,
    cancelled: bool,
    after: Seq<Message>,
) -> bool {
    &&& after.len() == before.len()
    &&& 0 <= i < before.len()
    &&& stepped(before[i], event, cancelled, after[i])
    &&& forall|j: int| 0 <= j < before.len() && j != i ==> after[j] == before[j]
}

impl Conversation {
    /// Every message belongs to this conversation, identifiers ascend, and
    /// the next identifier to hand out is larger than all of them.
    pub open spec fn wf(&self) -> bool {
        &&& self.id@.len() > 0
        &&& ascending(self.messages@)
        &&& forall|i: int|
            0 <= i < self.messages@.len() ==> (#[trigger] self.messages@[i]).id
                < self.next_message_id && self.messages@[i].conversation_id@ == self.id@
    }

    /// Nothing but the history differs between the two.
    pub open spec fn same_but_history(&self, other: &Conversation) -> bool {
        &&& self.id == other.id
        &&& self.rag_ids == other.rag_ids
        &&& self.next_message_id == other.next_message_id
    }

    /// An empty conversation whose first message will have identifier 1.
    pub fn new(id: String) -> (r: Result<Conversation, AiError>)
        ensures
            id@.len() == 0 ==> r == Err::<Conversation, AiError>(AiError::EmptyIdentifier),
            id@.len() > 0 ==> (r matches Ok(c) && c.wf() && c.id == id && c.messages@.len() == 0
                && c.rag_ids@.len() == 0 && c.next_message_id == 1),
    {
        if id.as_str().is_empty() {
            return Err(AiError::EmptyIdentifier);
        }
        Ok(Conversation { id, messages: Vec::new(), rag_ids: Vec::new(), next_message_id: 1 })
    }

    /// Whether the conversation is well formed.
    pub fn is_well_formed(&self) -> (ok: bool)
        ensures
            ok == self.wf(),
    {
        if self.id.as_str().is_empty() {
            return false;
        }
        let n = self.messages.len();
        let mut i: usize = 0;
        while i < n
            invariant
                i <= n,
                n == self.messages.len(),
                self.id@.len() > 0,
                forall|a: int, b: int|
                    0 <= a < b < i ==> (#[trigger] self.messages@[a]).id < (
                    #[trigger] self.messages@[b]).id,
                forall|a: int|
                    0 <= a < i ==> (#[trigger] self.messages@[a]).id < self.next_message_id
                        && self.messages@[a].conversation_id@ == self.id@,
            decreases n - i,
        {
            if self.messages[i].id >= self.next_message_id {
                return false;
            }
            if !same_text(self.messages[i].conversation_id.as_str(), self.id.as_str()) {
                return false;
            }
            if i > 0 && self.messages[i - 1].id >= self.messages[i].id {
                assert(!(self.messages@[i - 1].id < self.messages@[i as int].id));
                return false;
            }
            proof {
                assert forall|a: int| 0 <= a < i implies (#[trigger] self.messages@[a]).id
                    < self.messages@[i as int].id by {
                    if a < i - 1 {
                        assert(self.messages@[a].id < self.messages@[i - 1].id);
                    }
                }
            }
            i += 1;
        }
        true
    }

    /// Appends a message and returns the identifier that it got.
    pub fn append_message(
        &mut self,
        role: Role,
        content: String,
        created_at: i64,
        status: DeliveryStatus,
    ) -> (r: Result<i64, AiError>)
        requires
            old(self).wf(),
        ensures
            final(self).wf(),
            old(self).next_message_id == i64::MAX ==> r == Err::<i64, AiError>(
                AiError::IdentifiersExhausted,
            ) && *final(self) == *old(self),
            old(self).next_message_id < i64::MAX ==> r == Ok::<i64, AiError>(
                old(self).next_message_id,
            ) && final(self).id == old(self).id && final(self).rag_ids == old(self).rag_ids
                && final(self).next_message_id == old(self).next_message_id + 1
                && final(self).messages@ == old(self).messages@.push(
                (Message {
                    id: old(self).next_message_id,
                    conversation_id: old(self).id,
                    role,
                    content,
                    created_at,
                    status,
                }),
            ),
    {
        if self.next_message_id == i64::MAX {
            return Err(AiError::IdentifiersExhausted);
        }
        let id: i64 = self.next_message_id;
        let message = Message {
            id,
            conversation_id: self.id.clone(),
            role,
            content,
            created_at,
            status,
        };
        let ghost before = self.messages@;
        self.messages.push(message);
        self.next_message_id = id + 1;
        proof {
            let now = self.messages@;
            assert forall|i: int, j: int| 0 <= i < j < now.len() implies (#[trigger] now[i]).id < (
            #[trigger] now[j]).id by {
                if j < before.len() {
                    assert(before[i].id < before[j].id);
                } else {
                    assert(before[i].id < id);
                }
            }
            assert forall|i: int| 0 <= i < now.len() implies (#[trigger] now[i]).id
                < self.next_message_id && now[i].conversation_id@ == self.id@ by {
                if i < before.len() {
                    assert(before[i].id < id);
                }
            }
        }
        Ok(id)
    }

    /// The place of a message in the history.
    pub fn find_message(&self, id: i64) -> (found: Option<usize>)
        requires
            self.wf(),
        ensures
            found is Some <==> has_message(self.messages@, id),
            found matches Some(i) ==> i as int == message_slot(self.messages@, id) && message_at(
                self.messages@,
                id,
                i as int,
            ),
    {
        let mut i: usize = 0;
        while i < self.messages.len()
            invariant
                self.wf(),
                i <= self.messages.len(),
                forall|j: int| 0 <= j < i ==> !message_at(self.messages@, id, j),
            decreases self.messages.len() - i,
        {
            if self.messages[i].id == id {
                proof {
                    assert(message_at(self.messages@, id, i as int));
                    lemma_one_place(
                        self.messages@,
                        id,
                        i as int,
                        message_slot(self.messages@, id),
                    );
                }
                return Some(i);
            }
            i += 1;
        }
        None
    }

    /// Moves one message by one event of its stream. `None` says that the
    /// history holds no such message.
    pub fn step_message(&mut self, id: i64, event: StreamEvent, cancelled: bool) -> (r: Option<
        StreamAction,
    >)
        requires
            old(self).wf(),
        ensures
            final(self).wf(),
            final(self).same_but_history(old(self)),
            !has_message(old(self).messages@, id) ==> r is None && final(self).messages@ == old(self).messages@,
            has_message(old(self).messages@, id) ==> r == Some(
                action_after(
                    old(self).messages@[message_slot(old(self).messages@, id)].status,
                    event,
                    cancelled,
                ),
            ) && stepped_at(
                old(self).messages@,
                message_slot(old(self).messages@, id),
                event,
                cancelled,
                final(self).messages@,
            ),
    {
        match self.find_message(id) {
            None => None,
            Some(i) => {
                let ghost before = self.messages@;
                let mut message = clone_message(&self.messages[i]);
                let action = message.apply(event, cancelled);
                self.messages.set(i, message);
                proof {
                    let now = self.messages@;
                    assert forall|a: int, b: int| 0 <= a < b < now.len() implies (
                    #[trigger] now[a]).id < (#[trigger] now[b]).id by {
                        assert(before[a].id < before[b].id);
                    }
                    assert forall|a: int| 0 <= a < now.len() implies (#[trigger] now[a]).id
                        < self.next_message_id && now[a].conversation_id@ == self.id@ by {
                        assert(before[a].id < self.next_message_id);
                    }
                }
                Some(action)
            },
        }
    }

    /// The last `limit` messages before the cursor, oldest first; without a
    /// cursor, the last `limit` messages of the conversation.
    pub fn load_prev_chat_messages(&self, limit: u64, before_message_id: Option<i64>) -> (page:
        Vec<Message>)
        ensures
            page@ == page_before(self.messages@, before_message_id, limit as nat),
            page@ == last_of(all_before(self.messages@, before_message_id), limit as nat),
    {
        load_prev(&self.messages, limit, before_message_id)
    }

    /// The first `limit` messages behind the cursor, oldest first; without a
    /// cursor, the first `limit` messages of the conversation.
    pub fn load_latest_chat_messages(&self, limit: u64, after_message_id: Option<i64>) -> (page:
        Vec<Message>)
        ensures
            page@ == page_after(self.messages@, after_message_id, limit as nat),
            page@ == all_after(self.messages@, after_message_id).take(
                page_len(limit as nat, all_after(self.messages@, after_message_id).len()),
            ),
    {
        load_latest(&self.messages, limit, after_message_id)
    }

    /// Replaces the set of sources in one step.
    pub fn update_rag_ids(&mut self, rag_ids: Vec<String>)
        ensures
            final(self).rag_ids == rag_ids,
            final(self).id == old(self).id,
            final(self).messages == old(self).messages,
            final(self).next_message_id == old(self).next_message_id,
    {
        self.rag_ids = rag_ids;
    }

    /// A copy of the set of sources.
    pub fn get_rag_ids(&self) -> (ids: Vec<String>)
        ensures
            ids@ == self.rag_ids@,
    {
        let mut ids: Vec<String> = Vec::new();
        let mut i: usize = 0;
        while i < self.rag_ids.len()
            invariant
                i <= self.rag_ids.len(),
                ids@ == self.rag_ids@.take(i as int),
            decreases self.rag_ids.len() - i,
        {
            ids.push(self.rag_ids[i].clone());
            assert(ids@ == self.rag_ids@.take(i as int + 1));
            i += 1;
        }
        assert(self.rag_ids@.take(i as int) == self.rag_ids@);
        ids
    }
}

} // verus!
