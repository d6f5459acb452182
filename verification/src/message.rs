//! Messages, the way a response stream moves one from `Pending` to its
//! end, and pages of a conversation's history.
use vstd::prelude::*;
use vstd::string::StringExecFns;
use crate::error::FailureReason;

verus! {

/// Who a message speaks as.
#[derive(Debug, Clone, Copy, PartialEq, Eq, Structural)]
pub enum Role {
    System,
    User,
    Assistant,
}

/// How far the delivery of a message has come.
#[derive(Debug, Clone, Copy, PartialEq, Eq, Structural)]
pub enum DeliveryStatus {
    Pending,
    Streaming,
    Complete,
    Failed(FailureReason),
}

/// One message of a conversation.
#[derive(Debug)]
pub struct Message {
    pub id: i64,
    pub conversation_id: String,
    pub role: Role,
    pub content: String,
    pub created_at: i64,
    pub status: DeliveryStatus,
}

/// What the producer of a response reports.
#[derive(Debug)]
pub enum StreamEvent {
    Started,
    Token(String),
    Finished,
    Failed(FailureReason),
}

/// What the producer of a response has to do next.
#[derive(Debug, Clone, Copy, PartialEq, Eq, Structural)]
pub enum StreamAction {
    /// Go on producing.
    Continue,
    /// Push the token to the answer sink and go on.
    Emit,
    /// The stream is over: produce nothing more.
    Retire,
}

/// `Complete` and `Failed` are where a message stays.
pub open spec fn is_terminal(status: DeliveryStatus) -> bool {
    status is Complete || status is Failed
}

/// The status after one event. A message at its end keeps its status; a
/// cancelled stream fails the message whatever the event says.
pub open spec fn status_after(
    status: DeliveryStatus,
    event: StreamEvent,
    cancelled: bool,
) -> DeliveryStatus {
    if is_terminal(status) {
        status
    } else if cancelled {
        DeliveryStatus::Failed(FailureReason::Cancelled)
    } else {
        match event {
            StreamEvent::Started => DeliveryStatus::Streaming,
            StreamEvent::Token(_) => DeliveryStatus::Streaming,
            StreamEvent::Finished => DeliveryStatus::Complete,
            StreamEvent::Failed(reason) => DeliveryStatus::Failed(reason),
        }
    }
}

/// The content after one event: a token is appended while the message is
/// open and the stream not cancelled; nothing is ever taken away.
pub open spec fn content_after(
    status: DeliveryStatus,
    content: Seq<char>,
    event: StreamEvent,
    cancelled: bool,
) -> Seq<char> {
    if is_terminal(status) || cancelled {
        content
    } else {
        match event {
            StreamEvent::Token(token) => content + token@,
            _ => content,
        }
    }
}

/// What the producer is told after an event.
pub open spec fn action_after(
    status: DeliveryStatus,
    event: StreamEvent,
    cancelled: bool,
) -> StreamAction {
    if is_terminal(status_after(status, event, cancelled)) {
        StreamAction::Retire
    } else {
        match event {
            StreamEvent::Token(_) => StreamAction::Emit,
            _ => StreamAction::Continue,
        }
    }
}

/// `after` is `before` moved by one event.
pub open spec fn stepped(
    before: Message,
    event: StreamEvent,
    cancelled: bool,
    after: Message,
) -> bool {
    &&& after.id == before.id
    &&& after.conversation_id == before.conversation_id
    &&& after.role == before.role
    &&& after.created_at == before.created_at
    &&& after.status == status_after(before.status, event, cancelled)
    &&& after.content@ == content_after(before.status, before.content@, event, cancelled)
}

/// Whether a status is one that a message stays in.
pub fn status_is_terminal(status: DeliveryStatus) -> (terminal: bool)
    ensures
        terminal == is_terminal(status),
{
    match status {
        DeliveryStatus::Complete => true,
        DeliveryStatus::Failed(_) => true,
        _ => false,
    }
}

/// A copy of a message.
pub fn clone_message(message: &Message) -> (copy: Message)
    ensures
        copy == *message,
{
    Message {
        id: message.id,
        conversation_id: message.conversation_id.clone(),
        role: message.role,
        content: message.content.clone(),
        created_at: message.created_at,
        status: message.status,
    }
}

impl Message {
    /// Moves the message by one event of its stream.
    pub fn apply(&mut self, event: StreamEvent, cancelled: bool) -> (action: StreamAction)
        ensures
            stepped(*old(self), event, cancelled, *final(self)),
            action == action_after(old(self).status, event, cancelled),
    {
        if status_is_terminal(self.status) {
            return StreamAction::Retire;
        }
        if cancelled {
            self.status = DeliveryStatus::Failed(FailureReason::Cancelled);
            return StreamAction::Retire;
        }
        match event {
            StreamEvent::Started => {
                self.status = DeliveryStatus::Streaming;
                StreamAction::Continue
            },
            StreamEvent::Token(token) => {
                self.content.append(token.as_str());
                self.status = DeliveryStatus::Streaming;
                StreamAction::Emit
            },
            StreamEvent::Finished => {
                self.status = DeliveryStatus::Complete;
                StreamAction::Retire
            },
            StreamEvent::Failed(reason) => {
                self.status = DeliveryStatus::Failed(reason);
                StreamAction::Retire
            },
        }
    }
}

/// A cancelled stream leaves its message at an end, never `Streaming`, after
/// one event of whatever kind, and with the content it had.
pub proof fn lemma_cancel_is_terminal(
    status: DeliveryStatus,
    content: Seq<char>,
    event: StreamEvent,
)
    ensures
        is_terminal(status_after(status, event, true)),
        action_after(status, event, true) == StreamAction::Retire,
        content_after(status, content, event, true) == content,
        status is Complete ==> status_after(status, event, true) is Complete,
        !is_terminal(status) ==> status_after(status, event, true) == DeliveryStatus::Failed(
            FailureReason::Cancelled,
        ),
{
}

/// A message at its end does not change any more.
pub proof fn lemma_terminal_is_immutable(
    status: DeliveryStatus,
    content: Seq<char>,
    event: StreamEvent,
    cancelled: bool,
)
    requires
        is_terminal(status),
    ensures
        status_after(status, event, cancelled) == status,
        content_after(status, content, event, cancelled) == content,
{
}

/// The producer is told to retire exactly when the message has reached an
/// end: no stream ends with its message left `Pending` or `Streaming`.
pub proof fn lemma_retire_iff_terminal(status: DeliveryStatus, event: StreamEvent, cancelled: bool)
    ensures
        action_after(status, event, cancelled) == StreamAction::Retire <==> is_terminal(
            status_after(status, event, cancelled),
        ),
{
}

/// Whether a message lies behind the cursor; without a cursor every one does.
pub open spec fn follows(message: Message, after: Option<i64>) -> bool {
    match after {
        None => true,
        Some(cursor) => message.id > cursor,
    }
}

/// Whether a message lies before the cursor; without a cursor every one does.
pub open spec fn precedes(message: Message, before: Option<i64>) -> bool {
    match before {
        None => true,
        Some(cursor) => message.id < cursor,
    }
}

/// The first `limit` messages behind the cursor, in the order of the history.
pub open spec fn page_after(messages: Seq<Message>, after: Option<i64>, limit: nat) -> Seq<
    Message,
>
    decreases messages.len(),
{
    if messages.len() == 0 {
        Seq::empty()
    } else {
        let head = page_after(messages.drop_last(), after, limit);
        if head.len() < limit && follows(messages.last(), after) {
            head.push(messages.last())
        } else {
            head
        }
    }
}

/// The last `limit` messages before the cursor, the nearest first.
pub open spec fn page_before_nearest_first(
    messages: Seq<Message>,
    before: Option<i64>,
    limit: nat,
) -> Seq<Message>
    decreases messages.len(),
{
    if messages.len() == 0 {
        Seq::empty()
    } else {
        let tail = page_before_nearest_first(messages.drop_first(), before, limit);
        if tail.len() < limit && precedes(messages.first(), before) {
            tail.push(messages.first())
        } else {
            tail
        }
    }
}

/// The last `limit` messages before the cursor, in the order of the history.
pub open spec fn page_before(messages: Seq<Message>, before: Option<i64>, limit: nat) -> Seq<
    Message,
> {
    page_before_nearest_first(messages, before, limit).reverse()
}

/// The page behind a cursor.
pub fn load_latest(messages: &Vec<Message>, limit: u64, after: Option<i64>) -> (page: Vec<Message>)
    ensures
        page@ == page_after(messages@, after, limit as nat),
        page@ == all_after(messages@, after).take(
            page_len(limit as nat, all_after(messages@, after).len()),
        ),
{
    proof {
        lemma_page_after_is_first_matching(messages@, after, limit as nat);
    }
    let mut page: Vec<Message> = Vec::new();
    let mut i: usize = 0;
    while i < messages.len()
        invariant
            i <= messages.len(),
            page@ == page_after(messages@.take(i as int), after, limit as nat),
            page.len() <= i,
        decreases messages.len() - i,
    {
        let ghost prefix = messages@.take(i as int + 1);
        assert(prefix.drop_last() == messages@.take(i as int));
        assert(prefix.last() == messages@[i as int]);
        let wanted = match after {
            None => true,
            Some(cursor) => messages[i].id > cursor,
        };
        if wanted && (page.len() as u64) < limit {
            page.push(clone_message(&messages[i]));
        }
        i += 1;
    }
    assert(messages@.take(i as int) == messages@);
    page
}

/// The page before a cursor.
pub fn load_prev(messages: &Vec<Message>, limit: u64, before: Option<i64>) -> (page: Vec<Message>)
    ensures
        page@ == page_before(messages@, before, limit as nat),
        page@ == last_of(all_before(messages@, before), limit as nat),
{
    proof {
        lemma_page_before_is_last_matching(messages@, before, limit as nat);
    }
    let n = messages.len();
    let mut nearest: Vec<Message> = Vec::new();
    let mut i: usize = n;
    while i > 0
        invariant
            i <= n,
            n == messages.len(),
            nearest@ == page_before_nearest_first(
                messages@.subrange(i as int, n as int),
                before,
                limit as nat,
            ),
            nearest.len() <= n - i,
        decreases i,
    {
        i -= 1;
        let ghost suffix = messages@.subrange(i as int, n as int);
        assert(suffix.drop_first() == messages@.subrange(i as int + 1, n as int));
        assert(suffix.first() == messages@[i as int]);
        let wanted = match before {
            None => true,
            Some(cursor) => messages[i].id < cursor,
        };
        if wanted && (nearest.len() as u64) < limit {
            nearest.push(clone_message(&messages[i]));
        }
    }
    assert(messages@.subrange(0, n as int) == messages@);
    let mut page: Vec<Message> = Vec::new();
    let mut k: usize = nearest.len();
    while k > 0
        invariant
            k <= nearest.len(),
            page.len() == nearest.len() - k,
            forall|j: int| 0 <= j < page.len() ==> page@[j] == nearest@[nearest.len() - 1 - j],
        decreases k,
    {
        k -= 1;
        page.push(clone_message(&nearest[k]));
    }
    assert(page@ =~= nearest@.reverse());
    page
}

/// Later messages have larger identifiers.
pub open spec fn ascending(messages: Seq<Message>) -> bool {
    forall|i: int, j: int|
        0 <= i < j < messages.len() ==> (#[trigger] messages[i]).id < (#[trigger] messages[j]).id
}

/// A page behind a cursor holds at most `limit` messages, each one a
/// message of the history that lies behind the cursor.
pub proof fn lemma_page_after_bounds(messages: Seq<Message>, after: Option<i64>, limit: nat)
    ensures
        page_after(messages, after, limit).len() <= limit,
        page_after(messages, after, limit).len() <= messages.len(),
        forall|k: int|
            0 <= k < page_after(messages, after, limit).len() ==> follows(
                #[trigger] page_after(messages, after, limit)[k],
                after,
            ) && messages.contains(page_after(messages, after, limit)[k]),
    decreases messages.len(),
{
    if messages.len() > 0 {
        let rest = messages.drop_last();
        lemma_page_after_bounds(rest, after, limit);
        let head = page_after(rest, after, limit);
        let page = page_after(messages, after, limit);
        assert forall|k: int| 0 <= k < page.len() implies follows(#[trigger] page[k], after)
            && messages.contains(page[k]) by {
            if k < head.len() {
                assert(rest.contains(head[k]));
                let w = choose|w: int| 0 <= w < rest.len() && rest[w] == head[k];
                assert(messages[w] == head[k]);
            } else {
                assert(messages[messages.len() - 1] == page[k]);
            }
        }
    }
}

/// A page behind a cursor keeps the order of an ascending history.
pub proof fn lemma_page_after_ordered(messages: Seq<Message>, after: Option<i64>, limit: nat)
    requires
        ascending(messages),
    ensures
        ascending(page_after(messages, after, limit)),
    decreases messages.len(),
{
    if messages.len() > 0 {
        let rest = messages.drop_last();
        assert(ascending(rest)) by {
            assert forall|i: int, j: int| 0 <= i < j < rest.len() implies (#[trigger] rest[i]).id
                < (#[trigger] rest[j]).id by {
                assert(messages[i].id < messages[j].id);
            }
        }
        lemma_page_after_ordered(rest, after, limit);
        lemma_page_after_bounds(rest, after, limit);
        let head = page_after(rest, after, limit);
        let page = page_after(messages, after, limit);
        assert forall|i: int, j: int| 0 <= i < j < page.len() implies (#[trigger] page[i]).id < (
        #[trigger] page[j]).id by {
            if j < head.len() {
                assert(head[i].id < head[j].id);
            } else {
                assert(rest.contains(head[i]));
                let w = choose|w: int| 0 <= w < rest.len() && rest[w] == head[i];
                assert(messages[w].id < messages[messages.len() - 1].id);
            }
        }
    }
}

/// A page before a cursor holds at most `limit` messages, each one a
/// message of the history that lies before the cursor.
pub proof fn lemma_page_before_bounds(messages: Seq<Message>, before: Option<i64>, limit: nat)
    ensures
        page_before(messages, before, limit).len() <= limit,
        page_before(messages, before, limit).len() <= messages.len(),
        forall|k: int|
            0 <= k < page_before(messages, before, limit).len() ==> precedes(
                #[trigger] page_before(messages, before, limit)[k],
                before,
            ) && messages.contains(page_before(messages, before, limit)[k]),
{
    lemma_nearest_first_bounds(messages, before, limit);
    let nearest = page_before_nearest_first(messages, before, limit);
    let page = page_before(messages, before, limit);
    assert forall|k: int| 0 <= k < page.len() implies precedes(#[trigger] page[k], before)
        && messages.contains(page[k]) by {
        assert(page[k] == nearest[nearest.len() - 1 - k]);
    }
}

proof fn lemma_nearest_first_bounds(messages: Seq<Message>, before: Option<i64>, limit: nat)
    ensures
        page_before_nearest_first(messages, before, limit).len() <= limit,
        page_before_nearest_first(messages, before, limit).len() <= messages.len(),
        forall|k: int|
            0 <= k < page_before_nearest_first(messages, before, limit).len() ==> precedes(
                #[trigger] page_before_nearest_first(messages, before, limit)[k],
                before,
            ) && messages.contains(page_before_nearest_first(messages, before, limit)[k]),
    decreases messages.len(),
{
    if messages.len() > 0 {
        let rest = messages.drop_first();
        lemma_nearest_first_bounds(rest, before, limit);
        let tail = page_before_nearest_first(rest, before, limit);
        let page = page_before_nearest_first(messages, before, limit);
        assert forall|k: int| 0 <= k < page.len() implies precedes(#[trigger] page[k], before)
            && messages.contains(page[k]) by {
            if k < tail.len() {
                assert(rest.contains(tail[k]));
                let w = choose|w: int| 0 <= w < rest.len() && rest[w] == tail[k];
                assert(messages[w + 1] == tail[k]);
            } else {
                assert(messages[0] == page[k]);
            }
        }
    }
}

/// A page before a cursor keeps the order of an ascending history.
pub proof fn lemma_page_before_ordered(messages: Seq<Message>, before: Option<i64>, limit: nat)
    requires
        ascending(messages),
    ensures
        ascending(page_before(messages, before, limit)),
{
    lemma_nearest_first_descending(messages, before, limit);
    let nearest = page_before_nearest_first(messages, before, limit);
    let page = page_before(messages, before, limit);
    assert forall|i: int, j: int| 0 <= i < j < page.len() implies (#[trigger] page[i]).id < (
    #[trigger] page[j]).id by {
        assert(page[i] == nearest[nearest.len() - 1 - i]);
        assert(page[j] == nearest[nearest.len() - 1 - j]);
        assert(nearest[nearest.len() - 1 - j].id > nearest[nearest.len() - 1 - i].id);
    }
}

proof fn lemma_nearest_first_descending(messages: Seq<Message>, before: Option<i64>, limit: nat)
    requires
        ascending(messages),
    ensures
        forall|i: int, j: int|
            0 <= i < j < page_before_nearest_first(messages, before, limit).len() ==> (
            #[trigger] page_before_nearest_first(messages, before, limit)[i]).id > (
            #[trigger] page_before_nearest_first(messages, before, limit)[j]).id,
    decreases messages.len(),
{
    if messages.len() > 0 {
        let rest = messages.drop_first();
        assert(ascending(rest)) by {
            assert forall|i: int, j: int| 0 <= i < j < rest.len() implies (#[trigger] rest[i]).id
                < (#[trigger] rest[j]).id by {
                assert(messages[i + 1].id < messages[j + 1].id);
            }
        }
        lemma_nearest_first_descending(rest, before, limit);
        lemma_nearest_first_bounds(rest, before, limit);
        let tail = page_before_nearest_first(rest, before, limit);
        let page = page_before_nearest_first(messages, before, limit);
        assert forall|i: int, j: int| 0 <= i < j < page.len() implies (#[trigger] page[i]).id > (
        #[trigger] page[j]).id by {
            if j < tail.len() {
                assert(tail[i].id > tail[j].id);
            } else {
                assert(rest.contains(tail[i]));
                let w = choose|w: int| 0 <= w < rest.len() && rest[w] == tail[i];
                assert(messages[0].id < messages[w + 1].id);
            }
        }
    }
}

/// The messages behind the cursor, all of them, in the order of the history.
pub open spec fn all_after(messages: Seq<Message>, after: Option<i64>) -> Seq<Message> {
    messages.filter(|m: Message| follows(m, after))
}

/// The messages before the cursor, all of them, in the order of the history.
pub open spec fn all_before(messages: Seq<Message>, before: Option<i64>) -> Seq<Message> {
    messages.filter(|m: Message| precedes(m, before))
}

/// The size of a page: the limit, or the number of messages that match
/// where they are fewer.
pub open spec fn page_len(limit: nat, matching: nat) -> int {
    if limit < matching {
        limit as int
    } else {
        matching as int
    }
}

/// A page behind a cursor is the first `limit` of all the messages behind
/// it, or all of them where they are fewer: it skips none and holds no other.
pub proof fn lemma_page_after_is_first_matching(
    messages: Seq<Message>,
    after: Option<i64>,
    limit: nat,
)
    ensures
        page_after(messages, after, limit) == all_after(messages, after).take(
            page_len(limit, all_after(messages, after).len()),
        ),
        page_after(messages, after, limit).len() == page_len(
            limit,
            all_after(messages, after).len(),
        ),
    decreases messages.len(),
{
    reveal(Seq::filter);
    let all = all_after(messages, after);
    if messages.len() == 0 {
        assert(page_after(messages, after, limit) =~= all.take(page_len(limit, all.len())));
    } else {
        let rest = messages.drop_last();
        lemma_page_after_is_first_matching(rest, after, limit);
        let head = page_after(rest, after, limit);
        let found = all_after(rest, after);
        assert(head == found.take(page_len(limit, found.len())));
        if follows(messages.last(), after) {
            assert(all == found.push(messages.last()));
        } else {
            assert(all == found);
        }
        assert(page_after(messages, after, limit) =~= all.take(page_len(limit, all.len())));
    }
}

/// The last `limit` of a sequence, or all of it where it is shorter.
pub open spec fn last_of(all: Seq<Message>, limit: nat) -> Seq<Message> {
    all.subrange(all.len() - page_len(limit, all.len()), all.len() as int)
}

/// A page before a cursor is the last `limit` of all the messages before
/// it, or all of them where they are fewer: it skips none and holds no other.
pub proof fn lemma_page_before_is_last_matching(
    messages: Seq<Message>,
    before: Option<i64>,
    limit: nat,
)
    ensures
        page_before(messages, before, limit) == last_of(all_before(messages, before), limit),
        page_before(messages, before, limit).len() == page_len(
            limit,
            all_before(messages, before).len(),
        ),
{
    lemma_nearest_first_is_last_matching(messages, before, limit);
    let wanted = last_of(all_before(messages, before), limit);
    assert(wanted.reverse().reverse() =~= wanted);
}

proof fn lemma_nearest_first_is_last_matching(
    messages: Seq<Message>,
    before: Option<i64>,
    limit: nat,
)
    ensures
        page_before_nearest_first(messages, before, limit) == last_of(
            all_before(messages, before),
            limit,
        ).reverse(),
    decreases messages.len(),
{
    let all = all_before(messages, before);
    let page = page_before_nearest_first(messages, before, limit);
    if messages.len() == 0 {
        reveal(Seq::filter);
        assert(page =~= last_of(all, limit).reverse());
    } else {
        let first = messages.first();
        let rest = messages.drop_first();
        lemma_nearest_first_is_last_matching(rest, before, limit);
        let tail = page_before_nearest_first(rest, before, limit);
        let found = all_before(rest, before);
        assert(tail == last_of(found, limit).reverse());
        assert(tail.len() == page_len(limit, found.len()));
        lemma_all_before_unfolds(messages, before);
        if precedes(first, before) {
            assert(all == seq![first] + found);
            if tail.len() < limit {
                assert(last_of(found, limit) =~= found);
                assert(last_of(all, limit) =~= all);
                assert(page =~= all.reverse());
            } else {
                assert(last_of(all, limit) =~= last_of(found, limit));
            }
        } else {
            assert(all == found);
        }
    }
}

/// The messages before the cursor are the first message, where it lies
/// before the cursor, and then those of the rest.
proof fn lemma_all_before_unfolds(messages: Seq<Message>, before: Option<i64>)
    requires
        messages.len() > 0,
    ensures
        all_before(messages, before) == if precedes(messages.first(), before) {
            seq![messages.first()] + all_before(messages.drop_first(), before)
        } else {
            all_before(messages.drop_first(), before)
        },
{
    let pred = |m: Message| precedes(m, before);
    let head = seq![messages.first()];
    let rest = messages.drop_first();
    assert(messages =~= head + rest);
    Seq::filter_distributes_over_add(head, rest, pred);
    reveal(Seq::filter);
    assert(head.drop_last() =~= Seq::<Message>::empty());
    assert(head.drop_last().filter(pred) =~= Seq::<Message>::empty());
    assert(head.last() == messages.first());
    if precedes(messages.first(), before) {
        assert(head.filter(pred) =~= head);
    } else {
        assert(head.filter(pred) =~= Seq::<Message>::empty());
        assert(head.filter(pred) + rest.filter(pred) =~= rest.filter(pred));
    }
}

} // verus!
