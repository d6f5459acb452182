//! The table of live response streams: at most one for each conversation.
//!
//! The table is one value with one owner. A caller that shares it between
//! tasks puts it behind a single lock, so that looking for a live handle and
//! entering a new one are one step.
use vstd::prelude::*;
use crate::error::AiError;
use crate::text::same_text;

verus! {

/// A response stream that is being produced.
#[derive(Debug)]
pub struct StreamHandle {
    pub conversation_id: String,
    pub message_id: i64,
    pub answer_port: i64,
    pub question_port: Option<i64>,
    /// The layout asked of the answer, handed on to the backend as given.
    pub format: Option<i64>,
    pub cancelled: bool,
    pub created_at: i64,
}

/// The live streams, one handle for each.
pub struct StreamRegistry {
    pub handles: Vec<StreamHandle>,
}

/// Place `i` of the table holds the handle of conversation `cid`.
pub open spec fn live_at(handles: Seq<StreamHandle>, cid: Seq<char>, i: int) -> bool {
    0 <= i < handles.len() && handles[i].conversation_id@ == cid
}

/// Whether the conversation has a live stream.
pub open spec fn is_live(handles: Seq<StreamHandle>, cid: Seq<char>) -> bool {
    exists|i: int| live_at(handles, cid, i)
}

/// The place of the handle of `cid`, where it has one.
pub open spec fn slot(handles: Seq<StreamHandle>, cid: Seq<char>) -> int {
    choose|i: int| live_at(handles, cid, i)
}

/// No two places hold the same conversation.
pub open spec fn distinct(handles: Seq<StreamHandle>) -> bool {
    forall|i: int, j: int|
        0 <= i < j < handles.len() ==> (#[trigger] handles[i]).conversation_id@ != (
        #[trigger] handles[j]).conversation_id@
}

/// What a start answers: busy where the conversation has a stream.
pub open spec fn start_result(handles: Seq<StreamHandle>, handle: StreamHandle) -> Result<
    (),
    AiError,
> {
    if is_live(handles, handle.conversation_id@) {
        Err(AiError::ConversationBusy)
    } else {
        Ok(())
    }
}

/// The table after a start: the handle at the end, unless the conversation was busy.
pub open spec fn after_start(handles: Seq<StreamHandle>, handle: StreamHandle) -> Seq<
    StreamHandle,
> {
    if is_live(handles, handle.conversation_id@) {
        handles
    } else {
        handles.push(handle)
    }
}

/// The table without the handle of `cid`.
pub open spec fn after_retire(handles: Seq<StreamHandle>, cid: Seq<char>) -> Seq<StreamHandle> {
    if is_live(handles, cid) {
        handles.remove(slot(handles, cid))
    } else {
        handles
    }
}

/// A handle with its cancellation flag set.
pub open spec fn flagged(handle: StreamHandle) -> StreamHandle {
    StreamHandle { cancelled: true, ..handle }
}

/// The table with the cancellation flag set on the handle of `cid`.
pub open spec fn after_stop(handles: Seq<StreamHandle>, cid: Seq<char>) -> Seq<StreamHandle> {
    if is_live(handles, cid) {
        handles.update(slot(handles, cid), flagged(handles[slot(handles, cid)]))
    } else {
        handles
    }
}

/// A new stream for the handle's conversation takes the place of whatever
/// stream the conversation had.
pub open spec fn after_regenerate(handles: Seq<StreamHandle>, handle: StreamHandle) -> Seq<
    StreamHandle,
> {
    after_retire(handles, handle.conversation_id@).push(handle)
}

/// In a table without repetition a conversation has one place at most.
pub proof fn lemma_one_handle_per_conversation(
    handles: Seq<StreamHandle>,
    cid: Seq<char>,
    i: int,
    j: int,
)
    requires
        distinct(handles),
        live_at(handles, cid, i),
        live_at(handles, cid, j),
    ensures
        i == j,
{
    if i < j {
        assert(handles[i].conversation_id@ != handles[j].conversation_id@);
    }
    if j < i {
        assert(handles[j].conversation_id@ != handles[i].conversation_id@);
    }
}

/// Every operation keeps the table without repetition.
pub proof fn lemma_operations_keep_distinct(
    handles: Seq<StreamHandle>,
    handle: StreamHandle,
    cid: Seq<char>,
)
    requires
        distinct(handles),
    ensures
        distinct(after_start(handles, handle)),
        distinct(after_retire(handles, cid)),
        distinct(after_stop(handles, cid)),
        distinct(after_regenerate(handles, handle)),
        !is_live(after_retire(handles, cid), cid),
{
    if !is_live(handles, handle.conversation_id@) {
        lemma_push_keeps_distinct(handles, handle);
    }
    lemma_retire_keeps_distinct(handles, cid);
    lemma_retire_keeps_distinct(handles, handle.conversation_id@);
    lemma_push_keeps_distinct(after_retire(handles, handle.conversation_id@), handle);
    lemma_stop_keeps_distinct(handles, cid);
}

proof fn lemma_stop_keeps_distinct(handles: Seq<StreamHandle>, cid: Seq<char>)
    requires
        distinct(handles),
    ensures
        distinct(after_stop(handles, cid)),
{
    if is_live(handles, cid) {
        let next = after_stop(handles, cid);
        assert forall|i: int, j: int| 0 <= i < j < next.len() implies (
        #[trigger] next[i]).conversation_id@ != (#[trigger] next[j]).conversation_id@ by {
            assert(handles[i].conversation_id@ != handles[j].conversation_id@);
        }
    }
}

proof fn lemma_push_keeps_distinct(handles: Seq<StreamHandle>, handle: StreamHandle)
    requires
        distinct(handles),
        !is_live(handles, handle.conversation_id@),
    ensures
        distinct(handles.push(handle)),
{
    let next = handles.push(handle);
    assert forall|i: int, j: int| 0 <= i < j < next.len() implies (
    #[trigger] next[i]).conversation_id@ != (#[trigger] next[j]).conversation_id@ by {
        if j == handles.len() {
            assert(!live_at(handles, handle.conversation_id@, i));
        } else {
            assert(handles[i].conversation_id@ != handles[j].conversation_id@);
        }
    }
}

proof fn lemma_retire_keeps_distinct(handles: Seq<StreamHandle>, cid: Seq<char>)
    requires
        distinct(handles),
    ensures
        distinct(after_retire(handles, cid)),
        !is_live(after_retire(handles, cid), cid),
{
    if is_live(handles, cid) {
        let k = slot(handles, cid);
        let next = handles.remove(k);
        assert forall|i: int, j: int| 0 <= i < j < next.len() implies (
        #[trigger] next[i]).conversation_id@ != (#[trigger] next[j]).conversation_id@ by {
            let a = if i < k { i } else { i + 1 };
            let b = if j < k { j } else { j + 1 };
            assert(next[i] == handles[a]);
            assert(next[j] == handles[b]);
            assert(handles[a].conversation_id@ != handles[b].conversation_id@);
        }
        assert forall|i: int| !live_at(next, cid, i) by {
            if 0 <= i < next.len() {
                let a = if i < k { i } else { i + 1 };
                assert(next[i] == handles[a]);
                if handles[a].conversation_id@ == cid {
                    lemma_one_handle_per_conversation(handles, cid, a, k);
                }
            }
        }
    }
}

/// Of two starts for one conversation, whichever comes second is refused as
/// busy and changes nothing: the conversation is live after the first,
/// whether that one was let in or found a stream already there.
pub proof fn lemma_second_start_is_busy(
    handles: Seq<StreamHandle>,
    first: StreamHandle,
    second: StreamHandle,
)
    requires
        first.conversation_id@ == second.conversation_id@,
    ensures
        start_result(after_start(handles, first), second) == Err::<(), AiError>(
            AiError::ConversationBusy,
        ),
        after_start(after_start(handles, first), second) == after_start(handles, first),
{
    let next = after_start(handles, first);
    if !is_live(handles, first.conversation_id@) {
        assert(live_at(next, second.conversation_id@, handles.len() as int));
    }
}

/// The table after a run of starts, made one after the other.
pub open spec fn after_starts(handles: Seq<StreamHandle>, starts: Seq<StreamHandle>) -> Seq<
    StreamHandle,
>
    decreases starts.len(),
{
    if starts.len() == 0 {
        handles
    } else {
        after_start(after_starts(handles, starts.drop_last()), starts.last())
    }
}

/// How many starts of a run are let in.
pub open spec fn admitted(handles: Seq<StreamHandle>, starts: Seq<StreamHandle>) -> nat
    decreases starts.len(),
{
    if starts.len() == 0 {
        0
    } else {
        let earlier = admitted(handles, starts.drop_last());
        if start_result(after_starts(handles, starts.drop_last()), starts.last()) is Ok {
            earlier + 1
        } else {
            earlier
        }
    }
}

/// Of any number of starts for one free conversation, in whatever order
/// they come to the table, exactly one is let in: the one that comes first.
/// Every other one is refused as busy, and the table ends with one handle
/// for the conversation, the winner's.
pub proof fn lemma_one_start_wins(
    handles: Seq<StreamHandle>,
    starts: Seq<StreamHandle>,
    cid: Seq<char>,
)
    requires
        distinct(handles),
        !is_live(handles, cid),
        starts.len() >= 1,
        forall|i: int| 0 <= i < starts.len() ==> (#[trigger] starts[i]).conversation_id@ == cid,
    ensures
        admitted(handles, starts) == 1,
        start_result(handles, starts[0]) == Ok::<(), AiError>(()),
        after_starts(handles, starts) == handles.push(starts[0]),
        distinct(after_starts(handles, starts)),
        slot(after_starts(handles, starts), cid) == handles.len(),
        forall|k: int|
            1 <= k < starts.len() ==> start_result(
                after_starts(handles, starts.take(k)),
                #[trigger] starts[k],
            ) == Err::<(), AiError>(AiError::ConversationBusy),
    decreases starts.len(),
{
    let winner = starts[0];
    let won = handles.push(winner);
    lemma_push_keeps_distinct(handles, winner);
    assert(live_at(won, cid, handles.len() as int));
    lemma_one_handle_per_conversation(won, cid, handles.len() as int, slot(won, cid));
    let earlier = starts.drop_last();
    if starts.len() == 1 {
        assert(earlier.len() == 0);
        assert(after_starts(handles, earlier) == handles);
        assert(admitted(handles, earlier) == 0);
    } else {
        assert forall|i: int| 0 <= i < earlier.len() implies (
        #[trigger] earlier[i]).conversation_id@ == cid by {
            assert(earlier[i] == starts[i]);
        }
        assert(earlier[0] == starts[0]);
        lemma_one_start_wins(handles, earlier, cid);
        assert forall|k: int| 1 <= k < starts.len() implies start_result(
            after_starts(handles, starts.take(k)),
            #[trigger] starts[k],
        ) == Err::<(), AiError>(AiError::ConversationBusy) by {
            if k < earlier.len() {
                assert(starts.take(k) == earlier.take(k));
                assert(starts[k] == earlier[k]);
            } else {
                assert(starts.take(k) == earlier);
            }
        }
    }
}

/// Stopping a live stream leaves its handle in the table, in its place, for
/// the same message, with the cancellation flag set.
pub proof fn lemma_stop_sets_flag(handles: Seq<StreamHandle>, cid: Seq<char>)
    requires
        distinct(handles),
        is_live(handles, cid),
    ensures
        is_live(after_stop(handles, cid), cid),
        slot(after_stop(handles, cid), cid) == slot(handles, cid),
        after_stop(handles, cid)[slot(handles, cid)].cancelled,
        after_stop(handles, cid)[slot(handles, cid)].message_id == handles[slot(
            handles,
            cid,
        )].message_id,
{
    let next = after_stop(handles, cid);
    let k = slot(handles, cid);
    assert(live_at(next, cid, k));
    lemma_stop_keeps_distinct(handles, cid);
    lemma_one_handle_per_conversation(next, cid, k, slot(next, cid));
}

impl View for StreamRegistry {
    type V = Seq<StreamHandle>;

    open spec fn view(&self) -> Seq<StreamHandle> {
        self.handles@
    }
}

impl StreamRegistry {
    /// No conversation has two handles.
    pub open spec fn wf(&self) -> bool {
        distinct(self@)
    }

    /// A table without streams.
    pub fn new() -> (registry: Self)
        ensures
            registry@ == Seq::<StreamHandle>::empty(),
            registry.wf(),
    {
        StreamRegistry { handles: Vec::new() }
    }

    /// Whether the table is well formed.
    pub fn is_well_formed(&self) -> (ok: bool)
        ensures
            ok == self.wf(),
    {
        let n = self.handles.len();
        let mut i: usize = 0;
        while i < n
            invariant
                i <= n,
                n == self.handles.len(),
                forall|a: int, b: int|
                    0 <= a < b < n && a < i ==> (#[trigger] self@[a]).conversation_id@ != (
                    #[trigger] self@[b]).conversation_id@,
            decreases n - i,
        {
            let mut j: usize = i + 1;
            while j < n
                invariant
                    i < n,
                    i < j <= n,
                    n == self.handles.len(),
                    forall|b: int|
                        i < b < j ==> self@[i as int].conversation_id@ != (
                        #[trigger] self@[b]).conversation_id@,
                decreases n - j,
            {
                if same_text(
                    self.handles[i].conversation_id.as_str(),
                    self.handles[j].conversation_id.as_str(),
                ) {
                    assert(self@[i as int].conversation_id@ == self@[j as int].conversation_id@);
                    return false;
                }
                j += 1;
            }
            i += 1;
        }
        true
    }

    /// The place of the conversation's handle.
    pub fn find(&self, conversation_id: &str) -> (found: Option<usize>)
        requires
            self.wf(),
        ensures
            found is Some <==> is_live(self@, conversation_id@),
            found matches Some(i) ==> i as int == slot(self@, conversation_id@) && live_at(
                self@,
                conversation_id@,
                i as int,
            ),
    {
        let mut i: usize = 0;
        while i < self.handles.len()
            invariant
                self.wf(),
                i <= self.handles.len(),
                forall|j: int| 0 <= j < i ==> !live_at(self@, conversation_id@, j),
            decreases self.handles.len() - i,
        {
            if same_text(self.handles[i].conversation_id.as_str(), conversation_id) {
                proof {
                    assert(live_at(self@, conversation_id@, i as int));
                    lemma_one_handle_per_conversation(
                        self@,
                        conversation_id@,
                        i as int,
                        slot(self@, conversation_id@),
                    );
                }
                return Some(i);
            }
            i += 1;
        }
        None
    }

    /// Whether the conversation has a live stream.
    pub fn is_active(&self, conversation_id: &str) -> (active: bool)
        requires
            self.wf(),
        ensures
            active == is_live(self@, conversation_id@),
    {
        self.find(conversation_id).is_some()
    }

    /// Enters a handle, unless its conversation has one already.
    pub fn start(&mut self, handle: StreamHandle) -> (r: Result<(), AiError>)
        requires
            old(self).wf(),
        ensures
            r == start_result(old(self)@, handle),
            final(self)@ == after_start(old(self)@, handle),
            final(self).wf(),
    {
        proof {
            lemma_operations_keep_distinct(self@, handle, handle.conversation_id@);
        }
        if self.is_active(handle.conversation_id.as_str()) {
            Err(AiError::ConversationBusy)
        } else {
            self.handles.push(handle);
            Ok(())
        }
    }

    /// Takes the conversation's handle out of the table and returns it.
    pub fn retire(&mut self, conversation_id: &str) -> (retired: Option<StreamHandle>)
        requires
            old(self).wf(),
        ensures
            retired == if is_live(old(self)@, conversation_id@) {
                Some(old(self)@[slot(old(self)@, conversation_id@)])
            } else {
                None::<StreamHandle>
            },
            final(self)@ == after_retire(old(self)@, conversation_id@),
            !is_live(final(self)@, conversation_id@),
            final(self).wf(),
    {
        proof {
            lemma_retire_keeps_distinct(self@, conversation_id@);
        }
        match self.find(conversation_id) {
            Some(i) => Some(self.handles.remove(i)),
            None => None,
        }
    }

    /// Sets the cancellation flag on the conversation's handle. Returns
    /// whether there was a handle.
    pub fn stop(&mut self, conversation_id: &str) -> (signalled: bool)
        requires
            old(self).wf(),
        ensures
            signalled == is_live(old(self)@, conversation_id@),
            final(self)@ == after_stop(old(self)@, conversation_id@),
            final(self).wf(),
    {
        proof {
            lemma_stop_keeps_distinct(self@, conversation_id@);
        }
        match self.find(conversation_id) {
            Some(i) => {
                let handle = &self.handles[i];
                let marked = StreamHandle {
                    conversation_id: handle.conversation_id.clone(),
                    message_id: handle.message_id,
                    answer_port: handle.answer_port,
                    question_port: handle.question_port,
                    format: handle.format,
                    cancelled: true,
                    created_at: handle.created_at,
                };
                self.handles.set(i, marked);
                true
            },
            None => false,
        }
    }

    /// Enters a handle in place of whatever its conversation had, and
    /// returns what it had.
    pub fn regenerate(&mut self, handle: StreamHandle) -> (retired: Option<StreamHandle>)
        requires
            old(self).wf(),
        ensures
            retired == if is_live(old(self)@, handle.conversation_id@) {
                Some(old(self)@[slot(old(self)@, handle.conversation_id@)])
            } else {
                None::<StreamHandle>
            },
            final(self)@ == after_regenerate(old(self)@, handle),
            is_live(final(self)@, handle.conversation_id@),
            final(self).wf(),
    {
        proof {
            lemma_operations_keep_distinct(self@, handle, handle.conversation_id@);
        }
        let retired = self.retire(handle.conversation_id.as_str());
        self.handles.push(handle);
        proof {
            assert(live_at(self@, handle.conversation_id@, self@.len() - 1));
        }
        retired
    }
}

} // verus!
