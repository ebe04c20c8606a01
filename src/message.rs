//! Message kinds shared between the state machine and the connections.
use vstd::prelude::*;

verus! {

/// Which phase a room is in, without its payload.
#[derive(Debug, Clone, Copy, PartialEq, Eq, Structural)]
pub enum GameStateType {
    Lobby,
    RoleAssignment,
    DescribePhase,
    VotePhase,
    ResultPhase,
    GameOver,
}

/// Why an intent was rejected.
#[derive(Debug, Clone, Copy, PartialEq, Eq, Structural)]
pub enum ErrorCode {
    RoomFull,
    GameStarted,
    InvalidState,
    InvalidAction,
    PlayerNotFound,
    NotYourTurn,
    AlreadyVoted,
    InvalidVote,
    PermissionDenied,
    RoomDeleted,
    RoomNotFound,
    Timeout,
    InternalError,
}

/// An outbound message: its type and its payload as JSON text.
#[derive(Debug, Clone)]
pub struct GameMessage {
    pub type_: String,
    pub data: String,
}

/// A batch closes once it holds this many messages.
pub const BATCH_MAX_MESSAGES: usize = 50;

/// A batch closes once it is this many seconds old.
pub const BATCH_MAX_AGE_SECS: i64 = 50;

/// Messages gathered for sending together; `timestamp` in seconds.
#[derive(Debug, Clone)]
pub struct MessageBatch {
    pub messages: Vec<GameMessage>,
    pub timestamp: i64,
}

/// A batch opened at `opened` has expired at `now`.
pub open spec fn batch_expired(opened: i64, now: i64) -> bool {
    now - opened >= BATCH_MAX_AGE_SECS
}

impl MessageBatch {
    /// An empty batch opened at `now_secs`.
    pub fn new(now_secs: i64) -> (r: MessageBatch)
        ensures
            r.messages@.len() == 0,
            r.timestamp == now_secs,
    {
        MessageBatch { messages: Vec::new(), timestamp: now_secs }
    }

    /// Appends `message`.
    pub fn add_message(&mut self, message: GameMessage)
        ensures
            final(self).messages@ == old(self).messages@.push(message),
            final(self).timestamp == old(self).timestamp,
    {
        self.messages.push(message);
    }

    /// The batch holds its maximum number of messages.
    pub fn is_full(&self) -> (r: bool)
        ensures
            r == (self.messages@.len() >= BATCH_MAX_MESSAGES),
    {
        self.messages.len() >= BATCH_MAX_MESSAGES
    }

    /// The batch is too old to take more messages at `now_secs`.
    pub fn is_expired(&self, now_secs: i64) -> (r: bool)
        ensures
            r == batch_expired(self.timestamp, now_secs),
    {
        (now_secs as i128) - (self.timestamp as i128) >= BATCH_MAX_AGE_SECS as i128
    }
}

/// Closed batches waiting to be sent, oldest first, and the batch being
/// filled.
pub struct MessageQueue {
    pub batches: Vec<MessageBatch>,
    pub current_batch: Option<MessageBatch>,
}

/// The messages of `batches`, in order.
pub open spec fn messages_of(batches: Seq<MessageBatch>) -> Seq<GameMessage>
    decreases batches.len(),
{
    if batches.len() == 0 {
        Seq::empty()
    } else {
        messages_of(batches.drop_last()) + batches.last().messages@
    }
}

/// Every message held by `q`, oldest first.
pub open spec fn pending_messages(q: MessageQueue) -> Seq<GameMessage> {
    messages_of(q.batches@) + match q.current_batch {
        Some(b) => b.messages@,
        None => Seq::empty(),
    }
}

proof fn lemma_messages_of_push(batches: Seq<MessageBatch>, b: MessageBatch)
    ensures
        messages_of(batches.push(b)) == messages_of(batches) + b.messages@,
{
    assert(batches.push(b).drop_last() =~= batches);
}

proof fn lemma_messages_of_drop_first(batches: Seq<MessageBatch>)
    requires
        batches.len() > 0,
    ensures
        messages_of(batches) == batches[0].messages@ + messages_of(batches.drop_first()),
    decreases batches.len(),
{
    if batches.len() == 1 {
        assert(batches.drop_last() =~= Seq::<MessageBatch>::empty());
        assert(batches.drop_first() =~= Seq::<MessageBatch>::empty());
        assert(batches[0].messages@ + Seq::<GameMessage>::empty() =~= batches[0].messages@);
        assert(Seq::<GameMessage>::empty() + batches.last().messages@ =~= batches.last().messages@);
    } else {
        lemma_messages_of_drop_first(batches.drop_last());
        assert(batches.drop_last().drop_first() =~= batches.drop_first().drop_last());
        assert(batches.drop_last()[0] == batches[0]);
        assert(batches.drop_first().last() == batches.last());
        assert(batches[0].messages@ + messages_of(batches.drop_first()) =~= batches[0].messages@
            + messages_of(batches.drop_last().drop_first()) + batches.last().messages@);
    }
}

/// The open batch `current` still takes messages at `now`: there is one,
/// and it is neither full nor expired.
pub open spec fn takes_more(current: Option<MessageBatch>, now: i64) -> bool {
    current matches Some(b) && b.messages@.len() < BATCH_MAX_MESSAGES && !batch_expired(
        b.timestamp,
        now,
    )
}

impl MessageQueue {
    /// No batch, closed or open, holds more than [`BATCH_MAX_MESSAGES`].
    pub open spec fn wf(&self) -> bool {
        &&& forall|i: int|
            0 <= i < self.batches@.len() ==> (#[trigger] self.batches@[i]).messages@.len()
                <= BATCH_MAX_MESSAGES
        &&& self.current_batch matches Some(b) ==> b.messages@.len() <= BATCH_MAX_MESSAGES
    }

    /// An empty queue.
    pub fn new() -> (r: MessageQueue)
        ensures
            r.wf(),
            r.batches@.len() == 0,
            r.current_batch is None,
    {
        MessageQueue { batches: Vec::new(), current_batch: None }
    }

    /// Adds `message` to the open batch; when that batch is full or has
    /// expired at `now_secs` it is closed first and a new one is opened.
    /// No message is dropped and the order is kept.
    pub fn enqueue(&mut self, message: GameMessage, now_secs: i64)
        requires
            old(self).wf(),
        ensures
            final(self).wf(),
            pending_messages(*final(self)) == pending_messages(*old(self)).push(message),
            final(self).current_batch is Some,
            if takes_more(old(self).current_batch, now_secs) {
                &&& final(self).batches == old(self).batches
                &&& final(self).current_batch->0.timestamp == old(self).current_batch->0.timestamp
                &&& final(self).current_batch->0.messages@ == old(
                    self,
                ).current_batch->0.messages@.push(message)
            } else {
                &&& final(self).batches@ == match old(self).current_batch {
                    Some(b) => old(self).batches@.push(b),
                    None => old(self).batches@,
                }
                &&& final(self).current_batch->0.timestamp == now_secs
                &&& final(self).current_batch->0.messages@ == seq![message]
            },
    {
        let open = match &self.current_batch {
            Some(b) => !b.is_full() && !b.is_expired(now_secs),
            None => false,
        };
        let ghost before = pending_messages(*self);
        if open {
            match &mut self.current_batch {
                Some(b) => {
                    b.add_message(message);
                },
                None => {},
            }
            proof {
                assert(pending_messages(*self) =~= before.push(message));
            }
        } else {
            let previous = self.current_batch.take();
            match previous {
                Some(b) => {
                    proof {
                        lemma_messages_of_push(self.batches@, b);
                    }
                    self.batches.push(b);
                },
                None => {},
            }
            let mut fresh = MessageBatch::new(now_secs);
            fresh.add_message(message);
            self.current_batch = Some(fresh);
            proof {
                assert(fresh.messages@ =~= seq![message]);
                assert(pending_messages(*self) =~= before.push(message));
            }
        }
    }

    /// Takes the oldest closed batch, closing the open one first when it is
    /// full or has expired at `now_secs`. The batch returned, followed by
    /// what stays queued, holds exactly the messages held before.
    pub fn dequeue_batch(&mut self, now_secs: i64) -> (r: Option<MessageBatch>)
        requires
            old(self).wf(),
        ensures
            r == if old(self).batches@.len() > 0 {
                Some(old(self).batches@[0])
            } else if old(self).current_batch is Some && !takes_more(
                old(self).current_batch,
                now_secs,
            ) {
                old(self).current_batch
            } else {
                None
            },
            final(self).wf(),
            r matches Some(b) ==> b.messages@.len() <= BATCH_MAX_MESSAGES,
            match r {
                Some(b) => b.messages@ + pending_messages(*final(self)) == pending_messages(*old(self)),
                None => pending_messages(*final(self)) == pending_messages(*old(self)),
            },
    {
        let ghost before = pending_messages(*self);
        let previous = self.current_batch.take();
        match previous {
            Some(b) => {
                if b.is_full() || b.is_expired(now_secs) {
                    proof {
                        lemma_messages_of_push(self.batches@, b);
                    }
                    self.batches.push(b);
                    proof {
                        assert(pending_messages(*self) =~= before);
                    }
                } else {
                    self.current_batch = Some(b);
                }
            },
            None => {},
        }
        if self.batches.len() == 0 {
            return None;
        }
        let ghost queued = self.batches@;
        proof {
            lemma_messages_of_drop_first(queued);
        }
        let first = self.batches.remove(0);
        proof {
            assert(self.batches@ =~= queued.drop_first());
        }
        Some(first)
    }
}

/// The intents a client may send, by envelope type.
#[derive(Debug, Clone, Copy, PartialEq, Eq, Structural)]
pub enum IntentKind {
    Join,
    Ready,
    Describe,
    Vote,
    Chat,
    EliminatedChat,
    Leave,
    Kick,
}

/// The intent an envelope `type` names, if any.
pub open spec fn intent_named(t: Seq<char>) -> Option<IntentKind> {
    if t == "join"@ {
        Some(IntentKind::Join)
    } else if t == "ready"@ {
        Some(IntentKind::Ready)
    } else if t == "describe"@ {
        Some(IntentKind::Describe)
    } else if t == "vote"@ {
        Some(IntentKind::Vote)
    } else if t == "chat"@ {
        Some(IntentKind::Chat)
    } else if t == "eliminated_chat"@ {
        Some(IntentKind::EliminatedChat)
    } else if t == "leave"@ {
        Some(IntentKind::Leave)
    } else if t == "kick"@ {
        Some(IntentKind::Kick)
    } else {
        None
    }
}

/// Reads an envelope's `type`; an unknown type names no intent and is
/// answered with [`ErrorCode::InvalidAction`].
pub fn intent_kind(t: &String) -> (r: Result<IntentKind, ErrorCode>)
    ensures
        r == match intent_named(t@) {
            Some(k) => Ok::<IntentKind, ErrorCode>(k),
            None => Err(ErrorCode::InvalidAction),
        },
{
    if *t == String::from_str("join") {
        Ok(IntentKind::Join)
    } else if *t == String::from_str("ready") {
        Ok(IntentKind::Ready)
    } else if *t == String::from_str("describe") {
        Ok(IntentKind::Describe)
    } else if *t == String::from_str("vote") {
        Ok(IntentKind::Vote)
    } else if *t == String::from_str("chat") {
        Ok(IntentKind::Chat)
    } else if *t == String::from_str("eliminated_chat") {
        Ok(IntentKind::EliminatedChat)
    } else if *t == String::from_str("leave") {
        Ok(IntentKind::Leave)
    } else if *t == String::from_str("kick") {
        Ok(IntentKind::Kick)
    } else {
        Err(ErrorCode::InvalidAction)
    }
}

} // verus!
