//! The Telegram adapter's rules for turning Telegram updates into the
//! cluster's inbound messages, and the chat-id rule of outbound sends.
//!
//! The adapter long-polls Telegram for updates and forwards each text message
//! to the cluster; outbound messages are posted to Telegram's `sendMessage`
//! with the chat id as a JSON number when it is one and as a string otherwise
//! (channel usernames such as `@my_channel`).
use vstd::prelude::*;
use crate::decimal::{decimal, decimal_text, parse_i64, parsed_i64};

verus! {

// ─── Outbound ───────────────────────────────────────────────────────────────

/// How a chat id is written in a `sendMessage` body.
#[derive(Debug, Clone, PartialEq, Eq)]
pub enum ChatIdValue {
    /// Telegram's canonical numeric chat id, as a JSON number.
    Number(i64),
    /// Anything else (a channel username), as a JSON string.
    Name(String),
}

/// The chat id of a `sendMessage` body: a number when `chat_id` parses as an
/// `i64`, the text itself otherwise.
pub fn chat_id_value(chat_id: &str) -> (r: ChatIdValue)
    ensures
        parsed_i64(chat_id@) matches Some(v) ==> r == ChatIdValue::Number(v as i64),
        parsed_i64(chat_id@) is None ==> (r matches ChatIdValue::Name(name) && name@ == chat_id@),
{
    match parse_i64(chat_id) {
        Some(v) => ChatIdValue::Number(v),
        None => ChatIdValue::Name(String::from_str(chat_id)),
    }
}

// ─── Inbound ────────────────────────────────────────────────────────────────

/// Telegram chat descriptor.
#[derive(Debug, Clone, Copy, PartialEq, Eq, Structural)]
pub struct TgChat {
    pub id: i64,
}

/// Telegram user descriptor.
#[derive(Debug, Clone, Copy, PartialEq, Eq, Structural)]
pub struct TgUser {
    pub id: i64,
}

/// Relevant fields of a Telegram message.
#[derive(Debug, Clone)]
pub struct TgMessage {
    pub message_id: i64,
    pub chat: TgChat,
    pub from: Option<TgUser>,
    pub text: Option<String>,
}

/// Relevant fields of a single Telegram update.
#[derive(Debug, Clone)]
pub struct Update {
    pub update_id: i64,
    pub message: Option<TgMessage>,
}

/// Envelope returned by the Telegram `getUpdates` endpoint.
#[derive(Debug, Clone)]
pub struct GetUpdates {
    pub ok: bool,
    pub result: Vec<Update>,
}

impl GetUpdates {
    /// The updates of an envelope Telegram marked successful; `None` (poll
    /// again) otherwise.
    pub fn accepted(self) -> (r: Option<Vec<Update>>)
        ensures
            self.ok ==> r == Some(self.result),
            !self.ok ==> r is None,
    {
        if self.ok {
            Some(self.result)
        } else {
            None
        }
    }
}

/// A user message forwarded into the cluster.
#[derive(Debug, Clone)]
pub struct InboundMessage {
    pub platform: String,
    pub chat_id: String,
    pub user_id: String,
    pub text: String,
}

/// The texts of an [`InboundMessage`].
pub struct InboundView {
    pub platform: Seq<char>,
    pub chat_id: Seq<char>,
    pub user_id: Seq<char>,
    pub text: Seq<char>,
}

impl View for InboundMessage {
    type V = InboundView;

    open spec fn view(&self) -> InboundView {
        InboundView {
            platform: self.platform@,
            chat_id: self.chat_id@,
            user_id: self.user_id@,
            text: self.text@,
        }
    }
}

/// What one update forwards, if anything: a message with text becomes an
/// inbound message from its chat and sender (an empty user id when Telegram
/// names no sender).
pub open spec fn forwarded(update: Update, platform: Seq<char>) -> Option<InboundView> {
    match update.message {
        Some(m) => match m.text {
            Some(t) => Some(
                InboundView {
                    platform,
                    chat_id: decimal(m.chat.id as int),
                    user_id: match m.from {
                        Some(u) => decimal(u.id as int),
                        None => Seq::empty(),
                    },
                    text: t@,
                },
            ),
            None => None,
        },
        None => None,
    }
}

/// The inbound messages a batch of updates forwards, in order.
pub open spec fn forwarded_all(updates: Seq<Update>, platform: Seq<char>) -> Seq<InboundView>
    decreases updates.len(),
{
    if updates.len() == 0 {
        Seq::empty()
    } else {
        let rest = forwarded_all(updates.drop_last(), platform);
        match forwarded(updates.last(), platform) {
            Some(v) => rest.push(v),
            None => rest,
        }
    }
}

/// What a polled batch yields: the offset of the next poll and the messages to
/// forward.
#[derive(Debug, Clone)]
pub struct InboundBatch {
    pub next_offset: i64,
    pub messages: Vec<InboundMessage>,
}

/// Turn a polled batch of updates into inbound messages: every update moves
/// the poll offset past itself, and each update carrying a text message is
/// forwarded.
pub fn inbound_batch(updates: Vec<Update>, offset: i64, platform: &String) -> (b: InboundBatch)
    requires
        forall|i: int| 0 <= i < updates@.len() ==> #[trigger] updates@[i].update_id < i64::MAX,
    ensures
        b.next_offset == (if updates@.len() == 0 {
            offset as int
        } else {
            updates@.last().update_id + 1
        }),
        b.messages@.map_values(|m: InboundMessage| m@) == forwarded_all(updates@, platform@),
{
    broadcast use vstd::std_specs::vec::group_vec_axioms;

    let ghost all = updates@;
    let mut next_offset = offset;
    let mut messages: Vec<InboundMessage> = Vec::new();
    for update in it: updates.into_iter()
        invariant
            it.seq() == all,
            forall|i: int| 0 <= i < all.len() ==> #[trigger] all[i].update_id < i64::MAX,
            next_offset == (if it.index() == 0 {
                offset as int
            } else {
                all[it.index() - 1].update_id + 1
            }),
            messages@.map_values(|m: InboundMessage| m@) == forwarded_all(
                all.take(it.index() as int),
                platform@,
            ),
    {
        proof {
            assert(all.take(it.index() + 1).drop_last() =~= all.take(it.index() as int));
            assert(all.take(it.index() + 1).last() == update);
            assert(update.update_id < i64::MAX);
        }
        next_offset = update.update_id + 1;
        match update.message {
            Some(message) => match message.text {
                Some(text) => {
                    let user_id = match message.from {
                        Some(user) => decimal_text(user.id),
                        None => String::new(),
                    };
                    let m = InboundMessage {
                        platform: platform.clone(),
                        chat_id: decimal_text(message.chat.id),
                        user_id,
                        text,
                    };
                    let ghost before = messages@;
                    messages.push(m);
                    proof {
                        assert(messages@.map_values(|m: InboundMessage| m@) =~= before.map_values(
                            |m: InboundMessage| m@,
                        ).push(m@));
                    }
                },
                None => {},
            },
            None => {},
        }
    }
    proof {
        assert(all.take(all.len() as int) =~= all);
    }
    InboundBatch { next_offset, messages }
}

} // verus!
