//! What the bot decides on each event: which command a message is, what a
//! query is answered with, and how a deletion is resolved.

use vstd::prelude::*;
use vstd::string::StringExecFns;
use crate::recent::after_record;
use crate::recent::after_take;
use crate::recent::lemma_first_match_is;
use crate::recent::lemma_take_absent;
use crate::recent::taken;
use crate::recent::RecentCache;
use crate::record::MessageRecord;
use crate::record::MessageRecordView;
use crate::record::SnipeRecord;
use crate::record::SnipeRecordView;
use crate::store::after_set;
use crate::store::lookup;
use crate::store::SnipeStore;
use crate::CAPACITY;

verus! {

/// The commands a message can be.
#[derive(Clone, Copy, Debug, PartialEq, Eq, Structural)]
pub enum Command {
    /// A liveness check.
    Ping,
    /// A query for the channel's last deleted message.
    Snipe,
    /// Any other message: it is recorded and not answered.
    Other,
}

/// The command that a message with the given text is.
pub open spec fn command_of(content: Seq<char>) -> Command {
    if content == "!ping"@ {
        Command::Ping
    } else if content == "msnipe"@ {
        Command::Snipe
    } else {
        Command::Other
    }
}

/// Tells which command a message text is. Only the exact texts `!ping` and
/// `msnipe` are commands.
pub fn parse_command(content: &str) -> (command: Command)
    ensures
        command == command_of(content@),
{
    let text = String::from_str(content);
    if text == String::from_str("!ping") {
        Command::Ping
    } else if text == String::from_str("msnipe") {
        Command::Snipe
    } else {
        Command::Other
    }
}

/// Text that answers a liveness check.
pub const PONG: &'static str = "Pong!";

/// Text that answers a query in a channel where no deletion was resolved.
pub const NOTHING_TO_SNIPE: &'static str = "Nothing to snipe!";

/// What the title of a report starts with; the author's name follows.
pub const TITLE_PREFIX: &'static str = "Last deleted message by ";

/// Accent colour of a report, as `0xRRGGBB`: green.
pub const ACCENT_COLOR: u32 = 0x00ff00;

/// What is to be sent back to the channel of a message.
#[derive(Clone, Debug, PartialEq, Eq)]
pub enum Reply<T> {
    /// Nothing is sent.
    Silent,
    /// A plain text message.
    Plain(String),
    /// A formatted message.
    Embed { title: String, body: String, timestamp: T, color: u32 },
}

/// Mathematical value of a [`Reply`].
pub ghost enum ReplyView<T> {
    Silent,
    Plain(Seq<char>),
    Embed { title: Seq<char>, body: Seq<char>, timestamp: T, color: u32 },
}

impl<T> View for Reply<T> {
    type V = ReplyView<T>;

    open spec fn view(&self) -> ReplyView<T> {
        match *self {
            Reply::Silent => ReplyView::Silent,
            Reply::Plain(text) => ReplyView::Plain(text@),
            Reply::Embed { title, body, timestamp, color } => ReplyView::Embed {
                title: title@,
                body: body@,
                timestamp,
                color,
            },
        }
    }
}

/// The value of a record that is only borrowed, if there is one.
pub open spec fn borrowed_view<T>(found: Option<&SnipeRecord<T>>) -> Option<SnipeRecordView<T>> {
    match found {
        Some(r) => Some(r@),
        None => None,
    }
}

/// The answer to a query, given what the store holds for the channel: a
/// report of the deleted message, or the fixed text when there is none.
pub open spec fn snipe_reply_for<T>(found: Option<SnipeRecordView<T>>) -> ReplyView<T> {
    match found {
        Some(r) => ReplyView::Embed {
            title: TITLE_PREFIX@ + r.author,
            body: r.content,
            timestamp: r.timestamp,
            color: ACCENT_COLOR,
        },
        None => ReplyView::Plain(NOTHING_TO_SNIPE@),
    }
}

/// The answer to a message that is `command`, given what the store holds
/// for its channel.
pub open spec fn reply_for<T>(command: Command, found: Option<SnipeRecordView<T>>) -> ReplyView<T> {
    match command {
        Command::Ping => ReplyView::Plain(PONG@),
        Command::Snipe => snipe_reply_for(found),
        Command::Other => ReplyView::Silent,
    }
}

/// Answers a query from the channel's slot of the store.
pub fn snipe_reply<T: Copy>(found: Option<&SnipeRecord<T>>) -> (reply: Reply<T>)
    ensures
        reply@ == snipe_reply_for(borrowed_view(found)),
{
    match found {
        Some(r) => Reply::Embed {
            title: String::from_str(TITLE_PREFIX).concat(r.author.as_str()),
            body: r.content.clone(),
            timestamp: r.timestamp,
            color: ACCENT_COLOR,
        },
        None => Reply::Plain(String::from_str(NOTHING_TO_SNIPE)),
    }
}

/// Answers a message that is `command`. Only a query looks at `found`, the
/// channel's slot of the store.
pub fn reply_to<T: Copy>(command: Command, found: Option<&SnipeRecord<T>>) -> (reply: Reply<T>)
    ensures
        reply@ == reply_for(command, borrowed_view(found)),
{
    match command {
        Command::Ping => Reply::Plain(String::from_str(PONG)),
        Command::Snipe => snipe_reply(found),
        Command::Other => Reply::Silent,
    }
}

/// Answers a message that is `command` and was sent in `channel`, reading
/// the store without changing it.
pub fn answer<T: Copy>(store: &SnipeStore<T>, channel: u64, command: Command) -> (reply: Reply<T>)
    ensures
        reply@ == reply_for(command, lookup(store@, channel)),
{
    reply_to(command, store.get(channel))
}

/// Takes note of a message that arrived in `channel` and tells which
/// command it is. Every message is remembered, commands included.
pub fn observe<T>(
    cache: &mut RecentCache<T>,
    channel: u64,
    id: u64,
    author: String,
    content: String,
    timestamp: T,
) -> (command: Command)
    ensures
        command == command_of(content@),
        final(cache).messages(channel) == after_record(
            old(cache).messages(channel),
            MessageRecordView { id, author: author@, content: content@, timestamp },
        ),
        forall|c: u64| c != channel ==> final(cache).messages(c) == old(cache).messages(c),
        forall|c: u64| final(cache).messages(c).len() <= CAPACITY,
{
    let command = parse_command(content.as_str());
    cache.record(channel, MessageRecord::new(id, author, content, timestamp));
    command
}

/// Where a deletion stands after the recent messages were searched.
#[derive(Clone, Debug, PartialEq, Eq)]
pub enum DeleteStep<T> {
    /// The message was still buffered: this is what it was.
    Resolved(SnipeRecord<T>),
    /// The message was not buffered: the platform's own cache is to be asked.
    AskFallback,
}

/// Mathematical value of a [`DeleteStep`].
pub ghost enum DeleteStepView<T> {
    Resolved(SnipeRecordView<T>),
    AskFallback,
}

impl<T> View for DeleteStep<T> {
    type V = DeleteStepView<T>;

    open spec fn view(&self) -> DeleteStepView<T> {
        match *self {
            DeleteStep::Resolved(r) => DeleteStepView::Resolved(r@),
            DeleteStep::AskFallback => DeleteStepView::AskFallback,
        }
    }
}

/// The first step of a deletion, given what the search of the recent
/// messages handed out.
pub open spec fn step_for<T>(local: Option<MessageRecordView<T>>) -> DeleteStepView<T> {
    match local {
        Some(r) => DeleteStepView::Resolved(r.summary()),
        None => DeleteStepView::AskFallback,
    }
}

/// The record that a deletion is resolved to: the locally buffered one
/// when there is one, else the fallback's, else none.
pub open spec fn resolved<T>(
    local: Option<MessageRecordView<T>>,
    fallback: Option<MessageRecordView<T>>,
) -> Option<SnipeRecordView<T>> {
    match local {
        Some(r) => Some(r.summary()),
        None => match fallback {
            Some(r) => Some(r.summary()),
            None => None,
        },
    }
}

/// The store after a deletion in `channel` that was resolved to `found`:
/// the channel's slot is overwritten when there is a record, and nothing
/// changes when there is none.
pub open spec fn after_delete<T>(
    slots: Map<u64, SnipeRecordView<T>>,
    channel: u64,
    found: Option<SnipeRecordView<T>>,
) -> Map<u64, SnipeRecordView<T>> {
    match found {
        Some(r) => after_set(slots, channel, r),
        None => slots,
    }
}

/// A message that was recorded and then deleted is what the next query of
/// its channel reports, whatever the fallback would have said, as long as
/// no record buffered before it carried the same id.
pub proof fn lemma_deleted_message_is_reported<T>(
    buf: Seq<MessageRecordView<T>>,
    rec: MessageRecordView<T>,
    fallback: Option<MessageRecordView<T>>,
    slots: Map<u64, SnipeRecordView<T>>,
    channel: u64,
)
    requires
        forall|i: int| 0 <= i < buf.len() ==> buf[i].id != rec.id,
    ensures
        taken(after_record(buf, rec), rec.id) == Some(rec),
        resolved(taken(after_record(buf, rec), rec.id), fallback) == Some(rec.summary()),
        reply_for(
            Command::Snipe,
            lookup(
                after_delete(
                    slots,
                    channel,
                    resolved(taken(after_record(buf, rec), rec.id), fallback),
                ),
                channel,
            ),
        ) == snipe_reply_for(Some(rec.summary())),
{
    let kept = after_record(buf, rec);
    let all = buf.push(rec);
    let at = kept.len() - 1;
    assert(kept[at] == rec);
    assert forall|j: int| 0 <= j < at implies kept[j].id != rec.id by {
        assert(kept[j] == all[all.len() - kept.len() + j]);
    }
    lemma_first_match_is(kept, rec.id, at);
}

/// A deletion that neither source can resolve has no effect on what any
/// channel reports.
pub proof fn lemma_unresolved_changes_nothing<T>(
    buf: Seq<MessageRecordView<T>>,
    id: u64,
    slots: Map<u64, SnipeRecordView<T>>,
    channel: u64,
)
    requires
        forall|i: int| 0 <= i < buf.len() ==> buf[i].id != id,
    ensures
        resolved(taken(buf, id), None) is None,
        after_take(buf, id) == buf,
        after_delete(slots, channel, resolved(taken(buf, id), None)) == slots,
{
    lemma_take_absent(buf, id);
}

/// First step of a deletion of message `id` in `channel`: the recent
/// messages are searched, and a match is consumed.
pub fn begin_delete<T>(cache: &mut RecentCache<T>, channel: u64, id: u64) -> (step: DeleteStep<T>)
    ensures
        step@ == step_for(taken(old(cache).messages(channel), id)),
        final(cache).messages(channel) == after_take(old(cache).messages(channel), id),
        forall|c: u64| c != channel ==> final(cache).messages(c) == old(cache).messages(c),
        forall|c: u64| final(cache).messages(c).len() <= CAPACITY,
{
    match cache.take_by_id(channel, id) {
        Some(r) => DeleteStep::Resolved(r.into_snipe()),
        None => DeleteStep::AskFallback,
    }
}

/// Last step of a deletion in `channel`: `found` is what either source
/// gave. Tells whether the deletion was resolved.
pub fn finish_delete<T>(store: &mut SnipeStore<T>, channel: u64, found: Option<SnipeRecord<T>>) -> (sniped:
    bool)
    ensures
        sniped == found is Some,
        final(store)@ == after_delete(
            old(store)@,
            channel,
            match found {
                Some(r) => Some(r@),
                None => None,
            },
        ),
{
    match found {
        Some(r) => {
            store.set(channel, r.author, r.content, r.timestamp);
            true
        },
        None => false,
    }
}

/// A whole deletion of message `id` in `channel`, for a caller that already
/// holds the fallback's answer. The locally buffered record wins over the
/// fallback's. Tells whether the deletion was resolved.
pub fn resolve_delete<T>(
    cache: &mut RecentCache<T>,
    store: &mut SnipeStore<T>,
    channel: u64,
    id: u64,
    fallback: Option<MessageRecord<T>>,
) -> (sniped: bool)
    ensures
        sniped == resolved(
            taken(old(cache).messages(channel), id),
            match fallback {
                Some(r) => Some(r@),
                None => None,
            },
        ) is Some,
        final(store)@ == after_delete(
            old(store)@,
            channel,
            resolved(
                taken(old(cache).messages(channel), id),
                match fallback {
                    Some(r) => Some(r@),
                    None => None,
                },
            ),
        ),
        final(cache).messages(channel) == after_take(old(cache).messages(channel), id),
        forall|c: u64| c != channel ==> final(cache).messages(c) == old(cache).messages(c),
        forall|c: u64| final(cache).messages(c).len() <= CAPACITY,
{
    let found = match begin_delete(cache, channel, id) {
        DeleteStep::Resolved(r) => Some(r),
        DeleteStep::AskFallback => match fallback {
            Some(r) => Some(r.into_snipe()),
            None => None,
        },
    };
    finish_delete(store, channel, found)
}

} // verus!
