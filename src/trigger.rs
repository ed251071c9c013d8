//! Trigger sources: the feeds that emit events, the event kinds they
//! declare, and the per-message decisions of a source's watcher.

use vstd::prelude::*;
use crate::json::key;

verus! {

/// The runtime fact that event kind `trigger_event_id` just fired on the
/// source `trigger_source_id`.
#[derive(Debug, PartialEq)]
pub struct QueueEvent {
    pub trigger_source_id: String,
    pub trigger_event_id: String,
}

pub struct EventModel {
    pub source: Seq<char>,
    pub event: Seq<char>,
}

impl View for QueueEvent {
    type V = EventModel;

    open spec fn view(&self) -> EventModel {
        EventModel { source: self.trigger_source_id@, event: self.trigger_event_id@ }
    }
}

impl QueueEvent {
    pub fn new(trigger_source_id: String, trigger_event_id: String) -> (r: QueueEvent)
        ensures
            r.trigger_source_id@ == trigger_source_id@,
            r.trigger_event_id@ == trigger_event_id@,
    {
        QueueEvent { trigger_source_id, trigger_event_id }
    }

    /// A copy of the event.
    pub fn duplicate(&self) -> (r: QueueEvent)
        ensures
            r@ == self@,
    {
        QueueEvent {
            trigger_source_id: self.trigger_source_id.clone(),
            trigger_event_id: self.trigger_event_id.clone(),
        }
    }
}

/// A kind of event that a source declares it can emit.
#[derive(Debug, PartialEq)]
pub struct TriggerEvent {
    pub id: String,
}

/// The kinds of trigger source.
#[derive(Debug, Clone, Copy, PartialEq, Eq, Structural)]
pub enum TriggerSource {
    TwitchPubSub,
    TwitchChat,
}

/// The id under which a kind of source registers.
pub open spec fn source_id(s: TriggerSource) -> Seq<char> {
    match s {
        TriggerSource::TwitchChat => "twitch_chat"@,
        TriggerSource::TwitchPubSub => "twitch_pub_sub"@,
    }
}

/// The one event kind that a kind of source emits: the empty id for a
/// chat line, which is what chat bindings are stored with, and `redeem`
/// for a channel-point redemption.
pub open spec fn event_id(s: TriggerSource) -> Seq<char> {
    match s {
        TriggerSource::TwitchChat => ""@,
        TriggerSource::TwitchPubSub => "redeem"@,
    }
}

impl TriggerSource {
    pub fn as_str(&self) -> (r: &'static str)
        ensures
            r@ == source_id(*self),
    {
        match self {
            TriggerSource::TwitchChat => "twitch_chat",
            TriggerSource::TwitchPubSub => "twitch_pub_sub",
        }
    }

    /// The kind of source registered under `val`.
    pub fn from_str(val: &str) -> (r: Self)
        requires
            val@ == source_id(TriggerSource::TwitchChat) || val@ == source_id(TriggerSource::TwitchPubSub),
        ensures
            source_id(r) == val@,
    {
        proof {
            reveal_strlit("twitch_chat");
            reveal_strlit("twitch_pub_sub");
        }
        if key(val) == key("twitch_chat") {
            TriggerSource::TwitchChat
        } else {
            TriggerSource::TwitchPubSub
        }
    }

    /// The event kind this kind of source emits.
    pub fn event_id(&self) -> (r: String)
        ensures
            r@ == event_id(*self),
    {
        match self {
            TriggerSource::TwitchChat => key(""),
            TriggerSource::TwitchPubSub => key("redeem"),
        }
    }
}

fn declared_events(s: TriggerSource) -> (r: Vec<TriggerEvent>)
    ensures
        r@.len() == 1,
        r@[0].id@ == event_id(s),
{
    let mut r: Vec<TriggerEvent> = Vec::new();
    r.push(TriggerEvent { id: s.event_id() });
    r
}

/// The chat feed of one channel: every line is an event.
#[derive(Debug, PartialEq)]
pub struct TwitchChat {
    pub target_channel: String,
    pub trigger_events: Vec<TriggerEvent>,
}

impl TwitchChat {
    pub fn new(target_channel: String) -> (r: Self)
        ensures
            r.target_channel@ == target_channel@,
            r.trigger_events@.len() == 1,
            r.trigger_events@[0].id@ == event_id(TriggerSource::TwitchChat),
    {
        TwitchChat { target_channel, trigger_events: declared_events(TriggerSource::TwitchChat) }
    }

    pub fn target_channel(&self) -> (r: &String)
        ensures
            r@ == self.target_channel@,
    {
        &self.target_channel
    }

    /// The event kinds this source declares.
    pub fn get_events(&self) -> (r: &Vec<TriggerEvent>)
        ensures
            r == &self.trigger_events,
    {
        &self.trigger_events
    }
}

/// Why a source could not be set up.
#[derive(Debug, Clone, PartialEq)]
pub enum TriggerError {
    /// The bearer credential is missing or empty.
    MissingCredential,
}

/// The channel-point redemption feed of one channel, read over a
/// subscription authenticated with a bearer credential.
#[derive(Debug, PartialEq)]
pub struct TwitchPubSub {
    pub target_channel: String,
    pub token: String,
    pub trigger_events: Vec<TriggerEvent>,
}

impl TwitchPubSub {
    /// A source for `target_channel` that authenticates with `token`; an
    /// empty token is refused.
    pub fn new(target_channel: String, token: String) -> (r: Result<Self, TriggerError>)
        ensures
            r is Err <==> token@.len() == 0,
            r matches Err(e) ==> e == TriggerError::MissingCredential,
            r matches Ok(s) ==> s.target_channel@ == target_channel@ && s.token@ == token@
                && s.trigger_events@.len() == 1 && s.trigger_events@[0].id@ == event_id(
                TriggerSource::TwitchPubSub,
            ),
    {
        if token.as_str().is_empty() {
            return Err(TriggerError::MissingCredential);
        }
        Ok(
            TwitchPubSub {
                target_channel,
                token,
                trigger_events: declared_events(TriggerSource::TwitchPubSub),
            },
        )
    }

    pub fn target_channel(&self) -> (r: &String)
        ensures
            r@ == self.target_channel@,
    {
        &self.target_channel
    }

    pub fn token(&self) -> (r: &String)
        ensures
            r@ == self.token@,
    {
        &self.token
    }

    /// The event kinds this source declares.
    pub fn get_events(&self) -> (r: &Vec<TriggerEvent>)
        ensures
            r == &self.trigger_events,
    {
        &self.trigger_events
    }
}

/// A configured trigger source.
#[derive(Debug, PartialEq)]
pub enum Source {
    PubSub(TwitchPubSub),
    Chat(TwitchChat),
}

impl Source {
    pub fn kind(&self) -> (r: TriggerSource)
        ensures
            r == (match self {
                Source::PubSub(_) => TriggerSource::TwitchPubSub,
                Source::Chat(_) => TriggerSource::TwitchChat,
            }),
    {
        match self {
            Source::PubSub(_) => TriggerSource::TwitchPubSub,
            Source::Chat(_) => TriggerSource::TwitchChat,
        }
    }
}

/// The trigger sources of a run: the redemption feed of `pub_sub_channel`,
/// authenticated with `token`, and the chat of `chat_channel`. A missing
/// credential fails the whole set.
pub fn get_available_trigger_sources(chat_channel: String, pub_sub_channel: String, token: String) -> (r: Result<
    Vec<Source>,
    TriggerError,
>)
    ensures
        r is Err <==> token@.len() == 0,
        r matches Err(e) ==> e == TriggerError::MissingCredential,
        r matches Ok(v) ==> v@.len() == 2 && (v@[0] matches Source::PubSub(p) && p.target_channel@
            == pub_sub_channel@ && p.token@ == token@) && (v@[1] matches Source::Chat(c)
            && c.target_channel@ == chat_channel@),
{
    let pub_sub = TwitchPubSub::new(pub_sub_channel, token)?;
    let mut r: Vec<Source> = Vec::new();
    r.push(Source::PubSub(pub_sub));
    r.push(Source::Chat(TwitchChat::new(chat_channel)));
    Ok(r)
}

/// What a source's watcher saw while it waited: a message on the feed, the
/// run's cancellation, or the end of the feed.
#[derive(Debug, Clone, Copy, PartialEq, Eq, Structural)]
pub enum FeedInput {
    Message,
    Cancelled,
    Closed,
}

/// Why a watcher stopped without being cancelled.
#[derive(Debug, Clone, Copy, PartialEq, Eq, Structural)]
pub enum WatchError {
    /// The feed ended or failed.
    TransportEnded,
}

/// What a watcher does next.
#[derive(Debug, PartialEq)]
pub enum WatchStep {
    /// Send this event to the dispatcher and wait again.
    Emit(QueueEvent),
    /// Stop: the run was cancelled.
    Finish,
    /// Stop with an error that concerns this source alone.
    Fail(WatchError),
}

/// The decisions of one source's watcher: every message becomes one event
/// tagged with the source's id and its event kind, until the run is
/// cancelled or the feed ends.
#[derive(Debug, PartialEq)]
pub struct Watcher {
    pub source_id: String,
    pub event_id: String,
    pub done: bool,
}

impl Watcher {
    pub fn new(source_id: String, event_id: String) -> (r: Watcher)
        ensures
            r.source_id@ == source_id@,
            r.event_id@ == event_id@,
            !r.done,
    {
        Watcher { source_id, event_id, done: false }
    }

    /// The watcher of a source of kind `kind`, registered under its id.
    pub fn for_source(kind: TriggerSource) -> (r: Watcher)
        ensures
            r.source_id@ == source_id(kind),
            r.event_id@ == event_id(kind),
            !r.done,
    {
        Watcher::new(key(kind.as_str()), kind.event_id())
    }

    /// Decides what to do with what the watcher saw.
    pub fn on_input(&mut self, input: FeedInput) -> (r: WatchStep)
        ensures
            final(self).source_id@ == old(self).source_id@,
            final(self).event_id@ == old(self).event_id@,
            old(self).done ==> r is Finish && final(self).done,
            !old(self).done && input == FeedInput::Message ==> !final(self).done && (r matches WatchStep::Emit(e)
                && e@ == (EventModel { source: old(self).source_id@, event: old(self).event_id@ })),
            !old(self).done && input == FeedInput::Cancelled ==> final(self).done && r is Finish,
            !old(self).done && input == FeedInput::Closed ==> final(self).done
                && r == WatchStep::Fail(WatchError::TransportEnded),
    {
        if self.done {
            return WatchStep::Finish;
        }
        match input {
            FeedInput::Message => WatchStep::Emit(
                QueueEvent::new(self.source_id.clone(), self.event_id.clone()),
            ),
            FeedInput::Cancelled => {
                self.done = true;
                WatchStep::Finish
            },
            FeedInput::Closed => {
                self.done = true;
                WatchStep::Fail(WatchError::TransportEnded)
            },
        }
    }
}

} // verus!
