//! Timeline items: the display-ready units held by the ordered store, and the
//! ghost models the contracts are stated over.

use vstd::prelude::*;
use crate::reactions::BundledReactions;
use crate::reactions::ReactionsModel;

verus! {

/// The identity of an event item: a client-assigned transaction id before the
/// server has confirmed the event, or the server-assigned event id afterwards.
#[derive(Clone, Debug)]
pub enum TimelineKey {
    TransactionId(String),
    EventId(String),
}

/// Ghost model of a `TimelineKey`.
pub ghost enum KeyModel {
    TransactionId(Seq<char>),
    EventId(Seq<char>),
}

impl View for TimelineKey {
    type V = KeyModel;

    open spec fn view(&self) -> KeyModel {
        match self {
            TimelineKey::TransactionId(t) => KeyModel::TransactionId(t@),
            TimelineKey::EventId(e) => KeyModel::EventId(e@),
        }
    }
}

/// The identifier string a key holds, whichever kind it is.
pub open spec fn spec_key_id(k: KeyModel) -> Seq<char> {
    match k {
        KeyModel::TransactionId(t) => t,
        KeyModel::EventId(e) => e,
    }
}

impl TimelineKey {
    /// The identifier string this key holds.
    pub fn identifier(&self) -> (r: &String)
        ensures
            r@ == spec_key_id(self@),
    {
        match self {
            TimelineKey::TransactionId(t) => t,
            TimelineKey::EventId(e) => e,
        }
    }

    /// Whether two keys denote the same identity.
    pub fn key_eq(&self, other: &TimelineKey) -> (r: bool)
        ensures
            r == (self@ == other@),
    {
        match (self, other) {
            (TimelineKey::TransactionId(a), TimelineKey::TransactionId(b)) => a.eq(b),
            (TimelineKey::EventId(a), TimelineKey::EventId(b)) => a.eq(b),
            _ => false,
        }
    }
}

/// A message payload: the declared message type together with its body.
#[derive(Clone, Debug)]
pub struct MessagePayload {
    pub msgtype: String,
    pub body: String,
}

/// Ghost model of a `MessagePayload`.
pub ghost struct PayloadModel {
    pub msgtype: Seq<char>,
    pub body: Seq<char>,
}

impl View for MessagePayload {
    type V = PayloadModel;

    open spec fn view(&self) -> PayloadModel {
        PayloadModel { msgtype: self.msgtype@, body: self.body@ }
    }
}

/// The content of a plain message item: its payload, an optional "in reply to"
/// reference, and whether an edit has superseded the original payload.
#[derive(Clone, Debug)]
pub struct Message {
    pub msgtype: MessagePayload,
    pub in_reply_to: Option<String>,
    pub edited: bool,
}

/// Ghost model of a `Message`.
pub ghost struct MessageModel {
    pub msgtype: PayloadModel,
    pub in_reply_to: Option<Seq<char>>,
    pub edited: bool,
}

impl View for Message {
    type V = MessageModel;

    open spec fn view(&self) -> MessageModel {
        MessageModel {
            msgtype: self.msgtype@,
            in_reply_to: match &self.in_reply_to {
                Some(e) => Some(e@),
                None => None,
            },
            edited: self.edited,
        }
    }
}

/// What an event item displays. A closed set: adding a variant forces every
/// handling routine to be updated.
#[derive(Clone, Debug)]
pub enum TimelineItemContent {
    /// An ordinary, successfully parsed message.
    Message(Message),
    /// A tombstone for a message whose content was retracted; carries no payload.
    RedactedMessage,
    /// An encrypted payload that could not be decrypted yet; holds the payload.
    UnableToDecrypt { payload: String },
    /// A message-like event whose content failed to deserialize.
    FailedToParseMessageLike { event_type: String, error: String },
    /// A state event whose content failed to deserialize.
    FailedToParseState { event_type: String, state_key: String, error: String },
}

/// Ghost model of a `TimelineItemContent`.
pub ghost enum ContentModel {
    Message(MessageModel),
    RedactedMessage,
    UnableToDecrypt { payload: Seq<char> },
    FailedToParseMessageLike { event_type: Seq<char>, error: Seq<char> },
    FailedToParseState { event_type: Seq<char>, state_key: Seq<char>, error: Seq<char> },
}

impl View for TimelineItemContent {
    type V = ContentModel;

    open spec fn view(&self) -> ContentModel {
        match self {
            TimelineItemContent::Message(m) => ContentModel::Message(m@),
            TimelineItemContent::RedactedMessage => ContentModel::RedactedMessage,
            TimelineItemContent::UnableToDecrypt { payload } => ContentModel::UnableToDecrypt {
                payload: payload@,
            },
            TimelineItemContent::FailedToParseMessageLike { event_type, error } => {
                ContentModel::FailedToParseMessageLike {
                    event_type: event_type@,
                    error: error@,
                }
            },
            TimelineItemContent::FailedToParseState { event_type, state_key, error } => {
                ContentModel::FailedToParseState {
                    event_type: event_type@,
                    state_key: state_key@,
                    error: error@,
                }
            },
        }
    }
}

/// An event item: one display-ready unit backed by a protocol event.
#[derive(Clone, Debug)]
pub struct EventTimelineItem {
    pub key: TimelineKey,
    pub event_id: Option<String>,
    pub sender: String,
    pub content: TimelineItemContent,
    pub reactions: BundledReactions,
    pub origin_server_ts: Option<u64>,
    pub is_own: bool,
    pub encryption_info: Option<String>,
    pub raw: Option<String>,
}

/// Ghost model of an `EventTimelineItem`.
pub ghost struct EventItemModel {
    pub key: KeyModel,
    pub event_id: Option<Seq<char>>,
    pub sender: Seq<char>,
    pub content: ContentModel,
    pub reactions: ReactionsModel,
    pub origin_server_ts: Option<u64>,
    pub is_own: bool,
    pub encryption_info: Option<Seq<char>>,
    pub raw: Option<Seq<char>>,
}

impl View for EventTimelineItem {
    type V = EventItemModel;

    open spec fn view(&self) -> EventItemModel {
        EventItemModel {
            key: self.key@,
            event_id: match &self.event_id {
                Some(e) => Some(e@),
                None => None,
            },
            sender: self.sender@,
            content: self.content@,
            reactions: self.reactions@,
            origin_server_ts: self.origin_server_ts,
            is_own: self.is_own,
            encryption_info: match &self.encryption_info {
                Some(e) => Some(e@),
                None => None,
            },
            raw: match &self.raw {
                Some(r) => Some(r@),
                None => None,
            },
        }
    }
}

/// A non-event marker in the timeline; currently only the read-marker
/// placeholder.
#[derive(Clone, Debug)]
pub enum VirtualTimelineItem {
    ReadMarker,
}

/// Ghost model of a `VirtualTimelineItem`.
pub ghost enum VirtualModel {
    ReadMarker,
}

impl View for VirtualTimelineItem {
    type V = VirtualModel;

    open spec fn view(&self) -> VirtualModel {
        match self {
            VirtualTimelineItem::ReadMarker => VirtualModel::ReadMarker,
        }
    }
}

/// One entry of the ordered store: an event item or a virtual marker.
#[derive(Clone, Debug)]
pub enum TimelineItem {
    Event(EventTimelineItem),
    Virtual(VirtualTimelineItem),
}

/// Ghost model of a `TimelineItem`.
pub ghost enum ItemModel {
    Event(EventItemModel),
    Virtual(VirtualModel),
}

impl View for TimelineItem {
    type V = ItemModel;

    open spec fn view(&self) -> ItemModel {
        match self {
            TimelineItem::Event(e) => ItemModel::Event(e@),
            TimelineItem::Virtual(v) => ItemModel::Virtual(v@),
        }
    }
}

/// The event id an item is known by, if any: the key when the item is already
/// keyed by a server event id, else the separate server-assigned id field.
pub open spec fn spec_effective_event_id(item: ItemModel) -> Option<Seq<char>> {
    match item {
        ItemModel::Event(e) => match e.key {
            KeyModel::EventId(id) => Some(id),
            KeyModel::TransactionId(_) => e.event_id,
        },
        ItemModel::Virtual(_) => None,
    }
}

/// Whether an item is the local-pending item for the given transaction id.
pub open spec fn spec_has_txn_id(item: ItemModel, txn_id: Seq<char>) -> bool {
    match item {
        ItemModel::Event(e) => e.key == KeyModel::TransactionId(txn_id),
        ItemModel::Virtual(_) => false,
    }
}

/// Whether an item is a virtual (read-marker) item.
pub open spec fn spec_is_virtual(item: ItemModel) -> bool {
    item is Virtual
}

impl TimelineItem {
    /// Whether this item is known by the given event id.
    pub fn matches_event_id(&self, event_id: &String) -> (r: bool)
        ensures
            r == (spec_effective_event_id(self@) == Some(event_id@)),
    {
        match self {
            TimelineItem::Event(e) => match &e.key {
                TimelineKey::EventId(id) => id.eq(event_id),
                TimelineKey::TransactionId(_) => match &e.event_id {
                    Some(id) => id.eq(event_id),
                    None => false,
                },
            },
            TimelineItem::Virtual(_) => false,
        }
    }

    /// Whether this item is the local-pending item for the given transaction id.
    pub fn matches_txn_id(&self, txn_id: &String) -> (r: bool)
        ensures
            r == spec_has_txn_id(self@, txn_id@),
    {
        match self {
            TimelineItem::Event(e) => match &e.key {
                TimelineKey::TransactionId(t) => t.eq(txn_id),
                TimelineKey::EventId(_) => false,
            },
            TimelineItem::Virtual(_) => false,
        }
    }

    /// Whether this item is a virtual (read-marker) item.
    pub fn is_virtual(&self) -> (r: bool)
        ensures
            r == spec_is_virtual(self@),
    {
        match self {
            TimelineItem::Event(_) => false,
            TimelineItem::Virtual(_) => true,
        }
    }
}

/// The redacted form of an event item: the content becomes the tombstone and
/// the reaction bundle is emptied; identity, sender and position metadata are
/// kept.
pub open spec fn spec_to_redacted(e: EventItemModel) -> EventItemModel {
    EventItemModel {
        content: ContentModel::RedactedMessage,
        reactions: Map::empty(),
        ..e
    }
}

impl EventTimelineItem {
    /// This item with its content replaced by the redacted-message tombstone
    /// and its reactions dropped.
    pub fn to_redacted(self) -> (r: EventTimelineItem)
        ensures
            r@ == spec_to_redacted(self@),
    {
        EventTimelineItem {
            content: TimelineItemContent::RedactedMessage,
            reactions: BundledReactions::new(),
            ..self
        }
    }
}

} // verus!
