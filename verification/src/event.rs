//! Incoming events: the already-decoded event shapes the engine consumes, the
//! closed classification it derives from them, the per-event provenance
//! metadata, and the construction of new timeline items.

use vstd::prelude::*;
use crate::item::KeyModel;
use crate::item::MessagePayload;
use crate::item::PayloadModel;
use crate::item::Message;
use crate::item::MessageModel;
use crate::item::TimelineKey;
use crate::item::TimelineItemContent;
use crate::item::ContentModel;
use crate::reactions::Annotation;
use crate::reactions::AnnotationModel;
use crate::reactions::AggregateModel;
use crate::reactions::BundledReactions;
use crate::reactions::DetailsModel;
use crate::reactions::ReactionAggregate;
use crate::reactions::ReactionsModel;
use crate::reactions::TimelineDetails;
use crate::reactions::reactions_empty;

verus! {

/// The content of a reaction event: the annotation it applies.
#[derive(Clone, Debug)]
pub struct ReactionEventContent {
    pub relates_to: Annotation,
}

/// An edit: the event it replaces and the payload superseding that event's.
#[derive(Clone, Debug)]
pub struct Replacement {
    pub event_id: String,
    pub new_content: MessagePayload,
}

/// Ghost model of a `Replacement`.
pub ghost struct ReplacementModel {
    pub event_id: Seq<char>,
    pub new_content: PayloadModel,
}

impl View for Replacement {
    type V = ReplacementModel;

    open spec fn view(&self) -> ReplacementModel {
        ReplacementModel { event_id: self.event_id@, new_content: self.new_content@ }
    }
}

/// The relation a message declares, if any.
#[derive(Clone, Debug)]
pub enum MessageRelation {
    Reply { in_reply_to: String },
    Replacement(Replacement),
}

/// Ghost model of a `MessageRelation`.
pub ghost enum RelationModel {
    Reply { in_reply_to: Seq<char> },
    Replacement(ReplacementModel),
}

impl View for MessageRelation {
    type V = RelationModel;

    open spec fn view(&self) -> RelationModel {
        match self {
            MessageRelation::Reply { in_reply_to } => RelationModel::Reply {
                in_reply_to: in_reply_to@,
            },
            MessageRelation::Replacement(r) => RelationModel::Replacement(r@),
        }
    }
}

/// The content of an ordinary room message.
#[derive(Clone, Debug)]
pub struct RoomMessageEventContent {
    pub msgtype: MessagePayload,
    pub relates_to: Option<MessageRelation>,
}

/// Ghost model of a `RoomMessageEventContent`.
pub ghost struct RoomMessageModel {
    pub msgtype: PayloadModel,
    pub relates_to: Option<RelationModel>,
}

impl View for RoomMessageEventContent {
    type V = RoomMessageModel;

    open spec fn view(&self) -> RoomMessageModel {
        RoomMessageModel {
            msgtype: self.msgtype@,
            relates_to: match &self.relates_to {
                Some(r) => Some(r@),
                None => None,
            },
        }
    }
}

/// The relation an encrypted payload declares about itself, readable without
/// decryption.
#[derive(Clone, Copy, Debug)]
pub enum EncryptedRelation {
    Replacement,
    Annotation,
    Other,
}

/// The content of an event that could not be decrypted.
#[derive(Clone, Debug)]
pub struct RoomEncryptedEventContent {
    pub payload: String,
    pub relates_to: Option<EncryptedRelation>,
}

/// Ghost model of a `RoomEncryptedEventContent`.
pub ghost struct RoomEncryptedModel {
    pub payload: Seq<char>,
    pub relates_to: Option<EncryptedRelation>,
}

impl View for RoomEncryptedEventContent {
    type V = RoomEncryptedModel;

    open spec fn view(&self) -> RoomEncryptedModel {
        RoomEncryptedModel {
            payload: self.payload@,
            relates_to: match self.relates_to {
                Some(r) => Some(r),
                None => None,
            },
        }
    }
}

/// The content of a redaction event.
#[derive(Clone, Debug)]
pub struct RoomRedactionEventContent {
    pub reason: Option<String>,
}

/// Ghost model of a `RoomRedactionEventContent`.
pub ghost struct RedactionContentModel {
    pub reason: Option<Seq<char>>,
}

impl View for RoomRedactionEventContent {
    type V = RedactionContentModel;

    open spec fn view(&self) -> RedactionContentModel {
        RedactionContentModel {
            reason: match &self.reason {
                Some(r) => Some(r@),
                None => None,
            },
        }
    }
}

/// The decoded content of a message-like event, by type.
#[derive(Clone, Debug)]
pub enum AnyMessageLikeEventContent {
    Reaction(ReactionEventContent),
    RoomMessage(RoomMessageEventContent),
    RoomEncrypted(RoomEncryptedEventContent),
    /// A message-like type this engine does not handle yet.
    Other { event_type: String },
}

/// Ghost model of an `AnyMessageLikeEventContent`.
pub ghost enum MessageLikeModel {
    Reaction { relates_to: AnnotationModel },
    RoomMessage(RoomMessageModel),
    RoomEncrypted(RoomEncryptedModel),
    Other { event_type: Seq<char> },
}

impl View for AnyMessageLikeEventContent {
    type V = MessageLikeModel;

    open spec fn view(&self) -> MessageLikeModel {
        match self {
            AnyMessageLikeEventContent::Reaction(c) => MessageLikeModel::Reaction {
                relates_to: c.relates_to@,
            },
            AnyMessageLikeEventContent::RoomMessage(c) => MessageLikeModel::RoomMessage(c@),
            AnyMessageLikeEventContent::RoomEncrypted(c) => MessageLikeModel::RoomEncrypted(c@),
            AnyMessageLikeEventContent::Other { event_type } => MessageLikeModel::Other {
                event_type: event_type@,
            },
        }
    }
}

/// A redaction event that still has its own original content.
#[derive(Clone, Debug)]
pub struct OriginalRoomRedaction {
    pub redacts: String,
    pub content: RoomRedactionEventContent,
}

/// A decoded message-like event: a redaction, or any other message-like event
/// with its content (`None` when its own content was already redacted).
#[derive(Clone, Debug)]
pub enum AnySyncMessageLikeEvent {
    RoomRedaction(Option<OriginalRoomRedaction>),
    Other(Option<AnyMessageLikeEventContent>),
}

/// A decoded event as handed over by the deserializer: message-like, or a
/// state change (whose content the engine defers; it only needs to know
/// whether the content was redacted).
#[derive(Clone, Debug)]
pub enum AnySyncTimelineEvent {
    MessageLike(AnySyncMessageLikeEvent),
    State { has_content: bool },
}

/// The shell of an event whose content failed to deserialize.
#[derive(Clone, Debug)]
pub enum SyncTimelineEventWithoutContent {
    OriginalMessageLike { event_type: String },
    RedactedMessageLike { event_type: String },
    OriginalState { event_type: String, state_key: String },
    RedactedState { event_type: String, state_key: String },
}

/// The classification of one incoming event. Total: every event produces
/// exactly one kind.
#[derive(Clone, Debug)]
pub enum TimelineEventKind {
    Message { content: AnyMessageLikeEventContent },
    RedactedMessage,
    Redaction { redacts: String, content: RoomRedactionEventContent },
    /// A state change; deferred, handled as a no-op.
    State,
    /// A state change whose content was redacted; deferred likewise.
    RedactedState,
    FailedToParseMessageLike { event_type: String, error: String },
    FailedToParseState { event_type: String, state_key: String, error: String },
}

/// Ghost model of a `TimelineEventKind`.
pub ghost enum KindModel {
    Message { content: MessageLikeModel },
    RedactedMessage,
    Redaction { redacts: Seq<char>, content: RedactionContentModel },
    State,
    RedactedState,
    FailedToParseMessageLike { event_type: Seq<char>, error: Seq<char> },
    FailedToParseState { event_type: Seq<char>, state_key: Seq<char>, error: Seq<char> },
}

impl View for TimelineEventKind {
    type V = KindModel;

    open spec fn view(&self) -> KindModel {
        match self {
            TimelineEventKind::Message { content } => KindModel::Message { content: content@ },
            TimelineEventKind::RedactedMessage => KindModel::RedactedMessage,
            TimelineEventKind::Redaction { redacts, content } => KindModel::Redaction {
                redacts: redacts@,
                content: content@,
            },
            TimelineEventKind::State => KindModel::State,
            TimelineEventKind::RedactedState => KindModel::RedactedState,
            TimelineEventKind::FailedToParseMessageLike { event_type, error } => {
                KindModel::FailedToParseMessageLike { event_type: event_type@, error: error@ }
            },
            TimelineEventKind::FailedToParseState { event_type, state_key, error } => {
                KindModel::FailedToParseState {
                    event_type: event_type@,
                    state_key: state_key@,
                    error: error@,
                }
            },
        }
    }
}

/// The kind a decoded event classifies to: a redaction that still has its own
/// content becomes `Redaction`; any other message-like event becomes `Message`
/// when its content is present and `RedactedMessage` when it was redacted;
/// state changes become `State` or `RedactedState` the same way.
pub open spec fn spec_classify(event: AnySyncTimelineEvent) -> KindModel {
    match event {
        AnySyncTimelineEvent::MessageLike(ml) => match ml {
            AnySyncMessageLikeEvent::RoomRedaction(orig) => match orig {
                Some(o) => KindModel::Redaction { redacts: o.redacts@, content: o.content@ },
                None => KindModel::RedactedMessage,
            },
            AnySyncMessageLikeEvent::Other(content) => match content {
                Some(c) => KindModel::Message { content: c@ },
                None => KindModel::RedactedMessage,
            },
        },
        AnySyncTimelineEvent::State { has_content } => {
            if has_content {
                KindModel::State
            } else {
                KindModel::RedactedState
            }
        },
    }
}

/// The kind a parse failure classifies to: the failure is kept visible, with
/// the event type (and state key, for state events) and the error.
pub open spec fn spec_failed_to_parse(
    event: SyncTimelineEventWithoutContent,
    error: Seq<char>,
) -> KindModel {
    match event {
        SyncTimelineEventWithoutContent::OriginalMessageLike { event_type } => {
            KindModel::FailedToParseMessageLike { event_type: event_type@, error }
        },
        SyncTimelineEventWithoutContent::RedactedMessageLike { event_type } => {
            KindModel::FailedToParseMessageLike { event_type: event_type@, error }
        },
        SyncTimelineEventWithoutContent::OriginalState { event_type, state_key } => {
            KindModel::FailedToParseState {
                event_type: event_type@,
                state_key: state_key@,
                error,
            }
        },
        SyncTimelineEventWithoutContent::RedactedState { event_type, state_key } => {
            KindModel::FailedToParseState {
                event_type: event_type@,
                state_key: state_key@,
                error,
            }
        },
    }
}

impl TimelineEventKind {
    /// Classify one decoded event. Total: there is no unclassifiable outcome.
    pub fn from_event(event: AnySyncTimelineEvent) -> (r: TimelineEventKind)
        ensures
            r@ == spec_classify(event),
    {
        match event {
            AnySyncTimelineEvent::MessageLike(ml) => match ml {
                AnySyncMessageLikeEvent::RoomRedaction(orig) => match orig {
                    Some(o) => TimelineEventKind::Redaction {
                        redacts: o.redacts,
                        content: o.content,
                    },
                    None => TimelineEventKind::RedactedMessage,
                },
                AnySyncMessageLikeEvent::Other(content) => match content {
                    Some(c) => TimelineEventKind::Message { content: c },
                    None => TimelineEventKind::RedactedMessage,
                },
            },
            AnySyncTimelineEvent::State { has_content } => {
                if has_content {
                    TimelineEventKind::State
                } else {
                    TimelineEventKind::RedactedState
                }
            },
        }
    }

    /// Classify an event whose content failed to deserialize: the failure is
    /// surfaced as a typed kind, never silently dropped.
    pub fn failed_to_parse(event: SyncTimelineEventWithoutContent, error: String) -> (r:
        TimelineEventKind)
        ensures
            r@ == spec_failed_to_parse(event, error@),
    {
        match event {
            SyncTimelineEventWithoutContent::OriginalMessageLike { event_type } => {
                TimelineEventKind::FailedToParseMessageLike { event_type, error }
            },
            SyncTimelineEventWithoutContent::RedactedMessageLike { event_type } => {
                TimelineEventKind::FailedToParseMessageLike { event_type, error }
            },
            SyncTimelineEventWithoutContent::OriginalState { event_type, state_key } => {
                TimelineEventKind::FailedToParseState { event_type, state_key, error }
            },
            SyncTimelineEventWithoutContent::RedactedState { event_type, state_key } => {
                TimelineEventKind::FailedToParseState { event_type, state_key, error }
            },
        }
    }
}

/// One pre-aggregated annotation the server attached to an event: a reaction
/// key and how many senders applied it (senders themselves not included).
#[derive(Clone, Debug)]
pub struct BundledAnnotation {
    pub key: String,
    pub count: u64,
}

/// Ghost model of a `BundledAnnotation`.
pub ghost struct BundledAnnotationModel {
    pub key: Seq<char>,
    pub count: u64,
}

impl View for BundledAnnotation {
    type V = BundledAnnotationModel;

    open spec fn view(&self) -> BundledAnnotationModel {
        BundledAnnotationModel { key: self.key@, count: self.count }
    }
}

impl DeepView for BundledAnnotation {
    type V = BundledAnnotationModel;

    open spec fn deep_view(&self) -> BundledAnnotationModel {
        self@
    }
}

/// Pre-aggregated relations the server attached to an event.
#[derive(Clone, Debug)]
pub struct BundledRelations {
    /// The event id of a replacement already applied to this event, if any.
    pub replace: Option<String>,
    /// Annotations already applied to this event, if any.
    pub annotation: Option<Vec<BundledAnnotation>>,
}

/// Ghost model of a `BundledRelations`.
pub ghost struct RelationsModel {
    pub replace: Option<Seq<char>>,
    pub annotation: Option<Seq<BundledAnnotationModel>>,
}

impl View for BundledRelations {
    type V = RelationsModel;

    open spec fn view(&self) -> RelationsModel {
        RelationsModel {
            replace: match &self.replace {
                Some(r) => Some(r@),
                None => None,
            },
            annotation: match &self.annotation {
                Some(a) => Some(a.deep_view()),
                None => None,
            },
        }
    }
}

/// Per-event provenance metadata handed over by the driver.
#[derive(Clone, Debug)]
pub struct TimelineEventMetadata {
    pub sender: String,
    pub is_own_event: bool,
    pub relations: Option<BundledRelations>,
    pub encryption_info: Option<String>,
}

/// Ghost model of a `TimelineEventMetadata`.
pub ghost struct MetaModel {
    pub sender: Seq<char>,
    pub is_own_event: bool,
    pub relations: Option<RelationsModel>,
    pub encryption_info: Option<Seq<char>>,
}

impl View for TimelineEventMetadata {
    type V = MetaModel;

    open spec fn view(&self) -> MetaModel {
        MetaModel {
            sender: self.sender@,
            is_own_event: self.is_own_event,
            relations: match &self.relations {
                Some(r) => Some(r@),
                None => None,
            },
            encryption_info: match &self.encryption_info {
                Some(e) => Some(e@),
                None => None,
            },
        }
    }
}

/// Where the driver wants a fresh remote item placed: prepended for backfill,
/// appended for live sync, or replacing the item at an index when an event is
/// re-reconciled after late decryption.
#[derive(Clone, Copy, Debug)]
pub enum TimelineItemPosition {
    Start,
    End,
    Update(usize),
}

/// Ghost model of a `TimelineItemPosition`.
pub ghost enum PositionModel {
    Start,
    End,
    Update(int),
}

impl View for TimelineItemPosition {
    type V = PositionModel;

    open spec fn view(&self) -> PositionModel {
        match self {
            TimelineItemPosition::Start => PositionModel::Start,
            TimelineItemPosition::End => PositionModel::End,
            TimelineItemPosition::Update(i) => PositionModel::Update(*i as int),
        }
    }
}

/// The provenance of one event: locally sent (pending confirmation) or synced
/// from the server.
#[derive(Clone, Debug)]
pub enum Flow {
    Local { txn_id: String },
    Remote {
        event_id: String,
        txn_id: Option<String>,
        origin_server_ts: u64,
        raw_event: String,
        position: TimelineItemPosition,
    },
}

/// Ghost model of a `Flow`.
pub ghost enum FlowModel {
    Local { txn_id: Seq<char> },
    Remote {
        event_id: Seq<char>,
        txn_id: Option<Seq<char>>,
        origin_server_ts: u64,
        raw_event: Seq<char>,
        position: PositionModel,
    },
}

impl View for Flow {
    type V = FlowModel;

    open spec fn view(&self) -> FlowModel {
        match self {
            Flow::Local { txn_id } => FlowModel::Local { txn_id: txn_id@ },
            Flow::Remote { event_id, txn_id, origin_server_ts, raw_event, position } => {
                FlowModel::Remote {
                    event_id: event_id@,
                    txn_id: match txn_id {
                        Some(t) => Some(t@),
                        None => None,
                    },
                    origin_server_ts: *origin_server_ts,
                    raw_event: raw_event@,
                    position: position@,
                }
            },
        }
    }
}

/// The identity key a flow assigns to a fresh item.
pub open spec fn spec_flow_key(flow: FlowModel) -> KeyModel {
    match flow {
        FlowModel::Local { txn_id } => KeyModel::TransactionId(txn_id),
        FlowModel::Remote { event_id, .. } => KeyModel::EventId(event_id),
    }
}

/// The server timestamp a flow carries, if any.
pub open spec fn spec_flow_ts(flow: FlowModel) -> Option<u64> {
    match flow {
        FlowModel::Local { .. } => None,
        FlowModel::Remote { origin_server_ts, .. } => Some(origin_server_ts),
    }
}

/// The raw payload a flow carries, if any.
pub open spec fn spec_flow_raw(flow: FlowModel) -> Option<Seq<char>> {
    match flow {
        FlowModel::Local { .. } => None,
        FlowModel::Remote { raw_event, .. } => Some(raw_event),
    }
}

impl Flow {
    /// The identity key this flow assigns to a fresh item.
    pub fn to_key(&self) -> (r: TimelineKey)
        ensures
            r@ == spec_flow_key(self@),
    {
        match self {
            Flow::Remote { event_id, .. } => TimelineKey::EventId(event_id.clone()),
            Flow::Local { txn_id } => TimelineKey::TransactionId(txn_id.clone()),
        }
    }

    /// The server timestamp this flow carries, if any.
    pub fn origin_server_ts(&self) -> (r: Option<u64>)
        ensures
            r == spec_flow_ts(self@),
    {
        match self {
            Flow::Local { .. } => None,
            Flow::Remote { origin_server_ts, .. } => Some(*origin_server_ts),
        }
    }

    /// The raw payload this flow carries, if any.
    pub fn raw_event(&self) -> (r: Option<String>)
        ensures
            match r {
                Some(s) => spec_flow_raw(self@) == Some(s@),
                None => spec_flow_raw(self@) is None,
            },
    {
        match self {
            Flow::Local { .. } => None,
            Flow::Remote { raw_event, .. } => Some(raw_event.clone()),
        }
    }
}

/// The bundle seeded from the first `n` server-attached annotations: each key
/// maps to its count with senders unavailable; entries with a zero count are
/// not representable in a bundle and are skipped.
pub open spec fn seed_prefix(anns: Seq<BundledAnnotationModel>, n: int) -> ReactionsModel
    decreases n,
    when 0 <= n <= anns.len()
{
    if n <= 0 {
        reactions_empty()
    } else {
        let m = seed_prefix(anns, n - 1);
        let a = anns[n - 1];
        if a.count >= 1 {
            m.insert(
                a.key,
                AggregateModel { count: a.count, senders: DetailsModel::Unavailable },
            )
        } else {
            m
        }
    }
}

/// The bundle seeded from all server-attached annotations.
pub open spec fn spec_seed_annotations(anns: Seq<BundledAnnotationModel>) -> ReactionsModel {
    seed_prefix(anns, anns.len() as int)
}

/// The reaction bundle a fresh message item starts with, given the event's
/// bundled relations.
pub open spec fn spec_initial_reactions(relations: Option<RelationsModel>) -> ReactionsModel {
    match relations {
        Some(r) => match r.annotation {
            Some(anns) => spec_seed_annotations(anns),
            None => reactions_empty(),
        },
        None => reactions_empty(),
    }
}

/// Whether bundled relations already carry a replacement for the event.
pub open spec fn spec_bundled_edited(relations: Option<RelationsModel>) -> bool {
    match relations {
        Some(r) => r.replace is Some,
        None => false,
    }
}

/// The reply reference a message declares, if any.
pub open spec fn spec_reply_of(relates_to: Option<RelationModel>) -> Option<Seq<char>> {
    match relates_to {
        Some(RelationModel::Reply { in_reply_to }) => Some(in_reply_to),
        _ => None,
    }
}

/// The content and seeded reactions of a not-yet-keyed event item.
pub struct NewEventTimelineItem {
    pub content: TimelineItemContent,
    pub reactions: BundledReactions,
}

/// Ghost model of a `NewEventTimelineItem`.
pub ghost struct NewItemModel {
    pub content: ContentModel,
    pub reactions: ReactionsModel,
}

impl View for NewEventTimelineItem {
    type V = NewItemModel;

    open spec fn view(&self) -> NewItemModel {
        NewItemModel { content: self.content@, reactions: self.reactions@ }
    }
}

/// The model of a fresh message item: content from the message's own payload
/// and reply relation, edited flag and seeded reactions from the bundled
/// relations.
pub open spec fn spec_new_message(
    c: RoomMessageModel,
    relations: Option<RelationsModel>,
) -> NewItemModel {
    NewItemModel {
        content: ContentModel::Message(
            MessageModel {
                msgtype: c.msgtype,
                in_reply_to: spec_reply_of(c.relates_to),
                edited: spec_bundled_edited(relations),
            },
        ),
        reactions: spec_initial_reactions(relations),
    }
}

impl NewEventTimelineItem {
    /// A fresh plain-message item.
    pub fn message(c: RoomMessageEventContent, relations: Option<&BundledRelations>) -> (r:
        NewEventTimelineItem)
        ensures
            r@ == spec_new_message(
                c@,
                match relations {
                    Some(rel) => Some(rel@),
                    None => None,
                },
            ),
    {
        let edited = match relations {
            Some(rel) => rel.replace.is_some(),
            None => false,
        };
        let in_reply_to = match c.relates_to {
            Some(MessageRelation::Reply { in_reply_to }) => Some(in_reply_to),
            _ => None,
        };
        let content = TimelineItemContent::Message(
            Message { msgtype: c.msgtype, in_reply_to, edited },
        );
        let mut reactions = BundledReactions::new();
        match relations {
            Some(rel) => match &rel.annotation {
                Some(anns) => {
                    let ghost anns_model = anns.deep_view();
                    let n = anns.len();
                    let mut i: usize = 0;
                    while i < n
                        invariant
                            n == anns.len(),
                            i <= n,
                            anns_model == anns.deep_view(),
                            anns_model.len() == n,
                            forall|j: int|
                                0 <= j < n ==> #[trigger] anns_model[j] == anns[j]@,
                            reactions@ == seed_prefix(anns_model, i as int),
                        decreases n - i,
                    {
                        let a = &anns[i];
                        if a.count >= 1 {
                            reactions.insert(
                                a.key.clone(),
                                ReactionAggregate {
                                    count: a.count,
                                    senders: TimelineDetails::Unavailable,
                                },
                            );
                        }
                        i += 1;
                    }
                },
                None => {},
            },
            None => {},
        }
        NewEventTimelineItem { content, reactions }
    }

    /// A fresh item for an event that could not be decrypted.
    pub fn unable_to_decrypt(content: RoomEncryptedEventContent) -> (r: NewEventTimelineItem)
        ensures
            r@.content == (ContentModel::UnableToDecrypt { payload: content.payload@ }),
            r@.reactions == reactions_empty(),
    {
        Self::from_content(TimelineItemContent::UnableToDecrypt { payload: content.payload })
    }

    /// A fresh tombstone item for a message received already redacted.
    pub fn redacted_message() -> (r: NewEventTimelineItem)
        ensures
            r@.content == ContentModel::RedactedMessage,
            r@.reactions == reactions_empty(),
    {
        Self::from_content(TimelineItemContent::RedactedMessage)
    }

    /// A fresh placeholder item for a message-like event that failed to parse.
    pub fn failed_to_parse_message_like(event_type: String, error: String) -> (r:
        NewEventTimelineItem)
        ensures
            r@.content == (ContentModel::FailedToParseMessageLike {
                event_type: event_type@,
                error: error@,
            }),
            r@.reactions == reactions_empty(),
    {
        Self::from_content(TimelineItemContent::FailedToParseMessageLike { event_type, error })
    }

    /// A fresh placeholder item for a state event that failed to parse.
    pub fn failed_to_parse_state(event_type: String, state_key: String, error: String) -> (r:
        NewEventTimelineItem)
        ensures
            r@.content == (ContentModel::FailedToParseState {
                event_type: event_type@,
                state_key: state_key@,
                error: error@,
            }),
            r@.reactions == reactions_empty(),
    {
        Self::from_content(TimelineItemContent::FailedToParseState { event_type, state_key, error })
    }

    /// A fresh item with the given content and no reactions.
    pub fn from_content(content: TimelineItemContent) -> (r: NewEventTimelineItem)
        ensures
            r@.content == content@,
            r@.reactions == reactions_empty(),
    {
        NewEventTimelineItem { content, reactions: BundledReactions::new() }
    }
}

} // verus!
