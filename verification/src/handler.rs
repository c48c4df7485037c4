//! The timeline state and its reconciler: one aggregate owning the ordered
//! store, the reaction reverse-index and the read-marker bookkeeping, mutated
//! by exactly one event-handling call at a time.

use vstd::prelude::*;
use futures_signals::signal_vec::MutableSignalVec;
use crate::event::AnyMessageLikeEventContent;
use crate::event::EncryptedRelation;
use crate::event::Flow;
use crate::event::FlowModel;
use crate::event::KindModel;
use crate::event::MessageLikeModel;
use crate::event::MessageRelation;
use crate::event::ReactionEventContent;
use crate::event::RelationModel;
use crate::event::Replacement;
use crate::event::ReplacementModel;
use crate::event::RoomEncryptedEventContent;
use crate::event::RoomEncryptedModel;
use crate::event::RoomMessageEventContent;
use crate::event::RoomMessageModel;
use crate::event::RoomRedactionEventContent;
use crate::event::TimelineEventKind;
use crate::event::MetaModel;
use crate::event::NewEventTimelineItem;
use crate::event::NewItemModel;
use crate::event::PositionModel;
use crate::event::TimelineEventMetadata;
use crate::event::spec_flow_key;
use crate::event::spec_new_message;
use crate::event::spec_flow_raw;
use crate::event::spec_flow_ts;
use crate::item::ContentModel;
use crate::item::EventItemModel;
use crate::item::EventTimelineItem;
use crate::item::ItemModel;
use crate::item::KeyModel;
use crate::item::Message;
use crate::item::MessageModel;
use crate::item::TimelineItemContent;
use crate::item::TimelineKey;
use crate::item::spec_key_id;
use crate::item::spec_to_redacted;
use crate::item::TimelineItem;
use crate::item::VirtualTimelineItem;
use crate::item::VirtualModel;
use crate::reactions::AggregateModel;
use crate::reactions::AnnotationModel;
use crate::reactions::DetailsModel;
use crate::reactions::ReactionAggregate;
use crate::reactions::RetractOutcome;
use crate::reactions::TimelineDetails;
use crate::reactions::reactions_empty;
use crate::reactions::spec_apply_possible;
use crate::reactions::spec_apply_reaction;
use crate::reactions::spec_find_sender;
use crate::reactions::spec_retract_changes;
use crate::reactions::spec_retract_reaction;
use crate::reactions::ReactionIndex;
use crate::reactions::ReactionIndexModel;
use crate::reactions::ReactionsModel;
use crate::store::ItemStore;
use crate::store::find_event_by_id;
use crate::store::find_event_by_txn_id;
use crate::store::find_read_marker;
use crate::store::spec_find_event;
use crate::store::spec_find_marker;
use crate::store::spec_find_txn;
use crate::store::spec_move_from_to;
use crate::store::store_get;
use crate::store::store_insert;
use crate::store::store_items;
use crate::store::store_len;
use crate::store::store_move_from_to;
use crate::store::store_new;
use crate::store::store_push;
use crate::store::store_set;
use crate::store::store_signal;

verus! {

/// One structured diagnostic: an anomaly the engine absorbed instead of
/// failing. Kept as data rather than log lines, so callers and tests can
/// assert on them (for instance, that no inconsistency was ever seen).
#[derive(Clone, Debug, PartialEq)]
pub enum Diagnostic {
    /// An event arrived whose identity was already known — a stored item under
    /// the same id, or a reaction the reverse index already tracks; the
    /// duplicate was resolved in place, never counted or inserted twice.
    DuplicateDelivery { event_id: String },
    /// A server echo carried a transaction id, but no pending item matched it.
    EchoWithoutPendingItem { txn_id: String },
    /// A redaction matched a tracked reaction whose target item or bundle
    /// entry no longer exists.
    ReactionIndexOutOfSync { redacts: String },
    /// A tracked reaction pointed at an aggregate whose sender list is not
    /// fully known; only the index entry was dropped.
    IncompleteSenderList { redacts: String },
    /// A tracked reaction's recorded sender was missing from a fully known
    /// sender list; the count was still decremented, the list left alone.
    SenderNotInList { redacts: String },
    /// A redaction found neither a tracked reaction to reverse nor an item to
    /// turn into a tombstone; not an error.
    RedactionAffectedNothing { redacts: String },
}

/// Ghost model of a `Diagnostic`.
pub ghost enum DiagnosticModel {
    DuplicateDelivery { event_id: Seq<char> },
    EchoWithoutPendingItem { txn_id: Seq<char> },
    ReactionIndexOutOfSync { redacts: Seq<char> },
    IncompleteSenderList { redacts: Seq<char> },
    SenderNotInList { redacts: Seq<char> },
    RedactionAffectedNothing { redacts: Seq<char> },
}

impl View for Diagnostic {
    type V = DiagnosticModel;

    open spec fn view(&self) -> DiagnosticModel {
        match self {
            Diagnostic::DuplicateDelivery { event_id } => DiagnosticModel::DuplicateDelivery {
                event_id: event_id@,
            },
            Diagnostic::EchoWithoutPendingItem { txn_id } => {
                DiagnosticModel::EchoWithoutPendingItem { txn_id: txn_id@ }
            },
            Diagnostic::ReactionIndexOutOfSync { redacts } => {
                DiagnosticModel::ReactionIndexOutOfSync { redacts: redacts@ }
            },
            Diagnostic::IncompleteSenderList { redacts } => {
                DiagnosticModel::IncompleteSenderList { redacts: redacts@ }
            },
            Diagnostic::SenderNotInList { redacts } => DiagnosticModel::SenderNotInList {
                redacts: redacts@,
            },
            Diagnostic::RedactionAffectedNothing { redacts } => {
                DiagnosticModel::RedactionAffectedNothing { redacts: redacts@ }
            },
        }
    }
}

impl DeepView for Diagnostic {
    type V = DiagnosticModel;

    open spec fn deep_view(&self) -> DiagnosticModel {
        self@
    }
}

/// Ghost model of the whole timeline state.
pub ghost struct TimelineModel {
    pub items: Seq<ItemModel>,
    pub reaction_map: ReactionIndexModel,
    pub fully_read_event: Option<Seq<char>>,
    pub fully_read_event_in_timeline: bool,
    pub diagnostics: Seq<DiagnosticModel>,
}

/// A well-formed aggregate: at least one reaction, and when the sender list is
/// fully known its length equals the count.
pub open spec fn wf_aggregate(a: AggregateModel) -> bool {
    &&& a.count >= 1
    &&& match a.senders {
        DetailsModel::Ready(senders) => senders.len() == a.count,
        DetailsModel::Unavailable => true,
    }
}

/// A well-formed reaction bundle: every aggregate in it is well-formed.
pub open spec fn wf_reactions(m: ReactionsModel) -> bool {
    forall|k: Seq<char>| m.contains_key(k) ==> wf_aggregate(#[trigger] m[k])
}

/// A well-formed item: an event item's bundle is well-formed.
pub open spec fn wf_item(item: ItemModel) -> bool {
    match item {
        ItemModel::Event(e) => wf_reactions(e.reactions),
        ItemModel::Virtual(_) => true,
    }
}

/// A well-formed store: every item in it is well-formed.
pub open spec fn wf_items(items: Seq<ItemModel>) -> bool {
    forall|i: int| 0 <= i < items.len() ==> wf_item(#[trigger] items[i])
}

/// A well-formed timeline model: every item is well-formed. In particular,
/// whenever a sender list is fully known, its length equals the stored count.
pub open spec fn wf_model(s: TimelineModel) -> bool {
    wf_items(s.items)
}

/// The fresh event item an insertion builds: keyed by the flow, content and
/// seeded reactions from the classified event, everything else from the
/// provenance metadata. The separate server-id field starts empty.
pub open spec fn spec_new_item(meta: MetaModel, flow: FlowModel, new: NewItemModel) -> EventItemModel {
    EventItemModel {
        key: spec_flow_key(flow),
        event_id: None,
        sender: meta.sender,
        content: new.content,
        reactions: new.reactions,
        origin_server_ts: spec_flow_ts(flow),
        is_own: meta.is_own_event,
        encryption_info: meta.encryption_info,
        raw: spec_flow_raw(flow),
    }
}

/// One read-marker placement pass over the store: place the marker right after
/// the fully-read target when the target is present and the marker is not;
/// move the marker forward (never backwards) when both are present; only note
/// the target's absence when the marker is already placed.
pub open spec fn spec_update_read_marker(
    items: Seq<ItemModel>,
    fully_read: Option<Seq<char>>,
    flag: bool,
) -> (Seq<ItemModel>, bool) {
    match fully_read {
        None => (items, flag),
        Some(target) => match (spec_find_marker(items), spec_find_event(items, target)) {
            (Option::None, Option::None) => (items, flag),
            (Option::None, Option::Some(idx)) => (
                items.insert(idx + 1, ItemModel::Virtual(VirtualModel::ReadMarker)),
                true,
            ),
            (Option::Some(_), Option::None) => (items, false),
            (Option::Some(from), Option::Some(to)) => (
                if from < to {
                    spec_move_from_to(items, from, to)
                } else {
                    items
                },
                true,
            ),
        },
    }
}

/// The read-marker pass run after an insertion: only when the target is not
/// yet known to be in the store.
pub open spec fn spec_marker_pass(
    items: Seq<ItemModel>,
    fully_read: Option<Seq<char>>,
    flag: bool,
) -> (Seq<ItemModel>, bool) {
    if !flag {
        spec_update_read_marker(items, fully_read, flag)
    } else {
        (items, flag)
    }
}

/// Where a fresh item lands, before the read-marker pass: a local send is
/// appended; a remote event first supersedes the local-pending item with its
/// transaction id, else replaces the item already carrying its server id in
/// place, else is placed by the driver's positional hint.
pub open spec fn spec_place_item(
    items: Seq<ItemModel>,
    flow: FlowModel,
    item: ItemModel,
) -> Seq<ItemModel> {
    match flow {
        FlowModel::Local { .. } => items.push(item),
        FlowModel::Remote { event_id, txn_id, position, .. } => {
            let txn_hit = match txn_id {
                Some(t) => spec_find_txn(items, t),
                None => None,
            };
            match txn_hit {
                Some(i) => items.update(i, item),
                None => match spec_find_event(items, event_id) {
                    Some(i) => items.update(i, item),
                    None => match position {
                        PositionModel::Start => items.insert(0, item),
                        PositionModel::End => items.push(item),
                        PositionModel::Update(i) => items.update(i, item),
                    },
                },
            }
        },
    }
}

/// The diagnostics one placement records: an echo that found no pending item,
/// and a duplicate delivery replaced in place.
pub open spec fn spec_place_diags(
    items: Seq<ItemModel>,
    flow: FlowModel,
    diags: Seq<DiagnosticModel>,
) -> Seq<DiagnosticModel> {
    match flow {
        FlowModel::Local { .. } => diags,
        FlowModel::Remote { event_id, txn_id, .. } => {
            let txn_hit = match txn_id {
                Some(t) => spec_find_txn(items, t),
                None => None,
            };
            match txn_hit {
                Some(_) => diags,
                None => {
                    let d1 = match txn_id {
                        Some(t) => diags.push(DiagnosticModel::EchoWithoutPendingItem { txn_id: t }),
                        None => diags,
                    };
                    match spec_find_event(items, event_id) {
                        Some(_) => d1.push(DiagnosticModel::DuplicateDelivery { event_id }),
                        None => d1,
                    }
                },
            }
        },
    }
}

/// The whole effect of inserting a fresh event item: placement, then the
/// read-marker pass, with the placement's diagnostics recorded.
pub open spec fn spec_add(
    s: TimelineModel,
    meta: MetaModel,
    flow: FlowModel,
    new: NewItemModel,
) -> TimelineModel {
    let item = ItemModel::Event(spec_new_item(meta, flow, new));
    let placed = spec_place_item(s.items, flow, item);
    let passed = spec_marker_pass(placed, s.fully_read_event, s.fully_read_event_in_timeline);
    TimelineModel {
        items: passed.0,
        fully_read_event_in_timeline: passed.1,
        diagnostics: spec_place_diags(s.items, flow, s.diagnostics),
        ..s
    }
}

/// The reverse index agrees with the bundles it points into: whenever an index
/// entry's target aggregate still has more than one reaction and a fully known
/// sender list, the entry's recorded sender is in that list. The engine puts a
/// sender into the index only when it appends it to the list, so this holds
/// along ordinary sequences — but it is not preserved by every transition: a
/// redacted target that is re-delivered and gathers fresh reactions leaves a
/// stale entry pointing into a rebuilt list without its sender. On such a
/// state a redaction takes the logged count-only path, which trades the exact
/// count/list equality for count correctness; that is why the exact form of
/// the invariant is stated per call under this agreement, while `wf_bound`
/// below is what survives unconditionally.
pub open spec fn index_linked(s: TimelineModel) -> bool {
    forall|rk: KeyModel| #[trigger] s.reaction_map.contains_key(rk) ==> {
        let sender = s.reaction_map[rk].0;
        let rel = s.reaction_map[rk].1;
        match spec_find_event(s.items, rel.event_id) {
            Some(idx) => match s.items[idx] {
                ItemModel::Event(e) => (e.reactions.contains_key(rel.key)
                    && e.reactions[rel.key].count > 1
                    && e.reactions[rel.key].senders is Ready)
                    ==> spec_find_sender(
                    e.reactions[rel.key].senders->Ready_0,
                    sender,
                ) is Some,
                ItemModel::Virtual(_) => true,
            },
            None => true,
        }
    }
}

/// The unconditionally preserved part of the count invariant: every aggregate
/// counts at least one reaction, and a fully known sender list is never
/// shorter than the count. Unlike the exact equality in `wf_aggregate`, this
/// holds across any sequence of calls with no side condition, so callers can
/// chain it.
pub open spec fn wf_aggregate_bound(a: AggregateModel) -> bool {
    &&& a.count >= 1
    &&& match a.senders {
        DetailsModel::Ready(senders) => a.count <= senders.len(),
        DetailsModel::Unavailable => true,
    }
}

/// Every aggregate of a bundle satisfies the chainable bound.
pub open spec fn wf_reactions_bound(m: ReactionsModel) -> bool {
    forall|k: Seq<char>| m.contains_key(k) ==> wf_aggregate_bound(#[trigger] m[k])
}

/// An item whose bundle satisfies the chainable bound.
pub open spec fn wf_item_bound(item: ItemModel) -> bool {
    match item {
        ItemModel::Event(e) => wf_reactions_bound(e.reactions),
        ItemModel::Virtual(_) => true,
    }
}

/// A store whose items all satisfy the chainable bound.
pub open spec fn wf_items_bound(items: Seq<ItemModel>) -> bool {
    forall|i: int| 0 <= i < items.len() ==> wf_item_bound(#[trigger] items[i])
}

/// The chainable timeline invariant: every item's bundle satisfies the bound.
pub open spec fn wf_bound(s: TimelineModel) -> bool {
    wf_items_bound(s.items)
}

/// Whether the driver's positional hint is usable against the current store: a
/// replace-at-index hint must name an existing event item.
pub open spec fn spec_position_ok(s: TimelineModel, flow: FlowModel) -> bool {
    match flow {
        FlowModel::Remote { position: PositionModel::Update(i), .. } => 0 <= i < s.items.len()
            && s.items[i] is Event,
        _ => true,
    }
}

/// Setting a new fully-read target: the target is stored and one placement
/// pass runs against it.
pub open spec fn spec_set_fully_read(s: TimelineModel, target: Option<Seq<char>>) -> TimelineModel {
    let passed = spec_update_read_marker(s.items, target, s.fully_read_event_in_timeline);
    TimelineModel {
        items: passed.0,
        fully_read_event: target,
        fully_read_event_in_timeline: passed.1,
        ..s
    }
}


/// The effect of one reaction event. A reaction whose own identity the reverse
/// index already tracks is a duplicate delivery: the aggregate already counts
/// it, so only its index entry is refreshed and a diagnostic recorded — feeding
/// the same reaction twice counts once. Otherwise the aggregate under the
/// reaction's key on its target grows by this sender (senders recorded only
/// while the list is fully known), and the reverse index records the
/// reaction's own identity. A missing target or a redacted target drops the
/// reaction; a count at the machine limit leaves everything unchanged.
pub open spec fn spec_handle_reaction(
    s: TimelineModel,
    meta: MetaModel,
    flow: FlowModel,
    relates_to: AnnotationModel,
) -> TimelineModel {
    let key = spec_flow_key(flow);
    if s.reaction_map.contains_key(key) {
        // A duplicate delivery of this very reaction: the aggregate already
        // counts it, so only the index entry is refreshed.
        TimelineModel {
            reaction_map: s.reaction_map.insert(key, (meta.sender, relates_to)),
            diagnostics: s.diagnostics.push(
                DiagnosticModel::DuplicateDelivery { event_id: spec_key_id(key) },
            ),
            ..s
        }
    } else {
        spec_apply_new_reaction(s, meta, flow, relates_to)
    }
}

/// The effect of a first-seen reaction event, once it is known not to be a
/// duplicate.
pub open spec fn spec_apply_new_reaction(
    s: TimelineModel,
    meta: MetaModel,
    flow: FlowModel,
    relates_to: AnnotationModel,
) -> TimelineModel {
    match spec_find_event(s.items, relates_to.event_id) {
        None => s,
        Some(idx) => match s.items[idx] {
            ItemModel::Virtual(_) => s,
            ItemModel::Event(e) => {
                if e.content is RedactedMessage {
                    s
                } else if !spec_apply_possible(e.reactions, relates_to.key) {
                    s
                } else {
                    let e2 = EventItemModel {
                        reactions: spec_apply_reaction(e.reactions, relates_to.key, meta.sender),
                        ..e
                    };
                    TimelineModel {
                        items: s.items.update(idx, ItemModel::Event(e2)),
                        reaction_map: s.reaction_map.insert(
                            spec_flow_key(flow),
                            (meta.sender, relates_to),
                        ),
                        ..s
                    }
                }
            },
        },
    }
}

/// The effect of an edit: the target's content is replaced by the new payload,
/// keeping the original reply reference and marking it edited. The edit is
/// dropped when the target is missing, was sent by someone else, or no longer
/// displays an editable message.
pub open spec fn spec_handle_message_edit(
    s: TimelineModel,
    meta: MetaModel,
    replacement: ReplacementModel,
) -> TimelineModel {
    match spec_find_event(s.items, replacement.event_id) {
        None => s,
        Some(idx) => match s.items[idx] {
            ItemModel::Virtual(_) => s,
            ItemModel::Event(e) => {
                if e.sender != meta.sender {
                    s
                } else {
                    match e.content {
                        ContentModel::Message(msg) => {
                            let e2 = EventItemModel {
                                content: ContentModel::Message(
                                    MessageModel {
                                        msgtype: replacement.new_content,
                                        in_reply_to: msg.in_reply_to,
                                        edited: true,
                                    },
                                ),
                                ..e
                            };
                            TimelineModel { items: s.items.update(idx, ItemModel::Event(e2)), ..s }
                        },
                        _ => s,
                    }
                }
            },
        },
    }
}

/// The effect of a room message: a declared replacement routes to edit
/// handling; anything else inserts a fresh message item.
pub open spec fn spec_handle_message(
    s: TimelineModel,
    meta: MetaModel,
    flow: FlowModel,
    c: RoomMessageModel,
) -> (TimelineModel, bool) {
    match c.relates_to {
        Some(RelationModel::Replacement(re)) => (spec_handle_message_edit(s, meta, re), false),
        _ => (spec_add(s, meta, flow, spec_new_message(c, meta.relations)), true),
    }
}

/// The effect of an undecryptable event: an encrypted payload that declares an
/// edit or annotation relation is dropped (it would produce no new item once
/// decrypted either); anything else inserts an undecryptable placeholder.
pub open spec fn spec_handle_encrypted(
    s: TimelineModel,
    meta: MetaModel,
    flow: FlowModel,
    c: RoomEncryptedModel,
) -> (TimelineModel, bool) {
    match c.relates_to {
        Some(EncryptedRelation::Replacement) => (s, false),
        Some(EncryptedRelation::Annotation) => (s, false),
        _ => (
            spec_add(
                s,
                meta,
                flow,
                NewItemModel {
                    content: ContentModel::UnableToDecrypt { payload: c.payload },
                    reactions: reactions_empty(),
                },
            ),
            true,
        ),
    }
}

/// The first, reaction-reversing effect of a redaction: when the redacted
/// identity is a tracked reaction, its index entry goes away unconditionally,
/// and its effect is taken out of its target's aggregate: the count drops by
/// one — the count is authoritative — with the entry disappearing when it
/// reaches zero, and the sender leaves the list when the list is fully known.
/// A fully known list missing the recorded sender is an inconsistency: the
/// decrement still applies, only the list mutation is skipped. A list that is
/// not fully known is left untouched. Either state, like a vacant or missing
/// target, is recorded as a diagnostic.
pub open spec fn spec_redact_reaction(s: TimelineModel, redacts: Seq<char>) -> TimelineModel {
    let key = KeyModel::EventId(redacts);
    if s.reaction_map.contains_key(key) {
        let sender = s.reaction_map[key].0;
        let rel = s.reaction_map[key].1;
        let sm = TimelineModel { reaction_map: s.reaction_map.remove(key), ..s };
        match spec_find_event(sm.items, rel.event_id) {
            None => TimelineModel {
                diagnostics: sm.diagnostics.push(
                    DiagnosticModel::ReactionIndexOutOfSync { redacts },
                ),
                ..sm
            },
            Some(idx) => match sm.items[idx] {
                ItemModel::Virtual(_) => sm,
                ItemModel::Event(e) => {
                    let noted = match spec_retract_diag(e.reactions, rel.key, sender, redacts) {
                        Some(d) => TimelineModel { diagnostics: sm.diagnostics.push(d), ..sm },
                        None => sm,
                    };
                    if !spec_retract_changes(e.reactions, rel.key, sender) {
                        noted
                    } else {
                        let e2 = EventItemModel {
                            reactions: spec_retract_reaction(e.reactions, rel.key, sender),
                            ..e
                        };
                        TimelineModel {
                            items: noted.items.update(idx, ItemModel::Event(e2)),
                            ..noted
                        }
                    }
                },
            },
        }
    } else {
        s
    }
}

/// The diagnostic one reaction retraction records, if any: a vacant bundle
/// entry, a sender list that is not fully known, or a fully known list missing
/// the recorded sender.
pub open spec fn spec_retract_diag(
    m: ReactionsModel,
    key: Seq<char>,
    sender: Seq<char>,
    redacts: Seq<char>,
) -> Option<DiagnosticModel> {
    if !m.contains_key(key) {
        Some(DiagnosticModel::ReactionIndexOutOfSync { redacts })
    } else if m[key].count <= 1 {
        None
    } else {
        match m[key].senders {
            DetailsModel::Unavailable => Some(DiagnosticModel::IncompleteSenderList { redacts }),
            DetailsModel::Ready(sv) => match spec_find_sender(sv, sender) {
                None => Some(DiagnosticModel::SenderNotInList { redacts }),
                Some(_) => None,
            },
        }
    }
}

/// The second, direct effect of a redaction: an item carrying the redacted
/// identity turns into the tombstone in place.
pub open spec fn spec_redact_item(s: TimelineModel, redacts: Seq<char>) -> TimelineModel {
    match spec_find_event(s.items, redacts) {
        None => s,
        Some(idx) => match s.items[idx] {
            ItemModel::Virtual(_) => s,
            ItemModel::Event(e) => TimelineModel {
                items: s.items.update(idx, ItemModel::Event(spec_to_redacted(e))),
                ..s
            },
        },
    }
}

/// Whether the reaction-reversing effect of a redaction changed an item: a
/// tracked entry whose target item and bundle entry exist and whose retraction
/// mutates the aggregate.
pub open spec fn spec_redact_reaction_updates(s: TimelineModel, redacts: Seq<char>) -> bool {
    let key = KeyModel::EventId(redacts);
    &&& s.reaction_map.contains_key(key)
    &&& match spec_find_event(s.items, s.reaction_map[key].1.event_id) {
        Some(idx) => match s.items[idx] {
            ItemModel::Event(e) => spec_retract_changes(
                e.reactions,
                s.reaction_map[key].1.key,
                s.reaction_map[key].0,
            ),
            ItemModel::Virtual(_) => false,
        },
        None => false,
    }
}

/// The whole effect of a redaction: both effects are attempted independently.
/// A redaction that affects nothing — neither a reaction reversed nor an item
/// turned into the tombstone — is not an error; it is recorded as a
/// diagnostic.
pub open spec fn spec_handle_redaction(s: TimelineModel, redacts: Seq<char>) -> TimelineModel {
    let s1 = spec_redact_reaction(s, redacts);
    let s2 = spec_redact_item(s1, redacts);
    if !spec_redact_reaction_updates(s, redacts) && spec_find_event(s1.items, redacts) is None {
        TimelineModel {
            diagnostics: s2.diagnostics.push(
                DiagnosticModel::RedactionAffectedNothing { redacts },
            ),
            ..s2
        }
    } else {
        s2
    }
}

/// The whole effect of one classified event on the timeline state, and whether
/// the call added a new visible item. State changes are deferred no-ops, as is
/// a message-like type the engine does not handle yet.
pub open spec fn spec_handle_event(
    s: TimelineModel,
    meta: MetaModel,
    flow: FlowModel,
    kind: KindModel,
) -> (TimelineModel, bool) {
    match kind {
        KindModel::Message { content } => match content {
            MessageLikeModel::Reaction { relates_to } => (
                spec_handle_reaction(s, meta, flow, relates_to),
                false,
            ),
            MessageLikeModel::RoomMessage(c) => spec_handle_message(s, meta, flow, c),
            MessageLikeModel::RoomEncrypted(c) => spec_handle_encrypted(s, meta, flow, c),
            MessageLikeModel::Other { .. } => (s, false),
        },
        KindModel::RedactedMessage => (
            spec_add(
                s,
                meta,
                flow,
                NewItemModel { content: ContentModel::RedactedMessage, reactions: reactions_empty() },
            ),
            true,
        ),
        KindModel::Redaction { redacts, .. } => (spec_handle_redaction(s, redacts), false),
        KindModel::State => (s, false),
        KindModel::RedactedState => (s, false),
        KindModel::FailedToParseMessageLike { event_type, error } => (
            spec_add(
                s,
                meta,
                flow,
                NewItemModel {
                    content: ContentModel::FailedToParseMessageLike { event_type, error },
                    reactions: reactions_empty(),
                },
            ),
            true,
        ),
        KindModel::FailedToParseState { event_type, state_key, error } => (
            spec_add(
                s,
                meta,
                flow,
                NewItemModel {
                    content: ContentModel::FailedToParseState { event_type, state_key, error },
                    reactions: reactions_empty(),
                },
            ),
            true,
        ),
    }
}

/// The timeline state of one conversation: the ordered store of display items,
/// the reaction reverse-index, and the read-marker bookkeeping. Mutated by one
/// event-handling call at a time; subscribers observe the store as a diff
/// stream.
pub struct Timeline {
    items: ItemStore,
    reaction_map: ReactionIndex,
    fully_read_event: Option<String>,
    fully_read_event_in_timeline: bool,
    diagnostics: Vec<Diagnostic>,
}

impl View for Timeline {
    type V = TimelineModel;

    closed spec fn view(&self) -> TimelineModel {
        TimelineModel {
            items: store_items(self.items),
            reaction_map: self.reaction_map@,
            fully_read_event: match &self.fully_read_event {
                Some(e) => Some(e@),
                None => None,
            },
            fully_read_event_in_timeline: self.fully_read_event_in_timeline,
            diagnostics: self.diagnostics.deep_view(),
        }
    }
}

impl Timeline {
    /// Well-formed: the reverse index holds one entry per reaction identity.
    /// Model-level well-formedness is `wf_model(self@)`.
    pub closed spec fn wf(&self) -> bool {
        self.reaction_map.wf()
    }

    /// An empty timeline with no fully-read target.
    pub fn new() -> (r: Timeline)
        ensures
            r@.items == Seq::<ItemModel>::empty(),
            r@.reaction_map == crate::reactions::index_map_empty(),
            r@.fully_read_event is None,
            !r@.fully_read_event_in_timeline,
            r@.diagnostics == Seq::<DiagnosticModel>::empty(),
            r.wf(),
            wf_model(r@),
            wf_bound(r@),
    {
        let r = Timeline {
            items: store_new(),
            reaction_map: ReactionIndex::new(),
            fully_read_event: None,
            fully_read_event_in_timeline: false,
            diagnostics: Vec::new(),
        };
        proof {
            assert(r@.diagnostics =~= Seq::<DiagnosticModel>::empty());
        }
        r
    }

    /// How many items the store holds.
    pub fn len(&self) -> (n: usize)
        ensures
            n == self@.items.len(),
    {
        store_len(&self.items)
    }

    /// A copy of the item at a position.
    pub fn item_at(&self, i: usize) -> (item: TimelineItem)
        requires
            i < self@.items.len(),
        ensures
            item@ == self@.items[i as int],
    {
        store_get(&self.items, i)
    }

    /// The diff stream subscribers render the timeline from.
    pub fn subscribe(&self) -> MutableSignalVec<TimelineItem> {
        store_signal(&self.items)
    }

    /// The current fully-read target, if any.
    pub fn fully_read_event(&self) -> (r: Option<&String>)
        ensures
            match r {
                Some(e) => self@.fully_read_event == Some(e@),
                None => self@.fully_read_event is None,
            },
    {
        self.fully_read_event.as_ref()
    }

    /// Whether the fully-read target is currently located in the store.
    pub fn fully_read_event_in_timeline(&self) -> (r: bool)
        ensures
            r == self@.fully_read_event_in_timeline,
    {
        self.fully_read_event_in_timeline
    }

    /// The diagnostics recorded so far, oldest first.
    pub fn diagnostics(&self) -> (r: &Vec<Diagnostic>)
        ensures
            r.deep_view() == self@.diagnostics,
    {
        &self.diagnostics
    }

    /// Record one diagnostic.
    fn note(&mut self, d: Diagnostic)
        ensures
            final(self)@ == (TimelineModel {
                diagnostics: old(self)@.diagnostics.push(d@),
                ..old(self)@
            }),
            final(self).wf() == old(self).wf(),
    {
        let ghost pre = self.diagnostics.deep_view();
        let ghost dm = d@;
        self.diagnostics.push(d);
        proof {
            assert(self.diagnostics.deep_view() =~= pre.push(dm));
        }
    }

    /// One read-marker placement pass against the current store.
    fn update_read_marker(&mut self)
        ensures
            ({
                let passed = spec_update_read_marker(
                    old(self)@.items,
                    old(self)@.fully_read_event,
                    old(self)@.fully_read_event_in_timeline,
                );
                final(self)@ == (TimelineModel {
                    items: passed.0,
                    fully_read_event_in_timeline: passed.1,
                    ..old(self)@
                })
            }),
            final(self).wf() == old(self).wf(),
    {
        let target = match &self.fully_read_event {
            Some(t) => t.clone(),
            None => { return; },
        };
        let marker_idx = find_read_marker(&self.items);
        let event_idx = find_event_by_id(&self.items, &target);
        proof {
            crate::store::lemma_find_marker_from(store_items(self.items), 0);
            crate::store::lemma_find_event_from(store_items(self.items), target@, 0);
        }
        match (marker_idx, event_idx) {
            (Option::None, Option::None) => {},
            (Option::None, Option::Some(idx)) => {
                self.fully_read_event_in_timeline = true;
                let n = store_len(&self.items);
                proof {
                    assert(idx < n);
                }
                store_insert(
                    &mut self.items,
                    idx + 1,
                    TimelineItem::Virtual(VirtualTimelineItem::ReadMarker),
                );
            },
            (Option::Some(_), Option::None) => {
                // Keep the marker where it is: a stale position is better than
                // none while the target has yet to arrive.
                self.fully_read_event_in_timeline = false;
            },
            (Option::Some(from), Option::Some(to)) => {
                self.fully_read_event_in_timeline = true;
                // The read marker never moves backwards.
                if from < to {
                    store_move_from_to(&mut self.items, from, to);
                }
            },
        }
    }

    /// Set (or clear) the fully-read target and re-place the marker against it.
    pub fn set_fully_read_event(&mut self, target: Option<String>)
        requires
            old(self).wf(),
        ensures
            final(self).wf(),
            final(self)@ == spec_set_fully_read(
                old(self)@,
                match target {
                    Some(t) => Some(t@),
                    None => None,
                },
            ),
            wf_model(old(self)@) ==> wf_model(final(self)@),
            wf_bound(old(self)@) ==> wf_bound(final(self)@),
            spec_find_marker(old(self)@.items) is Some ==> spec_find_marker(final(self)@.items)
                is Some && spec_find_marker(final(self)@.items)->Some_0 >= spec_find_marker(
                old(self)@.items,
            )->Some_0,
    {
        let ghost pre = self@;
        let ghost target_model: Option<Seq<char>> = match &target {
            Some(t) => Some(t@),
            None => None,
        };
        self.fully_read_event = target;
        self.update_read_marker();
        proof {
            if wf_model(pre) {
                crate::laws::lemma_set_fully_read_preserves_wf(pre, target_model);
            }
            if wf_bound(pre) {
                crate::laws::lemma_set_fully_read_preserves_wf_bound(pre, target_model);
            }
            if spec_find_marker(pre.items) is Some {
                crate::laws::lemma_set_fully_read_marker_monotonic(pre, target_model);
            }
        }
    }

    /// Build the fresh event item and place it: appended for a local send; for
    /// a remote event, superseding the matching local-pending item, else
    /// replacing a duplicate delivery in place, else placed by the driver's
    /// hint. Afterwards, if the fully-read target was not yet known to be in
    /// the store, the read marker is re-placed: the new event may be the one
    /// it was waiting for.
    fn add(&mut self, meta: &TimelineEventMetadata, flow: &Flow, new: NewEventTimelineItem)
        requires
            old(self).wf(),
            spec_position_ok(old(self)@, flow@),
        ensures
            final(self).wf(),
            final(self)@ == spec_add(old(self)@, meta@, flow@, new@),
    {
        let item = TimelineItem::Event(
            crate::item::EventTimelineItem {
                key: flow.to_key(),
                event_id: None,
                sender: meta.sender.clone(),
                content: new.content,
                reactions: new.reactions,
                origin_server_ts: flow.origin_server_ts(),
                is_own: meta.is_own_event,
                encryption_info: match &meta.encryption_info {
                    Some(e) => Some(e.clone()),
                    None => None,
                },
                raw: flow.raw_event(),
            },
        );
        proof {
            assert(item@ == ItemModel::Event(spec_new_item(meta@, flow@, new@)));
        }
        match flow {
            Flow::Local { .. } => {
                store_push(&mut self.items, item);
            },
            Flow::Remote { event_id, txn_id, position, .. } => {
                let txn_hit = match txn_id {
                    Some(txn) => find_event_by_txn_id(&self.items, txn),
                    None => None,
                };
                proof {
                    if let Some(txn) = flow@->Remote_txn_id {
                        crate::store::lemma_find_txn_from(store_items(self.items), txn, 0);
                    }
                }
                match txn_hit {
                    Some(idx) => {
                        // The server's echo of our own earlier send supersedes
                        // its optimistic placeholder in place.
                        store_set(&mut self.items, idx, item);
                    },
                    None => {
                        // With a transaction id but no matching pending item,
                        // the echo falls through to the id search.
                        if let Some(t) = txn_id {
                            self.note(Diagnostic::EchoWithoutPendingItem { txn_id: t.clone() });
                        }
                        let id_hit = find_event_by_id(&self.items, event_id);
                        proof {
                            crate::store::lemma_find_event_from(
                                store_items(self.items),
                                event_id@,
                                0,
                            );
                        }
                        match id_hit {
                            Some(idx) => {
                                // Duplicate delivery: replace in place rather
                                // than inserting a second copy; the stored
                                // position stays authoritative.
                                self.note(Diagnostic::DuplicateDelivery {
                                    event_id: event_id.clone(),
                                });
                                store_set(&mut self.items, idx, item);
                            },
                            None => match position {
                                crate::event::TimelineItemPosition::Start => {
                                    store_insert(&mut self.items, 0, item);
                                },
                                crate::event::TimelineItemPosition::End => {
                                    store_push(&mut self.items, item);
                                },
                                crate::event::TimelineItemPosition::Update(idx) => {
                                    store_set(&mut self.items, *idx, item);
                                },
                            },
                        }
                    },
                }
            },
        }
        if !self.fully_read_event_in_timeline {
            // The newly placed event might be the one the marker is waiting
            // for.
            self.update_read_marker();
        }
    }
}


impl Timeline {
    /// Apply one reaction event: grow the aggregate under the reaction's key
    /// on its target item and record the reverse-index entry. A missing target
    /// is logged and dropped; a reaction on redacted content is ignored.
    fn handle_reaction(&mut self, meta: &TimelineEventMetadata, flow: &Flow, c: ReactionEventContent)
        requires
            old(self).wf(),
        ensures
            final(self).wf(),
            final(self)@ == spec_handle_reaction(old(self)@, meta@, flow@, c.relates_to@),
    {
        let reaction_key = flow.to_key();
        if self.reaction_map.contains(&reaction_key) {
            // Duplicate delivery of this very reaction: its effect is already
            // in the aggregate; refresh the index entry only.
            self.note(Diagnostic::DuplicateDelivery {
                event_id: reaction_key.identifier().clone(),
            });
            self.reaction_map.insert(reaction_key, meta.sender.clone(), c.relates_to);
            return;
        }
        let hit = find_event_by_id(&self.items, &c.relates_to.event_id);
        proof {
            crate::store::lemma_find_event_from(store_items(self.items), c.relates_to.event_id@, 0);
        }
        match hit {
            None => {},
            Some(idx) => {
                let item = store_get(&self.items, idx);
                match item {
                    TimelineItem::Virtual(_) => {
                        proof {
                            assert(false);
                        }
                    },
                    TimelineItem::Event(mut ev) => {
                        match &ev.content {
                            TimelineItemContent::RedactedMessage => {},
                            _ => {
                                let applied = ev.reactions.apply(&c.relates_to.key, &meta.sender);
                                if applied {
                                    store_set(&mut self.items, idx, TimelineItem::Event(ev));
                                    self.reaction_map.insert(
                                        flow.to_key(),
                                        meta.sender.clone(),
                                        c.relates_to,
                                    );
                                }
                            },
                        }
                    },
                }
            },
        }
    }

    /// Apply one edit: replace the target's content with the new payload,
    /// keeping the original reply reference and marking it edited. Dropped when
    /// the target is missing, was sent by someone else, or no longer displays
    /// an editable message.
    fn handle_room_message_edit(&mut self, meta: &TimelineEventMetadata, replacement: Replacement)
        requires
            old(self).wf(),
        ensures
            final(self).wf(),
            final(self)@ == spec_handle_message_edit(old(self)@, meta@, replacement@),
    {
        let hit = find_event_by_id(&self.items, &replacement.event_id);
        proof {
            crate::store::lemma_find_event_from(store_items(self.items), replacement.event_id@, 0);
        }
        match hit {
            None => {},
            Some(idx) => {
                let item = store_get(&self.items, idx);
                match item {
                    TimelineItem::Virtual(_) => {
                        proof {
                            assert(false);
                        }
                    },
                    TimelineItem::Event(ev) => {
                        if !meta.sender.eq(&ev.sender) {
                            // An edit must originate from the sender of the
                            // original event.
                            return;
                        }
                        let EventTimelineItem {
                            key,
                            event_id,
                            sender,
                            content,
                            reactions,
                            origin_server_ts,
                            is_own,
                            encryption_info,
                            raw,
                        } = ev;
                        match content {
                            TimelineItemContent::Message(msg) => {
                                let new_item = EventTimelineItem {
                                    key,
                                    event_id,
                                    sender,
                                    content: TimelineItemContent::Message(
                                        Message {
                                            msgtype: replacement.new_content,
                                            in_reply_to: msg.in_reply_to,
                                            edited: true,
                                        },
                                    ),
                                    reactions,
                                    origin_server_ts,
                                    is_own,
                                    encryption_info,
                                    raw,
                                };
                                store_set(&mut self.items, idx, TimelineItem::Event(new_item));
                            },
                            _ => {
                                // Edits cannot apply to redacted, undecryptable
                                // or unparseable content.
                            },
                        }
                    },
                }
            },
        }
    }

    /// Handle a room message: a declared replacement routes to edit handling;
    /// anything else inserts a fresh message item.
    fn handle_room_message(
        &mut self,
        meta: &TimelineEventMetadata,
        flow: &Flow,
        c: RoomMessageEventContent,
    ) -> (added: bool)
        requires
            old(self).wf(),
            spec_position_ok(old(self)@, flow@),
        ensures
            final(self).wf(),
            ({
                let r = spec_handle_message(old(self)@, meta@, flow@, c@);
                final(self)@ == r.0 && added == r.1
            }),
    {
        let is_edit = match &c.relates_to {
            Some(MessageRelation::Replacement(_)) => true,
            _ => false,
        };
        if is_edit {
            match c.relates_to {
                Some(MessageRelation::Replacement(re)) => {
                    self.handle_room_message_edit(meta, re);
                },
                _ => {
                    proof {
                        assert(false);
                    }
                },
            }
            false
        } else {
            let new = NewEventTimelineItem::message(c, meta.relations.as_ref());
            proof {
                assert(new@ == spec_new_message(c@, meta@.relations));
            }
            self.add(meta, flow, new);
            true
        }
    }

    /// Handle an undecryptable event: one that structurally declares an edit
    /// or annotation relation needs no placeholder; anything else is shown as
    /// an undecryptable item.
    fn handle_room_encrypted(
        &mut self,
        meta: &TimelineEventMetadata,
        flow: &Flow,
        c: RoomEncryptedEventContent,
    ) -> (added: bool)
        requires
            old(self).wf(),
            spec_position_ok(old(self)@, flow@),
        ensures
            final(self).wf(),
            ({
                let r = spec_handle_encrypted(old(self)@, meta@, flow@, c@);
                final(self)@ == r.0 && added == r.1
            }),
    {
        match c.relates_to {
            Some(EncryptedRelation::Replacement) | Some(EncryptedRelation::Annotation) => {
                // These would not produce a new timeline item when decrypted
                // either.
                false
            },
            _ => {
                self.add(meta, flow, NewEventTimelineItem::unable_to_decrypt(c));
                true
            },
        }
    }

    /// Handle a redaction: reverse the redacted reaction's effect (when the
    /// target of the redaction is a tracked reaction, preferring count
    /// correctness wherever the sender list cannot be mutated safely), and
    /// turn an item carrying the redacted identity into the tombstone. Both
    /// effects are attempted; a redaction that affects nothing is not an
    /// error.
    fn handle_redaction(&mut self, redacts: &String, _content: RoomRedactionEventContent)
        requires
            old(self).wf(),
        ensures
            final(self).wf(),
            final(self)@ == spec_handle_redaction(old(self)@, redacts@),
    {
        let mut reaction_reversed = false;
        let removed = self.reaction_map.remove(&TimelineKey::EventId(redacts.clone()));
        match removed {
            Some((sender, rel)) => {
                let hit = find_event_by_id(&self.items, &rel.event_id);
                proof {
                    crate::store::lemma_find_event_from(store_items(self.items), rel.event_id@, 0);
                }
                match hit {
                    None => {
                        self.note(Diagnostic::ReactionIndexOutOfSync { redacts: redacts.clone() });
                    },
                    Some(idx) => {
                        let item = store_get(&self.items, idx);
                        match item {
                            TimelineItem::Virtual(_) => {
                                proof {
                                    assert(false);
                                }
                            },
                            TimelineItem::Event(mut ev) => {
                                let outcome = ev.reactions.retract(&rel.key, &sender);
                                match outcome {
                                    RetractOutcome::NoEntry => {
                                        self.note(Diagnostic::ReactionIndexOutOfSync {
                                            redacts: redacts.clone(),
                                        });
                                    },
                                    RetractOutcome::ListIncomplete => {
                                        self.note(Diagnostic::IncompleteSenderList {
                                            redacts: redacts.clone(),
                                        });
                                    },
                                    RetractOutcome::SenderMissing => {
                                        self.note(Diagnostic::SenderNotInList {
                                            redacts: redacts.clone(),
                                        });
                                        store_set(&mut self.items, idx, TimelineItem::Event(ev));
                                        reaction_reversed = true;
                                    },
                                    RetractOutcome::Removed => {
                                        store_set(&mut self.items, idx, TimelineItem::Event(ev));
                                        reaction_reversed = true;
                                    },
                                    RetractOutcome::SenderRemoved => {
                                        store_set(&mut self.items, idx, TimelineItem::Event(ev));
                                        reaction_reversed = true;
                                    },
                                }
                            },
                        }
                    },
                }
            },
            None => {},
        }
        // Independently, an item in the store may itself carry the redacted
        // identity: transform it into the tombstone in place.
        let hit2 = find_event_by_id(&self.items, redacts);
        proof {
            crate::store::lemma_find_event_from(store_items(self.items), redacts@, 0);
        }
        match hit2 {
            None => {
                if !reaction_reversed {
                    // Neither effect found a target.
                    self.note(Diagnostic::RedactionAffectedNothing { redacts: redacts.clone() });
                }
            },
            Some(idx) => {
                let item = store_get(&self.items, idx);
                match item {
                    TimelineItem::Virtual(_) => {
                        proof {
                            assert(false);
                        }
                    },
                    TimelineItem::Event(ev) => {
                        store_set(&mut self.items, idx, TimelineItem::Event(ev.to_redacted()));
                    },
                }
            },
        }
    }

    /// Handle one classified event with exclusive access to the state, and say
    /// whether the call added a new visible item. Nothing is propagated as a
    /// failure: anomalies are absorbed and the timeline stays renderable.
    pub fn handle_event(
        &mut self,
        meta: &TimelineEventMetadata,
        flow: &Flow,
        kind: TimelineEventKind,
    ) -> (added: bool)
        requires
            old(self).wf(),
            spec_position_ok(old(self)@, flow@),
        ensures
            final(self).wf(),
            ({
                let r = spec_handle_event(old(self)@, meta@, flow@, kind@);
                final(self)@ == r.0 && added == r.1
            }),
            wf_model(old(self)@) && index_linked(old(self)@) ==> wf_model(final(self)@),
            wf_bound(old(self)@) ==> wf_bound(final(self)@),
            spec_find_marker(old(self)@.items) is Some ==> spec_find_marker(final(self)@.items)
                is Some && spec_find_marker(final(self)@.items)->Some_0 >= spec_find_marker(
                old(self)@.items,
            )->Some_0,
    {
        let ghost pre = self@;
        let ghost kind_model = kind@;
        let result = match kind {
            TimelineEventKind::Message { content } => match content {
                AnyMessageLikeEventContent::Reaction(c) => {
                    self.handle_reaction(meta, flow, c);
                    false
                },
                AnyMessageLikeEventContent::RoomMessage(c) => {
                    self.handle_room_message(meta, flow, c)
                },
                AnyMessageLikeEventContent::RoomEncrypted(c) => {
                    self.handle_room_encrypted(meta, flow, c)
                },
                AnyMessageLikeEventContent::Other { .. } => {
                    // A message-like type this engine does not handle yet.
                    false
                },
            },
            TimelineEventKind::RedactedMessage => {
                self.add(meta, flow, NewEventTimelineItem::redacted_message());
                true
            },
            TimelineEventKind::Redaction { redacts, content } => {
                self.handle_redaction(&redacts, content);
                false
            },
            TimelineEventKind::State | TimelineEventKind::RedactedState => {
                // State changes are deferred: a no-op placeholder.
                false
            },
            TimelineEventKind::FailedToParseMessageLike { event_type, error } => {
                self.add(
                    meta,
                    flow,
                    NewEventTimelineItem::failed_to_parse_message_like(event_type, error),
                );
                true
            },
            TimelineEventKind::FailedToParseState { event_type, state_key, error } => {
                self.add(
                    meta,
                    flow,
                    NewEventTimelineItem::failed_to_parse_state(event_type, state_key, error),
                );
                true
            },
        };
        proof {
            if wf_model(pre) && index_linked(pre) {
                crate::laws::lemma_handle_event_preserves_wf(pre, meta@, flow@, kind_model);
            }
            if wf_bound(pre) {
                crate::laws::lemma_handle_event_preserves_wf_bound(pre, meta@, flow@, kind_model);
            }
            if spec_find_marker(pre.items) is Some {
                crate::laws::lemma_read_marker_monotonic(pre, meta@, flow@, kind_model);
            }
        }
        result
    }
}

} // verus!
