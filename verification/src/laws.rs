//! The engine's laws: proofs that every event-handling transition keeps the
//! state well-formed and never moves the read marker backwards, and that
//! duplicate deliveries, local-echo reconciliation and repeated redactions
//! reconcile to a single, stable store.

use vstd::prelude::*;
use crate::event::FlowModel;
use crate::event::KindModel;
use crate::event::MessageLikeModel;
use crate::event::MetaModel;
use crate::event::NewItemModel;
use crate::event::PositionModel;
use crate::event::RelationModel;
use crate::event::RelationsModel;
use crate::event::ReplacementModel;
use crate::event::BundledAnnotationModel;
use crate::event::EncryptedRelation;
use crate::event::seed_prefix;
use crate::event::spec_initial_reactions;
use crate::event::spec_new_message;
use crate::handler::TimelineModel;
use crate::handler::spec_add;
use crate::handler::spec_handle_event;
use crate::handler::spec_handle_message;
use crate::handler::spec_handle_message_edit;
use crate::handler::spec_handle_reaction;
use crate::handler::spec_handle_redaction;
use crate::handler::spec_marker_pass;
use crate::handler::spec_new_item;
use crate::handler::spec_place_item;
use crate::handler::index_linked;
use crate::handler::spec_position_ok;
use crate::handler::spec_redact_item;
use crate::handler::spec_redact_reaction;
use crate::handler::spec_set_fully_read;
use crate::handler::spec_update_read_marker;
use crate::handler::wf_aggregate;
use crate::handler::wf_aggregate_bound;
use crate::handler::wf_bound;
use crate::handler::wf_item_bound;
use crate::handler::wf_items_bound;
use crate::handler::wf_reactions_bound;
use crate::handler::wf_item;
use crate::handler::wf_items;
use crate::handler::wf_model;
use crate::handler::wf_reactions;
use crate::item::ItemModel;
use crate::item::KeyModel;
use crate::item::spec_effective_event_id;
use crate::item::spec_has_txn_id;
use crate::item::spec_is_virtual;
use crate::item::spec_to_redacted;
use crate::reactions::AggregateModel;
use crate::reactions::DetailsModel;
use crate::reactions::ReactionsModel;
use crate::reactions::lemma_find_sender_from;
use crate::reactions::spec_find_sender;
use crate::store::lemma_find_event_from;
use crate::store::lemma_find_event_from_is;
use crate::store::lemma_find_marker_from;
use crate::store::lemma_find_marker_from_is;
use crate::store::lemma_find_txn_from;
use crate::store::lemma_find_txn_from_is;
use crate::store::spec_find_event;
use crate::store::spec_find_marker;
use crate::store::spec_find_txn;
use crate::store::spec_move_from_to;

verus! {

// ---------------------------------------------------------------------------
// Well-formedness is preserved by every transition (the reaction count
// invariant: whenever a sender list is fully known, its length equals the
// stored count).
// ---------------------------------------------------------------------------

proof fn lemma_wf_reactions_insert(m: ReactionsModel, k: Seq<char>, v: AggregateModel)
    requires
        wf_reactions(m),
        wf_aggregate(v),
    ensures
        wf_reactions(m.insert(k, v)),
{
    assert forall|k2: Seq<char>| m.insert(k, v).contains_key(k2) implies wf_aggregate(
        #[trigger] m.insert(k, v)[k2],
    ) by {
        if k2 != k {
            assert(m.insert(k, v)[k2] == m[k2]);
        }
    }
}

proof fn lemma_wf_reactions_remove(m: ReactionsModel, k: Seq<char>)
    requires
        wf_reactions(m),
    ensures
        wf_reactions(m.remove(k)),
{
    assert forall|k2: Seq<char>| m.remove(k).contains_key(k2) implies wf_aggregate(
        #[trigger] m.remove(k)[k2],
    ) by {
        assert(m.remove(k)[k2] == m[k2]);
    }
}

proof fn lemma_wf_seed_prefix(anns: Seq<BundledAnnotationModel>, n: int)
    requires
        0 <= n <= anns.len(),
    ensures
        wf_reactions(seed_prefix(anns, n)),
    decreases n,
{
    if n <= 0 {
        assert(wf_reactions(seed_prefix(anns, 0)));
    } else {
        lemma_wf_seed_prefix(anns, n - 1);
        let a = anns[n - 1];
        if a.count >= 1 {
            lemma_wf_reactions_insert(
                seed_prefix(anns, n - 1),
                a.key,
                AggregateModel { count: a.count, senders: DetailsModel::Unavailable },
            );
        }
    }
}

proof fn lemma_wf_initial_reactions(relations: Option<RelationsModel>)
    ensures
        wf_reactions(spec_initial_reactions(relations)),
{
    match relations {
        Some(r) => match r.annotation {
            Some(anns) => {
                lemma_wf_seed_prefix(anns, anns.len() as int);
            },
            None => {},
        },
        None => {},
    }
}

proof fn lemma_wf_items_update(items: Seq<ItemModel>, j: int, item: ItemModel)
    requires
        wf_items(items),
        wf_item(item),
        0 <= j < items.len(),
    ensures
        wf_items(items.update(j, item)),
{
    assert forall|i: int| 0 <= i < items.update(j, item).len() implies wf_item(
        #[trigger] items.update(j, item)[i],
    ) by {
        if i != j {
            assert(items.update(j, item)[i] == items[i]);
        }
    }
}

proof fn lemma_wf_items_push(items: Seq<ItemModel>, item: ItemModel)
    requires
        wf_items(items),
        wf_item(item),
    ensures
        wf_items(items.push(item)),
{
    assert forall|i: int| 0 <= i < items.push(item).len() implies wf_item(
        #[trigger] items.push(item)[i],
    ) by {
        if i < items.len() {
            assert(items.push(item)[i] == items[i]);
        }
    }
}

proof fn lemma_wf_items_insert(items: Seq<ItemModel>, j: int, item: ItemModel)
    requires
        wf_items(items),
        wf_item(item),
        0 <= j <= items.len(),
    ensures
        wf_items(items.insert(j, item)),
{
    items.insert_ensures(j, item);
    assert forall|i: int| 0 <= i < items.insert(j, item).len() implies wf_item(
        #[trigger] items.insert(j, item)[i],
    ) by {
        if i < j {
            assert(items.insert(j, item)[i] == items[i]);
        } else if i > j {
            assert(items.insert(j, item)[i] == items[i - 1]);
        }
    }
}

proof fn lemma_wf_items_move(items: Seq<ItemModel>, from: int, to: int)
    requires
        wf_items(items),
        0 <= from < items.len(),
        0 <= to < items.len(),
    ensures
        wf_items(spec_move_from_to(items, from, to)),
{
    let removed = items.remove(from);
    items.remove_ensures(from);
    assert forall|i: int| 0 <= i < removed.len() implies wf_item(#[trigger] removed[i]) by {
        if i < from {
            assert(removed[i] == items[i]);
        } else {
            assert(removed[i] == items[i + 1]);
        }
    }
    lemma_wf_items_insert(removed, to, items[from]);
}

proof fn lemma_wf_update_read_marker(items: Seq<ItemModel>, fr: Option<Seq<char>>, flag: bool)
    requires
        wf_items(items),
    ensures
        wf_items(spec_update_read_marker(items, fr, flag).0),
{
    match fr {
        None => {},
        Some(target) => {
            lemma_find_marker_from(items, 0);
            lemma_find_event_from(items, target, 0);
            match (spec_find_marker(items), spec_find_event(items, target)) {
                (Option::None, Option::Some(idx)) => {
                    lemma_wf_items_insert(items, idx + 1, ItemModel::Virtual(
                        crate::item::VirtualModel::ReadMarker,
                    ));
                },
                (Option::Some(from), Option::Some(to)) => {
                    if from < to {
                        lemma_wf_items_move(items, from, to);
                    }
                },
                _ => {},
            }
        },
    }
}

proof fn lemma_wf_add(s: TimelineModel, meta: MetaModel, flow: FlowModel, new: NewItemModel)
    requires
        wf_model(s),
        wf_reactions(new.reactions),
        spec_position_ok(s, flow),
    ensures
        wf_model(spec_add(s, meta, flow, new)),
{
    let item = ItemModel::Event(spec_new_item(meta, flow, new));
    assert(wf_item(item));
    let placed = spec_place_item(s.items, flow, item);
    match flow {
        FlowModel::Local { .. } => {
            lemma_wf_items_push(s.items, item);
        },
        FlowModel::Remote { event_id, txn_id, position, .. } => {
            let txn_hit = match txn_id {
                Some(t) => spec_find_txn(s.items, t),
                None => None,
            };
            if let Some(t) = txn_id {
                lemma_find_txn_from(s.items, t, 0);
            }
            match txn_hit {
                Some(i) => {
                    lemma_wf_items_update(s.items, i, item);
                },
                None => {
                    lemma_find_event_from(s.items, event_id, 0);
                    match spec_find_event(s.items, event_id) {
                        Some(i) => {
                            lemma_wf_items_update(s.items, i, item);
                        },
                        None => match position {
                            PositionModel::Start => {
                                lemma_wf_items_insert(s.items, 0, item);
                            },
                            PositionModel::End => {
                                lemma_wf_items_push(s.items, item);
                            },
                            PositionModel::Update(i) => {
                                lemma_wf_items_update(s.items, i, item);
                            },
                        },
                    }
                },
            }
        },
    }
    assert(wf_items(placed));
    if !s.fully_read_event_in_timeline {
        lemma_wf_update_read_marker(placed, s.fully_read_event, s.fully_read_event_in_timeline);
    }
}

proof fn lemma_wf_handle_reaction(
    s: TimelineModel,
    meta: MetaModel,
    flow: FlowModel,
    relates_to: crate::reactions::AnnotationModel,
)
    requires
        wf_model(s),
    ensures
        wf_model(spec_handle_reaction(s, meta, flow, relates_to)),
{
    lemma_find_event_from(s.items, relates_to.event_id, 0);
    match spec_find_event(s.items, relates_to.event_id) {
        None => {},
        Some(idx) => match s.items[idx] {
            ItemModel::Virtual(_) => {},
            ItemModel::Event(e) => {
                if !(e.content is RedactedMessage) {
                    assert(wf_item(s.items[idx]));
                    let agg = if e.reactions.contains_key(relates_to.key) {
                        e.reactions[relates_to.key]
                    } else {
                        AggregateModel { count: 0, senders: DetailsModel::Ready(Seq::empty()) }
                    };
                    if agg.count != u64::MAX {
                        let agg2 = AggregateModel {
                            count: (agg.count + 1) as u64,
                            senders: match agg.senders {
                                DetailsModel::Unavailable => DetailsModel::Unavailable,
                                DetailsModel::Ready(sv) => DetailsModel::Ready(
                                    sv.push(meta.sender),
                                ),
                            },
                        };
                        assert(wf_aggregate(agg2));
                        lemma_wf_reactions_insert(e.reactions, relates_to.key, agg2);
                        let e2 = crate::item::EventItemModel {
                            reactions: e.reactions.insert(relates_to.key, agg2),
                            ..e
                        };
                        lemma_wf_items_update(s.items, idx, ItemModel::Event(e2));
                    }
                }
            },
        },
    }
}

proof fn lemma_wf_handle_edit(s: TimelineModel, meta: MetaModel, replacement: ReplacementModel)
    requires
        wf_model(s),
    ensures
        wf_model(spec_handle_message_edit(s, meta, replacement)),
{
    lemma_find_event_from(s.items, replacement.event_id, 0);
    match spec_find_event(s.items, replacement.event_id) {
        None => {},
        Some(idx) => match s.items[idx] {
            ItemModel::Virtual(_) => {},
            ItemModel::Event(e) => {
                if e.sender == meta.sender {
                    match e.content {
                        crate::item::ContentModel::Message(msg) => {
                            assert(wf_item(s.items[idx]));
                            let e2 = crate::item::EventItemModel {
                                content: crate::item::ContentModel::Message(
                                    crate::item::MessageModel {
                                        msgtype: replacement.new_content,
                                        in_reply_to: msg.in_reply_to,
                                        edited: true,
                                    },
                                ),
                                ..e
                            };
                            lemma_wf_items_update(s.items, idx, ItemModel::Event(e2));
                        },
                        _ => {},
                    }
                }
            },
        },
    }
}

proof fn lemma_wf_redact_reaction(s: TimelineModel, redacts: Seq<char>)
    requires
        wf_model(s),
        index_linked(s),
    ensures
        wf_model(spec_redact_reaction(s, redacts)),
{
    let key = KeyModel::EventId(redacts);
    if s.reaction_map.contains_key(key) {
        let sender = s.reaction_map[key].0;
        let rel = s.reaction_map[key].1;
        let sm = TimelineModel { reaction_map: s.reaction_map.remove(key), ..s };
        lemma_find_event_from(sm.items, rel.event_id, 0);
        match spec_find_event(sm.items, rel.event_id) {
            None => {},
            Some(idx) => match sm.items[idx] {
                ItemModel::Virtual(_) => {},
                ItemModel::Event(e) => {
                    assert(wf_item(sm.items[idx]));
                    if e.reactions.contains_key(rel.key) {
                        let agg = e.reactions[rel.key];
                        assert(wf_aggregate(agg));
                        if agg.count <= 1 {
                            lemma_wf_reactions_remove(e.reactions, rel.key);
                            let e2 = crate::item::EventItemModel {
                                reactions: e.reactions.remove(rel.key),
                                ..e
                            };
                            lemma_wf_items_update(sm.items, idx, ItemModel::Event(e2));
                        } else {
                            match agg.senders {
                                DetailsModel::Unavailable => {},
                                DetailsModel::Ready(sv) => {
                                    lemma_find_sender_from(sv, sender, 0);
                                    match spec_find_sender(sv, sender) {
                                        None => {
                                            // Dead under the linkage invariant:
                                            // the index records a sender only
                                            // when it was appended to the list.
                                            assert(s.reaction_map.contains_key(key));
                                            assert(false);
                                        },
                                        Some(si) => {
                                            let agg2 = AggregateModel {
                                                count: (agg.count - 1) as u64,
                                                senders: DetailsModel::Ready(sv.remove(si)),
                                            };
                                            assert(sv.remove(si).len() == sv.len() - 1);
                                            assert(wf_aggregate(agg2));
                                            lemma_wf_reactions_insert(e.reactions, rel.key, agg2);
                                            let e2 = crate::item::EventItemModel {
                                                reactions: e.reactions.insert(rel.key, agg2),
                                                ..e
                                            };
                                            lemma_wf_items_update(
                                                sm.items,
                                                idx,
                                                ItemModel::Event(e2),
                                            );
                                        },
                                    }
                                },
                            }
                        }
                    }
                },
            },
        }
    }
}

proof fn lemma_wf_redact_item(s: TimelineModel, redacts: Seq<char>)
    requires
        wf_model(s),
    ensures
        wf_model(spec_redact_item(s, redacts)),
{
    lemma_find_event_from(s.items, redacts, 0);
    match spec_find_event(s.items, redacts) {
        None => {},
        Some(idx) => match s.items[idx] {
            ItemModel::Virtual(_) => {},
            ItemModel::Event(e) => {
                assert(wf_reactions(spec_to_redacted(e).reactions));
                lemma_wf_items_update(s.items, idx, ItemModel::Event(spec_to_redacted(e)));
            },
        },
    }
}

/// The reaction count invariant, as preservation of well-formedness: from any
/// well-formed state whose reverse index agrees with its bundles, handling any
/// event leaves every item well-formed; in particular, wherever a sender list
/// is fully known, its length equals the stored count. Without the linkage, a
/// redaction of an index entry whose recorded sender has dropped out of a
/// fully known list decrements the authoritative count while keeping the list,
/// exactly as the logged-inconsistency rule prescribes.
pub proof fn lemma_handle_event_preserves_wf(
    s: TimelineModel,
    meta: MetaModel,
    flow: FlowModel,
    kind: KindModel,
)
    requires
        wf_model(s),
        index_linked(s),
        spec_position_ok(s, flow),
    ensures
        wf_model(spec_handle_event(s, meta, flow, kind).0),
{
    let empty = crate::reactions::reactions_empty();
    assert(wf_reactions(empty));
    match kind {
        KindModel::Message { content } => match content {
            MessageLikeModel::Reaction { relates_to } => {
                lemma_wf_handle_reaction(s, meta, flow, relates_to);
            },
            MessageLikeModel::RoomMessage(c) => match c.relates_to {
                Some(RelationModel::Replacement(re)) => {
                    lemma_wf_handle_edit(s, meta, re);
                },
                _ => {
                    lemma_wf_initial_reactions(meta.relations);
                    lemma_wf_add(s, meta, flow, spec_new_message(c, meta.relations));
                },
            },
            MessageLikeModel::RoomEncrypted(c) => match c.relates_to {
                Some(EncryptedRelation::Replacement) => {},
                Some(EncryptedRelation::Annotation) => {},
                _ => {
                    lemma_wf_add(
                        s,
                        meta,
                        flow,
                        NewItemModel {
                            content: crate::item::ContentModel::UnableToDecrypt {
                                payload: c.payload,
                            },
                            reactions: empty,
                        },
                    );
                },
            },
            MessageLikeModel::Other { .. } => {},
        },
        KindModel::RedactedMessage => {
            lemma_wf_add(
                s,
                meta,
                flow,
                NewItemModel { content: crate::item::ContentModel::RedactedMessage, reactions: empty },
            );
        },
        KindModel::Redaction { redacts, .. } => {
            lemma_wf_redact_reaction(s, redacts);
            lemma_wf_redact_item(spec_redact_reaction(s, redacts), redacts);
        },
        KindModel::State => {},
        KindModel::RedactedState => {},
        KindModel::FailedToParseMessageLike { event_type, error } => {
            lemma_wf_add(
                s,
                meta,
                flow,
                NewItemModel {
                    content: crate::item::ContentModel::FailedToParseMessageLike {
                        event_type,
                        error,
                    },
                    reactions: empty,
                },
            );
        },
        KindModel::FailedToParseState { event_type, state_key, error } => {
            lemma_wf_add(
                s,
                meta,
                flow,
                NewItemModel {
                    content: crate::item::ContentModel::FailedToParseState {
                        event_type,
                        state_key,
                        error,
                    },
                    reactions: empty,
                },
            );
        },
    }
}

/// Setting a fully-read target also keeps the state well-formed.
pub proof fn lemma_set_fully_read_preserves_wf(s: TimelineModel, target: Option<Seq<char>>)
    requires
        wf_model(s),
    ensures
        wf_model(spec_set_fully_read(s, target)),
{
    lemma_wf_update_read_marker(s.items, target, s.fully_read_event_in_timeline);
}



// ---------------------------------------------------------------------------
// The chainable bound (count at least one, never above a fully known list's
// length) is preserved unconditionally by every transition.
// ---------------------------------------------------------------------------

proof fn lemma_wfb_reactions_insert(m: ReactionsModel, k: Seq<char>, v: AggregateModel)
    requires
        wf_reactions_bound(m),
        wf_aggregate_bound(v),
    ensures
        wf_reactions_bound(m.insert(k, v)),
{
    assert forall|k2: Seq<char>| m.insert(k, v).contains_key(k2) implies wf_aggregate_bound(
        #[trigger] m.insert(k, v)[k2],
    ) by {
        if k2 != k {
            assert(m.insert(k, v)[k2] == m[k2]);
        }
    }
}

proof fn lemma_wfb_reactions_remove(m: ReactionsModel, k: Seq<char>)
    requires
        wf_reactions_bound(m),
    ensures
        wf_reactions_bound(m.remove(k)),
{
    assert forall|k2: Seq<char>| m.remove(k).contains_key(k2) implies wf_aggregate_bound(
        #[trigger] m.remove(k)[k2],
    ) by {
        assert(m.remove(k)[k2] == m[k2]);
    }
}

proof fn lemma_wfb_seed_prefix(anns: Seq<BundledAnnotationModel>, n: int)
    requires
        0 <= n <= anns.len(),
    ensures
        wf_reactions_bound(seed_prefix(anns, n)),
    decreases n,
{
    if n <= 0 {
        assert(wf_reactions_bound(seed_prefix(anns, 0)));
    } else {
        lemma_wfb_seed_prefix(anns, n - 1);
        let a = anns[n - 1];
        if a.count >= 1 {
            lemma_wfb_reactions_insert(
                seed_prefix(anns, n - 1),
                a.key,
                AggregateModel { count: a.count, senders: DetailsModel::Unavailable },
            );
        }
    }
}

proof fn lemma_wfb_initial_reactions(relations: Option<RelationsModel>)
    ensures
        wf_reactions_bound(spec_initial_reactions(relations)),
{
    match relations {
        Some(r) => match r.annotation {
            Some(anns) => {
                lemma_wfb_seed_prefix(anns, anns.len() as int);
            },
            None => {},
        },
        None => {},
    }
}

proof fn lemma_wfb_items_update(items: Seq<ItemModel>, j: int, item: ItemModel)
    requires
        wf_items_bound(items),
        wf_item_bound(item),
        0 <= j < items.len(),
    ensures
        wf_items_bound(items.update(j, item)),
{
    assert forall|i: int| 0 <= i < items.update(j, item).len() implies wf_item_bound(
        #[trigger] items.update(j, item)[i],
    ) by {
        if i != j {
            assert(items.update(j, item)[i] == items[i]);
        }
    }
}

proof fn lemma_wfb_items_push(items: Seq<ItemModel>, item: ItemModel)
    requires
        wf_items_bound(items),
        wf_item_bound(item),
    ensures
        wf_items_bound(items.push(item)),
{
    assert forall|i: int| 0 <= i < items.push(item).len() implies wf_item_bound(
        #[trigger] items.push(item)[i],
    ) by {
        if i < items.len() {
            assert(items.push(item)[i] == items[i]);
        }
    }
}

proof fn lemma_wfb_items_insert(items: Seq<ItemModel>, j: int, item: ItemModel)
    requires
        wf_items_bound(items),
        wf_item_bound(item),
        0 <= j <= items.len(),
    ensures
        wf_items_bound(items.insert(j, item)),
{
    items.insert_ensures(j, item);
    assert forall|i: int| 0 <= i < items.insert(j, item).len() implies wf_item_bound(
        #[trigger] items.insert(j, item)[i],
    ) by {
        if i < j {
            assert(items.insert(j, item)[i] == items[i]);
        } else if i > j {
            assert(items.insert(j, item)[i] == items[i - 1]);
        }
    }
}

proof fn lemma_wfb_items_move(items: Seq<ItemModel>, from: int, to: int)
    requires
        wf_items_bound(items),
        0 <= from < items.len(),
        0 <= to < items.len(),
    ensures
        wf_items_bound(spec_move_from_to(items, from, to)),
{
    let removed = items.remove(from);
    items.remove_ensures(from);
    assert forall|i: int| 0 <= i < removed.len() implies wf_item_bound(#[trigger] removed[i]) by {
        if i < from {
            assert(removed[i] == items[i]);
        } else {
            assert(removed[i] == items[i + 1]);
        }
    }
    lemma_wfb_items_insert(removed, to, items[from]);
}

proof fn lemma_wfb_update_read_marker(items: Seq<ItemModel>, fr: Option<Seq<char>>, flag: bool)
    requires
        wf_items_bound(items),
    ensures
        wf_items_bound(spec_update_read_marker(items, fr, flag).0),
{
    match fr {
        None => {},
        Some(target) => {
            lemma_find_marker_from(items, 0);
            lemma_find_event_from(items, target, 0);
            match (spec_find_marker(items), spec_find_event(items, target)) {
                (Option::None, Option::Some(idx)) => {
                    lemma_wfb_items_insert(items, idx + 1, ItemModel::Virtual(
                        crate::item::VirtualModel::ReadMarker,
                    ));
                },
                (Option::Some(from), Option::Some(to)) => {
                    if from < to {
                        lemma_wfb_items_move(items, from, to);
                    }
                },
                _ => {},
            }
        },
    }
}

proof fn lemma_wfb_add(s: TimelineModel, meta: MetaModel, flow: FlowModel, new: NewItemModel)
    requires
        wf_bound(s),
        wf_reactions_bound(new.reactions),
        spec_position_ok(s, flow),
    ensures
        wf_bound(spec_add(s, meta, flow, new)),
{
    let item = ItemModel::Event(spec_new_item(meta, flow, new));
    assert(wf_item_bound(item));
    let placed = spec_place_item(s.items, flow, item);
    match flow {
        FlowModel::Local { .. } => {
            lemma_wfb_items_push(s.items, item);
        },
        FlowModel::Remote { event_id, txn_id, position, .. } => {
            let txn_hit = match txn_id {
                Some(t) => spec_find_txn(s.items, t),
                None => None,
            };
            if let Some(t) = txn_id {
                lemma_find_txn_from(s.items, t, 0);
            }
            match txn_hit {
                Some(i) => {
                    lemma_wfb_items_update(s.items, i, item);
                },
                None => {
                    lemma_find_event_from(s.items, event_id, 0);
                    match spec_find_event(s.items, event_id) {
                        Some(i) => {
                            lemma_wfb_items_update(s.items, i, item);
                        },
                        None => match position {
                            PositionModel::Start => {
                                lemma_wfb_items_insert(s.items, 0, item);
                            },
                            PositionModel::End => {
                                lemma_wfb_items_push(s.items, item);
                            },
                            PositionModel::Update(i) => {
                                lemma_wfb_items_update(s.items, i, item);
                            },
                        },
                    }
                },
            }
        },
    }
    assert(wf_items_bound(placed));
    if !s.fully_read_event_in_timeline {
        lemma_wfb_update_read_marker(placed, s.fully_read_event, s.fully_read_event_in_timeline);
    }
}

proof fn lemma_wfb_handle_reaction(
    s: TimelineModel,
    meta: MetaModel,
    flow: FlowModel,
    relates_to: crate::reactions::AnnotationModel,
)
    requires
        wf_bound(s),
    ensures
        wf_bound(spec_handle_reaction(s, meta, flow, relates_to)),
{
    let key = crate::event::spec_flow_key(flow);
    if !s.reaction_map.contains_key(key) {
        lemma_find_event_from(s.items, relates_to.event_id, 0);
        match spec_find_event(s.items, relates_to.event_id) {
            None => {},
            Some(idx) => match s.items[idx] {
                ItemModel::Virtual(_) => {},
                ItemModel::Event(e) => {
                    if !(e.content is RedactedMessage) {
                        assert(wf_item_bound(s.items[idx]));
                        let agg = if e.reactions.contains_key(relates_to.key) {
                            e.reactions[relates_to.key]
                        } else {
                            AggregateModel { count: 0, senders: DetailsModel::Ready(Seq::empty()) }
                        };
                        if agg.count != u64::MAX {
                            let agg2 = AggregateModel {
                                count: (agg.count + 1) as u64,
                                senders: match agg.senders {
                                    DetailsModel::Unavailable => DetailsModel::Unavailable,
                                    DetailsModel::Ready(sv) => DetailsModel::Ready(
                                        sv.push(meta.sender),
                                    ),
                                },
                            };
                            assert(wf_aggregate_bound(agg2));
                            lemma_wfb_reactions_insert(e.reactions, relates_to.key, agg2);
                            let e2 = crate::item::EventItemModel {
                                reactions: e.reactions.insert(relates_to.key, agg2),
                                ..e
                            };
                            lemma_wfb_items_update(s.items, idx, ItemModel::Event(e2));
                        }
                    }
                },
            },
        }
    }
}

proof fn lemma_wfb_handle_edit(s: TimelineModel, meta: MetaModel, replacement: ReplacementModel)
    requires
        wf_bound(s),
    ensures
        wf_bound(spec_handle_message_edit(s, meta, replacement)),
{
    lemma_find_event_from(s.items, replacement.event_id, 0);
    match spec_find_event(s.items, replacement.event_id) {
        None => {},
        Some(idx) => match s.items[idx] {
            ItemModel::Virtual(_) => {},
            ItemModel::Event(e) => {
                if e.sender == meta.sender {
                    match e.content {
                        crate::item::ContentModel::Message(msg) => {
                            assert(wf_item_bound(s.items[idx]));
                            let e2 = crate::item::EventItemModel {
                                content: crate::item::ContentModel::Message(
                                    crate::item::MessageModel {
                                        msgtype: replacement.new_content,
                                        in_reply_to: msg.in_reply_to,
                                        edited: true,
                                    },
                                ),
                                ..e
                            };
                            lemma_wfb_items_update(s.items, idx, ItemModel::Event(e2));
                        },
                        _ => {},
                    }
                }
            },
        },
    }
}

proof fn lemma_wfb_redact_reaction(s: TimelineModel, redacts: Seq<char>)
    requires
        wf_bound(s),
    ensures
        wf_bound(spec_redact_reaction(s, redacts)),
{
    let key = KeyModel::EventId(redacts);
    if s.reaction_map.contains_key(key) {
        let sender = s.reaction_map[key].0;
        let rel = s.reaction_map[key].1;
        let sm = TimelineModel { reaction_map: s.reaction_map.remove(key), ..s };
        lemma_find_event_from(sm.items, rel.event_id, 0);
        match spec_find_event(sm.items, rel.event_id) {
            None => {},
            Some(idx) => match sm.items[idx] {
                ItemModel::Virtual(_) => {},
                ItemModel::Event(e) => {
                    assert(wf_item_bound(sm.items[idx]));
                    if e.reactions.contains_key(rel.key) {
                        let agg = e.reactions[rel.key];
                        assert(wf_aggregate_bound(agg));
                        if agg.count <= 1 {
                            lemma_wfb_reactions_remove(e.reactions, rel.key);
                            let e2 = crate::item::EventItemModel {
                                reactions: e.reactions.remove(rel.key),
                                ..e
                            };
                            lemma_wfb_items_update(sm.items, idx, ItemModel::Event(e2));
                        } else {
                            match agg.senders {
                                DetailsModel::Unavailable => {},
                                DetailsModel::Ready(sv) => {
                                    lemma_find_sender_from(sv, sender, 0);
                                    match spec_find_sender(sv, sender) {
                                        None => {
                                            // The count still drops while the
                                            // list stays; the bound survives.
                                            let agg2 = AggregateModel {
                                                count: (agg.count - 1) as u64,
                                                senders: DetailsModel::Ready(sv),
                                            };
                                            assert(wf_aggregate_bound(agg2));
                                            lemma_wfb_reactions_insert(e.reactions, rel.key, agg2);
                                            let e2 = crate::item::EventItemModel {
                                                reactions: e.reactions.insert(rel.key, agg2),
                                                ..e
                                            };
                                            lemma_wfb_items_update(
                                                sm.items,
                                                idx,
                                                ItemModel::Event(e2),
                                            );
                                        },
                                        Some(si) => {
                                            let agg2 = AggregateModel {
                                                count: (agg.count - 1) as u64,
                                                senders: DetailsModel::Ready(sv.remove(si)),
                                            };
                                            assert(sv.remove(si).len() == sv.len() - 1);
                                            assert(wf_aggregate_bound(agg2));
                                            lemma_wfb_reactions_insert(e.reactions, rel.key, agg2);
                                            let e2 = crate::item::EventItemModel {
                                                reactions: e.reactions.insert(rel.key, agg2),
                                                ..e
                                            };
                                            lemma_wfb_items_update(
                                                sm.items,
                                                idx,
                                                ItemModel::Event(e2),
                                            );
                                        },
                                    }
                                },
                            }
                        }
                    }
                },
            },
        }
    }
}

proof fn lemma_wfb_redact_item(s: TimelineModel, redacts: Seq<char>)
    requires
        wf_bound(s),
    ensures
        wf_bound(spec_redact_item(s, redacts)),
{
    lemma_find_event_from(s.items, redacts, 0);
    match spec_find_event(s.items, redacts) {
        None => {},
        Some(idx) => match s.items[idx] {
            ItemModel::Virtual(_) => {},
            ItemModel::Event(e) => {
                assert(wf_reactions_bound(spec_to_redacted(e).reactions));
                lemma_wfb_items_update(s.items, idx, ItemModel::Event(spec_to_redacted(e)));
            },
        },
    }
}

/// The chainable count bound is preserved by every handled event, with no side
/// condition: callers can carry it across any sequence of calls.
pub proof fn lemma_handle_event_preserves_wf_bound(
    s: TimelineModel,
    meta: MetaModel,
    flow: FlowModel,
    kind: KindModel,
)
    requires
        wf_bound(s),
        spec_position_ok(s, flow),
    ensures
        wf_bound(spec_handle_event(s, meta, flow, kind).0),
{
    let empty = crate::reactions::reactions_empty();
    assert(wf_reactions_bound(empty));
    match kind {
        KindModel::Message { content } => match content {
            MessageLikeModel::Reaction { relates_to } => {
                lemma_wfb_handle_reaction(s, meta, flow, relates_to);
            },
            MessageLikeModel::RoomMessage(c) => match c.relates_to {
                Some(RelationModel::Replacement(re)) => {
                    lemma_wfb_handle_edit(s, meta, re);
                },
                _ => {
                    lemma_wfb_initial_reactions(meta.relations);
                    lemma_wfb_add(s, meta, flow, spec_new_message(c, meta.relations));
                },
            },
            MessageLikeModel::RoomEncrypted(c) => match c.relates_to {
                Some(EncryptedRelation::Replacement) => {},
                Some(EncryptedRelation::Annotation) => {},
                _ => {
                    lemma_wfb_add(
                        s,
                        meta,
                        flow,
                        NewItemModel {
                            content: crate::item::ContentModel::UnableToDecrypt {
                                payload: c.payload,
                            },
                            reactions: empty,
                        },
                    );
                },
            },
            MessageLikeModel::Other { .. } => {},
        },
        KindModel::RedactedMessage => {
            lemma_wfb_add(
                s,
                meta,
                flow,
                NewItemModel { content: crate::item::ContentModel::RedactedMessage, reactions: empty },
            );
        },
        KindModel::Redaction { redacts, .. } => {
            lemma_wfb_redact_reaction(s, redacts);
            lemma_wfb_redact_item(spec_redact_reaction(s, redacts), redacts);
        },
        KindModel::State => {},
        KindModel::RedactedState => {},
        KindModel::FailedToParseMessageLike { event_type, error } => {
            lemma_wfb_add(
                s,
                meta,
                flow,
                NewItemModel {
                    content: crate::item::ContentModel::FailedToParseMessageLike {
                        event_type,
                        error,
                    },
                    reactions: empty,
                },
            );
        },
        KindModel::FailedToParseState { event_type, state_key, error } => {
            lemma_wfb_add(
                s,
                meta,
                flow,
                NewItemModel {
                    content: crate::item::ContentModel::FailedToParseState {
                        event_type,
                        state_key,
                        error,
                    },
                    reactions: empty,
                },
            );
        },
    }
}

/// Setting a fully-read target preserves the chainable bound too.
pub proof fn lemma_set_fully_read_preserves_wf_bound(s: TimelineModel, target: Option<Seq<char>>)
    requires
        wf_bound(s),
    ensures
        wf_bound(spec_set_fully_read(s, target)),
{
    lemma_wfb_update_read_marker(s.items, target, s.fully_read_event_in_timeline);
}

// ---------------------------------------------------------------------------
// Read-marker monotonicity: once placed, the marker's position never
// decreases, under any handled event and any fully-read-target change.
// ---------------------------------------------------------------------------

/// Replacing an event item by an event item leaves the marker where it is.
proof fn lemma_marker_update_event(items: Seq<ItemModel>, j: int, item: ItemModel)
    requires
        0 <= j < items.len(),
        !spec_is_virtual(items[j]),
        !spec_is_virtual(item),
    ensures
        spec_find_marker(items.update(j, item)) == spec_find_marker(items),
{
    let post = items.update(j, item);
    lemma_find_marker_from(items, 0);
    match spec_find_marker(items) {
        None => {
            lemma_find_marker_from(post, 0);
            if spec_find_marker(post) is Some {
                let k = spec_find_marker(post)->Some_0;
                assert(spec_is_virtual(post[k]));
                assert(k != j);
                assert(post[k] == items[k]);
                assert(false);
            }
        },
        Some(m) => {
            assert(!spec_is_virtual(items[j]));
            assert(j != m);
            assert(post[m] == items[m]);
            assert forall|i: int| 0 <= i < m implies !spec_is_virtual(#[trigger] post[i]) by {
                if i != j {
                    assert(post[i] == items[i]);
                }
            }
            lemma_find_marker_from_is(post, 0, m);
        },
    }
}

/// Appending an event item leaves the marker where it is (or still absent).
proof fn lemma_marker_push_event(items: Seq<ItemModel>, item: ItemModel)
    requires
        !spec_is_virtual(item),
    ensures
        spec_find_marker(items.push(item)) == spec_find_marker(items),
{
    let post = items.push(item);
    lemma_find_marker_from(items, 0);
    match spec_find_marker(items) {
        None => {
            lemma_find_marker_from(post, 0);
            if spec_find_marker(post) is Some {
                let k = spec_find_marker(post)->Some_0;
                assert(spec_is_virtual(post[k]));
                if k < items.len() {
                    assert(post[k] == items[k]);
                } else {
                    assert(post[k] == item);
                }
                assert(false);
            }
        },
        Some(m) => {
            assert(post[m] == items[m]);
            assert forall|i: int| 0 <= i < m implies !spec_is_virtual(#[trigger] post[i]) by {
                assert(post[i] == items[i]);
            }
            lemma_find_marker_from_is(post, 0, m);
        },
    }
}

/// Prepending an event item shifts the marker one to the right (or leaves it
/// absent).
proof fn lemma_marker_insert0_event(items: Seq<ItemModel>, item: ItemModel)
    requires
        !spec_is_virtual(item),
    ensures
        spec_find_marker(items.insert(0, item)) == match spec_find_marker(items) {
            Some(m) => Some(m + 1),
            None => None::<int>,
        },
{
    let post = items.insert(0, item);
    items.insert_ensures(0, item);
    lemma_find_marker_from(items, 0);
    match spec_find_marker(items) {
        None => {
            lemma_find_marker_from(post, 0);
            if spec_find_marker(post) is Some {
                let k = spec_find_marker(post)->Some_0;
                assert(spec_is_virtual(post[k]));
                if k == 0 {
                    assert(post[0] == item);
                } else {
                    assert(post[k] == items[k - 1]);
                }
                assert(false);
            }
        },
        Some(m) => {
            assert(post[m + 1] == items[m]);
            assert forall|i: int| 0 <= i < m + 1 implies !spec_is_virtual(#[trigger] post[i]) by {
                if i == 0 {
                    assert(post[0] == item);
                } else {
                    assert(post[i] == items[i - 1]);
                }
            }
            lemma_find_marker_from_is(post, 0, m + 1);
        },
    }
}

/// Moving the marker forward leaves it present, no earlier than it was.
proof fn lemma_marker_move_forward(items: Seq<ItemModel>, from: int, to: int)
    requires
        0 <= from < to < items.len(),
        spec_find_marker(items) == Some(from),
    ensures
        spec_find_marker(spec_move_from_to(items, from, to)) is Some,
        spec_find_marker(spec_move_from_to(items, from, to))->Some_0 >= from,
{
    let post = spec_move_from_to(items, from, to);
    let removed = items.remove(from);
    items.remove_ensures(from);
    removed.insert_ensures(to, items[from]);
    lemma_find_marker_from(items, 0);
    assert(spec_is_virtual(items[from]));
    assert(post[to] == items[from]);
    assert(post.len() == items.len());
    lemma_find_marker_from(post, 0);
    assert forall|i: int| 0 <= i < from implies !spec_is_virtual(#[trigger] post[i]) by {
        assert(post[i] == removed[i]);
        assert(removed[i] == items[i]);
    }
    if spec_find_marker(post) is None {
        assert(!spec_is_virtual(post[to]));
        assert(false);
    }
    let k = spec_find_marker(post)->Some_0;
    if k < from {
        assert(spec_is_virtual(post[k]));
        assert(false);
    }
}

/// One placement pass never moves the marker backwards.
proof fn lemma_marker_update_read_marker(items: Seq<ItemModel>, fr: Option<Seq<char>>, flag: bool)
    requires
        spec_find_marker(items) is Some,
    ensures
        spec_find_marker(spec_update_read_marker(items, fr, flag).0) is Some,
        spec_find_marker(spec_update_read_marker(items, fr, flag).0)->Some_0 >= spec_find_marker(
            items,
        )->Some_0,
{
    match fr {
        None => {},
        Some(target) => {
            lemma_find_marker_from(items, 0);
            lemma_find_event_from(items, target, 0);
            match (spec_find_marker(items), spec_find_event(items, target)) {
                (Option::Some(from), Option::Some(to)) => {
                    if from < to {
                        lemma_marker_move_forward(items, from, to);
                    }
                },
                _ => {},
            }
        },
    }
}

/// Placing a fresh event item never moves the marker backwards.
proof fn lemma_marker_place(items: Seq<ItemModel>, flow: FlowModel, item: ItemModel)
    requires
        !spec_is_virtual(item),
        spec_find_marker(items) is Some,
        match flow {
            FlowModel::Remote { position: PositionModel::Update(i), .. } => 0 <= i < items.len()
                && items[i] is Event,
            _ => true,
        },
    ensures
        spec_find_marker(spec_place_item(items, flow, item)) is Some,
        spec_find_marker(spec_place_item(items, flow, item))->Some_0 >= spec_find_marker(
            items,
        )->Some_0,
{
    match flow {
        FlowModel::Local { .. } => {
            lemma_marker_push_event(items, item);
        },
        FlowModel::Remote { event_id, txn_id, position, .. } => {
            let txn_hit = match txn_id {
                Some(t) => spec_find_txn(items, t),
                None => None,
            };
            if let Some(t) = txn_id {
                lemma_find_txn_from(items, t, 0);
            }
            match txn_hit {
                Some(i) => {
                    lemma_marker_update_event(items, i, item);
                },
                None => {
                    lemma_find_event_from(items, event_id, 0);
                    match spec_find_event(items, event_id) {
                        Some(i) => {
                            lemma_marker_update_event(items, i, item);
                        },
                        None => match position {
                            PositionModel::Start => {
                                lemma_marker_insert0_event(items, item);
                            },
                            PositionModel::End => {
                                lemma_marker_push_event(items, item);
                            },
                            PositionModel::Update(i) => {
                                lemma_marker_update_event(items, i, item);
                            },
                        },
                    }
                },
            }
        },
    }
}

/// An insertion as a whole (placement plus the marker pass) never moves the
/// marker backwards.
proof fn lemma_marker_add(s: TimelineModel, meta: MetaModel, flow: FlowModel, new: NewItemModel)
    requires
        spec_find_marker(s.items) is Some,
        spec_position_ok(s, flow),
    ensures
        spec_find_marker(spec_add(s, meta, flow, new).items) is Some,
        spec_find_marker(spec_add(s, meta, flow, new).items)->Some_0 >= spec_find_marker(
            s.items,
        )->Some_0,
{
    let item = ItemModel::Event(spec_new_item(meta, flow, new));
    let placed = spec_place_item(s.items, flow, item);
    lemma_marker_place(s.items, flow, item);
    if !s.fully_read_event_in_timeline {
        lemma_marker_update_read_marker(placed, s.fully_read_event, s.fully_read_event_in_timeline);
    }
}

/// Read-marker monotonicity: once the marker is placed, no handled event moves
/// it to a lower position, and none removes it.
pub proof fn lemma_read_marker_monotonic(
    s: TimelineModel,
    meta: MetaModel,
    flow: FlowModel,
    kind: KindModel,
)
    requires
        spec_position_ok(s, flow),
        spec_find_marker(s.items) is Some,
    ensures
        spec_find_marker(spec_handle_event(s, meta, flow, kind).0.items) is Some,
        spec_find_marker(spec_handle_event(s, meta, flow, kind).0.items)->Some_0
            >= spec_find_marker(s.items)->Some_0,
{
    match kind {
        KindModel::Message { content } => match content {
            MessageLikeModel::Reaction { relates_to } => {
                lemma_find_event_from(s.items, relates_to.event_id, 0);
                let s2 = spec_handle_reaction(s, meta, flow, relates_to);
                if s2.items != s.items {
                    let idx = spec_find_event(s.items, relates_to.event_id)->Some_0;
                    assert(s2.items == s.items.update(idx, s2.items[idx]));
                    lemma_marker_update_event(s.items, idx, s2.items[idx]);
                }
            },
            MessageLikeModel::RoomMessage(c) => match c.relates_to {
                Some(RelationModel::Replacement(re)) => {
                    lemma_find_event_from(s.items, re.event_id, 0);
                    let s2 = spec_handle_message_edit(s, meta, re);
                    if s2.items != s.items {
                        let idx = spec_find_event(s.items, re.event_id)->Some_0;
                        assert(s2.items == s.items.update(idx, s2.items[idx]));
                        lemma_marker_update_event(s.items, idx, s2.items[idx]);
                    }
                },
                _ => {
                    lemma_marker_add(s, meta, flow, spec_new_message(c, meta.relations));
                },
            },
            MessageLikeModel::RoomEncrypted(c) => match c.relates_to {
                Some(EncryptedRelation::Replacement) => {},
                Some(EncryptedRelation::Annotation) => {},
                _ => {
                    lemma_marker_add(
                        s,
                        meta,
                        flow,
                        NewItemModel {
                            content: crate::item::ContentModel::UnableToDecrypt {
                                payload: c.payload,
                            },
                            reactions: crate::reactions::reactions_empty(),
                        },
                    );
                },
            },
            MessageLikeModel::Other { .. } => {},
        },
        KindModel::RedactedMessage => {
            lemma_marker_add(
                s,
                meta,
                flow,
                NewItemModel {
                    content: crate::item::ContentModel::RedactedMessage,
                    reactions: crate::reactions::reactions_empty(),
                },
            );
        },
        KindModel::Redaction { redacts, .. } => {
            let key = KeyModel::EventId(redacts);
            let s1 = spec_redact_reaction(s, redacts);
            if s.reaction_map.contains_key(key) {
                let rel = s.reaction_map[key].1;
                lemma_find_event_from(s.items, rel.event_id, 0);
                if s1.items != s.items {
                    let idx = spec_find_event(s.items, rel.event_id)->Some_0;
                    assert(s1.items == s.items.update(idx, s1.items[idx]));
                    lemma_marker_update_event(s.items, idx, s1.items[idx]);
                }
            }
            assert(spec_find_marker(s1.items) is Some && spec_find_marker(s1.items)->Some_0
                >= spec_find_marker(s.items)->Some_0);
            let s2 = spec_redact_item(s1, redacts);
            lemma_find_event_from(s1.items, redacts, 0);
            if s2.items != s1.items {
                let idx = spec_find_event(s1.items, redacts)->Some_0;
                assert(s2.items == s1.items.update(idx, s2.items[idx]));
                lemma_marker_update_event(s1.items, idx, s2.items[idx]);
            }
        },
        KindModel::State => {},
        KindModel::RedactedState => {},
        KindModel::FailedToParseMessageLike { event_type, error } => {
            lemma_marker_add(
                s,
                meta,
                flow,
                NewItemModel {
                    content: crate::item::ContentModel::FailedToParseMessageLike {
                        event_type,
                        error,
                    },
                    reactions: crate::reactions::reactions_empty(),
                },
            );
        },
        KindModel::FailedToParseState { event_type, state_key, error } => {
            lemma_marker_add(
                s,
                meta,
                flow,
                NewItemModel {
                    content: crate::item::ContentModel::FailedToParseState {
                        event_type,
                        state_key,
                        error,
                    },
                    reactions: crate::reactions::reactions_empty(),
                },
            );
        },
    }
}

/// Changing the fully-read target never moves a placed marker backwards
/// either.
pub proof fn lemma_set_fully_read_marker_monotonic(s: TimelineModel, target: Option<Seq<char>>)
    requires
        spec_find_marker(s.items) is Some,
    ensures
        spec_find_marker(spec_set_fully_read(s, target).items) is Some,
        spec_find_marker(spec_set_fully_read(s, target).items)->Some_0 >= spec_find_marker(
            s.items,
        )->Some_0,
{
    lemma_marker_update_read_marker(s.items, target, s.fully_read_event_in_timeline);
}


// ---------------------------------------------------------------------------
// Idempotence and reconciliation laws.
// ---------------------------------------------------------------------------

/// Replacing the first item found under an event id by an item carrying the
/// same id leaves the lookup finding the same position.
proof fn lemma_find_event_after_update(
    items: Seq<ItemModel>,
    id: Seq<char>,
    j: int,
    item: ItemModel,
)
    requires
        spec_find_event(items, id) == Some(j),
        spec_effective_event_id(item) == Some(id),
    ensures
        spec_find_event(items.update(j, item), id) == Some(j),
{
    lemma_find_event_from(items, id, 0);
    let post = items.update(j, item);
    assert forall|i: int| 0 <= i < j implies spec_effective_event_id(#[trigger] post[i]) != Some(
        id,
    ) by {
        assert(post[i] == items[i]);
    }
    lemma_find_event_from_is(post, id, 0, j);
}

/// Redaction idempotence: redacting the same target twice leaves the store,
/// the reverse index and the read-marker state exactly as redacting it once
/// does; the second pass finds the reverse-index entry gone and the target
/// already a tombstone. At most the affected-nothing diagnostic is recorded
/// again, when the redaction never had a target at all.
pub proof fn lemma_redaction_idempotent(s: TimelineModel, redacts: Seq<char>)
    ensures
        ({
            let once = spec_handle_redaction(s, redacts);
            let twice = spec_handle_redaction(once, redacts);
            &&& twice.items == once.items
            &&& twice.reaction_map == once.reaction_map
            &&& twice.fully_read_event == once.fully_read_event
            &&& twice.fully_read_event_in_timeline == once.fully_read_event_in_timeline
        }),
{
    let key = KeyModel::EventId(redacts);
    let r1 = spec_redact_reaction(s, redacts);
    let r2 = spec_redact_item(r1, redacts);
    let once = spec_handle_redaction(s, redacts);
    assert(once.items == r2.items);
    assert(once.reaction_map == r2.reaction_map);
    assert(!once.reaction_map.contains_key(key));
    // The second call's reaction-reversing pass finds nothing to reverse.
    let r1b = spec_redact_reaction(once, redacts);
    assert(r1b == once);
    // Its direct pass finds either nothing or the tombstone it already made.
    lemma_find_event_from(r1.items, redacts, 0);
    match spec_find_event(r1.items, redacts) {
        None => {
            assert(r2.items == r1.items);
            assert(once.items == r1.items);
            assert(spec_redact_item(r1b, redacts).items == once.items);
        },
        Some(idx) => {
            match r1.items[idx] {
                ItemModel::Virtual(_) => {
                    assert(spec_effective_event_id(r1.items[idx]) is None);
                    assert(false);
                },
                ItemModel::Event(e) => {
                    let red = spec_to_redacted(e);
                    assert(spec_effective_event_id(ItemModel::Event(red)) == Some(redacts));
                    lemma_find_event_after_update(r1.items, redacts, idx, ItemModel::Event(red));
                    assert(spec_find_event(once.items, redacts) == Some(idx));
                    assert(once.items[idx] == ItemModel::Event(red));
                    assert(spec_to_redacted(red) == red);
                    assert(once.items.update(idx, ItemModel::Event(red)) =~= once.items);
                    assert(spec_redact_item(r1b, redacts).items == once.items);
                },
            }
        },
    }
    let r2b = spec_redact_item(r1b, redacts);
    assert(r2b.items == once.items);
    assert(r2b.reaction_map == once.reaction_map);
}

/// Inserting the same remote event twice yields the same store as inserting it
/// once: the second delivery finds the stored item under the same id and
/// replaces it, in place, by an identical item. Only the duplicate-delivery
/// diagnostic is recorded a second time.
proof fn lemma_add_idempotent(s: TimelineModel, meta: MetaModel, flow: FlowModel, new: NewItemModel)
    requires
        flow is Remote,
        spec_position_ok(s, flow),
        match flow {
            FlowModel::Remote { txn_id: Some(t), .. } => (forall|i: int, j: int|
                0 <= i < j < s.items.len() ==> !(spec_has_txn_id(#[trigger] s.items[i], t)
                    && spec_has_txn_id(#[trigger] s.items[j], t))) && (spec_find_txn(s.items, t)
                is Some ==> spec_find_event(
                s.items,
                flow->Remote_event_id,
            ) is None),
            _ => true,
        },
    ensures
        ({
            let s1 = spec_add(s, meta, flow, new);
            let s2 = spec_add(s1, meta, flow, new);
            &&& s2.items == s1.items
            &&& s2.reaction_map == s1.reaction_map
            &&& s2.fully_read_event == s1.fully_read_event
            &&& s2.fully_read_event_in_timeline == s1.fully_read_event_in_timeline
        }),
{
    let item = ItemModel::Event(spec_new_item(meta, flow, new));
    let event_id = flow->Remote_event_id;
    assert(spec_effective_event_id(item) == Some(event_id));
    let placed = spec_place_item(s.items, flow, item);
    let passed = spec_marker_pass(placed, s.fully_read_event, s.fully_read_event_in_timeline);
    let s1 = spec_add(s, meta, flow, new);
    assert(s1.items == passed.0);

    // The first placement leaves the fresh item findable under its event id,
    // at the position it was placed, and leaves no pending item under the
    // transaction id.
    let txn_hit = match flow->Remote_txn_id {
        Some(t) => spec_find_txn(s.items, t),
        None => None::<int>,
    };
    let place_idx: int = match txn_hit {
        Some(i) => i,
        None => match spec_find_event(s.items, event_id) {
            Some(i) => i,
            None => match flow->Remote_position {
                PositionModel::Start => 0,
                PositionModel::End => s.items.len() as int,
                PositionModel::Update(i) => i,
            },
        },
    };
    if let Some(t) = flow->Remote_txn_id {
        lemma_find_txn_from(s.items, t, 0);
    }
    lemma_find_event_from(s.items, event_id, 0);
    // placement facts
    match txn_hit {
        Some(i) => {
            assert(placed == s.items.update(i, item));
            assert(spec_find_event(s.items, event_id) is None);
            assert forall|j: int| 0 <= j < i implies spec_effective_event_id(
                #[trigger] placed[j],
            ) != Some(event_id) by {
                assert(placed[j] == s.items[j]);
            }
            lemma_find_event_from_is(placed, event_id, 0, i);
        },
        None => match spec_find_event(s.items, event_id) {
            Some(i) => {
                assert(placed == s.items.update(i, item));
                lemma_find_event_after_update(s.items, event_id, i, item);
            },
            None => match flow->Remote_position {
                PositionModel::Start => {
                    assert(placed == s.items.insert(0, item));
                    s.items.insert_ensures(0, item);
                    lemma_find_event_from_is(placed, event_id, 0, 0);
                },
                PositionModel::End => {
                    assert(placed == s.items.push(item));
                    assert forall|j: int| 0 <= j < s.items.len() implies spec_effective_event_id(
                        #[trigger] placed[j],
                    ) != Some(event_id) by {
                        assert(placed[j] == s.items[j]);
                    }
                    lemma_find_event_from_is(placed, event_id, 0, s.items.len() as int);
                },
                PositionModel::Update(i) => {
                    assert(placed == s.items.update(i, item));
                    assert forall|j: int| 0 <= j < i implies spec_effective_event_id(
                        #[trigger] placed[j],
                    ) != Some(event_id) by {
                        assert(placed[j] == s.items[j]);
                    }
                    lemma_find_event_from_is(placed, event_id, 0, i);
                },
            },
        },
    }
    assert(spec_find_event(placed, event_id) is Some);
    let found = spec_find_event(placed, event_id)->Some_0;
    assert(placed[found] == item);

    // No pending item under the transaction id survives the first placement.
    if let Some(t) = flow->Remote_txn_id {
        lemma_find_txn_from(placed, t, 0);
        if spec_find_txn(placed, t) is Some {
            let k = spec_find_txn(placed, t)->Some_0;
            assert(spec_has_txn_id(placed[k], t));
            match txn_hit {
                Some(i) => {
                    assert(k != i);
                    assert(placed[k] == s.items[k]);
                    assert(spec_find_txn(s.items, t) == Some(i));
                    assert(spec_has_txn_id(s.items[i], t));
                    assert(false);
                },
                None => {
                    if k < s.items.len() as int && placed[k] == s.items[k] {
                        assert(false);
                    }
                    assert(!spec_has_txn_id(item, t));
                    match spec_find_event(s.items, event_id) {
                        Some(i) => {
                            if k == i {
                                assert(placed[k] == item);
                            } else {
                                assert(placed[k] == s.items[k]);
                            }
                            assert(false);
                        },
                        None => match flow->Remote_position {
                            PositionModel::Start => {
                                s.items.insert_ensures(0, item);
                                if k == 0 {
                                    assert(placed[k] == item);
                                } else {
                                    assert(placed[k] == s.items[k - 1]);
                                }
                                assert(false);
                            },
                            PositionModel::End => {
                                if k == s.items.len() as int {
                                    assert(placed[k] == item);
                                } else {
                                    assert(placed[k] == s.items[k]);
                                }
                                assert(false);
                            },
                            PositionModel::Update(i) => {
                                if k == i {
                                    assert(placed[k] == item);
                                } else {
                                    assert(placed[k] == s.items[k]);
                                }
                                assert(false);
                            },
                        },
                    }
                },
            }
        }
    }

    // The marker pass either leaves the store alone or ends with the target
    // known to be in the timeline; either way the pass finds the item where
    // the placement left it.
    let s1_items = s1.items;
    if !s.fully_read_event_in_timeline {
        match s.fully_read_event {
            None => {
                assert(s1_items == placed);
            },
            Some(target) => {
                lemma_find_marker_from(placed, 0);
                lemma_find_event_from(placed, target, 0);
                match (spec_find_marker(placed), spec_find_event(placed, target)) {
                    (Option::None, Option::None) => {
                        assert(s1_items == placed);
                    },
                    (Option::None, Option::Some(_)) => {
                        assert(s1.fully_read_event_in_timeline);
                    },
                    (Option::Some(_), Option::None) => {
                        assert(s1_items == placed);
                    },
                    (Option::Some(_), Option::Some(_)) => {
                        assert(s1.fully_read_event_in_timeline);
                    },
                }
            },
        }
    } else {
        assert(s1_items == placed);
    }

    // Second delivery: there is still no pending item under the transaction
    // id, the id lookup still finds the identical stored item, and replacing
    // an item by an equal one changes nothing; the second marker pass then
    // sees exactly what the first one left.
    lemma_find_event_survives_pass(
        placed,
        s.fully_read_event,
        s.fully_read_event_in_timeline,
        event_id,
    );
    if let Some(t) = flow->Remote_txn_id {
        lemma_find_txn_survives_pass(placed, s.fully_read_event, s.fully_read_event_in_timeline, t);
    }
    lemma_find_event_from(s1.items, event_id, 0);
    let found2 = spec_find_event(s1.items, event_id)->Some_0;
    assert(0 <= found2 < s1.items.len());
    assert(s1.items[found2] == item);
    let placed2 = spec_place_item(s1.items, flow, item);
    assert(placed2 == s1.items.update(found2, item));
    assert(placed2 =~= s1.items);
    let passed2 = spec_marker_pass(placed2, s1.fully_read_event, s1.fully_read_event_in_timeline);
    if !s1.fully_read_event_in_timeline {
        assert(!s.fully_read_event_in_timeline);
        assert(s1.items == placed);
        assert(passed2 == spec_update_read_marker(
            placed,
            s.fully_read_event,
            s.fully_read_event_in_timeline,
        ));
        match s.fully_read_event {
            None => {},
            Some(target) => {
                match (spec_find_marker(placed), spec_find_event(placed, target)) {
                    (Option::None, Option::Some(_)) => {
                        assert(false);
                    },
                    (Option::Some(_), Option::Some(_)) => {
                        assert(s1.fully_read_event_in_timeline);
                    },
                    _ => {},
                }
            },
        }
    }
    assert(passed2.0 == s1.items && passed2.1 == s1.fully_read_event_in_timeline);
}

/// Inserting a virtual item never creates an event-id match and shifts the
/// first match without changing which element it is.
proof fn lemma_find_event_insert_virtual(items: Seq<ItemModel>, p: int, v: ItemModel, id: Seq<char>)
    requires
        0 <= p <= items.len(),
        spec_is_virtual(v),
    ensures
        ({
            let post = items.insert(p, v);
            match spec_find_event(items, id) {
                None => spec_find_event(post, id) is None,
                Some(f) => {
                    let f2 = if f < p { f } else { f + 1 };
                    spec_find_event(post, id) == Some(f2) && post[f2] == items[f]
                },
            }
        }),
{
    let post = items.insert(p, v);
    items.insert_ensures(p, v);
    lemma_find_event_from(items, id, 0);
    match spec_find_event(items, id) {
        None => {
            lemma_find_event_from(post, id, 0);
            if spec_find_event(post, id) is Some {
                let k = spec_find_event(post, id)->Some_0;
                if k < p {
                    assert(post[k] == items[k]);
                } else if k == p {
                    assert(post[k] == v);
                } else {
                    assert(post[k] == items[k - 1]);
                }
                assert(false);
            }
        },
        Some(f) => {
            let f2: int = if f < p {
                f
            } else {
                f + 1
            };
            assert(post[f2] == items[f]);
            assert forall|j: int| 0 <= j < f2 implies spec_effective_event_id(
                #[trigger] post[j],
            ) != Some(id) by {
                if j < p {
                    assert(post[j] == items[j]);
                } else if j == p {
                    assert(post[j] == v);
                } else {
                    assert(post[j] == items[j - 1]);
                }
            }
            lemma_find_event_from_is(post, id, 0, f2);
        },
    }
}

/// Moving a virtual item never creates an event-id match and keeps the first
/// match the same element.
proof fn lemma_find_event_move_virtual(items: Seq<ItemModel>, from: int, to: int, id: Seq<char>)
    requires
        0 <= from < to < items.len(),
        spec_is_virtual(items[from]),
    ensures
        ({
            let post = spec_move_from_to(items, from, to);
            match spec_find_event(items, id) {
                None => spec_find_event(post, id) is None,
                Some(f) => {
                    let f2 = if f < from {
                        f
                    } else if f <= to {
                        f - 1
                    } else {
                        f
                    };
                    spec_find_event(post, id) == Some(f2) && post[f2] == items[f]
                },
            }
        }),
{
    let post = spec_move_from_to(items, from, to);
    let removed = items.remove(from);
    items.remove_ensures(from);
    removed.insert_ensures(to, items[from]);
    assert(post.len() == items.len());
    lemma_find_event_from(items, id, 0);
    match spec_find_event(items, id) {
        None => {
            lemma_find_event_from(post, id, 0);
            if spec_find_event(post, id) is Some {
                let k = spec_find_event(post, id)->Some_0;
                if k < to {
                    if k < from {
                        assert(post[k] == items[k]);
                    } else {
                        assert(post[k] == items[k + 1]);
                    }
                } else if k == to {
                    assert(post[k] == items[from]);
                } else {
                    assert(post[k] == removed[k - 1]);
                    if k - 1 < from {
                        assert(post[k] == items[k - 1]);
                    } else {
                        assert(post[k] == items[k]);
                    }
                }
                assert(false);
            }
        },
        Some(f) => {
            assert(spec_effective_event_id(items[from]) is None);
            assert(f != from);
            let f2: int = if f < from {
                f
            } else if f <= to {
                f - 1
            } else {
                f
            };
            if f2 < to {
                assert(post[f2] == removed[f2]);
            } else {
                assert(f2 > to);
                assert(post[f2] == removed[f2 - 1]);
            }
            assert(post[f2] == items[f]);
            assert forall|j: int| 0 <= j < f2 implies spec_effective_event_id(
                #[trigger] post[j],
            ) != Some(id) by {
                if j < to {
                    assert(post[j] == removed[j]);
                    if j < from {
                        assert(post[j] == items[j]);
                    } else {
                        assert(post[j] == items[j + 1]);
                    }
                } else if j == to {
                    assert(post[j] == items[from]);
                } else {
                    assert(post[j] == removed[j - 1]);
                    if j - 1 < from {
                        assert(post[j] == items[j - 1]);
                    } else {
                        assert(post[j] == items[j]);
                    }
                }
            }
            lemma_find_event_from_is(post, id, 0, f2);
        },
    }
}

/// One marker pass cannot create an event-id match, and it keeps the first
/// match the same element.
proof fn lemma_find_event_survives_pass(
    items: Seq<ItemModel>,
    fr: Option<Seq<char>>,
    flag: bool,
    id: Seq<char>,
)
    ensures
        ({
            let post = spec_marker_pass(items, fr, flag).0;
            match spec_find_event(items, id) {
                None => spec_find_event(post, id) is None,
                Some(f) => spec_find_event(post, id) is Some && post[spec_find_event(
                    post,
                    id,
                )->Some_0] == items[f],
            }
        }),
{
    if !flag {
        match fr {
            None => {},
            Some(target) => {
                lemma_find_marker_from(items, 0);
                lemma_find_event_from(items, target, 0);
                match (spec_find_marker(items), spec_find_event(items, target)) {
                    (Option::None, Option::Some(ti)) => {
                        lemma_find_event_insert_virtual(
                            items,
                            ti + 1,
                            ItemModel::Virtual(crate::item::VirtualModel::ReadMarker),
                            id,
                        );
                    },
                    (Option::Some(mi), Option::Some(ti)) => {
                        if mi < ti {
                            lemma_find_event_move_virtual(items, mi, ti, id);
                        }
                    },
                    _ => {},
                }
            },
        }
    }
}

/// One marker pass cannot create a pending item: a transaction id found in no
/// item before the pass is found in none after it.
proof fn lemma_find_txn_survives_pass(
    items: Seq<ItemModel>,
    fr: Option<Seq<char>>,
    flag: bool,
    t: Seq<char>,
)
    requires
        spec_find_txn(items, t) is None,
    ensures
        spec_find_txn(spec_marker_pass(items, fr, flag).0, t) is None,
{
    let post = spec_marker_pass(items, fr, flag).0;
    lemma_find_txn_from(items, t, 0);
    if !flag {
        match fr {
            None => {},
            Some(target) => {
                lemma_find_marker_from(items, 0);
                lemma_find_event_from(items, target, 0);
                match (spec_find_marker(items), spec_find_event(items, target)) {
                    (Option::None, Option::Some(ti)) => {
                        let v = ItemModel::Virtual(crate::item::VirtualModel::ReadMarker);
                        items.insert_ensures(ti + 1, v);
                        lemma_find_txn_from(post, t, 0);
                        if spec_find_txn(post, t) is Some {
                            let k = spec_find_txn(post, t)->Some_0;
                            if k < ti + 1 {
                                assert(post[k] == items[k]);
                            } else if k == ti + 1 {
                                assert(post[k] == v);
                            } else {
                                assert(post[k] == items[k - 1]);
                            }
                            assert(false);
                        }
                    },
                    (Option::Some(mi), Option::Some(ti)) => {
                        if mi < ti {
                            let removed = items.remove(mi);
                            items.remove_ensures(mi);
                            removed.insert_ensures(ti, items[mi]);
                            lemma_find_txn_from(post, t, 0);
                            if spec_find_txn(post, t) is Some {
                                let k = spec_find_txn(post, t)->Some_0;
                                if k < ti {
                                    if k < mi {
                                        assert(post[k] == items[k]);
                                    } else {
                                        assert(post[k] == items[k + 1]);
                                    }
                                } else if k == ti {
                                    assert(post[k] == items[mi]);
                                } else {
                                    assert(post[k] == removed[k - 1]);
                                    if k - 1 < mi {
                                        assert(post[k] == items[k - 1]);
                                    } else {
                                        assert(post[k] == items[k]);
                                    }
                                }
                                assert(false);
                            }
                        }
                    },
                    _ => {},
                }
            },
        }
    }
}

/// Applying the same edit twice leaves exactly the state of applying it once:
/// the second application finds the already-edited message and rewrites it to
/// the same content.
proof fn lemma_edit_idempotent(s: TimelineModel, meta: MetaModel, re: ReplacementModel)
    ensures
        spec_handle_message_edit(spec_handle_message_edit(s, meta, re), meta, re)
            == spec_handle_message_edit(s, meta, re),
{
    let s1 = spec_handle_message_edit(s, meta, re);
    lemma_find_event_from(s.items, re.event_id, 0);
    if s1 == s {
    } else {
        match spec_find_event(s.items, re.event_id) {
            None => {},
            Some(idx) => match s.items[idx] {
                ItemModel::Virtual(_) => {},
                ItemModel::Event(e) => {
                    if e.sender == meta.sender {
                        match e.content {
                            crate::item::ContentModel::Message(msg) => {
                                let e2 = crate::item::EventItemModel {
                                    content: crate::item::ContentModel::Message(
                                        crate::item::MessageModel {
                                            msgtype: re.new_content,
                                            in_reply_to: msg.in_reply_to,
                                            edited: true,
                                        },
                                    ),
                                    ..e
                                };
                                assert(s1.items == s.items.update(idx, ItemModel::Event(e2)));
                                assert(spec_effective_event_id(ItemModel::Event(e2))
                                    == spec_effective_event_id(ItemModel::Event(e)));
                                lemma_find_event_after_update(
                                    s.items,
                                    re.event_id,
                                    idx,
                                    ItemModel::Event(e2),
                                );
                                let e3 = crate::item::EventItemModel {
                                    content: crate::item::ContentModel::Message(
                                        crate::item::MessageModel {
                                            msgtype: re.new_content,
                                            in_reply_to: msg.in_reply_to,
                                            edited: true,
                                        },
                                    ),
                                    ..e2
                                };
                                assert(e3 == e2);
                                assert(s1.items.update(idx, ItemModel::Event(e3)) =~= s1.items);
                            },
                            _ => {},
                        }
                    }
                },
            },
        }
    }
}

/// Feeding the same reaction twice counts once: the second delivery finds the
/// reaction's own identity in the reverse index, refreshes its entry and
/// touches nothing else.
proof fn lemma_reaction_idempotent(
    s: TimelineModel,
    meta: MetaModel,
    flow: FlowModel,
    relates_to: crate::reactions::AnnotationModel,
)
    ensures
        ({
            let s1 = spec_handle_reaction(s, meta, flow, relates_to);
            let s2 = spec_handle_reaction(s1, meta, flow, relates_to);
            &&& s2.items == s1.items
            &&& s2.reaction_map == s1.reaction_map
            &&& s2.fully_read_event == s1.fully_read_event
            &&& s2.fully_read_event_in_timeline == s1.fully_read_event_in_timeline
        }),
{
    let key = crate::event::spec_flow_key(flow);
    let entry = (meta.sender, relates_to);
    let s1 = spec_handle_reaction(s, meta, flow, relates_to);
    if s.reaction_map.contains_key(key) {
        // Both deliveries are duplicates: each only refreshes the entry.
        assert(s1.reaction_map == s.reaction_map.insert(key, entry));
        assert(s1.reaction_map.contains_key(key));
        assert(s1.reaction_map.insert(key, entry) =~= s1.reaction_map);
    } else {
        lemma_find_event_from(s.items, relates_to.event_id, 0);
        match spec_find_event(s.items, relates_to.event_id) {
            None => {},
            Some(idx) => match s.items[idx] {
                ItemModel::Virtual(_) => {},
                ItemModel::Event(e) => {
                    if !(e.content is RedactedMessage) && crate::reactions::spec_apply_possible(
                        e.reactions,
                        relates_to.key,
                    ) {
                        // The first delivery applied and recorded the entry;
                        // the second is caught as a duplicate.
                        assert(s1.reaction_map == s.reaction_map.insert(key, entry));
                        assert(s1.reaction_map.contains_key(key));
                        assert(s1.reaction_map.insert(key, entry) =~= s1.reaction_map);
                    }
                    // Every other branch leaves the state unchanged, so the
                    // second delivery retraces it.
                },
            },
        }
    }
}

/// Idempotent duplicate remote delivery: feeding the same remote event twice —
/// whatever its kind — leaves the store, the reverse index and the read-marker
/// state exactly as feeding it once does; at most the duplicate-delivery or
/// affected-nothing diagnostic is recorded again. A repeated reaction is caught
/// by its own identity in the reverse index and counts once. The preconditions
/// say that at most one pending item carries the echoed transaction id, and
/// that a pending item and an already-stored copy of the event do not coexist.
pub proof fn lemma_duplicate_remote_delivery(
    s: TimelineModel,
    meta: MetaModel,
    flow: FlowModel,
    kind: KindModel,
)
    requires
        flow is Remote,
        spec_position_ok(s, flow),
        match flow {
            FlowModel::Remote { txn_id: Some(t), .. } => (forall|i: int, j: int|
                0 <= i < j < s.items.len() ==> !(spec_has_txn_id(#[trigger] s.items[i], t)
                    && spec_has_txn_id(#[trigger] s.items[j], t))) && (spec_find_txn(s.items, t)
                is Some ==> spec_find_event(
                s.items,
                flow->Remote_event_id,
            ) is None),
            _ => true,
        },
    ensures
        ({
            let s1 = spec_handle_event(s, meta, flow, kind).0;
            let s2 = spec_handle_event(s1, meta, flow, kind).0;
            &&& s2.items == s1.items
            &&& s2.reaction_map == s1.reaction_map
            &&& s2.fully_read_event == s1.fully_read_event
            &&& s2.fully_read_event_in_timeline == s1.fully_read_event_in_timeline
        }),
{
    let empty = crate::reactions::reactions_empty();
    match kind {
        KindModel::Message { content } => match content {
            MessageLikeModel::Reaction { relates_to } => {
                lemma_reaction_idempotent(s, meta, flow, relates_to);
            },
            MessageLikeModel::RoomMessage(c) => match c.relates_to {
                Some(RelationModel::Replacement(re)) => {
                    lemma_edit_idempotent(s, meta, re);
                },
                _ => {
                    lemma_add_idempotent(s, meta, flow, spec_new_message(c, meta.relations));
                },
            },
            MessageLikeModel::RoomEncrypted(c) => match c.relates_to {
                Some(EncryptedRelation::Replacement) => {},
                Some(EncryptedRelation::Annotation) => {},
                _ => {
                    lemma_add_idempotent(
                        s,
                        meta,
                        flow,
                        NewItemModel {
                            content: crate::item::ContentModel::UnableToDecrypt {
                                payload: c.payload,
                            },
                            reactions: empty,
                        },
                    );
                },
            },
            MessageLikeModel::Other { .. } => {},
        },
        KindModel::RedactedMessage => {
            lemma_add_idempotent(
                s,
                meta,
                flow,
                NewItemModel { content: crate::item::ContentModel::RedactedMessage, reactions: empty },
            );
        },
        KindModel::Redaction { redacts, .. } => {
            lemma_redaction_idempotent(s, redacts);
        },
        KindModel::State => {},
        KindModel::RedactedState => {},
        KindModel::FailedToParseMessageLike { event_type, error } => {
            lemma_add_idempotent(
                s,
                meta,
                flow,
                NewItemModel {
                    content: crate::item::ContentModel::FailedToParseMessageLike {
                        event_type,
                        error,
                    },
                    reactions: empty,
                },
            );
        },
        KindModel::FailedToParseState { event_type, state_key, error } => {
            lemma_add_idempotent(
                s,
                meta,
                flow,
                NewItemModel {
                    content: crate::item::ContentModel::FailedToParseState {
                        event_type,
                        state_key,
                        error,
                    },
                    reactions: empty,
                },
            );
        },
    }
}

/// Local-echo reconciliation: sending a message locally under a transaction id
/// and then receiving the server echo carrying that id leaves exactly one new
/// item, now keyed by the server event id, with the same content as the
/// optimistic placeholder, at the position the placeholder held. Stated for a
/// timeline with no fully-read target pending: a pending target can additionally
/// place the read marker, which adds a virtual item of its own.
pub proof fn lemma_local_echo_reconciliation(
    s: TimelineModel,
    meta: MetaModel,
    c: crate::event::RoomMessageModel,
    txn: Seq<char>,
    flow2: FlowModel,
)
    requires
        spec_find_txn(s.items, txn) is None,
        s.fully_read_event is None,
        !(c.relates_to matches Some(RelationModel::Replacement(_))),
        flow2 is Remote,
        flow2->Remote_txn_id == Some(txn),
    ensures
        ({
            let kind = KindModel::Message { content: MessageLikeModel::RoomMessage(c) };
            let s1 = spec_handle_event(s, meta, FlowModel::Local { txn_id: txn }, kind).0;
            let s2 = spec_handle_event(s1, meta, flow2, kind).0;
            let new = spec_new_message(c, meta.relations);
            &&& s1.items.len() == s.items.len() + 1
            &&& s2.items.len() == s.items.len() + 1
            &&& (forall|j: int| 0 <= j < s.items.len() ==> #[trigger] s2.items[j] == s.items[j])
            &&& s2.items.last() == ItemModel::Event(spec_new_item(meta, flow2, new))
            &&& spec_new_item(meta, flow2, new).key == KeyModel::EventId(flow2->Remote_event_id)
            &&& spec_new_item(meta, flow2, new).content == s1.items.last()->Event_0.content
        }),
{
    let kind = KindModel::Message { content: MessageLikeModel::RoomMessage(c) };
    let flow1 = FlowModel::Local { txn_id: txn };
    let new = spec_new_message(c, meta.relations);
    let item1 = ItemModel::Event(spec_new_item(meta, flow1, new));
    let s1 = spec_handle_event(s, meta, flow1, kind).0;
    assert(s1.items == s.items.push(item1));
    assert(s1.fully_read_event is None);
    let n = s.items.len() as int;
    lemma_find_txn_from(s.items, txn, 0);
    assert(spec_has_txn_id(item1, txn));
    assert forall|j: int| 0 <= j < n implies !spec_has_txn_id(#[trigger] s1.items[j], txn) by {
        assert(s1.items[j] == s.items[j]);
    }
    lemma_find_txn_from_is(s1.items, txn, 0, n);
    let item2 = ItemModel::Event(spec_new_item(meta, flow2, new));
    let s2 = spec_handle_event(s1, meta, flow2, kind).0;
    assert(s2.items == s1.items.update(n, item2));
    assert forall|j: int| 0 <= j < s.items.len() implies #[trigger] s2.items[j] == s.items[j] by {
        assert(s2.items[j] == s1.items[j]);
    }
    assert(s2.items.last() == item2);
}

} // verus!
