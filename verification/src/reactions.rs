//! Reaction aggregation: per-item bundles mapping a reaction key to a count
//! plus sender list, and the global reverse index from a reaction's own
//! identity to the annotation it targets.

use vstd::prelude::*;
use vstd::map::*;
use indexmap::IndexMap;
use crate::item::TimelineKey;
use crate::item::KeyModel;

verus! {

/// The sender list of one reaction aggregate. The server may hand out counts
/// without the full sender list; only a `Ready` list is trusted in detail.
#[derive(Clone, Debug)]
pub enum TimelineDetails {
    Unavailable,
    Ready(Vec<String>),
}

/// Ghost model of a `TimelineDetails`.
pub ghost enum DetailsModel {
    Unavailable,
    Ready(Seq<Seq<char>>),
}

impl View for TimelineDetails {
    type V = DetailsModel;

    open spec fn view(&self) -> DetailsModel {
        match self {
            TimelineDetails::Unavailable => DetailsModel::Unavailable,
            TimelineDetails::Ready(senders) => DetailsModel::Ready(senders.deep_view()),
        }
    }
}

/// The aggregate for one reaction key on one item: a count and the senders,
/// when they are fully known.
#[derive(Clone, Debug)]
pub struct ReactionAggregate {
    pub count: u64,
    pub senders: TimelineDetails,
}

/// Ghost model of a `ReactionAggregate`.
pub ghost struct AggregateModel {
    pub count: u64,
    pub senders: DetailsModel,
}

impl View for ReactionAggregate {
    type V = AggregateModel;

    open spec fn view(&self) -> AggregateModel {
        AggregateModel { count: self.count, senders: self.senders@ }
    }
}

/// Ghost model of a reaction bundle: reaction key to aggregate.
pub type ReactionsModel = Map<Seq<char>, AggregateModel>;

/// The concrete container a bundle stores its aggregates in.
pub type ReactionBundle = IndexMap<String, ReactionAggregate>;

/// What a reaction bundle holds: its mapping from reaction key to aggregate.
pub uninterp spec fn reactions_map(m: ReactionBundle) -> ReactionsModel;

/// The empty reaction bundle mapping.
pub open spec fn reactions_empty() -> ReactionsModel {
    Map::empty()
}

#[verifier::external_type_specification]
#[verifier::external_body]
#[verifier::reject_recursive_types(K)]
#[verifier::reject_recursive_types(V)]
#[verifier::reject_recursive_types(S)]
pub struct ExIndexMap<K, V, S>(IndexMap<K, V, S>);

/// Relies on `IndexMap`'s `Clone` impl; nothing is assumed of the copy, and
/// verified code draws no conclusions from cloning a bundle directly.
pub assume_specification<K, V, S>[ <IndexMap<K, V, S> as Clone>::clone ](
    m: &IndexMap<K, V, S>,
) -> IndexMap<K, V, S>
    where
        K: Clone,
        V: Clone,
        S: Clone,
;

/// Relies on `IndexMap::new`: the new map is empty.
#[verifier::external_body]
fn imap_new() -> (r: ReactionBundle)
    ensures
        reactions_map(r) == reactions_empty(),
{
    IndexMap::new()
}

/// Relies on `IndexMap::get`: returns the value stored under an equal key, if
/// any; the result is cloned out.
#[verifier::external_body]
fn imap_get(m: &ReactionBundle, key: &String) -> (r: Option<ReactionAggregate>)
    ensures
        match r {
            Some(v) => reactions_map(*m).contains_key(key@) && v@ == reactions_map(*m)[key@],
            None => !reactions_map(*m).contains_key(key@),
        },
{
    m.get(key).cloned()
}

/// Relies on `IndexMap::insert`: stores the value under the key, replacing any
/// previous value for an equal key.
#[verifier::external_body]
fn imap_insert(m: &mut ReactionBundle, key: String, value: ReactionAggregate)
    ensures
        reactions_map(*final(m)) == reactions_map(*old(m)).insert(key@, value@),
{
    m.insert(key, value);
}

/// Relies on `IndexMap::shift_remove`: removes the entry with an equal key, if
/// any, and returns its value.
#[verifier::external_body]
fn imap_shift_remove(m: &mut ReactionBundle, key: &String) -> (r: Option<ReactionAggregate>)
    ensures
        reactions_map(*final(m)) == reactions_map(*old(m)).remove(key@),
        match r {
            Some(v) => reactions_map(*old(m)).contains_key(key@) && v@ == reactions_map(*old(m))[key@],
            None => !reactions_map(*old(m)).contains_key(key@),
        },
{
    m.shift_remove(key)
}

/// The reaction bundle of one timeline item: reaction key to aggregate, in
/// first-seen order.
#[derive(Clone, Debug)]
pub struct BundledReactions {
    pub bundled: ReactionBundle,
}

impl View for BundledReactions {
    type V = ReactionsModel;

    open spec fn view(&self) -> ReactionsModel {
        reactions_map(self.bundled)
    }
}

impl BundledReactions {
    /// An empty bundle.
    pub fn new() -> (r: BundledReactions)
        ensures
            r@ == reactions_empty(),
    {
        BundledReactions { bundled: imap_new() }
    }

    /// The aggregate stored under the given reaction key, if any.
    pub fn get(&self, key: &String) -> (r: Option<ReactionAggregate>)
        ensures
            match r {
                Some(v) => self@.contains_key(key@) && v@ == self@[key@],
                None => !self@.contains_key(key@),
            },
    {
        imap_get(&self.bundled, key)
    }

    /// Store an aggregate under the given reaction key.
    pub fn insert(&mut self, key: String, value: ReactionAggregate)
        ensures
            final(self)@ == old(self)@.insert(key@, value@),
    {
        imap_insert(&mut self.bundled, key, value);
    }

    /// Remove the aggregate stored under the given reaction key, if any.
    pub fn remove(&mut self, key: &String) -> (r: Option<ReactionAggregate>)
        ensures
            final(self)@ == old(self)@.remove(key@),
            match r {
                Some(v) => old(self)@.contains_key(key@) && v@ == old(self)@[key@],
                None => !old(self)@.contains_key(key@),
            },
    {
        imap_shift_remove(&mut self.bundled, key)
    }
}


/// The bundle after one reaction from `sender` is applied under `key`: the
/// count grows by one (an absent entry starts from an empty, fully known
/// sender list), and the sender is recorded whenever the list is fully known.
/// A count already at the machine limit leaves the bundle unchanged.
pub open spec fn spec_apply_reaction(
    m: ReactionsModel,
    key: Seq<char>,
    sender: Seq<char>,
) -> ReactionsModel {
    let agg = if m.contains_key(key) {
        m[key]
    } else {
        AggregateModel { count: 0, senders: DetailsModel::Ready(Seq::empty()) }
    };
    if agg.count == u64::MAX {
        m
    } else {
        m.insert(
            key,
            AggregateModel {
                count: (agg.count + 1) as u64,
                senders: match agg.senders {
                    DetailsModel::Unavailable => DetailsModel::Unavailable,
                    DetailsModel::Ready(sv) => DetailsModel::Ready(sv.push(sender)),
                },
            },
        )
    }
}

/// Whether applying a reaction under `key` changes the bundle.
pub open spec fn spec_apply_possible(m: ReactionsModel, key: Seq<char>) -> bool {
    !(m.contains_key(key) && m[key].count == u64::MAX)
}

/// The bundle after one reaction from `sender` is taken back out from under
/// `key`: a count reaching zero removes the entry entirely; otherwise the
/// count drops by one — the count is authoritative — and the sender leaves the
/// list only when the list is fully known and holds the sender. A fully known
/// list without the sender is an inconsistency: the count is still
/// decremented and the list mutation alone is skipped. A list that is not
/// fully known leaves the aggregate untouched: nothing safe can be said of it.
/// The reconciler records a diagnostic for either state.
pub open spec fn spec_retract_reaction(
    m: ReactionsModel,
    key: Seq<char>,
    sender: Seq<char>,
) -> ReactionsModel {
    if !m.contains_key(key) {
        m
    } else {
        let agg = m[key];
        if agg.count <= 1 {
            m.remove(key)
        } else {
            match agg.senders {
                DetailsModel::Unavailable => m,
                DetailsModel::Ready(sv) => match spec_find_sender(sv, sender) {
                    None => m.insert(
                        key,
                        AggregateModel {
                            count: (agg.count - 1) as u64,
                            senders: DetailsModel::Ready(sv),
                        },
                    ),
                    Some(si) => m.insert(
                        key,
                        AggregateModel {
                            count: (agg.count - 1) as u64,
                            senders: DetailsModel::Ready(sv.remove(si)),
                        },
                    ),
                },
            }
        }
    }
}

/// Whether taking a reaction back out from under `key` changes the bundle.
pub open spec fn spec_retract_changes(
    m: ReactionsModel,
    key: Seq<char>,
    sender: Seq<char>,
) -> bool {
    m.contains_key(key) && (m[key].count <= 1 || m[key].senders is Ready)
}

/// How a retraction went: the bundle entry was gone, removed outright, shrunk
/// by its sender, or hit one of the two logged states.
#[derive(Clone, Copy, Debug, PartialEq)]
pub enum RetractOutcome {
    /// No aggregate is stored under the key.
    NoEntry,
    /// The count reached zero; the entry was removed entirely.
    Removed,
    /// The count dropped by one and the sender left the fully known list.
    SenderRemoved,
    /// The sender list is not fully known; nothing was changed.
    ListIncomplete,
    /// The fully known list is missing the sender; the count still dropped.
    SenderMissing,
}

/// The outcome a retraction reports, as a function of the bundle.
pub open spec fn spec_retract_outcome(
    m: ReactionsModel,
    key: Seq<char>,
    sender: Seq<char>,
) -> RetractOutcome {
    if !m.contains_key(key) {
        RetractOutcome::NoEntry
    } else if m[key].count <= 1 {
        RetractOutcome::Removed
    } else {
        match m[key].senders {
            DetailsModel::Unavailable => RetractOutcome::ListIncomplete,
            DetailsModel::Ready(sv) => match spec_find_sender(sv, sender) {
                None => RetractOutcome::SenderMissing,
                Some(_) => RetractOutcome::SenderRemoved,
            },
        }
    }
}

impl BundledReactions {
    /// Apply one reaction from a sender under a reaction key.
    pub fn apply(&mut self, key: &String, sender: &String) -> (applied: bool)
        ensures
            final(self)@ == spec_apply_reaction(old(self)@, key@, sender@),
            applied == spec_apply_possible(old(self)@, key@),
    {
        match self.get(key) {
            None => {
                let mut sv: Vec<String> = Vec::new();
                sv.push(sender.clone());
                proof {
                    assert(sv.deep_view() =~= Seq::<Seq<char>>::empty().push(sender@));
                }
                self.insert(
                    key.clone(),
                    ReactionAggregate { count: 1, senders: TimelineDetails::Ready(sv) },
                );
                true
            },
            Some(a) => {
                if a.count == u64::MAX {
                    false
                } else {
                    let count = a.count + 1;
                    let senders = match a.senders {
                        TimelineDetails::Unavailable => TimelineDetails::Unavailable,
                        TimelineDetails::Ready(sv) => {
                            let ghost pre = sv.deep_view();
                            let mut sv2 = sv;
                            sv2.push(sender.clone());
                            proof {
                                assert(sv2.deep_view() =~= pre.push(sender@));
                            }
                            TimelineDetails::Ready(sv2)
                        },
                    };
                    self.insert(key.clone(), ReactionAggregate { count, senders });
                    true
                }
            },
        }
    }

    /// Take one reaction from a sender back out from under a reaction key.
    pub fn retract(&mut self, key: &String, sender: &String) -> (outcome: RetractOutcome)
        ensures
            final(self)@ == spec_retract_reaction(old(self)@, key@, sender@),
            outcome == spec_retract_outcome(old(self)@, key@, sender@),
    {
        match self.get(key) {
            None => RetractOutcome::NoEntry,
            Some(a) => {
                if a.count <= 1 {
                    self.remove(key);
                    RetractOutcome::Removed
                } else {
                    match a.senders {
                        TimelineDetails::Unavailable => {
                            // The sender list is not fully known: nothing safe
                            // can be said of it, so the aggregate stays.
                            RetractOutcome::ListIncomplete
                        },
                        TimelineDetails::Ready(sv) => {
                            match position_of_sender(&sv, sender) {
                                None => {
                                    // The recorded sender is not in the list.
                                    // Apply the decrement anyway — the count is
                                    // authoritative — and skip only the list
                                    // mutation.
                                    self.insert(
                                        key.clone(),
                                        ReactionAggregate {
                                            count: a.count - 1,
                                            senders: TimelineDetails::Ready(sv),
                                        },
                                    );
                                    RetractOutcome::SenderMissing
                                },
                                Some(si) => {
                                    let ghost pre = sv.deep_view();
                                    let ghost prev = sv@;
                                    proof {
                                        lemma_find_sender_from(pre, sender@, 0);
                                    }
                                    let mut sv2 = sv;
                                    sv2.remove(si);
                                    proof {
                                        prev.remove_ensures(si as int);
                                        pre.remove_ensures(si as int);
                                        assert forall|j: int|
                                            0 <= j < sv2.deep_view().len() implies sv2.deep_view()[j]
                                            == pre.remove(si as int)[j] by {
                                            if j < si as int {
                                                assert(sv2@[j] == prev[j]);
                                                assert(pre.remove(si as int)[j] == pre[j]);
                                            } else {
                                                assert(sv2@[j] == prev[j + 1]);
                                                assert(pre.remove(si as int)[j] == pre[j + 1]);
                                            }
                                        }
                                        assert(sv2.deep_view() =~= pre.remove(si as int));
                                    }
                                    self.insert(
                                        key.clone(),
                                        ReactionAggregate {
                                            count: a.count - 1,
                                            senders: TimelineDetails::Ready(sv2),
                                        },
                                    );
                                    RetractOutcome::SenderRemoved
                                },
                            }
                        },
                    }
                }
            },
        }
    }
}

/// An annotation: which event a reaction targets, and under which key.
#[derive(Clone, Debug)]
pub struct Annotation {
    pub event_id: String,
    pub key: String,
}

/// Ghost model of an `Annotation`.
pub ghost struct AnnotationModel {
    pub event_id: Seq<char>,
    pub key: Seq<char>,
}

impl View for Annotation {
    type V = AnnotationModel;

    open spec fn view(&self) -> AnnotationModel {
        AnnotationModel { event_id: self.event_id@, key: self.key@ }
    }
}

/// One entry of the reverse index: a reaction's own identity mapped to its
/// sender and the annotation it applied.
#[derive(Clone, Debug)]
pub struct ReactionIndexEntry {
    pub key: TimelineKey,
    pub sender: String,
    pub annotation: Annotation,
}

/// Ghost model of a `ReactionIndexEntry`.
pub ghost struct IndexEntryModel {
    pub key: KeyModel,
    pub sender: Seq<char>,
    pub annotation: AnnotationModel,
}

impl View for ReactionIndexEntry {
    type V = IndexEntryModel;

    open spec fn view(&self) -> IndexEntryModel {
        IndexEntryModel { key: self.key@, sender: self.sender@, annotation: self.annotation@ }
    }
}

impl DeepView for ReactionIndexEntry {
    type V = IndexEntryModel;

    open spec fn deep_view(&self) -> IndexEntryModel {
        self@
    }
}

/// Ghost model of the reverse index: reaction identity to (sender, annotation).
pub type ReactionIndexModel = Map<KeyModel, (Seq<char>, AnnotationModel)>;

/// The empty reverse-index mapping.
pub open spec fn index_map_empty() -> ReactionIndexModel {
    Map::empty()
}

/// The mapping held by a sequence of index entries; a later entry for the same
/// key supersedes an earlier one.
pub open spec fn index_map_of(entries: Seq<IndexEntryModel>) -> ReactionIndexModel
    decreases entries.len(),
{
    if entries.len() == 0 {
        Map::empty()
    } else {
        index_map_of(entries.drop_last()).insert(
            entries.last().key,
            (entries.last().sender, entries.last().annotation),
        )
    }
}

/// Whether no two entries share a key.
pub open spec fn index_keys_unique(entries: Seq<IndexEntryModel>) -> bool {
    forall|i: int, j: int|
        0 <= i < j < entries.len() ==> (#[trigger] entries[i]).key != (#[trigger] entries[j]).key
}

/// The global reverse index from a reaction event's own identity to the
/// sender of the reaction and the annotation it targets.
pub struct ReactionIndex {
    entries: Vec<ReactionIndexEntry>,
}

impl ReactionIndex {
    /// Ghost model of the entries, in order.
    pub closed spec fn entry_models(&self) -> Seq<IndexEntryModel> {
        self.entries.deep_view()
    }

    /// Well-formed: no two entries share a key.
    pub closed spec fn wf(&self) -> bool {
        index_keys_unique(self.entry_models())
    }

    /// An empty index.
    pub fn new() -> (r: ReactionIndex)
        ensures
            r@ == index_map_empty(),
            r.wf(),
    {
        let r = ReactionIndex { entries: Vec::new() };
        proof {
            assert(r.entry_models() =~= Seq::<IndexEntryModel>::empty());
        }
        r
    }

    /// The position of the entry with the given key, if any.
    fn position_of(&self, key: &TimelineKey) -> (r: Option<usize>)
        ensures
            match r {
                Some(i) => i < self.entry_models().len() && self.entry_models()[i as int].key
                    == key@,
                None => forall|j: int|
                    0 <= j < self.entry_models().len() ==> (#[trigger] self.entry_models()[j]).key
                        != key@,
            },
    {
        let mut i: usize = 0;
        while i < self.entries.len()
            invariant
                i <= self.entries.len(),
                forall|j: int|
                    0 <= j < i ==> (#[trigger] self.entry_models()[j]).key != key@,
            decreases self.entries.len() - i,
        {
            if self.entries[i].key.key_eq(key) {
                return Some(i);
            }
            i += 1;
        }
        None
    }

    /// Whether an entry is recorded for the given reaction identity.
    pub fn contains(&self, key: &TimelineKey) -> (r: bool)
        ensures
            r == self@.contains_key(key@),
    {
        match self.position_of(key) {
            Some(i) => {
                proof {
                    lemma_index_map_has_key(self.entry_models(), i as int);
                }
                true
            },
            None => {
                proof {
                    lemma_index_map_no_key(self.entry_models(), key@);
                }
                false
            },
        }
    }

    /// Remove and return the entry recorded for the given reaction identity,
    /// if any.
    pub fn remove(&mut self, key: &TimelineKey) -> (r: Option<(String, Annotation)>)
        requires
            old(self).wf(),
        ensures
            final(self).wf(),
            match r {
                Some(sa) => old(self)@.contains_key(key@) && (sa.0@, sa.1@) == old(self)@[key@]
                    && final(self)@ == old(self)@.remove(key@),
                None => !old(self)@.contains_key(key@) && final(self)@ == old(self)@,
            },
    {
        let ghost pre = self.entry_models();
        match self.position_of(key) {
            Some(i) => {
                let entry = self.entries.remove(i);
                proof {
                    pre.remove_ensures(i as int);
                    assert(self.entry_models() =~= pre.remove(i as int));
                    lemma_index_map_remove(pre, i as int);
                    lemma_index_map_key_lookup(pre, i as int);
                    let post = pre.remove(i as int);
                    assert forall|a: int, b: int| 0 <= a < b < post.len() implies (
                    #[trigger] post[a]).key != (#[trigger] post[b]).key by {
                        if a < i as int {
                            assert(post[a] == pre[a]);
                        } else {
                            assert(post[a] == pre[a + 1]);
                        }
                        if b < i as int {
                            assert(post[b] == pre[b]);
                        } else {
                            assert(post[b] == pre[b + 1]);
                        }
                    }
                }
                Some((entry.sender, entry.annotation))
            },
            None => {
                proof {
                    lemma_index_map_no_key(pre, key@);
                }
                None
            },
        }
    }

    /// Record an entry for the given reaction identity, superseding any entry
    /// already recorded for it.
    pub fn insert(&mut self, key: TimelineKey, sender: String, annotation: Annotation)
        requires
            old(self).wf(),
        ensures
            final(self)@ == old(self)@.insert(key@, (sender@, annotation@)),
            final(self).wf(),
    {
        let ghost pre = self.entry_models();
        let _ = self.remove(&key);
        let ghost mid = self.entry_models();
        proof {
            assert(!index_map_of(mid).contains_key(key@));
            assert forall|j: int| 0 <= j < mid.len() implies (#[trigger] mid[j]).key != key@ by {
                if mid[j].key == key@ {
                    lemma_index_map_has_key(mid, j);
                }
            }
        }
        let entry = ReactionIndexEntry { key, sender, annotation };
        self.entries.push(entry);
        proof {
            let post = self.entry_models();
            assert(post =~= mid.push(entry@));
            assert(post.drop_last() =~= mid);
            assert(post.last() == entry@);
            assert forall|a: int, b: int| 0 <= a < b < post.len() implies (#[trigger] post[a]).key
                != (#[trigger] post[b]).key by {
                if b == post.len() - 1 {
                    assert(post[a] == mid[a]);
                    assert(post[b] == entry@);
                } else {
                    assert(post[a] == mid[a]);
                    assert(post[b] == mid[b]);
                }
            }
            assert_maps_equal!(
                index_map_of(mid).insert(entry@.key, (entry@.sender, entry@.annotation)),
                index_map_of(pre).insert(entry@.key, (entry@.sender, entry@.annotation)),
            );
        }
    }
}

impl View for ReactionIndex {
    type V = ReactionIndexModel;

    closed spec fn view(&self) -> ReactionIndexModel {
        index_map_of(self.entry_models())
    }
}

/// A key held by no entry is not in the mapping.
proof fn lemma_index_map_no_key(entries: Seq<IndexEntryModel>, key: KeyModel)
    requires
        forall|j: int| 0 <= j < entries.len() ==> (#[trigger] entries[j]).key != key,
    ensures
        !index_map_of(entries).contains_key(key),
    decreases entries.len(),
{
    if entries.len() > 0 {
        lemma_index_map_no_key(entries.drop_last(), key);
    }
}

/// With unique keys, the mapping looks up an entry's key to that entry's data.
proof fn lemma_index_map_key_lookup(entries: Seq<IndexEntryModel>, i: int)
    requires
        index_keys_unique(entries),
        0 <= i < entries.len(),
    ensures
        index_map_of(entries).contains_key(entries[i].key),
        index_map_of(entries)[entries[i].key] == (entries[i].sender, entries[i].annotation),
    decreases entries.len(),
{
    if i == entries.len() - 1 {
    } else {
        lemma_index_map_key_lookup(entries.drop_last(), i);
    }
}

/// Any entry's key is in the mapping.
proof fn lemma_index_map_has_key(entries: Seq<IndexEntryModel>, j: int)
    requires
        0 <= j < entries.len(),
    ensures
        index_map_of(entries).contains_key(entries[j].key),
    decreases entries.len(),
{
    if j < entries.len() - 1 {
        lemma_index_map_has_key(entries.drop_last(), j);
    }
}

/// With unique keys, removing the entry at a position removes exactly its key
/// from the mapping.
proof fn lemma_index_map_remove(entries: Seq<IndexEntryModel>, i: int)
    requires
        index_keys_unique(entries),
        0 <= i < entries.len(),
    ensures
        index_map_of(entries.remove(i)) == index_map_of(entries).remove(entries[i].key),
    decreases entries.len(),
{
    let removed = entries.remove(i);
    entries.remove_ensures(i);
    if i == entries.len() - 1 {
        assert(removed =~= entries.drop_last());
        assert forall|j: int| 0 <= j < entries.drop_last().len() implies (
        #[trigger] entries.drop_last()[j]).key != entries[i].key by {
            assert(entries.drop_last()[j] == entries[j]);
        }
        lemma_index_map_no_key(entries.drop_last(), entries[i].key);
        assert_maps_equal!(
            index_map_of(entries.remove(i)),
            index_map_of(entries).remove(entries[i].key),
        );
    } else {
        let shorter = entries.drop_last();
        assert forall|a: int, b: int| 0 <= a < b < shorter.len() implies (
        #[trigger] shorter[a]).key != (#[trigger] shorter[b]).key by {
            assert(shorter[a] == entries[a]);
            assert(shorter[b] == entries[b]);
        }
        assert(removed.drop_last() =~= shorter.remove(i));
        assert(removed.last() == entries.last());
        lemma_index_map_remove(shorter, i);
        assert(shorter[i] == entries[i]);
        assert(index_map_of(removed) == index_map_of(shorter).remove(entries[i].key).insert(
            entries.last().key,
            (entries.last().sender, entries.last().annotation),
        ));
        assert(entries.last().key != entries[i].key);
        assert_maps_equal!(
            index_map_of(shorter).remove(entries[i].key).insert(
                entries.last().key,
                (entries.last().sender, entries.last().annotation),
            ),
            index_map_of(shorter).insert(
                entries.last().key,
                (entries.last().sender, entries.last().annotation),
            ).remove(entries[i].key),
        );
    }
}

/// The position of the first sender equal to the given one, scanning from a
/// position.
pub open spec fn find_sender_from(senders: Seq<Seq<char>>, sender: Seq<char>, i: int) -> Option<int>
    decreases senders.len() - i,
    when 0 <= i <= senders.len()
{
    if i >= senders.len() {
        None
    } else if senders[i] == sender {
        Some(i)
    } else {
        find_sender_from(senders, sender, i + 1)
    }
}

/// The position of the first sender equal to the given one, if any.
pub open spec fn spec_find_sender(senders: Seq<Seq<char>>, sender: Seq<char>) -> Option<int> {
    find_sender_from(senders, sender, 0)
}

/// What a `find_sender_from` result means, position by position.
pub proof fn lemma_find_sender_from(senders: Seq<Seq<char>>, sender: Seq<char>, i: int)
    requires
        0 <= i <= senders.len(),
    ensures
        find_sender_from(senders, sender, i) is None ==> forall|j: int|
            i <= j < senders.len() ==> #[trigger] senders[j] != sender,
        find_sender_from(senders, sender, i) is Some ==> {
            let k = find_sender_from(senders, sender, i)->Some_0;
            &&& i <= k < senders.len()
            &&& senders[k] == sender
            &&& forall|j: int| i <= j < k ==> #[trigger] senders[j] != sender
        },
    decreases senders.len() - i,
{
    if i < senders.len() && senders[i] != sender {
        lemma_find_sender_from(senders, sender, i + 1);
    }
}

/// A first match, with no match before it, is what `find_sender_from` returns.
pub proof fn lemma_find_sender_from_is(senders: Seq<Seq<char>>, sender: Seq<char>, i: int, k: int)
    requires
        0 <= i <= k < senders.len(),
        senders[k] == sender,
        forall|j: int| i <= j < k ==> #[trigger] senders[j] != sender,
    ensures
        find_sender_from(senders, sender, i) == Some(k),
    decreases k - i,
{
    if i < k {
        lemma_find_sender_from_is(senders, sender, i + 1, k);
    }
}

/// Find the position of a sender in a fully known sender list, if present.
pub fn position_of_sender(senders: &Vec<String>, sender: &String) -> (r: Option<usize>)
    ensures
        spec_find_sender(senders.deep_view(), sender@) == match r {
            Some(i) => Some(i as int),
            None => None::<int>,
        },
{
    let ghost model = senders.deep_view();
    let n = senders.len();
    let mut i: usize = 0;
    while i < n
        invariant
            n == senders.len(),
            i <= n,
            model == senders.deep_view(),
            model.len() == n,
            forall|j: int| 0 <= j < n ==> #[trigger] model[j] == senders[j]@,
            forall|j: int| 0 <= j < i ==> #[trigger] model[j] != sender@,
        decreases n - i,
    {
        if senders[i].eq(sender) {
            proof {
                lemma_find_sender_from_is(model, sender@, 0, i as int);
            }
            return Some(i);
        }
        i += 1;
    }
    proof {
        lemma_find_sender_from(model, sender@, 0);
        if spec_find_sender(model, sender@) is Some {
            let k = spec_find_sender(model, sender@)->Some_0;
            assert(model[k] != sender@);
        }
    }
    None
}

} // verus!
