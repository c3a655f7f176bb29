//! Room illumination summaries: per-room summaries of the published light
//! field, cached by world epoch, field revision, room topology revision and
//! room tile signature, and read only for the current epoch.

use vstd::prelude::*;
use crate::grid::Grid;
use crate::light_runtime::{FieldSnapshot, IndoorLightRuntime, IndoorLightingLifecycleProbe, read_indoor_light_snapshot, snapshot_of_epoch};

verus! {

/// The tile set of a room: the room lookup's revision and its tiles in
/// canonical order.
#[derive(Debug, PartialEq, Eq)]
pub struct RoomTileSignature {
    pub revision: u64,
    pub tiles: Vec<Grid>,
}

/// Two signatures are equal.
pub open spec fn same_signature(a: RoomTileSignature, b: RoomTileSignature) -> bool {
    a.revision == b.revision && a.tiles@ == b.tiles@
}

fn signatures_equal(a: &RoomTileSignature, b: &RoomTileSignature) -> (r: bool)
    ensures
        r == same_signature(*a, *b),
{
    if a.revision != b.revision || a.tiles.len() != b.tiles.len() {
        return false;
    }
    let mut i: usize = 0;
    while i < a.tiles.len()
        invariant
            a.tiles@.len() == b.tiles@.len(),
            i <= a.tiles@.len(),
            forall|j: int| 0 <= j < i ==> a.tiles@[j] == b.tiles@[j],
        decreases a.tiles.len() - i,
    {
        if a.tiles[i].0 != b.tiles[i].0 || a.tiles[i].1 != b.tiles[i].1 {
            return false;
        }
        i += 1;
    }
    assert(a.tiles@ =~= b.tiles@);
    true
}

impl RoomTileSignature {
    /// A copy of the signature.
    pub fn duplicate(&self) -> (r: Self)
        ensures
            same_signature(r, *self),
    {
        let mut tiles: Vec<Grid> = Vec::new();
        let mut i: usize = 0;
        while i < self.tiles.len()
            invariant
                i <= self.tiles@.len(),
                tiles@ == self.tiles@.take(i as int),
            decreases self.tiles.len() - i,
        {
            tiles.push(self.tiles[i]);
            i += 1;
            assert(tiles@ =~= self.tiles@.take(i as int));
        }
        assert(self.tiles@.take(self.tiles@.len() as int) =~= self.tiles@);
        RoomTileSignature { revision: self.revision, tiles }
    }
}

/// The revisions a room summary was computed for.
#[derive(Debug, PartialEq, Eq)]
pub struct RoomIlluminationCacheKey {
    pub world_epoch: u64,
    pub field_revision: u64,
    pub room_topology_revision: u64,
    pub room_tile_signature: RoomTileSignature,
}

pub open spec fn same_key(a: RoomIlluminationCacheKey, b: RoomIlluminationCacheKey) -> bool {
    a.world_epoch == b.world_epoch && a.field_revision == b.field_revision
        && a.room_topology_revision == b.room_topology_revision && same_signature(a.room_tile_signature, b.room_tile_signature)
}

fn keys_equal(a: &RoomIlluminationCacheKey, b: &RoomIlluminationCacheKey) -> (r: bool)
    ensures
        r == same_key(*a, *b),
{
    a.world_epoch == b.world_epoch && a.field_revision == b.field_revision
        && a.room_topology_revision == b.room_topology_revision
        && signatures_equal(&a.room_tile_signature, &b.room_tile_signature)
}

/// A room's summary of the field, stamped with what it was computed for.
#[derive(Debug, PartialEq, Eq)]
pub struct RoomIlluminationState<S> {
    pub world_epoch: u64,
    pub field_revision: u64,
    pub room_topology_revision: u64,
    pub room_tile_signature: RoomTileSignature,
    pub summary: S,
}

/// The state was computed for exactly these revisions and tiles.
pub open spec fn state_matches<S>(s: RoomIlluminationState<S>, epoch: u64, field_revision: u64, topology_revision: u64, sig: RoomTileSignature) -> bool {
    s.world_epoch == epoch && s.field_revision == field_revision && s.room_topology_revision == topology_revision
        && same_signature(s.room_tile_signature, sig)
}

impl<S> RoomIlluminationState<S> {
    pub fn world_epoch(&self) -> (e: u64)
        ensures
            e == self.world_epoch,
    {
        self.world_epoch
    }

    pub fn field_revision(&self) -> (r: u64)
        ensures
            r == self.field_revision,
    {
        self.field_revision
    }

    pub fn room_topology_revision(&self) -> (r: u64)
        ensures
            r == self.room_topology_revision,
    {
        self.room_topology_revision
    }

    pub fn room_tile_signature(&self) -> (s: &RoomTileSignature)
        ensures
            *s == self.room_tile_signature,
    {
        &self.room_tile_signature
    }

    pub fn summary(&self) -> (s: &S)
        ensures
            *s == self.summary,
    {
        &self.summary
    }

    /// Whether the state was computed for these revisions and tiles.
    pub fn matches(&self, epoch: u64, field_revision: u64, topology_revision: u64, sig: &RoomTileSignature) -> (b: bool)
        ensures
            b == state_matches(*self, epoch, field_revision, topology_revision, *sig),
    {
        self.world_epoch == epoch && self.field_revision == field_revision
            && self.room_topology_revision == topology_revision && signatures_equal(&self.room_tile_signature, sig)
    }
}

/// Work counters of the indoor light consumers.
#[derive(Debug, Clone, Copy, Default, PartialEq, Eq, Structural)]
pub struct IndoorLightConsumerMetrics {
    pub recovery_updates: u64,
    pub unavailable_recovery_updates: u64,
    pub recovery_steps: u64,
    pub soul_samples: u64,
    pub recovery_effects: u64,
    pub old_epoch_recovery_effects: u64,
    pub dark_samples: u64,
    pub out_of_bounds_samples: u64,
    pub room_summary_updates: u64,
    pub room_summary_recomputes: u64,
    pub room_summary_cache_hits: u64,
    pub room_sampled_cells: u64,
    pub invalid_room_summaries: u64,
    pub removed_stale_room_states: u64,
    pub old_epoch_room_read_attempts: u64,
    pub old_epoch_room_reads: u64,
}

pub open spec fn sat_inc(a: u64) -> u64 {
    if a == u64::MAX { a } else { (a + 1) as u64 }
}

pub open spec fn sat_add(a: u64, b: u64) -> u64 {
    if a + b > u64::MAX { u64::MAX } else { (a + b) as u64 }
}

/// Reads a room's state: only for the current epoch, and only when it was
/// computed for the current field, topology and tiles. A read for another
/// epoch is counted and returns nothing.
pub fn read_room_illumination_state<'a, S>(
    state: Option<&'a RoomIlluminationState<S>>,
    requested_epoch: u64,
    current_epoch: u64,
    current_field_revision: u64,
    current_topology_revision: u64,
    room_tile_signature: &RoomTileSignature,
    metrics: &mut IndoorLightConsumerMetrics,
) -> (r: Option<&'a RoomIlluminationState<S>>)
    ensures
        requested_epoch != current_epoch ==> r is None && *final(metrics) == (IndoorLightConsumerMetrics {
            old_epoch_room_read_attempts: sat_inc(old(metrics).old_epoch_room_read_attempts),
            ..*old(metrics)
        }),
        requested_epoch == current_epoch ==> *final(metrics) == *old(metrics) && match state {
            Some(s) => if state_matches(*s, current_epoch, current_field_revision, current_topology_revision, *room_tile_signature) {
                r == Some(s)
            } else {
                r is None
            },
            None => r is None,
        },
{
    if requested_epoch != current_epoch {
        metrics.old_epoch_room_read_attempts = metrics.old_epoch_room_read_attempts.saturating_add(1);
        return None;
    }
    match state {
        Some(s) => {
            if s.matches(current_epoch, current_field_revision, current_topology_revision, room_tile_signature) {
                Some(s)
            } else {
                None
            }
        },
        None => None,
    }
}

/// A cached summary.
#[derive(Debug, PartialEq, Eq)]
pub struct CacheEntry<S> {
    pub key: RoomIlluminationCacheKey,
    pub summary: S,
}

/// Summaries by key, at most one per key.
#[derive(Debug, PartialEq, Eq)]
pub struct RoomIlluminationCache<S> {
    pub entries: Vec<CacheEntry<S>>,
}

/// The summary cached under a key: that of the first entry with the key.
pub open spec fn cached<S>(e: Seq<CacheEntry<S>>, k: RoomIlluminationCacheKey) -> Option<S>
    decreases e.len(),
{
    if e.len() == 0 {
        None
    } else if same_key(e[0].key, k) {
        Some(e[0].summary)
    } else {
        cached(e.drop_first(), k)
    }
}

/// The entries after caching `summary` under `key`: the first entry with
/// the key is replaced, or the entry is added at the end.
pub open spec fn inserted<S>(e: Seq<CacheEntry<S>>, key: RoomIlluminationCacheKey, summary: S) -> Seq<CacheEntry<S>>
    decreases e.len(),
{
    if e.len() == 0 {
        seq![CacheEntry { key, summary }]
    } else if same_key(e[0].key, key) {
        e.update(0, CacheEntry { key, summary })
    } else {
        seq![e[0]] + inserted(e.drop_first(), key, summary)
    }
}

/// The entries computed for this epoch, field and topology, in order.
pub open spec fn retained<S>(e: Seq<CacheEntry<S>>, epoch: u64, field_revision: u64, topology_revision: u64) -> Seq<CacheEntry<S>>
    decreases e.len(),
{
    if e.len() == 0 {
        Seq::empty()
    } else {
        let rest = retained(e.drop_first(), epoch, field_revision, topology_revision);
        let k = e[0].key;
        if k.world_epoch == epoch && k.field_revision == field_revision && k.room_topology_revision == topology_revision {
            seq![e[0]] + rest
        } else {
            rest
        }
    }
}

impl<S: Copy> RoomIlluminationCache<S> {
    /// An empty cache.
    pub fn new() -> (c: Self)
        ensures
            c.entries@.len() == 0,
    {
        RoomIlluminationCache { entries: Vec::new() }
    }

    pub fn len(&self) -> (n: usize)
        ensures
            n == self.entries@.len(),
    {
        self.entries.len()
    }

    pub fn is_empty(&self) -> (b: bool)
        ensures
            b == (self.entries@.len() == 0),
    {
        self.entries.len() == 0
    }

    /// Drops every entry.
    pub fn clear(&mut self)
        ensures
            final(self).entries@.len() == 0,
    {
        self.entries = Vec::new();
    }

    /// The summary cached under `key`.
    pub fn get(&self, key: &RoomIlluminationCacheKey) -> (r: Option<S>)
        ensures
            r == cached(self.entries@, *key),
    {
        let mut i: usize = 0;
        assert(self.entries@.skip(0) =~= self.entries@);
        while i < self.entries.len()
            invariant
                i <= self.entries@.len(),
                cached(self.entries@, *key) == cached(self.entries@.skip(i as int), *key),
            decreases self.entries.len() - i,
        {
            assert(self.entries@.skip(i as int)[0] == self.entries@[i as int]);
            assert(self.entries@.skip(i as int).drop_first() =~= self.entries@.skip(i + 1));
            if keys_equal(&self.entries[i].key, key) {
                return Some(self.entries[i].summary);
            }
            i += 1;
        }
        None
    }

    /// Caches `summary` under `key`, replacing what was cached under it.
    pub fn insert(&mut self, key: RoomIlluminationCacheKey, summary: S)
        ensures
            final(self).entries@ == inserted(old(self).entries@, key, summary),
    {
        let ghost o = self.entries@;
        let mut i: usize = 0;
        assert(o.skip(0) =~= o);
        while i < self.entries.len()
            invariant
                i <= o.len(),
                self.entries@ == o,
                o == old(self).entries@,
                inserted(o, key, summary) == o.take(i as int) + inserted(o.skip(i as int), key, summary),
            decreases self.entries.len() - i,
        {
            let ghost rest = o.skip(i as int);
            assert(rest[0] == o[i as int]);
            assert(rest.drop_first() =~= o.skip(i + 1));
            if keys_equal(&self.entries[i].key, &key) {
                proof {
                    assert(same_key(rest[0].key, key));
                    assert(inserted(rest, key, summary) == rest.update(0, CacheEntry { key, summary }));
                }
                let ghost x = CacheEntry { key, summary };
                self.entries.set(i, CacheEntry { key, summary });
                proof {
                    assert(self.entries@ == o.update(i as int, x));
                    assert(o.update(i as int, x) =~= o.take(i as int) + rest.update(0, x));
                }
                return;
            }
            proof {
                assert(inserted(rest, key, summary) == seq![o[i as int]] + inserted(o.skip(i + 1), key, summary));
                assert(o.take(i + 1) =~= o.take(i as int).push(o[i as int]));
                assert(o.take(i as int) + (seq![o[i as int]] + inserted(o.skip(i + 1), key, summary))
                    =~= o.take(i + 1) + inserted(o.skip(i + 1), key, summary));
            }
            i += 1;
        }
        self.entries.push(CacheEntry { key, summary });
        proof {
            assert(o.skip(o.len() as int) =~= Seq::<CacheEntry<S>>::empty());
            assert(o.take(o.len() as int) =~= o);
            assert(self.entries@ =~= o + seq![CacheEntry { key, summary }]);
        }
    }

    /// Keeps the entries computed for this epoch, field and topology.
    pub fn retain_current(&mut self, epoch: u64, field_revision: u64, topology_revision: u64)
        ensures
            final(self).entries@ == retained(old(self).entries@, epoch, field_revision, topology_revision),
    {
        let ghost o = self.entries@;
        let mut i: usize = self.entries.len();
        assert(o.skip(o.len() as int) =~= Seq::<CacheEntry<S>>::empty());
        assert(o.take(o.len() as int) =~= o);
        while i > 0
            invariant
                i <= o.len(),
                self.entries@ == o.take(i as int) + retained(o.skip(i as int), epoch, field_revision, topology_revision),
            decreases i,
        {
            i -= 1;
            let ghost tail = retained(o.skip(i + 1), epoch, field_revision, topology_revision);
            assert(o.skip(i as int).drop_first() =~= o.skip(i + 1));
            assert(o.skip(i as int)[0] == o[i as int]);
            assert(self.entries@[i as int] == o[i as int]);
            let keep = {
                let k = &self.entries[i].key;
                k.world_epoch == epoch && k.field_revision == field_revision && k.room_topology_revision == topology_revision
            };
            if keep {
                assert(self.entries@ =~= o.take(i as int) + (seq![o[i as int]] + tail));
            } else {
                let _removed = self.entries.remove(i);
                assert(self.entries@ =~= o.take(i as int) + tail);
            }
        }
        assert(o.skip(0) =~= o);
    }
}

/// What a cache lookup gives back after an insert: the inserted summary
/// under its key, and what was there before under every other key.
pub proof fn law_cache_reads_back_insert<S>(e: Seq<CacheEntry<S>>, key: RoomIlluminationCacheKey, summary: S, other: RoomIlluminationCacheKey)
    ensures
        cached(inserted(e, key, summary), key) == Some(summary),
        !same_key(other, key) ==> cached(inserted(e, key, summary), other) == cached(e, other),
    decreases e.len(),
{
    if e.len() > 0 {
        if same_key(e[0].key, key) {
            let n = e.update(0, CacheEntry { key, summary });
            assert(n.drop_first() =~= e.drop_first());
            assert(n[0].key == key);
            assert(inserted(e, key, summary) == n);
            assert(cached(n, key) == Some(summary));
            if !same_key(other, key) {
                assert(!same_key(n[0].key, other));
                assert(cached(n, other) == cached(n.drop_first(), other));
                assert(!same_key(e[0].key, other));
                assert(cached(e, other) == cached(e.drop_first(), other));
            }
        } else {
            law_cache_reads_back_insert(e.drop_first(), key, summary, other);
            let n = seq![e[0]] + inserted(e.drop_first(), key, summary);
            assert(inserted(e, key, summary) == n);
            assert(n.drop_first() =~= inserted(e.drop_first(), key, summary));
            assert(n[0] == e[0]);
            if !same_key(other, key) {
                if same_key(e[0].key, other) {
                    assert(cached(n, other) == Some(e[0].summary));
                } else {
                    assert(cached(n, other) == cached(n.drop_first(), other));
                }
                assert(cached(n, other) == cached(e, other));
            }
        }
    } else {
        let n = seq![CacheEntry { key, summary }];
        assert(inserted(e, key, summary) == n);
        assert(n.drop_first() =~= Seq::<CacheEntry<S>>::empty());
        assert(n[0].key == key);
        if !same_key(other, key) {
            assert(!same_key(n[0].key, other));
            assert(cached(n, other) == cached(n.drop_first(), other));
            assert(cached(n, other) == cached(e, other));
        }
    }
}


/// Starts a summary update for the current epoch: counts it, and reads the
/// field. Without a readable field the cache is cleared and the rooms'
/// stale states (`rooms_with_state` of them) are removed and counted;
/// otherwise only the cache entries of the current field and topology stay.
/// Returns the field revision when the field is readable.
pub fn begin_room_summary_update<S: Copy>(
    runtime: &IndoorLightRuntime,
    world_epoch: u64,
    topology_revision: u64,
    rooms_with_state: u64,
    probe: &mut IndoorLightingLifecycleProbe,
    cache: &mut RoomIlluminationCache<S>,
    metrics: &mut IndoorLightConsumerMetrics,
) -> (r: Option<u64>)
    ensures
        match snapshot_of_epoch(*runtime, world_epoch) {
            None => {
                &&& r is None
                &&& final(cache).entries@.len() == 0
                &&& *final(metrics) == (IndoorLightConsumerMetrics {
                    room_summary_updates: sat_inc(old(metrics).room_summary_updates),
                    removed_stale_room_states: sat_add(old(metrics).removed_stale_room_states, rooms_with_state),
                    ..*old(metrics)
                })
            },
            Some(s) => {
                &&& r == Some(s.field_revision)
                &&& final(cache).entries@ == retained(old(cache).entries@, world_epoch, s.field_revision, topology_revision)
                &&& *final(metrics) == (IndoorLightConsumerMetrics {
                    room_summary_updates: sat_inc(old(metrics).room_summary_updates),
                    ..*old(metrics)
                })
            },
        },
        final(probe).field_read_count == (if old(probe).enabled { sat_inc(old(probe).field_read_count) } else { old(probe).field_read_count }),
{
    metrics.room_summary_updates = metrics.room_summary_updates.saturating_add(1);
    match read_indoor_light_snapshot(runtime, world_epoch, world_epoch, probe) {
        None => {
            cache.clear();
            metrics.removed_stale_room_states = metrics.removed_stale_room_states.saturating_add(rooms_with_state);
            None
        },
        Some(snapshot) => {
            let revision = snapshot.field_revision;
            cache.retain_current(world_epoch, revision, topology_revision);
            Some(revision)
        },
    }
}

/// What to do for one room during a summary update.
#[derive(Debug, Clone, Copy, PartialEq, Eq)]
pub enum RoomSummaryStep<S> {
    /// The room's state is current.
    Keep,
    /// The summary was cached for the room's key.
    Cached(S),
    /// The summary must be computed from the field.
    Compute,
}

/// Decides one room: a current state stays, a cached summary is reused and
/// counted as a hit, anything else is computed.
pub fn room_summary_step<S: Copy>(
    cache: &RoomIlluminationCache<S>,
    metrics: &mut IndoorLightConsumerMetrics,
    key: &RoomIlluminationCacheKey,
    state_is_current: bool,
) -> (r: RoomSummaryStep<S>)
    ensures
        state_is_current ==> r == RoomSummaryStep::<S>::Keep && *final(metrics) == *old(metrics),
        !state_is_current ==> match cached(cache.entries@, *key) {
            Some(s) => r == RoomSummaryStep::Cached(s) && *final(metrics) == (IndoorLightConsumerMetrics {
                room_summary_cache_hits: sat_inc(old(metrics).room_summary_cache_hits),
                ..*old(metrics)
            }),
            None => r == RoomSummaryStep::<S>::Compute && *final(metrics) == *old(metrics),
        },
{
    if state_is_current {
        return RoomSummaryStep::Keep;
    }
    match cache.get(key) {
        Some(s) => {
            metrics.room_summary_cache_hits = metrics.room_summary_cache_hits.saturating_add(1);
            RoomSummaryStep::Cached(s)
        },
        None => RoomSummaryStep::Compute,
    }
}

/// Records a computed summary: a refused one is counted as invalid (and the
/// room's state is removed), an accepted one is counted with its sampled
/// cells and cached under the room's key.
pub fn record_room_summary<S: Copy>(
    cache: &mut RoomIlluminationCache<S>,
    metrics: &mut IndoorLightConsumerMetrics,
    key: RoomIlluminationCacheKey,
    computed: Option<(S, u32)>,
) -> (r: Option<S>)
    ensures
        match computed {
            None => r is None && final(cache).entries@ == old(cache).entries@ && *final(metrics) == (IndoorLightConsumerMetrics {
                invalid_room_summaries: sat_inc(old(metrics).invalid_room_summaries),
                ..*old(metrics)
            }),
            Some((s, n)) => r == Some(s) && final(cache).entries@ == inserted(old(cache).entries@, key, s)
                && *final(metrics) == (IndoorLightConsumerMetrics {
                    room_summary_recomputes: sat_inc(old(metrics).room_summary_recomputes),
                    room_sampled_cells: sat_add(old(metrics).room_sampled_cells, n as u64),
                    ..*old(metrics)
                }),
        },
{
    match computed {
        None => {
            metrics.invalid_room_summaries = metrics.invalid_room_summaries.saturating_add(1);
            None
        },
        Some((s, n)) => {
            metrics.room_summary_recomputes = metrics.room_summary_recomputes.saturating_add(1);
            metrics.room_sampled_cells = metrics.room_sampled_cells.saturating_add(n as u64);
            cache.insert(key, s);
            Some(s)
        },
    }
}

/// What the last soul light recovery step observed.
#[derive(Debug, Clone, Copy, Default, PartialEq, Eq, Structural)]
pub struct IndoorLightCrossConsumerObservation {
    pub world_epoch: Option<u64>,
    pub field_revision: Option<u64>,
    pub recovery_steps: u32,
    pub soul_count: u32,
    pub sample_count: u64,
    pub effect_count: u64,
    pub mask_or_stale_effects: u64,
}

pub open spec fn empty_observation() -> IndoorLightCrossConsumerObservation {
    IndoorLightCrossConsumerObservation {
        world_epoch: None,
        field_revision: None,
        recovery_steps: 0,
        soul_count: 0,
        sample_count: 0,
        effect_count: 0,
        mask_or_stale_effects: 0,
    }
}

impl IndoorLightCrossConsumerObservation {
    pub fn world_epoch(self) -> (r: Option<u64>)
        ensures
            r == self.world_epoch,
    {
        self.world_epoch
    }

    pub fn field_revision(self) -> (r: Option<u64>)
        ensures
            r == self.field_revision,
    {
        self.field_revision
    }

    pub fn recovery_steps(self) -> (r: u32)
        ensures
            r == self.recovery_steps,
    {
        self.recovery_steps
    }

    pub fn soul_count(self) -> (r: u32)
        ensures
            r == self.soul_count,
    {
        self.soul_count
    }

    pub fn sample_count(self) -> (r: u64)
        ensures
            r == self.sample_count,
    {
        self.sample_count
    }

    pub fn effect_count(self) -> (r: u64)
        ensures
            r == self.effect_count,
    {
        self.effect_count
    }

    pub fn mask_or_stale_effects(self) -> (r: u64)
        ensures
            r == self.mask_or_stale_effects,
    {
        self.mask_or_stale_effects
    }

    /// Records one recovery step. The soul count is the samples per step,
    /// capped at `u32::MAX`; with no steps the observation is cleared.
    pub fn record_recovery_step(
        &mut self,
        world_epoch: u64,
        field_revision: u64,
        recovery_steps: u32,
        sample_count: u64,
        effect_count: u64,
        mask_or_stale_effects: u64,
    )
        ensures
            recovery_steps == 0 ==> *final(self) == empty_observation(),
            recovery_steps != 0 ==> *final(self) == (IndoorLightCrossConsumerObservation {
                world_epoch: Some(world_epoch),
                field_revision: Some(field_revision),
                recovery_steps,
                soul_count: if sample_count / (recovery_steps as u64) > u32::MAX as u64 { u32::MAX } else { (sample_count / (recovery_steps as u64)) as u32 },
                sample_count,
                effect_count,
                mask_or_stale_effects,
            }),
    {
        if recovery_steps == 0 {
            *self = IndoorLightCrossConsumerObservation {
                world_epoch: None,
                field_revision: None,
                recovery_steps: 0,
                soul_count: 0,
                sample_count: 0,
                effect_count: 0,
                mask_or_stale_effects: 0,
            };
            return;
        }
        let souls = sample_count / (recovery_steps as u64);
        self.world_epoch = Some(world_epoch);
        self.field_revision = Some(field_revision);
        self.recovery_steps = recovery_steps;
        self.soul_count = if souls > u32::MAX as u64 { u32::MAX } else { souls as u32 };
        self.sample_count = sample_count;
        self.effect_count = effect_count;
        self.mask_or_stale_effects = mask_or_stale_effects;
    }
}

} // verus!
