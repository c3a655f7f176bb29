//! The shared indoor light field runtime: availability, published epoch,
//! input and output revisions, dirty flags and lifecycle probes.
//!
//! The field itself is computed by the light-field core; the runtime
//! decides what is published and when. A reader only ever sees a field that
//! is available and was published for the epoch it asks about.

use vstd::prelude::*;
use crate::grid::Grid;
use crate::light_input::{
    build_input, is_collected_input, spec_collect_error, BuildingLightFacts, CollectedLightInput,
    DoorLightFacts, EmitterLightFacts, GridDimensions, RuntimeInputError,
};

verus! {

/// Whether the indoor light field can be read.
#[derive(Debug, Clone, Copy, Default, PartialEq, Eq, Structural)]
pub enum IndoorLightAvailability {
    #[default]
    Initializing,
    Available,
    Unavailable,
}

/// Work counters of the indoor lighting runtime.
#[derive(Debug, Clone, Copy, Default, PartialEq, Eq, Structural)]
pub struct IndoorLightingMetrics {
    pub topology_dirty_updates: u64,
    pub emitter_dirty_updates: u64,
    pub room_mask_dirty_updates: u64,
    pub snapshot_collect_count: u64,
    pub full_snapshot_scan_count: u64,
    pub field_rebuild_count: u64,
    pub output_revision_increment_count: u64,
    pub failed_update_count: u64,
    pub max_rebuilds_per_update: u32,
    pub last_changed_cell_count: u32,
}

/// All-zero counters.
pub open spec fn zero_metrics() -> IndoorLightingMetrics {
    IndoorLightingMetrics {
        topology_dirty_updates: 0,
        emitter_dirty_updates: 0,
        room_mask_dirty_updates: 0,
        snapshot_collect_count: 0,
        full_snapshot_scan_count: 0,
        field_rebuild_count: 0,
        output_revision_increment_count: 0,
        failed_update_count: 0,
        max_rebuilds_per_update: 0,
        last_changed_cell_count: 0,
    }
}

/// A SHA-256 digest as four big-endian words.
#[derive(Debug, Clone, Copy, PartialEq, Eq, Structural)]
pub struct Digest {
    pub w0: u64,
    pub w1: u64,
    pub w2: u64,
    pub w3: u64,
}

/// A published light field, as the runtime reads it.
#[derive(Debug, Clone, PartialEq, Eq)]
pub struct FieldSnapshot {
    pub field_revision: u64,
    /// Hex text of the field checksum.
    pub field_checksum_hex: String,
    /// Hex text of the indoor mask checksum.
    pub mask_checksum_hex: String,
    /// One byte per cell, non-zero for indoor cells.
    pub indoor_mask_bytes: Vec<u8>,
    /// Luminance per cell.
    pub luminance: Vec<u16>,
    /// Cells whose value changed in this rebuild.
    pub changed_cell_count: u32,
}

/// Why the runtime published the field as unavailable.
#[derive(Debug, Clone, PartialEq, Eq)]
pub enum LightingError {
    /// The world is being replaced.
    WorldReplacement,
    /// Collecting the field input failed.
    Input(RuntimeInputError),
    /// The input revision cannot advance.
    InputRevisionOverflow,
    /// The core reported invalid emitters: how many, and the first.
    InvalidEmitterDiagnostics { count: usize, first: String },
    /// The light-field core refused the input or the rebuild.
    Core(String),
}

/// What the light-field core returns for a rebuild.
#[derive(Debug, Clone, PartialEq, Eq)]
pub struct RebuildOutcome {
    pub snapshot: FieldSnapshot,
    pub input_checksum: Digest,
    /// Invalid-emitter diagnostics, first first.
    pub diagnostics: Vec<String>,
}

/// The indoor lighting runtime resource.
#[derive(Debug)]
pub struct IndoorLightRuntime {
    pub availability: IndoorLightAvailability,
    pub snapshot: Option<FieldSnapshot>,
    pub pending_input: Option<CollectedLightInput>,
    pub last_input_checksum: Option<Digest>,
    pub input_revision: u64,
    pub published_epoch: Option<u64>,
    pub last_error: Option<LightingError>,
    pub typed_emitter_components: u32,
    pub eligible_supplied_emitters: u32,
    pub metrics: IndoorLightingMetrics,
}

/// Saturating `a + 1`.
pub open spec fn sat_inc(a: u64) -> u64 {
    if a == u64::MAX { u64::MAX } else { (a + 1) as u64 }
}

/// The published field, when it can be read.
pub open spec fn readable_snapshot(r: IndoorLightRuntime) -> Option<FieldSnapshot> {
    if r.availability == IndoorLightAvailability::Available { r.snapshot } else { None }
}

/// The published field of an epoch, when it can be read.
pub open spec fn snapshot_of_epoch(r: IndoorLightRuntime, epoch: u64) -> Option<FieldSnapshot> {
    if r.published_epoch == Some(epoch) { readable_snapshot(r) } else { None }
}

/// The runtime after `publish_unavailable`: fail-dark, nothing pending,
/// the error recorded and one more failed update.
pub open spec fn unavailable_after(old: IndoorLightRuntime, new: IndoorLightRuntime, error: LightingError) -> bool {
    &&& new.availability == IndoorLightAvailability::Unavailable
    &&& new.snapshot is None
    &&& new.pending_input is None
    &&& new.last_input_checksum is None
    &&& new.published_epoch is None
    &&& new.last_error == Some(error)
    &&& new.input_revision == old.input_revision
    &&& new.typed_emitter_components == old.typed_emitter_components
    &&& new.eligible_supplied_emitters == old.eligible_supplied_emitters
    &&& new.metrics == (IndoorLightingMetrics { failed_update_count: sat_inc(old.metrics.failed_update_count), ..old.metrics })
}

fn clone_string(s: &String) -> (r: String)
    ensures
        r@ == s@,
{
    s.clone()
}

impl IndoorLightRuntime {
    /// A runtime that has published nothing yet.
    pub fn new() -> (r: Self)
        ensures
            r.availability == IndoorLightAvailability::Initializing,
            r.snapshot is None,
            r.pending_input is None,
            r.last_input_checksum is None,
            r.input_revision == 0,
            r.published_epoch is None,
            r.last_error is None,
            r.typed_emitter_components == 0,
            r.eligible_supplied_emitters == 0,
            r.metrics == zero_metrics(),
    {
        IndoorLightRuntime {
            availability: IndoorLightAvailability::Initializing,
            snapshot: None,
            pending_input: None,
            last_input_checksum: None,
            input_revision: 0,
            published_epoch: None,
            last_error: None,
            typed_emitter_components: 0,
            eligible_supplied_emitters: 0,
            metrics: IndoorLightingMetrics {
                topology_dirty_updates: 0,
                emitter_dirty_updates: 0,
                room_mask_dirty_updates: 0,
                snapshot_collect_count: 0,
                full_snapshot_scan_count: 0,
                field_rebuild_count: 0,
                output_revision_increment_count: 0,
                failed_update_count: 0,
                max_rebuilds_per_update: 0,
                last_changed_cell_count: 0,
            },
        }
    }

    pub fn availability(&self) -> (a: IndoorLightAvailability)
        ensures
            a == self.availability,
    {
        self.availability
    }

    /// The field, only while it is available.
    pub fn snapshot(&self) -> (s: Option<&FieldSnapshot>)
        ensures
            match s {
                Some(x) => readable_snapshot(*self) == Some(*x),
                None => readable_snapshot(*self) is None,
            },
    {
        if self.availability == IndoorLightAvailability::Available {
            self.snapshot.as_ref()
        } else {
            None
        }
    }

    /// The field, only while available and published for `world_epoch`.
    pub fn snapshot_for_epoch(&self, world_epoch: u64) -> (s: Option<&FieldSnapshot>)
        ensures
            match s {
                Some(x) => snapshot_of_epoch(*self, world_epoch) == Some(*x),
                None => snapshot_of_epoch(*self, world_epoch) is None,
            },
    {
        if self.published_epoch == Some(world_epoch) {
            self.snapshot()
        } else {
            None
        }
    }

    pub fn published_epoch(&self) -> (e: Option<u64>)
        ensures
            e == self.published_epoch,
    {
        self.published_epoch
    }

    pub fn input_revision(&self) -> (r: u64)
        ensures
            r == self.input_revision,
    {
        self.input_revision
    }

    /// The revision of the held field, 0 when none is held.
    pub fn output_revision(&self) -> (r: u64)
        ensures
            r == (match self.snapshot {
                Some(s) => s.field_revision,
                None => 0,
            }),
    {
        match &self.snapshot {
            Some(s) => s.field_revision,
            None => 0,
        }
    }

    /// Hex text of the readable field's checksum.
    pub fn field_checksum_hex(&self) -> (h: Option<String>)
        ensures
            match readable_snapshot(*self) {
                Some(s) => h matches Some(t) && t@ == s.field_checksum_hex@,
                None => h is None,
            },
    {
        match self.snapshot() {
            Some(s) => Some(clone_string(&s.field_checksum_hex)),
            None => None,
        }
    }

    /// Hex text of the readable field's indoor mask checksum.
    pub fn mask_checksum_hex(&self) -> (h: Option<String>)
        ensures
            match readable_snapshot(*self) {
                Some(s) => h matches Some(t) && t@ == s.mask_checksum_hex@,
                None => h is None,
            },
    {
        match self.snapshot() {
            Some(s) => Some(clone_string(&s.mask_checksum_hex)),
            None => None,
        }
    }

    /// How many cells the readable field marks indoor, when that count fits
    /// in `u32`.
    pub fn indoor_mask_cells(&self) -> (n: Option<u32>)
        ensures
            match readable_snapshot(*self) {
                Some(s) => {
                    let c = nonzero_count(s.indoor_mask_bytes@);
                    if c <= u32::MAX { n == Some(c as u32) } else { n is None }
                },
                None => n is None,
            },
    {
        match self.snapshot() {
            None => None,
            Some(s) => {
                let bytes = &s.indoor_mask_bytes;
                let mut count: usize = 0;
                let mut i: usize = 0;
                while i < bytes.len()
                    invariant
                        i <= bytes@.len(),
                        count == nonzero_count(bytes@.take(i as int)),
                        count <= i,
                    decreases bytes.len() - i,
                {
                    proof {
                        assert(bytes@.take(i + 1).drop_last() =~= bytes@.take(i as int));
                    }
                    if bytes[i] != 0 {
                        count += 1;
                    }
                    i += 1;
                }
                assert(bytes@.take(bytes@.len() as int) =~= bytes@);
                if count <= u32::MAX as usize {
                    Some(count as u32)
                } else {
                    None
                }
            },
        }
    }

    /// Whether every cell of the readable field is dark.
    pub fn is_dark(&self) -> (d: Option<bool>)
        ensures
            match readable_snapshot(*self) {
                Some(s) => d == Some(all_zero(s.luminance@)),
                None => d is None,
            },
    {
        match self.snapshot() {
            None => None,
            Some(s) => {
                let mut i: usize = 0;
                while i < s.luminance.len()
                    invariant
                        readable_snapshot(*self) == Some(*s),
                        i <= s.luminance@.len(),
                        forall|j: int| 0 <= j < i ==> #[trigger] s.luminance@[j] == 0,
                    decreases s.luminance.len() - i,
                {
                    if s.luminance[i] != 0 {
                        assert(!all_zero(s.luminance@)) by {
                            assert(s.luminance@[i as int] != 0);
                        }
                        return Some(false);
                    }
                    i += 1;
                }
                Some(true)
            },
        }
    }

    /// Unavailable with no field held: readers see darkness.
    pub fn is_fail_dark(&self) -> (b: bool)
        ensures
            b == (self.availability == IndoorLightAvailability::Unavailable && self.snapshot is None),
    {
        self.availability == IndoorLightAvailability::Unavailable && self.snapshot.is_none()
    }

    pub fn last_error(&self) -> (e: Option<&LightingError>)
        ensures
            match e {
                Some(x) => self.last_error == Some(*x),
                None => self.last_error is None,
            },
    {
        self.last_error.as_ref()
    }

    pub fn typed_emitter_components(&self) -> (n: u32)
        ensures
            n == self.typed_emitter_components,
    {
        self.typed_emitter_components
    }

    pub fn eligible_supplied_emitters(&self) -> (n: u32)
        ensures
            n == self.eligible_supplied_emitters,
    {
        self.eligible_supplied_emitters
    }

    pub fn metrics(&self) -> (m: &IndoorLightingMetrics)
        ensures
            *m == self.metrics,
    {
        &self.metrics
    }

    /// Forgets everything while a world is being replaced: unavailable,
    /// nothing held, revisions and counters reset.
    pub fn reset_for_world_replace(&mut self)
        ensures
            replaced_state(*final(self)),
            final(self).availability == IndoorLightAvailability::Unavailable,
            final(self).snapshot is None,
            final(self).pending_input is None,
            final(self).last_input_checksum is None,
            final(self).input_revision == 0,
            final(self).published_epoch is None,
            final(self).last_error == Some(LightingError::WorldReplacement),
            final(self).typed_emitter_components == 0,
            final(self).eligible_supplied_emitters == 0,
            final(self).metrics == zero_metrics(),
    {
        self.availability = IndoorLightAvailability::Unavailable;
        self.snapshot = None;
        self.pending_input = None;
        self.last_input_checksum = None;
        self.input_revision = 0;
        self.published_epoch = None;
        self.last_error = Some(LightingError::WorldReplacement);
        self.typed_emitter_components = 0;
        self.eligible_supplied_emitters = 0;
        self.metrics = IndoorLightingMetrics {
            topology_dirty_updates: 0,
            emitter_dirty_updates: 0,
            room_mask_dirty_updates: 0,
            snapshot_collect_count: 0,
            full_snapshot_scan_count: 0,
            field_rebuild_count: 0,
            output_revision_increment_count: 0,
            failed_update_count: 0,
            max_rebuilds_per_update: 0,
            last_changed_cell_count: 0,
        };
    }

    /// Publishes the field as unavailable because of `error`.
    pub fn publish_unavailable(&mut self, error: LightingError)
        ensures
            unavailable_after(*old(self), *final(self), error),
    {
        self.availability = IndoorLightAvailability::Unavailable;
        self.snapshot = None;
        self.pending_input = None;
        self.last_input_checksum = None;
        self.published_epoch = None;
        self.last_error = Some(error);
        self.metrics.failed_update_count = self.metrics.failed_update_count.saturating_add(1);
    }
}

/// Every value is zero.
pub open spec fn all_zero(s: Seq<u16>) -> bool {
    forall|i: int| 0 <= i < s.len() ==> #[trigger] s[i] == 0
}

/// How many bytes are non-zero.
pub open spec fn nonzero_count(s: Seq<u8>) -> nat
    decreases s.len(),
{
    if s.len() == 0 {
        0
    } else {
        nonzero_count(s.drop_last()) + if s.last() != 0 { 1nat } else { 0nat }
    }
}


/// Which parts of the light field's input must be collected again.
#[derive(Debug, Clone, Copy, PartialEq, Eq, Structural)]
pub struct IndoorLightingDirty {
    pub topology: bool,
    pub emitters: bool,
    pub room_mask: bool,
    /// The room mask revision that was last seen.
    pub last_room_mask_revision: u64,
}

impl Default for IndoorLightingDirty {
    /// Everything dirty, so that the first update collects a field.
    fn default() -> (d: Self)
        ensures
            d == (IndoorLightingDirty { topology: true, emitters: true, room_mask: true, last_room_mask_revision: 0 }),
    {
        IndoorLightingDirty { topology: true, emitters: true, room_mask: true, last_room_mask_revision: 0 }
    }
}

impl IndoorLightingDirty {
    pub fn any(&self) -> (b: bool)
        ensures
            b == (self.topology || self.emitters || self.room_mask),
    {
        self.topology || self.emitters || self.room_mask
    }

    pub fn clear(&mut self)
        ensures
            *final(self) == (IndoorLightingDirty { topology: false, emitters: false, room_mask: false, ..*old(self) }),
    {
        self.topology = false;
        self.emitters = false;
        self.room_mask = false;
    }

    pub fn request_full_rebuild(&mut self)
        ensures
            *final(self) == (IndoorLightingDirty { topology: true, emitters: true, room_mask: true, ..*old(self) }),
    {
        self.topology = true;
        self.emitters = true;
        self.room_mask = true;
    }

    pub fn reset_for_world_replace(&mut self)
        ensures
            *final(self) == (IndoorLightingDirty { topology: false, emitters: false, room_mask: false, last_room_mask_revision: 0 }),
    {
        self.topology = false;
        self.emitters = false;
        self.room_mask = false;
        self.last_room_mask_revision = 0;
    }
}

/// What changed in the world since the last update, as the change filters
/// report it.
#[derive(Debug, Clone, Copy, PartialEq, Eq, Structural)]
pub struct LightingChangeFacts {
    pub buildings_changed: bool,
    pub doors_changed: bool,
    pub building_removed: bool,
    pub door_removed: bool,
    pub emitters_changed: bool,
    pub emitter_removed: bool,
    /// A power supply state was removed from an entity that still emits.
    pub supply_removed_from_emitter: bool,
    /// The room tile lookup's current mask revision.
    pub room_mask_revision: u64,
}

/// The topology changed.
pub open spec fn topology_changed(f: LightingChangeFacts) -> bool {
    f.buildings_changed || f.doors_changed || f.building_removed || f.door_removed
}

/// The emitters changed.
pub open spec fn emitters_changed(f: LightingChangeFacts) -> bool {
    f.emitters_changed || f.emitter_removed || f.supply_removed_from_emitter
}

/// Marks the parts of the input that changed dirty, and counts each kind of
/// change once per update.
pub fn mark_indoor_lighting_dirty(facts: LightingChangeFacts, dirty: &mut IndoorLightingDirty, runtime: &mut IndoorLightRuntime)
    ensures
        final(dirty).topology == (old(dirty).topology || topology_changed(facts)),
        final(dirty).emitters == (old(dirty).emitters || emitters_changed(facts)),
        final(dirty).room_mask == (old(dirty).room_mask || facts.room_mask_revision != old(dirty).last_room_mask_revision),
        final(dirty).last_room_mask_revision == facts.room_mask_revision,
        final(runtime).metrics == (IndoorLightingMetrics {
            topology_dirty_updates: if topology_changed(facts) { sat_inc(old(runtime).metrics.topology_dirty_updates) } else { old(runtime).metrics.topology_dirty_updates },
            emitter_dirty_updates: if emitters_changed(facts) { sat_inc(old(runtime).metrics.emitter_dirty_updates) } else { old(runtime).metrics.emitter_dirty_updates },
            room_mask_dirty_updates: if facts.room_mask_revision != old(dirty).last_room_mask_revision { sat_inc(old(runtime).metrics.room_mask_dirty_updates) } else { old(runtime).metrics.room_mask_dirty_updates },
            ..old(runtime).metrics
        }),
        final(runtime).availability == old(runtime).availability,
        final(runtime).snapshot == old(runtime).snapshot,
        final(runtime).pending_input == old(runtime).pending_input,
        final(runtime).last_input_checksum == old(runtime).last_input_checksum,
        final(runtime).input_revision == old(runtime).input_revision,
        final(runtime).published_epoch == old(runtime).published_epoch,
        final(runtime).last_error == old(runtime).last_error,
        final(runtime).typed_emitter_components == old(runtime).typed_emitter_components,
        final(runtime).eligible_supplied_emitters == old(runtime).eligible_supplied_emitters,
{
    if facts.buildings_changed || facts.doors_changed || facts.building_removed || facts.door_removed {
        dirty.topology = true;
        runtime.metrics.topology_dirty_updates = runtime.metrics.topology_dirty_updates.saturating_add(1);
    }
    if facts.emitters_changed || facts.emitter_removed || facts.supply_removed_from_emitter {
        dirty.emitters = true;
        runtime.metrics.emitter_dirty_updates = runtime.metrics.emitter_dirty_updates.saturating_add(1);
    }
    if facts.room_mask_revision != dirty.last_room_mask_revision {
        dirty.last_room_mask_revision = facts.room_mask_revision;
        dirty.room_mask = true;
        runtime.metrics.room_mask_dirty_updates = runtime.metrics.room_mask_dirty_updates.saturating_add(1);
    }
}

/// Collects the field input when something is dirty: on success the input
/// waits for the next rebuild, on failure the field is published as
/// unavailable. Either way the dirty flags are cleared.
pub fn collect_indoor_lighting_snapshot(
    runtime: &mut IndoorLightRuntime,
    dirty: &mut IndoorLightingDirty,
    d: GridDimensions,
    buildings: &Vec<BuildingLightFacts>,
    doors: &Vec<DoorLightFacts>,
    room_tiles: &Vec<Grid>,
    emitters: &Vec<EmitterLightFacts>,
)
    ensures
        !(old(dirty).topology || old(dirty).emitters || old(dirty).room_mask) ==> *final(runtime) == *old(runtime) && *final(dirty) == *old(dirty),
        (old(dirty).topology || old(dirty).emitters || old(dirty).room_mask) ==> {
            let counted = IndoorLightRuntime {
                metrics: IndoorLightingMetrics {
                    snapshot_collect_count: sat_inc(old(runtime).metrics.snapshot_collect_count),
                    full_snapshot_scan_count: sat_inc(old(runtime).metrics.full_snapshot_scan_count),
                    ..old(runtime).metrics
                },
                ..*old(runtime)
            };
            &&& *final(dirty) == (IndoorLightingDirty { topology: false, emitters: false, room_mask: false, ..*old(dirty) })
            &&& match spec_collect_error(d, buildings@, doors@, room_tiles@, emitters@) {
                Some(e) => unavailable_after(counted, *final(runtime), LightingError::Input(e)),
                None => {
                    &&& final(runtime).pending_input matches Some(c)
                    &&& is_collected_input(c, d, buildings@, doors@, room_tiles@, emitters@)
                    &&& final(runtime).typed_emitter_components == c.typed_emitter_components
                    &&& final(runtime).eligible_supplied_emitters == c.eligible_supplied_emitters
                    &&& final(runtime).last_error is None
                    &&& final(runtime).availability == counted.availability
                    &&& final(runtime).snapshot == counted.snapshot
                    &&& final(runtime).last_input_checksum == counted.last_input_checksum
                    &&& final(runtime).input_revision == counted.input_revision
                    &&& final(runtime).published_epoch == counted.published_epoch
                    &&& final(runtime).metrics == counted.metrics
                },
            }
        },
{
    if !dirty.any() {
        return;
    }
    runtime.metrics.snapshot_collect_count = runtime.metrics.snapshot_collect_count.saturating_add(1);
    runtime.metrics.full_snapshot_scan_count = runtime.metrics.full_snapshot_scan_count.saturating_add(1);
    match build_input(d, buildings, doors, room_tiles, emitters) {
        Ok(collected) => {
            runtime.typed_emitter_components = collected.typed_emitter_components;
            runtime.eligible_supplied_emitters = collected.eligible_supplied_emitters;
            runtime.pending_input = Some(collected);
            runtime.last_error = None;
        },
        Err(e) => runtime.publish_unavailable(LightingError::Input(e)),
    }
    dirty.clear();
}


/// The revision of the field a runtime holds, 0 when it holds none.
pub open spec fn held_revision(r: IndoorLightRuntime) -> u64 {
    match r.snapshot {
        Some(s) => s.field_revision,
        None => 0,
    }
}

/// `new` is `old` after a rebuild of the field for `epoch` ended with
/// `result`: a clean outcome is published (the input revision advancing when
/// the input checksum changed), anything else publishes the field as
/// unavailable.
pub open spec fn rebuild_step(old: IndoorLightRuntime, new: IndoorLightRuntime, epoch: u64, result: Result<RebuildOutcome, String>) -> bool {
    match result {
        Err(msg) => unavailable_after(old, new, LightingError::Core(msg)),
        Ok(out) => if out.diagnostics@.len() > 0 {
            unavailable_after(old, new, LightingError::InvalidEmitterDiagnostics {
                count: out.diagnostics@.len() as usize,
                first: out.diagnostics@[0],
            })
        } else {
            let input_changed = old.last_input_checksum != Some(out.input_checksum);
            if input_changed && old.input_revision == u64::MAX {
                unavailable_after(old, new, LightingError::InputRevisionOverflow)
            } else {
                &&& new.availability == IndoorLightAvailability::Available
                &&& new.snapshot == Some(out.snapshot)
                &&& new.published_epoch == Some(epoch)
                &&& new.last_input_checksum == Some(out.input_checksum)
                &&& new.input_revision == if input_changed { (old.input_revision + 1) as u64 } else { old.input_revision }
                &&& new.last_error is None
                &&& new.pending_input == old.pending_input
                &&& new.typed_emitter_components == old.typed_emitter_components
                &&& new.eligible_supplied_emitters == old.eligible_supplied_emitters
                &&& new.metrics == (IndoorLightingMetrics {
                    last_changed_cell_count: out.snapshot.changed_cell_count,
                    output_revision_increment_count: if out.snapshot.field_revision != held_revision(old) {
                        sat_inc(old.metrics.output_revision_increment_count)
                    } else {
                        old.metrics.output_revision_increment_count
                    },
                    ..old.metrics
                })
            }
        },
    }
}

impl IndoorLightRuntime {
    /// Takes the pending input for a rebuild, counting the rebuild.
    pub fn begin_rebuild(&mut self) -> (input: Option<CollectedLightInput>)
        ensures
            input == old(self).pending_input,
            input is None ==> *final(self) == *old(self),
            input is Some ==> *final(self) == (IndoorLightRuntime {
                pending_input: None,
                metrics: IndoorLightingMetrics {
                    field_rebuild_count: sat_inc(old(self).metrics.field_rebuild_count),
                    max_rebuilds_per_update: if old(self).metrics.max_rebuilds_per_update >= 1 { old(self).metrics.max_rebuilds_per_update } else { 1 },
                    ..old(self).metrics
                },
                ..*old(self)
            }),
    {
        let input = self.pending_input.take();
        if input.is_some() {
            self.metrics.field_rebuild_count = self.metrics.field_rebuild_count.saturating_add(1);
            if self.metrics.max_rebuilds_per_update < 1 {
                self.metrics.max_rebuilds_per_update = 1;
            }
        }
        input
    }

    /// Publishes what the light-field core returned for the field of
    /// `world_epoch`, as [`rebuild_step`] says.
    pub fn finish_rebuild(&mut self, world_epoch: u64, result: Result<RebuildOutcome, String>)
        ensures
            rebuild_step(*old(self), *final(self), world_epoch, result),
    {
        let previous_revision = self.output_revision();
        match result {
            Err(msg) => self.publish_unavailable(LightingError::Core(msg)),
            Ok(outcome) => {
                let RebuildOutcome { snapshot, input_checksum, diagnostics } = outcome;
                if diagnostics.len() > 0 {
                    let count = diagnostics.len();
                    let mut diagnostics = diagnostics;
                    let first = diagnostics.remove(0);
                    self.publish_unavailable(LightingError::InvalidEmitterDiagnostics { count, first });
                    return;
                }
                let input_changed = match self.last_input_checksum {
                    Some(c) => c != input_checksum,
                    None => true,
                };
                if input_changed {
                    if self.input_revision == u64::MAX {
                        self.publish_unavailable(LightingError::InputRevisionOverflow);
                        return;
                    }
                    self.input_revision = self.input_revision + 1;
                }
                self.last_input_checksum = Some(input_checksum);
                let changed_cells = snapshot.changed_cell_count;
                let revision = snapshot.field_revision;
                self.snapshot = Some(snapshot);
                self.published_epoch = Some(world_epoch);
                self.metrics.last_changed_cell_count = changed_cells;
                self.availability = IndoorLightAvailability::Available;
                self.last_error = None;
                if revision != previous_revision {
                    self.metrics.output_revision_increment_count = self.metrics.output_revision_increment_count.saturating_add(1);
                }
            },
        }
    }
}

/// A runtime whose world is being replaced: unavailable and holding nothing.
pub open spec fn replaced_state(r: IndoorLightRuntime) -> bool {
    &&& r.availability == IndoorLightAvailability::Unavailable
    &&& r.snapshot is None
    &&& r.pending_input is None
    &&& r.published_epoch is None
}

/// After a world replacement the field is fail-dark and no epoch, old or
/// new, can read a field until a rebuild publishes one.
pub proof fn law_replaced_runtime_reads_nothing(r: IndoorLightRuntime, epoch: u64)
    requires
        replaced_state(r),
    ensures
        r.availability == IndoorLightAvailability::Unavailable && r.snapshot is None,
        readable_snapshot(r) is None,
        snapshot_of_epoch(r, epoch) is None,
{
}

/// A published rebuild is read back, unchanged, by exactly the epoch it was
/// published for.
pub proof fn law_rebuild_is_read_back(old: IndoorLightRuntime, new: IndoorLightRuntime, epoch: u64, out: RebuildOutcome, other: u64)
    requires
        rebuild_step(old, new, epoch, Ok(out)),
        out.diagnostics@.len() == 0,
        !(old.last_input_checksum != Some(out.input_checksum) && old.input_revision == u64::MAX),
        other != epoch,
    ensures
        snapshot_of_epoch(new, epoch) == Some(out.snapshot),
        snapshot_of_epoch(new, other) is None,
{
}

/// A rebuild never lowers the input revision, and raises it by one exactly
/// when a clean outcome brings a new input checksum.
pub proof fn law_input_revision_is_monotone(old: IndoorLightRuntime, new: IndoorLightRuntime, epoch: u64, result: Result<RebuildOutcome, String>)
    requires
        rebuild_step(old, new, epoch, result),
    ensures
        old.input_revision <= new.input_revision,
        new.input_revision <= old.input_revision + 1,
        new.input_revision == old.input_revision + 1 <==> (result matches Ok(out) && out.diagnostics@.len() == 0
            && old.last_input_checksum != Some(out.input_checksum) && old.input_revision < u64::MAX),
{
}

/// Every failed rebuild leaves the field fail-dark.
pub proof fn law_failed_rebuild_is_fail_dark(old: IndoorLightRuntime, new: IndoorLightRuntime, epoch: u64, result: Result<RebuildOutcome, String>, any_epoch: u64)
    requires
        rebuild_step(old, new, epoch, result),
        new.availability != IndoorLightAvailability::Available,
    ensures
        new.availability == IndoorLightAvailability::Unavailable,
        new.snapshot is None,
        snapshot_of_epoch(new, any_epoch) is None,
{
}


/// Counters of world replacement, wake and field reads, kept only while
/// enabled.
#[derive(Debug, Clone, Copy, PartialEq, Eq, Structural)]
pub struct IndoorLightingLifecycleProbe {
    pub enabled: bool,
    pub reset_count: u64,
    pub wake_count: u64,
    pub field_read_count: u64,
    pub old_epoch_field_read_attempts: u64,
    pub old_epoch_field_reads: u64,
    /// Every recorded reset left the field fail-dark.
    pub all_resets_fail_dark: bool,
}

impl Default for IndoorLightingLifecycleProbe {
    fn default() -> (p: Self)
        ensures
            p == (IndoorLightingLifecycleProbe {
                enabled: false,
                reset_count: 0,
                wake_count: 0,
                field_read_count: 0,
                old_epoch_field_read_attempts: 0,
                old_epoch_field_reads: 0,
                all_resets_fail_dark: true,
            }),
    {
        IndoorLightingLifecycleProbe {
            enabled: false,
            reset_count: 0,
            wake_count: 0,
            field_read_count: 0,
            old_epoch_field_read_attempts: 0,
            old_epoch_field_reads: 0,
            all_resets_fail_dark: true,
        }
    }
}

impl IndoorLightingLifecycleProbe {
    pub fn enable(&mut self)
        ensures
            *final(self) == (IndoorLightingLifecycleProbe { enabled: true, ..*old(self) }),
    {
        self.enabled = true;
    }

    pub fn reset_count(&self) -> (n: u64)
        ensures
            n == self.reset_count,
    {
        self.reset_count
    }

    pub fn wake_count(&self) -> (n: u64)
        ensures
            n == self.wake_count,
    {
        self.wake_count
    }

    pub fn field_read_count(&self) -> (n: u64)
        ensures
            n == self.field_read_count,
    {
        self.field_read_count
    }

    pub fn old_epoch_field_read_attempts(&self) -> (n: u64)
        ensures
            n == self.old_epoch_field_read_attempts,
    {
        self.old_epoch_field_read_attempts
    }

    pub fn old_epoch_field_reads(&self) -> (n: u64)
        ensures
            n == self.old_epoch_field_reads,
    {
        self.old_epoch_field_reads
    }

    pub fn all_resets_fail_dark(&self) -> (b: bool)
        ensures
            b == self.all_resets_fail_dark,
    {
        self.all_resets_fail_dark
    }

    /// Counts a world replacement and whether it left the field fail-dark.
    pub fn record_reset(&mut self, fail_dark: bool)
        ensures
            *final(self) == (if old(self).enabled {
                IndoorLightingLifecycleProbe {
                    reset_count: sat_inc(old(self).reset_count),
                    all_resets_fail_dark: old(self).all_resets_fail_dark && fail_dark,
                    ..*old(self)
                }
            } else {
                *old(self)
            }),
    {
        if self.enabled {
            self.reset_count = self.reset_count.saturating_add(1);
            self.all_resets_fail_dark = self.all_resets_fail_dark && fail_dark;
        }
    }

    /// Counts a wake.
    pub fn record_wake(&mut self)
        ensures
            *final(self) == (if old(self).enabled {
                IndoorLightingLifecycleProbe { wake_count: sat_inc(old(self).wake_count), ..*old(self) }
            } else {
                *old(self)
            }),
    {
        if self.enabled {
            self.wake_count = self.wake_count.saturating_add(1);
        }
    }

    /// Counts a field read, and separately a read for another epoch than the
    /// current one and whether it returned a field.
    pub fn record_read(&mut self, requested: u64, current: u64, returned: bool)
        ensures
            *final(self) == (if !old(self).enabled {
                *old(self)
            } else if requested == current {
                IndoorLightingLifecycleProbe { field_read_count: sat_inc(old(self).field_read_count), ..*old(self) }
            } else {
                IndoorLightingLifecycleProbe {
                    field_read_count: sat_inc(old(self).field_read_count),
                    old_epoch_field_read_attempts: sat_inc(old(self).old_epoch_field_read_attempts),
                    old_epoch_field_reads: if returned { sat_inc(old(self).old_epoch_field_reads) } else { old(self).old_epoch_field_reads },
                    ..*old(self)
                }
            }),
    {
        if !self.enabled {
            return;
        }
        self.field_read_count = self.field_read_count.saturating_add(1);
        if requested != current {
            self.old_epoch_field_read_attempts = self.old_epoch_field_read_attempts.saturating_add(1);
            if returned {
                self.old_epoch_field_reads = self.old_epoch_field_reads.saturating_add(1);
            }
        }
    }
}

/// Reads the field published for `requested_epoch`, recording the read.
pub fn read_indoor_light_snapshot<'a>(
    runtime: &'a IndoorLightRuntime,
    requested_epoch: u64,
    current_epoch: u64,
    probe: &mut IndoorLightingLifecycleProbe,
) -> (s: Option<&'a FieldSnapshot>)
    ensures
        match s {
            Some(x) => snapshot_of_epoch(*runtime, requested_epoch) == Some(*x),
            None => snapshot_of_epoch(*runtime, requested_epoch) is None,
        },
        *final(probe) == (if !old(probe).enabled {
            *old(probe)
        } else if requested_epoch == current_epoch {
            IndoorLightingLifecycleProbe { field_read_count: sat_inc(old(probe).field_read_count), ..*old(probe) }
        } else {
            IndoorLightingLifecycleProbe {
                field_read_count: sat_inc(old(probe).field_read_count),
                old_epoch_field_read_attempts: sat_inc(old(probe).old_epoch_field_read_attempts),
                old_epoch_field_reads: if s is Some { sat_inc(old(probe).old_epoch_field_reads) } else { old(probe).old_epoch_field_reads },
                ..*old(probe)
            }
        }),
{
    let snapshot = runtime.snapshot_for_epoch(requested_epoch);
    probe.record_read(requested_epoch, current_epoch, snapshot.is_some());
    snapshot
}

/// A runtime that published its field for the current epoch never hands
/// it to a read for another epoch, so such a read is never counted as an
/// old-epoch read.
pub proof fn law_old_epoch_reads_return_nothing(r: IndoorLightRuntime, current: u64, requested: u64)
    requires
        r.published_epoch == Some(current),
        requested != current,
    ensures
        snapshot_of_epoch(r, requested) is None,
{
}

/// Allocation counters of the last emitter collection, kept only while
/// enabled.
#[derive(Debug, Clone, Copy, Default, PartialEq, Eq, Structural)]
pub struct IndoorLightingAllocationProbe {
    pub enabled: bool,
    pub emitter_collect_events: Option<u64>,
    pub emitter_collect_bytes: Option<u64>,
}

impl IndoorLightingAllocationProbe {
    pub fn enable(&mut self)
        ensures
            *final(self) == (IndoorLightingAllocationProbe { enabled: true, ..*old(self) }),
    {
        self.enabled = true;
    }

    pub fn emitter_collect_allocation_events(&self) -> (n: Option<u64>)
        ensures
            n == self.emitter_collect_events,
    {
        self.emitter_collect_events
    }

    pub fn emitter_collect_allocation_bytes(&self) -> (n: Option<u64>)
        ensures
            n == self.emitter_collect_bytes,
    {
        self.emitter_collect_bytes
    }

    /// Records the allocations of a successful collection while enabled.
    pub fn record_collect(&mut self, events: u64, bytes: u64)
        ensures
            *final(self) == (if old(self).enabled {
                IndoorLightingAllocationProbe { emitter_collect_events: Some(events), emitter_collect_bytes: Some(bytes), ..*old(self) }
            } else {
                *old(self)
            }),
    {
        if self.enabled {
            self.emitter_collect_events = Some(events);
            self.emitter_collect_bytes = Some(bytes);
        }
    }
}

/// Wakes indoor lighting after a world was loaded: everything is collected
/// again and the wake is counted.
pub fn wake_indoor_lighting(dirty: &mut IndoorLightingDirty, probe: &mut IndoorLightingLifecycleProbe)
    ensures
        *final(dirty) == (IndoorLightingDirty { topology: true, emitters: true, room_mask: true, ..*old(dirty) }),
        *final(probe) == (if old(probe).enabled {
            IndoorLightingLifecycleProbe { wake_count: sat_inc(old(probe).wake_count), ..*old(probe) }
        } else {
            *old(probe)
        }),
{
    dirty.request_full_rebuild();
    probe.record_wake();
}

/// Resets indoor lighting while a world is replaced: the runtime goes
/// fail-dark, the dirty flags and the allocation probe are cleared, and the
/// reset is counted with its fail-dark outcome.
pub fn reset_indoor_lighting_for_world_replace(
    runtime: &mut IndoorLightRuntime,
    dirty: &mut IndoorLightingDirty,
    allocation: &mut IndoorLightingAllocationProbe,
    probe: &mut IndoorLightingLifecycleProbe,
)
    ensures
        replaced_state(*final(runtime)),
        final(runtime).availability == IndoorLightAvailability::Unavailable && final(runtime).snapshot is None,
        final(runtime).last_error == Some(LightingError::WorldReplacement),
        final(runtime).input_revision == 0,
        final(runtime).metrics == zero_metrics(),
        *final(dirty) == (IndoorLightingDirty { topology: false, emitters: false, room_mask: false, last_room_mask_revision: 0 }),
        *final(allocation) == (IndoorLightingAllocationProbe { enabled: false, emitter_collect_events: None, emitter_collect_bytes: None }),
        *final(probe) == (if old(probe).enabled {
            IndoorLightingLifecycleProbe { reset_count: sat_inc(old(probe).reset_count), ..*old(probe) }
        } else {
            *old(probe)
        }),
{
    runtime.reset_for_world_replace();
    dirty.reset_for_world_replace();
    *allocation = IndoorLightingAllocationProbe { enabled: false, emitter_collect_events: None, emitter_collect_bytes: None };
    let fail_dark = runtime.is_fail_dark();
    probe.record_reset(fail_dark);
}

} // verus!
