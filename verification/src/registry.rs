//! The level registry: owns one `{map, position, visible}` record per
//! named level and arbitrates the load / unload / spawn / despawn
//! lifecycle.
//!
//! States of an entry: unloaded (map empty, not visible), loaded (map
//! populated, not visible), spawned (map populated, visible). `load` is
//! idempotent and skips decoding entirely once loaded; `unload` clears
//! everything from any state; `spawn` generates geometry only from the
//! loaded, not-yet-visible state; `despawn` retains the map and only
//! withdraws visibility.

use vstd::prelude::*;
use crate::decode::{DecodeError, decode, spec_decode};
use crate::generate::{
    GenError, PlacedPrimitive, PlacedPrimitiveS, gen_ready, gen_spec, generate, prims_view,
};
use crate::model::{LevelMap, LevelMapS, Position, V3S};
use crate::value::{Value, ValueS};

verus! {

/// Identity tag of a named level; one variant per level the application
/// ships.
#[derive(Clone, Copy, PartialEq, Eq, Structural, Debug)]
pub enum Level {
    TestMap,
}

impl Level {
    pub open spec fn spec_name(self) -> Seq<char> {
        match self {
            Level::TestMap => "test_map"@,
        }
    }

    /// The lookup name handed to the external scripting evaluator.
    pub fn name(&self) -> (r: &'static str)
        ensures
            r@ == self.spec_name(),
    {
        match *self {
            Level::TestMap => "test_map",
        }
    }
}

/// Mathematical state of one level entry.
#[verifier::ext_equal]
pub ghost struct EntryS {
    pub map: LevelMapS,
    pub pos: V3S,
    pub visible: bool,
}

impl EntryS {
    pub open spec fn unloaded() -> EntryS {
        EntryS { map: LevelMapS::empty(), pos: V3S::zero(), visible: false }
    }
}

/// One registry record: a map, its origin, and whether its geometry is
/// currently materialized by the external renderer.
#[derive(PartialEq, Debug)]
pub struct LevelEntry {
    pub map: LevelMap,
    pub position: Position,
    pub visible: bool,
}

impl View for LevelEntry {
    type V = EntryS;

    open spec fn view(&self) -> EntryS {
        EntryS { map: self.map@, pos: self.position@, visible: self.visible }
    }
}

/// What a `load` call did.
#[derive(Clone, Copy, PartialEq, Eq, Structural, Debug)]
pub enum LoadOutcome {
    /// The entry was unloaded and the description decoded successfully.
    Loaded,
    /// The entry was already loaded; the decoder was not invoked.
    AlreadyLoaded,
    /// The description was rejected; the entry is untouched.
    Failed(DecodeError),
}

/// What a `spawn` call did.
#[derive(PartialEq, Debug)]
pub enum SpawnOutcome {
    /// Geometry was generated and the entry is now visible; the caller
    /// hands these primitives to the renderer.
    Spawned(Vec<PlacedPrimitive>),
    /// The entry was already visible; nothing was generated.
    AlreadyVisible,
    /// The entry is not loaded; nothing was generated.
    NotLoaded,
    /// The map is loaded but its grids are unusable; surfaced loudly.
    Rejected(GenError),
}

/// Mathematical effect of a `spawn`.
pub ghost enum SpawnEffectS {
    Spawned(Seq<PlacedPrimitiveS>),
    AlreadyVisible,
    NotLoaded,
    Rejected,
}

/// The `load` transition: a no-op once loaded, otherwise an atomic commit
/// of the decoded map and position, or no change on a decode failure.
pub open spec fn load_spec(e: EntryS, raw: ValueS) -> (EntryS, LoadOutcome) {
    if e.map.is_loaded() {
        (e, LoadOutcome::AlreadyLoaded)
    } else {
        match spec_decode(raw) {
            Some(mp) => (
                EntryS { map: mp.0, pos: mp.1, visible: e.visible },
                LoadOutcome::Loaded,
            ),
            None => (e, LoadOutcome::Failed(DecodeError::Shape)),
        }
    }
}

/// The `unload` transition: from any state to the unloaded state.
pub open spec fn unload_spec(e: EntryS) -> EntryS {
    EntryS::unloaded()
}

/// The `spawn` transition: generates geometry exactly from the loaded,
/// not-yet-visible state with usable grids.
pub open spec fn spawn_spec(e: EntryS) -> (EntryS, SpawnEffectS) {
    if e.visible {
        (e, SpawnEffectS::AlreadyVisible)
    } else if !e.map.is_loaded() {
        (e, SpawnEffectS::NotLoaded)
    } else if !gen_ready(e.map) {
        (e, SpawnEffectS::Rejected)
    } else {
        (
            EntryS { visible: true, ..e },
            SpawnEffectS::Spawned(gen_spec(e.map, e.pos)),
        )
    }
}

/// The `despawn` transition: withdraws visibility, retains the map, and
/// says whether the renderer must remove this level's primitives.
pub open spec fn despawn_spec(e: EntryS) -> (EntryS, bool) {
    if e.visible {
        (EntryS { visible: false, ..e }, true)
    } else {
        (e, false)
    }
}

/// The registry: one record per `Level` variant.
pub struct Registry {
    pub test_map: LevelEntry,
}

impl Registry {
    /// The record of a level.
    pub open spec fn entry_of(self, level: Level) -> EntryS {
        match level {
            Level::TestMap => self.test_map@,
        }
    }

    /// Visibility is only ever granted to a loaded map.
    pub open spec fn wf(self) -> bool {
        forall|lv: Level| (#[trigger] self.entry_of(lv)).visible ==> self.entry_of(lv).map.is_loaded()
    }

    /// A registry whose every level starts unloaded.
    pub fn new() -> (r: Registry)
        ensures
            r.wf(),
            forall|lv: Level| #[trigger] r.entry_of(lv) == EntryS::unloaded(),
    {
        let r = Registry {
            test_map: LevelEntry {
                map: LevelMap::new(),
                position: Position::zero(),
                visible: false,
            },
        };
        proof {
            assert forall|lv: Level| #[trigger] r.entry_of(lv) == EntryS::unloaded() by {
                assert(r.test_map@.map =~~= LevelMapS::empty());
            }
        }
        r
    }

    /// Loads a level from an untyped description: a no-op once loaded,
    /// otherwise an all-or-nothing decode commit.
    pub fn load(&mut self, level: Level, raw: &Value) -> (r: LoadOutcome)
        requires
            old(self).wf(),
        ensures
            final(self).wf(),
            final(self).entry_of(level) == load_spec(old(self).entry_of(level), raw@).0,
            r == load_spec(old(self).entry_of(level), raw@).1,
            forall|lv: Level|
                lv != level ==> #[trigger] final(self).entry_of(lv) == old(self).entry_of(lv),
    {
        match level {
            Level::TestMap => {
                if self.test_map.map.is_loaded() {
                    return LoadOutcome::AlreadyLoaded;
                }
                match decode(raw) {
                    Ok((m, p)) => {
                        self.test_map.map = m;
                        self.test_map.position = p;
                        LoadOutcome::Loaded
                    },
                    Err(e) => LoadOutcome::Failed(e),
                }
            },
        }
    }

    /// Unloads a level from any state: clears the whole map, resets the
    /// position to the zero vector and withdraws visibility, atomically.
    pub fn unload(&mut self, level: Level)
        requires
            old(self).wf(),
        ensures
            final(self).wf(),
            final(self).entry_of(level) == unload_spec(old(self).entry_of(level)),
            final(self).entry_of(level).map.floors == Seq::<crate::model::FloorS>::empty(),
            final(self).entry_of(level).map.stairs == Seq::<crate::model::StairS>::empty(),
            final(self).entry_of(level).map.walls == Seq::<crate::model::WallS>::empty(),
            final(self).entry_of(level).pos == V3S::zero(),
            final(self).entry_of(level).visible == false,
            forall|lv: Level|
                lv != level ==> #[trigger] final(self).entry_of(lv) == old(self).entry_of(lv),
    {
        match level {
            Level::TestMap => {
                self.test_map.map.clear();
                self.test_map.position = Position::zero();
                self.test_map.visible = false;
                proof {
                    assert(self.test_map@.map =~~= LevelMapS::empty());
                }
            },
        }
    }

    /// Spawns a level's geometry when it is loaded and not yet visible;
    /// a no-op while already visible or unloaded. The returned primitives
    /// go to the external renderer.
    pub fn spawn(&mut self, level: Level) -> (r: SpawnOutcome)
        requires
            old(self).wf(),
        ensures
            final(self).wf(),
            final(self).entry_of(level) == spawn_spec(old(self).entry_of(level)).0,
            (match (r, spawn_spec(old(self).entry_of(level)).1) {
                (SpawnOutcome::Spawned(v), SpawnEffectS::Spawned(s)) => prims_view(v@) == s,
                (SpawnOutcome::AlreadyVisible, SpawnEffectS::AlreadyVisible) => true,
                (SpawnOutcome::NotLoaded, SpawnEffectS::NotLoaded) => true,
                (SpawnOutcome::Rejected(e), SpawnEffectS::Rejected) => e
                    == GenError::Precondition,
                _ => false,
            }),
            forall|lv: Level|
                lv != level ==> #[trigger] final(self).entry_of(lv) == old(self).entry_of(lv),
    {
        match level {
            Level::TestMap => {
                if self.test_map.visible {
                    return SpawnOutcome::AlreadyVisible;
                }
                if !self.test_map.map.is_loaded() {
                    return SpawnOutcome::NotLoaded;
                }
                match generate(&self.test_map.map, &self.test_map.position) {
                    Ok(prims) => {
                        self.test_map.visible = true;
                        SpawnOutcome::Spawned(prims)
                    },
                    Err(e) => SpawnOutcome::Rejected(e),
                }
            },
        }
    }

    /// Despawns a level: withdraws visibility and keeps the map. Returns
    /// whether the caller must instruct the renderer to remove this
    /// level's primitives.
    pub fn despawn(&mut self, level: Level) -> (removed: bool)
        requires
            old(self).wf(),
        ensures
            final(self).wf(),
            final(self).entry_of(level) == despawn_spec(old(self).entry_of(level)).0,
            removed == despawn_spec(old(self).entry_of(level)).1,
            forall|lv: Level|
                lv != level ==> #[trigger] final(self).entry_of(lv) == old(self).entry_of(lv),
    {
        match level {
            Level::TestMap => {
                if self.test_map.visible {
                    self.test_map.visible = false;
                    true
                } else {
                    false
                }
            },
        }
    }
}

// ------------------------------------------------------------------
// laws of the state machine

/// Once a load leaves an entry loaded, a second load changes nothing and
/// skips the decoder, whatever description it would have been handed.
pub proof fn lemma_load_idempotent(e: EntryS, raw: ValueS, raw2: ValueS)
    requires
        load_spec(e, raw).0.map.is_loaded(),
    ensures
        load_spec(load_spec(e, raw).0, raw2) == (load_spec(e, raw).0, LoadOutcome::AlreadyLoaded),
{
}

/// Unloading yields empty floors, stairs and walls, the zero position and
/// no visibility, whatever the prior state.
pub proof fn lemma_unload_clears(e: EntryS)
    ensures
        unload_spec(e).map.floors == Seq::<crate::model::FloorS>::empty(),
        unload_spec(e).map.stairs == Seq::<crate::model::StairS>::empty(),
        unload_spec(e).map.walls == Seq::<crate::model::WallS>::empty(),
        unload_spec(e).pos == V3S::zero(),
        unload_spec(e).visible == false,
{
}

/// A spawn followed immediately by a despawn leaves the entry not
/// visible, retains the map and position, and, whenever the spawn did
/// produce geometry, tells the renderer to remove it again.
pub proof fn lemma_spawn_despawn(e: EntryS)
    ensures
        despawn_spec(spawn_spec(e).0).0.visible == false,
        despawn_spec(spawn_spec(e).0).0.map == e.map,
        despawn_spec(spawn_spec(e).0).0.pos == e.pos,
        spawn_spec(e).1 is Spawned ==> despawn_spec(spawn_spec(e).0).1 == true,
{
}

} // verus!
