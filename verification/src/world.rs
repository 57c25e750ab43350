use vstd::prelude::*;

verus! {

/// Positions, velocities and rotation components are stored as integers
/// scaled by 1000 (milli-units); durations are in milliseconds.
pub const MILLI: i64 = 1000;

/// Bound kept on the trunk's coordinates so that the emission geometry
/// can be computed without overflow.
pub const POS_LIMIT_MM: i64 = 1_000_000_000_000;

/// An emission delay is resampled in [1000ms, 6000ms); the first one is zero.
pub const MAX_EMISSION_DELAY_MS: u64 = 6000;

/// How a rigid body is driven by the physics engine.
#[derive(Clone, Copy, Debug, PartialEq, Eq)]
pub enum BodyType {
    /// Moved by forces and collisions.
    Dynamic,
    /// Moved only by the velocity this simulation commands each tick.
    KinematicVelocityBased,
    /// Frozen in place.
    Static,
}

/// The physics-visible state of a rigid body, in milli-units.
/// The rotation is carried as the cosine and sine of the body's angle,
/// each scaled by `MILLI`. The mass properties are the denominators of the
/// inverse mass and of the inverse principal inertia (an `inv_mass_denom`
/// of 3000 stands for an inverse mass of 1/3000).
#[derive(Clone, Copy, Debug, PartialEq, Eq)]
pub struct Body {
    pub body_type: BodyType,
    pub x_mm: i64,
    pub y_mm: i64,
    pub rot_cos_mm: i64,
    pub rot_sin_mm: i64,
    pub vx_mm: i64,
    pub vy_mm: i64,
    pub angvel_mrad: i64,
    pub inv_mass_denom: u64,
    pub inv_inertia_denom: u64,
}

/// Countdown controlling woodchip emission: fires once `elapsed_ms`
/// reaches `duration_ms`, and is then restarted with a fresh duration.
#[derive(Clone, Copy, Debug, PartialEq, Eq)]
pub struct EmissionTimer {
    pub duration_ms: u64,
    pub elapsed_ms: u64,
}

/// A trunk is either falling freely or being consumed by the chipper
/// whose entity id it carries.
#[derive(Clone, Copy, Debug, PartialEq, Eq)]
pub enum TrunkState {
    Free,
    InChipper(u64),
}

/// The trunk entity: at most one exists at a time. While `InChipper` it
/// owns the emission timer.
#[derive(Clone, Copy, Debug, PartialEq, Eq)]
pub struct TrunkEnt {
    pub id: u64,
    pub state: TrunkState,
    pub body: Body,
    pub timer: Option<EmissionTimer>,
}

/// A chipper either accepts trunks or is consuming one. Jamming is an
/// orthogonal axis driven by woodchips, carried as `is_jammed` beside it.
#[derive(Clone, Copy, Debug, PartialEq, Eq)]
pub enum ChipperState {
    Free,
    Chipping,
}

/// A chipper entity: level content, never destroyed. Its entity id equals
/// its index in the world's chipper list.
#[derive(Clone, Copy, Debug, PartialEq, Eq)]
pub struct ChipperEnt {
    pub id: u64,
    pub state: ChipperState,
    pub is_jammed: bool,
}

/// A woodchip is either flying freely or permanently embedded in the
/// chipper whose entity id it carries.
#[derive(Clone, Copy, Debug, PartialEq, Eq)]
pub enum WoodchipState {
    Free,
    StuckInChipper(u64),
}

/// A woodchip entity, created by the emitter.
#[derive(Clone, Copy, Debug, PartialEq, Eq)]
pub struct WoodchipEnt {
    pub id: u64,
    pub state: WoodchipState,
    pub body: Body,
}

/// A collision notification from the physics engine, naming the two
/// colliding bodies by entity id. A tick's notifications arrive as an
/// ordered batch.
#[derive(Clone, Copy, Debug, PartialEq, Eq)]
pub enum ContactEvent {
    Started(u64, u64),
    Stopped(u64, u64),
}

/// One entry of the physics narrow-phase contact set: the two touching
/// bodies and whether the contact is currently active.
#[derive(Clone, Copy, Debug, PartialEq, Eq)]
pub struct Contact {
    pub collider1: u64,
    pub collider2: u64,
    pub has_any_active_contact: bool,
}

/// The shared entity store that every per-tick pass reads and mutates.
/// Chipper ids are their indexes; trunk and woodchip ids are allocated
/// from `next_id`, which starts past the chipper ids.
pub struct World {
    pub chippers: Vec<ChipperEnt>,
    pub trunk: Option<TrunkEnt>,
    pub woodchips: Vec<WoodchipEnt>,
    pub next_id: u64,
}

/// The mathematical view of the store, over `Seq` instead of `Vec`.
pub struct WorldView {
    pub chippers: Seq<ChipperEnt>,
    pub trunk: Option<TrunkEnt>,
    pub woodchips: Seq<WoodchipEnt>,
    pub next_id: u64,
}

impl View for World {
    type V = WorldView;

    open spec fn view(&self) -> WorldView {
        WorldView {
            chippers: self.chippers@,
            trunk: self.trunk,
            woodchips: self.woodchips@,
            next_id: self.next_id,
        }
    }
}

/// The rotation components of a body never leave [-MILLI, MILLI].
pub open spec fn rot_wf(b: Body) -> bool {
    &&& -MILLI <= b.rot_cos_mm <= MILLI
    &&& -MILLI <= b.rot_sin_mm <= MILLI
}

/// Bounds under which the emission geometry is overflow-free.
pub open spec fn trunk_body_wf(b: Body) -> bool {
    &&& rot_wf(b)
    &&& -POS_LIMIT_MM <= b.x_mm <= POS_LIMIT_MM
    &&& -POS_LIMIT_MM <= b.y_mm <= POS_LIMIT_MM
}

impl WorldView {
    pub open spec fn is_chipper_id(self, e: u64) -> bool {
        e < self.chippers.len()
    }

    pub open spec fn is_trunk_id(self, e: u64) -> bool {
        self.trunk matches Some(t) && t.id == e
    }

    pub open spec fn is_woodchip_id(self, e: u64) -> bool {
        exists|j: int| 0 <= j < self.woodchips.len() && (#[trigger] self.woodchips[j]).id == e
    }

    pub open spec fn trunk_count(self) -> int {
        if self.trunk is Some {
            1
        } else {
            0
        }
    }

    /// Entity ids: chippers are their indexes; the trunk and the woodchips
    /// carry ids allocated from `next_id`, above every chipper id and
    /// pairwise distinct.
    pub open spec fn wf_ids(self) -> bool {
        &&& self.chippers.len() <= self.next_id
        &&& forall|i: int|
            0 <= i < self.chippers.len() ==> (#[trigger] self.chippers[i]).id == i
        &&& (self.trunk matches Some(t) ==> self.chippers.len() <= t.id < self.next_id)
        &&& forall|j: int|
            0 <= j < self.woodchips.len() ==> self.chippers.len()
                <= (#[trigger] self.woodchips[j]).id < self.next_id
        &&& forall|j: int, k: int|
            0 <= j < k < self.woodchips.len() ==> (#[trigger] self.woodchips[j]).id != (
            #[trigger] self.woodchips[k]).id
        &&& (self.trunk matches Some(t) ==> forall|j: int|
            0 <= j < self.woodchips.len() ==> (#[trigger] self.woodchips[j]).id != t.id)
    }

    /// A trunk being consumed always names an existing chipper that is
    /// currently `Chipping`.
    pub open spec fn wf_pairing(self) -> bool {
        self.trunk matches Some(t) ==> (t.state matches TrunkState::InChipper(c) ==> c
            < self.chippers.len() && self.chippers[c as int].state is Chipping)
    }

    /// The emission timer exists only on a trunk that is being consumed,
    /// and its countdown stays within the resampling range.
    pub open spec fn wf_timer(self) -> bool {
        self.trunk matches Some(t) ==> (t.timer matches Some(tm) ==> {
            &&& t.state is InChipper
            &&& tm.duration_ms < MAX_EMISSION_DELAY_MS
            &&& tm.elapsed_ms <= tm.duration_ms
        })
    }

    /// Some woodchip is embedded in the chipper at index `c`.
    pub open spec fn some_chip_stuck_in(self, c: int) -> bool {
        exists|j: int|
            0 <= j < self.woodchips.len() && (#[trigger] self.woodchips[j]).state
                == WoodchipState::StuckInChipper(c as u64)
    }

    /// A stuck woodchip names a jammed chipper, and a jammed chipper holds
    /// a stuck woodchip.
    pub open spec fn wf_jam(self) -> bool {
        &&& forall|j: int|
            0 <= j < self.woodchips.len() ==> ((#[trigger] self.woodchips[j]).state matches
                WoodchipState::StuckInChipper(c) ==> c < self.chippers.len()
                && self.chippers[c as int].is_jammed)
        &&& forall|c: int|
            0 <= c < self.chippers.len() && (#[trigger] self.chippers[c]).is_jammed
                ==> self.some_chip_stuck_in(c)
    }

    /// Geometry bounds: the trunk's transform stays where the emission
    /// computation cannot overflow; every rotation is a scaled unit pair.
    pub open spec fn wf_bodies(self) -> bool {
        &&& (self.trunk matches Some(t) ==> trunk_body_wf(t.body))
        &&& forall|j: int| 0 <= j < self.woodchips.len() ==> rot_wf((#[trigger] self.woodchips[j]).body)
    }

    /// Well-formedness of the store: established by `World::new` and
    /// preserved by every pass.
    pub open spec fn wf(self) -> bool {
        &&& self.wf_ids()
        &&& self.wf_pairing()
        &&& self.wf_timer()
        &&& self.wf_jam()
        &&& self.wf_bodies()
    }

    /// Full trunk/chipper state pairing: a consumed trunk's chipper is
    /// `Chipping`, and every `Chipping` chipper is consuming the trunk.
    pub open spec fn paired(self) -> bool {
        &&& self.wf_pairing()
        &&& forall|c: int|
            0 <= c < self.chippers.len() && (#[trigger] self.chippers[c]).state is Chipping
                ==> (self.trunk matches Some(t) && t.state == TrunkState::InChipper(c as u64))
    }
}

impl World {
    /// Build a world holding `n_chippers` chippers (level content), all
    /// accepting trunks and not jammed, and nothing else.
    pub fn new(n_chippers: usize) -> (w: World)
        ensures
            w@.wf(),
            w@.paired(),
            w@.chippers.len() == n_chippers,
            forall|i: int|
                0 <= i < n_chippers ==> (#[trigger] w@.chippers[i]) == (ChipperEnt {
                    id: i as u64,
                    state: ChipperState::Free,
                    is_jammed: false,
                }),
            w@.trunk is None,
            w@.woodchips.len() == 0,
            w@.next_id == n_chippers,
    {
        let mut chippers: Vec<ChipperEnt> = Vec::new();
        let mut i: usize = 0;
        while i < n_chippers
            invariant
                i <= n_chippers,
                chippers@.len() == i,
                forall|k: int|
                    0 <= k < i ==> (#[trigger] chippers@[k]) == (ChipperEnt {
                        id: k as u64,
                        state: ChipperState::Free,
                        is_jammed: false,
                    }),
            decreases n_chippers - i,
        {
            chippers.push(ChipperEnt { id: i as u64, state: ChipperState::Free, is_jammed: false });
            i = i + 1;
        }
        World { chippers, trunk: None, woodchips: Vec::new(), next_id: n_chippers as u64 }
    }

    /// Sync the trunk's transform from the physics engine. No-op when no
    /// trunk exists (it may have been despawned this tick).
    pub fn set_trunk_transform(&mut self, x_mm: i64, y_mm: i64, rot_cos_mm: i64, rot_sin_mm: i64)
        requires
            old(self)@.wf(),
            -POS_LIMIT_MM <= x_mm <= POS_LIMIT_MM,
            -POS_LIMIT_MM <= y_mm <= POS_LIMIT_MM,
            -MILLI <= rot_cos_mm <= MILLI,
            -MILLI <= rot_sin_mm <= MILLI,
        ensures
            final(self)@.wf(),
            old(self)@.paired() ==> final(self)@.paired(),
            final(self)@ == (match old(self)@.trunk {
                Option::None => old(self)@,
                Option::Some(t) => WorldView {
                    trunk: Some(
                        TrunkEnt {
                            body: Body { x_mm, y_mm, rot_cos_mm, rot_sin_mm, ..t.body },
                            ..t
                        },
                    ),
                    ..old(self)@
                },
            }),
    {
        match &self.trunk {
            None => {},
            Some(t) => {
                let t = *t;
                self.trunk = Some(
                    TrunkEnt { body: Body { x_mm, y_mm, rot_cos_mm, rot_sin_mm, ..t.body }, ..t },
                );
            },
        }
    }

    /// Sync a woodchip's transform from the physics engine.
    pub fn set_woodchip_transform(
        &mut self,
        idx: usize,
        x_mm: i64,
        y_mm: i64,
        rot_cos_mm: i64,
        rot_sin_mm: i64,
    )
        requires
            old(self)@.wf(),
            idx < old(self)@.woodchips.len(),
            -MILLI <= rot_cos_mm <= MILLI,
            -MILLI <= rot_sin_mm <= MILLI,
        ensures
            final(self)@.wf(),
            old(self)@.paired() ==> final(self)@.paired(),
            final(self)@ == (WorldView {
                woodchips: old(self)@.woodchips.update(
                    idx as int,
                    WoodchipEnt {
                        body: Body {
                            x_mm,
                            y_mm,
                            rot_cos_mm,
                            rot_sin_mm,
                            ..old(self)@.woodchips[idx as int].body
                        },
                        ..old(self)@.woodchips[idx as int]
                    },
                ),
                ..old(self)@
            }),
    {
        let c = self.woodchips[idx];
        self.woodchips.set(
            idx,
            WoodchipEnt { body: Body { x_mm, y_mm, rot_cos_mm, rot_sin_mm, ..c.body }, ..c },
        );
        proof {
            assert forall|c2: int|
                0 <= c2 < self@.chippers.len() && (#[trigger] self@.chippers[c2]).is_jammed
                implies self@.some_chip_stuck_in(c2) by {
                assert(old(self)@.some_chip_stuck_in(c2));
                let j = choose|j: int|
                    0 <= j < old(self)@.woodchips.len() && (#[trigger] old(
                        self,
                    )@.woodchips[j]).state == WoodchipState::StuckInChipper(c2 as u64);
                assert(self@.woodchips[j].state == WoodchipState::StuckInChipper(c2 as u64));
            }
        }
    }

    /// How many trunk entities exist (always 0 or 1: the store holds at
    /// most one).
    pub fn trunk_count(&self) -> (n: usize)
        ensures
            n == self@.trunk_count(),
            n <= 1,
    {
        match &self.trunk {
            Some(_) => 1,
            None => 0,
        }
    }
}

} // verus!
