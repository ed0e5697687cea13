//! The battery: a reserve of power, the set of systems that currently draw on
//! it, and the rule by which one tick of load depletes it.

use crate::dice::roll_between;
use vstd::prelude::*;

verus! {

/// A system that draws power while it is in use.
#[derive(PartialEq, Eq, Structural, Clone, Copy, Debug, Hash)]
pub enum PowerDraw {
    Camera,
    Lights,
    Doors,
}

/// The charge of a fresh battery, in percent.
pub const FULL_POWER: i8 = 100;

/// The smallest drain roll.
pub const DRAIN_ROLL_LOW: u8 = 1;

/// The bound that every drain roll stays below.
pub const DRAIN_ROLL_HIGH: u8 = 20;

impl PowerDraw {
    /// The percent of charge that one hit of this system costs.
    pub open spec fn magnitude(self) -> int {
        match self {
            PowerDraw::Camera => 2,
            PowerDraw::Lights => 4,
            PowerDraw::Doors => 7,
        }
    }

    /// The position of this system in the order Camera, Lights, Doors.
    pub open spec fn ordinal(self) -> int {
        match self {
            PowerDraw::Camera => 0,
            PowerDraw::Lights => 1,
            PowerDraw::Doors => 2,
        }
    }

    /// Whether a drain roll of `roll` makes this system cost power this tick:
    /// the roll must reach twice the system's ordinal.
    pub open spec fn hit_by(self, roll: int) -> bool {
        self.ordinal() * 2 <= roll
    }

    /// The percent of charge that one hit of this system costs.
    pub fn value(&self) -> (v: i8)
        ensures
            v == self.magnitude(),
    {
        match self {
            PowerDraw::Camera => 2,
            PowerDraw::Lights => 4,
            PowerDraw::Doors => 7,
        }
    }

    /// Whether a drain roll of `roll` makes this system cost power this tick.
    pub fn is_hit_by(&self, roll: u8) -> (hit: bool)
        ensures
            hit == self.hit_by(roll as int),
    {
        match self {
            PowerDraw::Camera => true,
            PowerDraw::Lights => 2 <= roll,
            PowerDraw::Doors => 4 <= roll,
        }
    }
}

/// One drain roll for each system, as used by a single tick of the battery.
#[derive(PartialEq, Eq, Structural, Clone, Copy, Debug)]
pub struct DrainRolls {
    pub camera: u8,
    pub lights: u8,
    pub doors: u8,
}

impl DrainRolls {
    /// The roll that belongs to `kind`.
    pub open spec fn of(self, kind: PowerDraw) -> int {
        match kind {
            PowerDraw::Camera => self.camera as int,
            PowerDraw::Lights => self.lights as int,
            PowerDraw::Doors => self.doors as int,
        }
    }

    /// Whether every roll lies in the range that the dice produce.
    pub open spec fn in_range(self) -> bool {
        &&& DRAIN_ROLL_LOW <= self.camera < DRAIN_ROLL_HIGH
        &&& DRAIN_ROLL_LOW <= self.lights < DRAIN_ROLL_HIGH
        &&& DRAIN_ROLL_LOW <= self.doors < DRAIN_ROLL_HIGH
    }

    /// The same rolls with the one for `kind` replaced by `roll`.
    pub open spec fn with(self, kind: PowerDraw, roll: u8) -> DrainRolls {
        match kind {
            PowerDraw::Camera => DrainRolls { camera: roll, ..self },
            PowerDraw::Lights => DrainRolls { lights: roll, ..self },
            PowerDraw::Doors => DrainRolls { doors: roll, ..self },
        }
    }

    /// The roll that belongs to `kind`.
    pub fn get(&self, kind: PowerDraw) -> (roll: u8)
        ensures
            roll == self.of(kind),
    {
        match kind {
            PowerDraw::Camera => self.camera,
            PowerDraw::Lights => self.lights,
            PowerDraw::Doors => self.doors,
        }
    }

    /// Replaces the roll that belongs to `kind`.
    pub fn set(&mut self, kind: PowerDraw, roll: u8)
        ensures
            *final(self) == old(self).with(kind, roll),
    {
        match kind {
            PowerDraw::Camera => {
                self.camera = roll;
            },
            PowerDraw::Lights => {
                self.lights = roll;
            },
            PowerDraw::Doors => {
                self.doors = roll;
            },
        }
    }
}

/// The charge that `kind` costs in a tick with the given rolls, when the set
/// `active` of systems is in use: its magnitude if it is active and hit, else 0.
pub open spec fn cost_of(kind: PowerDraw, active: Set<PowerDraw>, rolls: DrainRolls) -> int {
    if active.contains(kind) && kind.hit_by(rolls.of(kind)) {
        kind.magnitude()
    } else {
        0
    }
}

/// The charge that one tick costs in all: the sum over the three systems.
pub open spec fn load(active: Set<PowerDraw>, rolls: DrainRolls) -> int {
    cost_of(PowerDraw::Camera, active, rolls) + cost_of(PowerDraw::Lights, active, rolls)
        + cost_of(PowerDraw::Doors, active, rolls)
}

/// What a battery is, as plain mathematics.
pub struct BatteryView {
    /// The charge in percent, or -1 once the battery has been shut down.
    pub power: int,
    /// The systems that currently draw power.
    pub active: Set<PowerDraw>,
    /// Whether the battery still supplies power.
    pub online: bool,
}

impl BatteryView {
    /// A battery is either online with a charge from 0 to 100, or offline
    /// with the marker -1 for its charge and nothing drawing on it.
    pub open spec fn wf(self) -> bool {
        if self.online {
            0 <= self.power <= FULL_POWER
        } else {
            self.power == -1 && self.active == Set::<PowerDraw>::empty()
        }
    }

    /// The charge as shown to the player: the marker of an offline battery
    /// reads as 0.
    pub open spec fn percent(self) -> int {
        if self.online {
            self.power
        } else {
            0
        }
    }

    /// A fresh battery.
    pub open spec fn full() -> BatteryView {
        BatteryView { power: FULL_POWER as int, active: Set::empty(), online: true }
    }

    /// Switching a system on; an offline battery ignores it.
    pub open spec fn add(self, kind: PowerDraw) -> BatteryView {
        if self.online {
            BatteryView { active: self.active.insert(kind), ..self }
        } else {
            self
        }
    }

    /// Switching a system off; an offline battery ignores it.
    pub open spec fn remove(self, kind: PowerDraw) -> BatteryView {
        if self.online {
            BatteryView { active: self.active.remove(kind), ..self }
        } else {
            self
        }
    }

    /// One tick of load: the charge falls by the load of the active systems
    /// under `rolls`, and stops at 0. An offline battery does not change.
    pub open spec fn drain(self, rolls: DrainRolls) -> BatteryView {
        if self.online {
            BatteryView { power: floor_at_zero(self.power - load(self.active, rolls)), ..self }
        } else {
            self
        }
    }

    /// Several ticks of load in a row, one entry of `rolls` for each tick.
    pub open spec fn drain_many(self, rolls: Seq<DrainRolls>) -> BatteryView
        decreases rolls.len(),
    {
        if rolls.len() == 0 {
            self
        } else {
            self.drain_many(rolls.drop_last()).drain(rolls.last())
        }
    }

    /// The battery after it has been shut down.
    pub open spec fn shutdown(self) -> BatteryView {
        BatteryView { power: -1, active: Set::empty(), online: false }
    }
}

/// The battery that powers the office.
#[derive(Debug)]
pub struct Battery {
    power: i8,
    power_draw: Vec<PowerDraw>,
    is_online: bool,
}

impl View for Battery {
    type V = BatteryView;

    closed spec fn view(&self) -> BatteryView {
        BatteryView {
            power: self.power as int,
            active: self.power_draw@.to_set(),
            online: self.is_online,
        }
    }
}

impl Battery {
    /// The invariant of the battery: its view is well formed, and no system is
    /// listed twice among the active ones.
    pub closed spec fn wf(&self) -> bool {
        &&& self@.wf()
        &&& self.power_draw@.no_duplicates()
    }

    /// Every well-formed battery has a well-formed view.
    pub proof fn lemma_wf_view(&self)
        requires
            self.wf(),
        ensures
            self@.wf(),
    {
    }

    /// A fresh battery: full, online, with nothing drawing on it.
    pub fn new() -> (battery: Battery)
        ensures
            battery.wf(),
            battery@ == BatteryView::full(),
    {
        let battery = Battery { power: 100, power_draw: Vec::new(), is_online: true };
        assert(battery.power_draw@.to_set() =~= Set::<PowerDraw>::empty());
        battery
    }

    /// The raw charge: 0 to 100 while online, -1 after a shutdown.
    pub fn power(&self) -> (p: i8)
        ensures
            p == self@.power,
    {
        self.power
    }

    /// The charge as shown to the player, always from 0 to 100.
    pub fn percent(&self) -> (p: u8)
        requires
            self.wf(),
        ensures
            p == self@.percent(),
            p <= FULL_POWER,
    {
        if self.is_online {
            self.power as u8
        } else {
            0
        }
    }

    /// Whether the battery still supplies power.
    pub fn is_online(&self) -> (online: bool)
        ensures
            online == self@.online,
    {
        self.is_online
    }

    /// Whether `kind` currently draws power.
    pub fn is_drawing(&self, kind: PowerDraw) -> (drawing: bool)
        ensures
            drawing == self@.active.contains(kind),
    {
        self.position(kind).is_some()
    }

    /// The place of `kind` among the active systems, if it is one of them.
    fn position(&self, kind: PowerDraw) -> (index: Option<usize>)
        ensures
            match index {
                Some(i) => i < self.power_draw@.len() && self.power_draw@[i as int] == kind,
                None => !self.power_draw@.contains(kind),
            },
            index.is_some() == self@.active.contains(kind),
    {
        let mut i: usize = 0;
        while i < self.power_draw.len()
            invariant
                i <= self.power_draw@.len(),
                forall|j: int| 0 <= j < i ==> self.power_draw@[j] != kind,
            decreases self.power_draw@.len() - i,
        {
            if self.power_draw[i] == kind {
                return Some(i);
            }
            i += 1;
        }
        None
    }

    /// Switches `kind` on. Switching on what is already on changes nothing,
    /// and an offline battery ignores the call.
    pub fn add_power_draw(&mut self, power_draw: PowerDraw)
        requires
            old(self).wf(),
        ensures
            final(self).wf(),
            final(self)@ == old(self)@.add(power_draw),
    {
        if self.is_online == false {
            return ;
        }
        let index = self.position(power_draw);
        match index {
            Some(_) => {
                assert(self@.active.insert(power_draw) =~= self@.active);
            },
            None => {
                self.power_draw.push(power_draw);
                assert(final(self)@.active =~= old(self)@.active.insert(power_draw)) by {
                    assert forall|k: PowerDraw|
                        self.power_draw@.contains(k) <==> (old(self).power_draw@.contains(k) || k
                            == power_draw) by {
                        if old(self).power_draw@.contains(k) {
                            let j = old(self).power_draw@.index_of(k);
                            assert(self.power_draw@[j] == k);
                        }
                        if k == power_draw {
                            assert(self.power_draw@[self.power_draw@.len() - 1] == k);
                        }
                    }
                }
            },
        }
    }

    /// Switches `kind` off. Switching off what is not on changes nothing, and
    /// an offline battery ignores the call.
    pub fn remove_power_draw(&mut self, power_draw: PowerDraw)
        requires
            old(self).wf(),
        ensures
            final(self).wf(),
            final(self)@ == old(self)@.remove(power_draw),
    {
        if self.is_online == false {
            return ;
        }
        let index = self.position(power_draw);
        match index {
            Some(i) => {
                self.power_draw.remove(i);
                assert(final(self)@.active =~= old(self)@.active.remove(power_draw)) by {
                    let before = old(self).power_draw@;
                    let after = self.power_draw@;
                    assert forall|k: PowerDraw|
                        after.contains(k) <==> (before.contains(k) && k != power_draw) by {
                        if after.contains(k) {
                            let j = after.index_of(k);
                            if j < i {
                                assert(before[j] == k);
                            } else {
                                assert(before[j + 1] == k);
                            }
                        }
                        if before.contains(k) && k != power_draw {
                            let j = before.index_of(k);
                            if j < i {
                                assert(after[j] == k);
                            } else {
                                assert(after[j - 1] == k);
                            }
                        }
                    }
                }
            },
            None => {
                assert(self@.active.remove(power_draw) =~= self@.active);
            },
        }
    }

    /// One tick of load with the given rolls: every active system that its
    /// roll hits costs its magnitude, and the charge stops at 0. An offline
    /// battery does not change.
    pub fn drain_with(&mut self, rolls: DrainRolls)
        requires
            old(self).wf(),
        ensures
            final(self).wf(),
            final(self)@ == old(self)@.drain(rolls),
    {
        if self.is_online == false {
            return ;
        }
        let ghost draws = self.power_draw@;
        let ghost start = self.power as int;
        let mut i: usize = 0;
        assert(draws.take(0).to_set() =~= Set::<PowerDraw>::empty());
        while i < self.power_draw.len()
            invariant
                self.is_online,
                self.power_draw@ == draws,
                draws.no_duplicates(),
                i <= draws.len(),
                0 <= start <= FULL_POWER,
                0 <= self.power <= FULL_POWER,
                self.power == floor_at_zero(start - load(draws.take(i as int).to_set(), rolls)),
            decreases draws.len() - i,
        {
            let draw = self.power_draw[i];
            proof {
                let seen = draws.take(i as int).to_set();
                let next = draws.take(i + 1).to_set();
                assert forall|k: PowerDraw| next.contains(k) <==> (seen.contains(k) || k == draw) by {
                    if next.contains(k) {
                        let j = draws.take(i + 1).index_of(k);
                        if j < i {
                            assert(draws.take(i as int)[j] == k);
                        }
                    }
                    if seen.contains(k) {
                        let j = draws.take(i as int).index_of(k);
                        assert(draws.take(i + 1)[j] == k);
                    }
                    if k == draw {
                        assert(draws.take(i + 1)[i as int] == k);
                    }
                }
                assert(!seen.contains(draw)) by {
                    if seen.contains(draw) {
                        let j = draws.take(i as int).index_of(draw);
                        assert(draws[j] == draws[i as int]);
                    }
                }
            }
            if draw.is_hit_by(rolls.get(draw)) {
                let cost = draw.value();
                if self.power >= cost {
                    self.power -= cost;
                } else {
                    self.power = 0;
                }
            }
            i += 1;
        }
        assert(draws.take(draws.len() as int) =~= draws);
    }

    /// Draws the rolls for one tick of load: a roll from 1 up to, but not
    /// including, 20 for each active system, in the order in which the
    /// systems were switched on. The roll of a system that is not active is
    /// 1, and an offline battery draws nothing.
    pub fn roll_drain(&self) -> (rolls: DrainRolls)
        ensures
            rolls.in_range(),
            forall|kind: PowerDraw|
                !(self@.online && self@.active.contains(kind)) ==> #[trigger] rolls.of(kind)
                    == DRAIN_ROLL_LOW,
    {
        let mut rolls = DrainRolls {
            camera: DRAIN_ROLL_LOW,
            lights: DRAIN_ROLL_LOW,
            doors: DRAIN_ROLL_LOW,
        };
        if self.is_online {
            let mut i: usize = 0;
            while i < self.power_draw.len()
                invariant
                    i <= self.power_draw@.len(),
                    rolls.in_range(),
                    forall|kind: PowerDraw|
                        !self.power_draw@.take(i as int).contains(kind) ==> #[trigger] rolls.of(
                            kind,
                        ) == DRAIN_ROLL_LOW,
                decreases self.power_draw@.len() - i,
            {
                let roll = roll_between(DRAIN_ROLL_LOW, DRAIN_ROLL_HIGH);
                let ghost earlier = rolls;
                rolls.set(self.power_draw[i], roll);
                proof {
                    let draws = self.power_draw@;
                    assert forall|kind: PowerDraw| !draws.take(i + 1).contains(kind) implies (
                    #[trigger] rolls.of(kind)) == DRAIN_ROLL_LOW by {
                        assert(draws.take(i + 1)[i as int] == draws[i as int]);
                        assert(kind != draws[i as int]);
                        if draws.take(i as int).contains(kind) {
                            let j = draws.take(i as int).index_of(kind);
                            assert(draws.take(i + 1)[j] == kind);
                        }
                        assert(rolls.of(kind) == earlier.of(kind));
                    }
                }
                i += 1;
            }
            assert(self.power_draw@.take(i as int) =~= self.power_draw@);
        }
        rolls
    }

    /// One tick of load with fresh dice: the rolls are drawn as `roll_drain`
    /// says, and the battery drains as `drain_with` says for those rolls.
    pub fn update_power(&mut self)
        requires
            old(self).wf(),
        ensures
            final(self).wf(),
            exists|rolls: DrainRolls| #[trigger]
                rolls.in_range() && final(self)@ == old(self)@.drain(rolls),
    {
        let rolls = self.roll_drain();
        self.drain_with(rolls);
        assert(rolls.in_range() && self@ == old(self)@.drain(rolls));
    }

    /// Shuts the battery down for the rest of the night: the charge becomes
    /// the offline marker, nothing draws power any more, and the battery is
    /// offline.
    pub fn shutdown(&mut self)
        ensures
            final(self).wf(),
            final(self)@ == old(self)@.shutdown(),
    {
        self.power = -1;
        self.power_draw.clear();
        self.is_online = false;
        assert(self.power_draw@.to_set() =~= Set::<PowerDraw>::empty());
    }
}

/// A number, or 0 where it is negative.
pub open spec fn floor_at_zero(x: int) -> int {
    if x < 0 {
        0
    } else {
        x
    }
}

/// One tick of load leaves a well-formed battery well formed, and the charge
/// shown stays between 0 and 100 and never rises.
pub proof fn lemma_drain_bounded(battery: BatteryView, rolls: DrainRolls)
    requires
        battery.wf(),
    ensures
        battery.drain(rolls).wf(),
        0 <= battery.drain(rolls).percent() <= battery.percent() <= FULL_POWER,
{
}

/// However many ticks of load follow one another, and whatever the rolls: the
/// battery stays well formed and the charge shown stays between 0 and 100.
pub proof fn lemma_drain_many_bounded(battery: BatteryView, rolls: Seq<DrainRolls>)
    requires
        battery.wf(),
    ensures
        battery.drain_many(rolls).wf(),
        0 <= battery.drain_many(rolls).percent() <= battery.percent() <= FULL_POWER,
    decreases rolls.len(),
{
    if rolls.len() > 0 {
        lemma_drain_many_bounded(battery, rolls.drop_last());
        lemma_drain_bounded(battery.drain_many(rolls.drop_last()), rolls.last());
    }
}

/// After a shutdown the battery is offline, shows a charge of 0 and has
/// nothing drawing on it; switching systems on or off, or a tick of load, no
/// longer changes it.
pub proof fn lemma_shutdown_is_final(battery: BatteryView, kind: PowerDraw, rolls: DrainRolls)
    ensures
        battery.shutdown().wf(),
        !battery.shutdown().online,
        battery.shutdown().percent() == 0,
        battery.shutdown().active == Set::<PowerDraw>::empty(),
        battery.shutdown().add(kind) == battery.shutdown(),
        battery.shutdown().remove(kind) == battery.shutdown(),
        battery.shutdown().drain(rolls) == battery.shutdown(),
{
}

/// Switching a system on twice is the same as switching it on once.
pub proof fn lemma_add_idempotent(battery: BatteryView, kind: PowerDraw)
    ensures
        battery.add(kind).add(kind) == battery.add(kind),
{
    assert(battery.active.insert(kind).insert(kind) =~= battery.active.insert(kind));
}

/// Switching a system off twice is the same as switching it off once.
pub proof fn lemma_remove_idempotent(battery: BatteryView, kind: PowerDraw)
    ensures
        battery.remove(kind).remove(kind) == battery.remove(kind),
{
    assert(battery.active.remove(kind).remove(kind) =~= battery.active.remove(kind));
}

/// Switching a system on and then off leaves it off, whatever it was before.
pub proof fn lemma_add_then_remove(battery: BatteryView, kind: PowerDraw)
    ensures
        battery.add(kind).remove(kind) == battery.remove(kind),
{
    assert(battery.active.insert(kind).remove(kind) =~= battery.active.remove(kind));
}

} // verus!
