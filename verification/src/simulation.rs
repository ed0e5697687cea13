//! The night as a whole: the office with its doors and lights, the roster of
//! agents, the battery, the clock, and the countdown that follows a power
//! failure.

use crate::animatronic::{
    chica, freddy, AgentView, Animatronic, MoveRolls, Tells, MAX_DIFFICULTY,
};
use crate::battery::{Battery, BatteryView, DrainRolls, PowerDraw};
use crate::dice::roll_between;
use crate::rooms::{
    cell_before, grid_cell, grid_room, lemma_coordinates_first_cell, on_grid, Locations,
    GRID_COLS, GRID_ROWS,
};
use vstd::prelude::*;

verus! {

/// The minute at which a night begins.
pub const START_TIME: u32 = 0;

/// The minute at which a night has been survived.
pub const END_TIME: u32 = 360;

/// The minutes that one tick takes.
pub const TICK_RATE: u32 = 15;

/// The number of nights in a game.
pub const NIGHTS: u8 = 5;

/// The name recorded as the killer while nobody has killed.
pub open spec fn nobody() -> Seq<char> {
    "MissingNo."@
}

/// The name of the third agent of the usual cast.
pub open spec fn bonnie() -> Seq<char> {
    "Bonnie"@
}

/// Whether `d`, not negative, is the largest number whose square does not
/// exceed `n`.
pub open spec fn is_floor_sqrt(d: int, n: int) -> bool {
    0 <= d && d * d <= n < (d + 1) * (d + 1)
}

/// The square of the straight-line distance between two grid cells.
pub open spec fn squared_distance(a: (int, int), b: (int, int)) -> int {
    (a.0 - b.0) * (a.0 - b.0) + (a.1 - b.1) * (a.1 - b.1)
}

/// The square of a small number.
fn square_of(x: u32) -> (square: u32)
    requires
        x <= 9,
    ensures
        square == x * x,
{
    assert(x * x <= 81) by (nonlinear_arith)
        requires
            x <= 9,
    ;
    x * x
}

/// A move of the player.
#[derive(PartialEq, Eq, Structural, Clone, Copy, Debug, Hash)]
pub enum Action {
    LeftDoor,
    RightDoor,
    LeftLight,
    RightLight,
    Camera,
    Sit,
}

/// What the player perceives at a stage of the countdown that follows a power
/// failure.
#[derive(PartialEq, Eq, Structural, Clone, Copy, Debug, Hash)]
pub enum BlackoutCue {
    GlowingEyes,
    ItsMe,
    StillHere,
    AlwaysHere,
    AlwaysWatching,
    AlwaysWatchingYou,
    Silence,
}

/// The stage of the countdown from which on there is only silence, and the
/// lead agent attacks.
pub const FINAL_STAGE: u8 = 6;

impl BlackoutCue {
    /// The cue of a stage: six warnings in turn, then silence.
    pub open spec fn at_stage(stage: int) -> BlackoutCue {
        if stage == 0 {
            BlackoutCue::GlowingEyes
        } else if stage == 1 {
            BlackoutCue::ItsMe
        } else if stage == 2 {
            BlackoutCue::StillHere
        } else if stage == 3 {
            BlackoutCue::AlwaysHere
        } else if stage == 4 {
            BlackoutCue::AlwaysWatching
        } else if stage == 5 {
            BlackoutCue::AlwaysWatchingYou
        } else {
            BlackoutCue::Silence
        }
    }

    /// The words of the cue.
    pub open spec fn text(self) -> Seq<char> {
        match self {
            BlackoutCue::GlowingEyes => "You see glowing eyes to your right."@,
            BlackoutCue::ItsMe => "You hear a voice say, 'It's me.'"@,
            BlackoutCue::StillHere => "You hear a voice say, 'I am still here.'"@,
            BlackoutCue::AlwaysHere => "You hear a voice say, 'I am always here.'"@,
            BlackoutCue::AlwaysWatching => "You hear a voice say, 'I am always watching.'"@,
            BlackoutCue::AlwaysWatchingYou => "You hear a voice say, 'I am always watching you.'"@,
            BlackoutCue::Silence => "There is silence."@,
        }
    }

    /// The cue of a stage: six warnings in turn, then silence.
    pub fn for_stage(stage: u8) -> (cue: BlackoutCue)
        ensures
            cue == BlackoutCue::at_stage(stage as int),
    {
        if stage == 0 {
            BlackoutCue::GlowingEyes
        } else if stage == 1 {
            BlackoutCue::ItsMe
        } else if stage == 2 {
            BlackoutCue::StillHere
        } else if stage == 3 {
            BlackoutCue::AlwaysHere
        } else if stage == 4 {
            BlackoutCue::AlwaysWatching
        } else if stage == 5 {
            BlackoutCue::AlwaysWatchingYou
        } else {
            BlackoutCue::Silence
        }
    }

    /// The words of the cue.
    pub fn message(&self) -> (text: &'static str)
        ensures
            text@ == self.text(),
    {
        match self {
            BlackoutCue::GlowingEyes => "You see glowing eyes to your right.",
            BlackoutCue::ItsMe => "You hear a voice say, 'It's me.'",
            BlackoutCue::StillHere => "You hear a voice say, 'I am still here.'",
            BlackoutCue::AlwaysHere => "You hear a voice say, 'I am always here.'",
            BlackoutCue::AlwaysWatching => "You hear a voice say, 'I am always watching.'",
            BlackoutCue::AlwaysWatchingYou => "You hear a voice say, 'I am always watching you.'",
            BlackoutCue::Silence => "There is silence.",
        }
    }
}

/// What a room shows on the map.
#[derive(PartialEq, Eq, Structural, Clone, Copy, Debug)]
pub enum RoomMark {
    /// Nobody is in the room.
    Empty,
    /// The initial of the agent at this position of the roster.
    Initial(usize),
    /// The letter of a tell.
    Tell(Tells),
}

/// The side of the office.
#[derive(PartialEq, Eq, Structural, Clone, Copy, Debug, Hash)]
pub enum Side {
    Left,
    Right,
}

/// How the night stands after a tick.
#[derive(PartialEq, Eq, Structural, Clone, Copy, Debug, Hash)]
pub enum NightState {
    /// The night goes on.
    Active,
    /// The player has been caught.
    Dead,
    /// The clock has reached the end of the night.
    Survived,
}

/// What follows a night.
#[derive(PartialEq, Eq, Structural, Clone, Copy, Debug, Hash)]
pub enum NightEnd {
    /// The night is not over yet.
    Unfinished,
    /// The player was caught: the game is over.
    GameOver,
    /// The last night was survived: the game is won.
    Won,
    /// The night was survived and another follows.
    NextNight,
}

/// What happened in one tick.
#[derive(Debug)]
pub struct TickReport {
    /// Whether the power failed in this tick.
    pub power_failed: bool,
    /// What the countdown let the player perceive, if it ran.
    pub cue: Option<BlackoutCue>,
    /// How the night stands.
    pub state: NightState,
    /// For each agent that took its turn, in roster order: the side on which
    /// the player sees it in a lit hallway, if the player does.
    pub sightings: Vec<Option<Side>>,
}

/// The smallest raise of difficulty after a night.
pub const RAISE_LOW: u8 = 1;

/// The bound that every raise of difficulty stays below.
pub const RAISE_HIGH: u8 = 3;

/// The side on which the player sees `agent`, if the agent stands in a
/// hallway whose light is on.
pub open spec fn sighting_of(agent: AgentView, left_light_on: bool, right_light_on: bool) -> Option<
    Side,
> {
    if agent.location == Locations::HallwayL && left_light_on {
        Some(Side::Left)
    } else if agent.location == Locations::HallwayR && right_light_on {
        Some(Side::Right)
    } else {
        None
    }
}

/// Whether none of the first `n` agents stands in the attack position.
spec fn none_attacks(agents: Seq<AgentView>, n: int) -> bool {
    forall|j: int| 0 <= j < n ==> (#[trigger] agents[j]).location != Locations::SecurityOfficeAttack
}

/// Whether some agent stands in the attack position.
pub open spec fn attacked(agents: Seq<AgentView>) -> bool {
    exists|i: int| #[trigger] is_first_in(agents, Locations::SecurityOfficeAttack, i)
}

/// The position of the first agent on the roster that stands in the attack
/// position, where there is one.
pub open spec fn catcher(agents: Seq<AgentView>) -> int {
    choose|i: int| #[trigger] is_first_in(agents, Locations::SecurityOfficeAttack, i)
}

/// The battery with `kind` switched on or off.
pub open spec fn switched(battery: BatteryView, kind: PowerDraw, on: bool) -> BatteryView {
    if on {
        battery.add(kind)
    } else {
        battery.remove(kind)
    }
}

/// Whether the agent at position `i` is the lead agent: the first on the
/// roster that bears the lead agent's name.
pub open spec fn is_lead(agents: Seq<AgentView>, i: int) -> bool {
    &&& 0 <= i < agents.len()
    &&& agents[i].name == freddy()
    &&& forall|j: int| 0 <= j < i ==> (#[trigger] agents[j]).name != freddy()
}

/// Whether the lead agent is on the roster and stands in `room`.
pub open spec fn lead_in(agents: Seq<AgentView>, room: Locations) -> bool {
    exists|i: int| #[trigger] is_lead(agents, i) && agents[i].location == room
}

/// The roster with the lead agent, if there is one, put into `room`.
pub open spec fn with_lead_in(agents: Seq<AgentView>, room: Locations) -> Seq<AgentView> {
    Seq::new(
        agents.len(),
        |i: int|
            if is_lead(agents, i) {
                AgentView { location: room, ..agents[i] }
            } else {
                agents[i]
            },
    )
}

/// Whether the agent at position `i` is the first on the roster that stands
/// in `room`.
pub open spec fn is_first_in(agents: Seq<AgentView>, room: Locations, i: int) -> bool {
    &&& 0 <= i < agents.len()
    &&& agents[i].location == room
    &&& forall|j: int| 0 <= j < i ==> (#[trigger] agents[j]).location != room
}

/// The usual cast of three, on the show stage, with the given difficulties
/// cut down to 20 where they are higher.
pub open spec fn usual_cast(lead: u8, second: u8, third: u8) -> Seq<AgentView> {
    seq![
        AgentView {
            name: freddy(),
            location: Locations::ShowStage,
            difficulty: capped(lead),
            tell: Tells::Visual,
        },
        AgentView {
            name: bonnie(),
            location: Locations::ShowStage,
            difficulty: capped(second),
            tell: Tells::Visual,
        },
        AgentView {
            name: chica(),
            location: Locations::ShowStage,
            difficulty: capped(third),
            tell: Tells::Visual,
        },
    ]
}

/// A difficulty, cut down to 20 where it is higher.
pub open spec fn capped(difficulty: u8) -> int {
    if difficulty > MAX_DIFFICULTY {
        MAX_DIFFICULTY as int
    } else {
        difficulty as int
    }
}

/// The difficulty of the lead agent in a new game.
pub const LEAD_DIFFICULTY: u8 = 5;

/// The difficulty of the other agents in a new game.
pub const USUAL_DIFFICULTY: u8 = 3;

/// A chosen difficulty, or `usual` where none was chosen.
pub open spec fn chosen_or(choice: Option<u8>, usual: u8) -> u8 {
    match choice {
        Some(difficulty) => difficulty,
        None => usual,
    }
}

/// What the simulation is, as plain mathematics.
pub struct SimulationView {
    pub left_door_closed: bool,
    pub right_door_closed: bool,
    pub left_light_on: bool,
    pub right_light_on: bool,
    /// The roster, in the order in which the agents take their turns.
    pub agents: Seq<AgentView>,
    pub is_dead: bool,
    pub killer: Seq<char>,
    pub battery: BatteryView,
    /// The minutes of the night that have passed.
    pub time: int,
    /// The stage of the countdown that runs once the power has failed.
    pub stage: int,
    /// The number of the night, from 1.
    pub night: int,
}

/// The simulation of one office over the nights of a game.
#[derive(Debug)]
pub struct Simulation {
    left_door_closed: bool,
    right_door_closed: bool,
    left_light_on: bool,
    right_light_on: bool,
    anim_states: Vec<Animatronic>,
    is_dead: bool,
    killer: String,
    battery: Battery,
    time: u32,
    stage: u8,
    night: u8,
}

/// The views of a roster of agents, in order.
pub open spec fn views_of(agents: Seq<Animatronic>) -> Seq<AgentView> {
    Seq::new(agents.len(), |i: int| agents[i]@)
}

impl View for Simulation {
    type V = SimulationView;

    closed spec fn view(&self) -> SimulationView {
        SimulationView {
            left_door_closed: self.left_door_closed,
            right_door_closed: self.right_door_closed,
            left_light_on: self.left_light_on,
            right_light_on: self.right_light_on,
            agents: views_of(self.anim_states@),
            is_dead: self.is_dead,
            killer: self.killer@,
            battery: self.battery@,
            time: self.time as int,
            stage: self.stage as int,
            night: self.night as int,
        }
    }
}

impl SimulationView {
    /// The invariant of the simulation, as far as the view shows it: the
    /// battery and every agent are well formed, the clock has not run more
    /// than one tick past the end of the night, and the night is one of the
    /// five.
    pub open spec fn wf(self) -> bool {
        &&& self.battery.wf()
        &&& forall|i: int| 0 <= i < self.agents.len() ==> (#[trigger] self.agents[i]).wf()
        &&& 0 <= self.time < END_TIME + TICK_RATE
        &&& 0 <= self.stage <= u8::MAX
        &&& 1 <= self.night <= NIGHTS
    }

    /// Whether the simulation takes `action`: once the battery is offline the
    /// player can only sit.
    pub open spec fn accepts(self, action: Action) -> bool {
        self.battery.online || action == Action::Sit
    }

    /// The simulation after the player's move. A door or a light changes
    /// state and switches its power draw on when it closes or lights up, and
    /// off when it opens or goes dark; the camera switches its draw on;
    /// sitting changes nothing, and neither does a move that is not taken.
    pub open spec fn acted(self, action: Action) -> SimulationView {
        if !self.battery.online {
            self
        } else {
            match action {
                Action::LeftDoor => SimulationView {
                    left_door_closed: !self.left_door_closed,
                    battery: switched(self.battery, PowerDraw::Doors, !self.left_door_closed),
                    ..self
                },
                Action::RightDoor => SimulationView {
                    right_door_closed: !self.right_door_closed,
                    battery: switched(self.battery, PowerDraw::Doors, !self.right_door_closed),
                    ..self
                },
                Action::LeftLight => SimulationView {
                    left_light_on: !self.left_light_on,
                    battery: switched(self.battery, PowerDraw::Lights, !self.left_light_on),
                    ..self
                },
                Action::RightLight => SimulationView {
                    right_light_on: !self.right_light_on,
                    battery: switched(self.battery, PowerDraw::Lights, !self.right_light_on),
                    ..self
                },
                Action::Camera => SimulationView {
                    battery: self.battery.add(PowerDraw::Camera),
                    ..self
                },
                Action::Sit => self,
            }
        }
    }

    /// The simulation with another roster.
    pub open spec fn with_roster(self, agents: Seq<AgentView>) -> SimulationView {
        SimulationView { agents, ..self }
    }

    /// The simulation after the power has failed: the battery shut down, the
    /// doors open, the lights off, and the lead agent in the right hallway.
    pub open spec fn blacked_out(self) -> SimulationView {
        SimulationView {
            left_door_closed: false,
            right_door_closed: false,
            left_light_on: false,
            right_light_on: false,
            agents: with_lead_in(self.agents, Locations::HallwayR),
            battery: self.battery.shutdown(),
            ..self
        }
    }

    /// Whether the countdown runs: the battery is offline and the lead agent
    /// stands in the right hallway.
    pub open spec fn countdown_runs(self) -> bool {
        !self.battery.online && lead_in(self.agents, Locations::HallwayR)
    }

    /// What the player perceives in the next step of the countdown, if it
    /// runs.
    pub open spec fn cue(self) -> Option<BlackoutCue> {
        if self.countdown_runs() {
            Some(BlackoutCue::at_stage(self.stage))
        } else {
            None
        }
    }

    /// The simulation after one step of the countdown. While the countdown
    /// runs the stage rises by one (it stops at 255); from stage 6 on the
    /// lead agent moves to the attack position and kills the player.
    pub open spec fn counted_down(self) -> SimulationView {
        if !self.countdown_runs() {
            self
        } else {
            let next = if self.stage < u8::MAX {
                self.stage + 1
            } else {
                self.stage
            };
            if self.stage >= FINAL_STAGE {
                SimulationView {
                    agents: with_lead_in(self.agents, Locations::SecurityOfficeAttack),
                    is_dead: true,
                    killer: freddy(),
                    stage: next,
                    ..self
                }
            } else {
                SimulationView { stage: next, ..self }
            }
        }
    }

    /// Whether `rolls` can drive one turn of every agent: there is one entry
    /// for each agent, and wherever an agent acts its pick lies within the
    /// neighbor list of the room it stands in.
    pub open spec fn fits(self, rolls: Seq<MoveRolls>) -> bool {
        &&& rolls.len() == self.agents.len()
        &&& forall|i: int|
            0 <= i < self.agents.len() && self.agents[i].acts_on((#[trigger] rolls[i]).act as int)
                ==> rolls[i].pick < self.agents[i].location.neighbors().len()
    }

    /// Whether `rolls` are rolls that the dice can produce for one turn of
    /// every agent.
    pub open spec fn in_dice_range(self, rolls: Seq<MoveRolls>) -> bool {
        &&& rolls.len() == self.agents.len()
        &&& forall|i: int|
            0 <= i < self.agents.len() ==> (#[trigger] rolls[i]).in_range(
                self.agents[i].location.neighbors().len(),
            )
    }

    /// The agent at position `i` after its turn with the given rolls. Its
    /// destination is picked among the neighbors of the room in which it
    /// stands as the turn begins.
    pub open spec fn agent_after(self, i: int, rolls: MoveRolls) -> AgentView {
        self.agents[i].moved(
            self.agents[i].location.neighbors(),
            self.right_door_closed,
            self.left_door_closed,
            rolls,
        )
    }

    /// The roster after every agent has taken its turn.
    pub open spec fn agents_after(self, rolls: Seq<MoveRolls>) -> Seq<AgentView> {
        Seq::new(self.agents.len(), |i: int| self.agent_after(i, rolls[i]))
    }

    /// The simulation after every agent has taken its turn, in roster order.
    /// If the player was still alive and some agent now stands in the attack
    /// position, the player is dead and the first such agent on the roster
    /// is the killer.
    pub open spec fn agents_ticked(self, rolls: Seq<MoveRolls>) -> SimulationView {
        let after = self.agents_after(rolls);
        if !self.is_dead && attacked(after) {
            SimulationView {
                agents: after,
                is_dead: true,
                killer: after[catcher(after)].name,
                ..self
            }
        } else {
            SimulationView { agents: after, ..self }
        }
    }

    /// Whether the clock has reached the end of the night.
    pub open spec fn night_is_over(self) -> bool {
        self.time >= END_TIME
    }

    /// The simulation after the battery has drained for one tick and the
    /// camera has been put away.
    pub open spec fn drained(self, drain: DrainRolls) -> SimulationView {
        SimulationView { battery: self.battery.drain(drain).remove(PowerDraw::Camera), ..self }
    }

    /// Whether the battery is empty but not yet shut down.
    pub open spec fn power_fails(self) -> bool {
        self.battery.power == 0
    }

    /// The simulation after the check on the battery and one step of the
    /// countdown: an empty battery makes the power fail, and then the
    /// countdown takes its step.
    pub open spec fn resolved(self) -> SimulationView {
        if self.power_fails() {
            self.blacked_out().counted_down()
        } else {
            self.counted_down()
        }
    }

    /// What the player perceives of the countdown in that step.
    pub open spec fn resolved_cue(self) -> Option<BlackoutCue> {
        if self.power_fails() {
            self.blacked_out().cue()
        } else {
            self.cue()
        }
    }

    /// The simulation one tick later on the clock.
    pub open spec fn clocked(self) -> SimulationView {
        SimulationView { time: self.time + TICK_RATE, ..self }
    }

    /// Whether the agents take their turns in a tick with the given drain
    /// rolls: the night is not over, the player is alive after the countdown,
    /// and the clock does not reach the end of the night.
    pub open spec fn agents_move(self, drain: DrainRolls) -> bool {
        &&& !self.night_is_over()
        &&& !self.drained(drain).resolved().is_dead
        &&& self.time + TICK_RATE < END_TIME
    }

    /// The simulation after the part of a tick that comes before the agents'
    /// turns.
    ///
    /// A night that is over does not tick. Otherwise the battery drains and
    /// the camera is put away, and a power failure and the countdown are
    /// dealt with. If the player is then dead, that is all; if not, the clock
    /// advances.
    pub open spec fn opened(self, drain: DrainRolls) -> SimulationView {
        if self.night_is_over() {
            self
        } else {
            let mid = self.drained(drain).resolved();
            if mid.is_dead {
                mid
            } else {
                mid.clocked()
            }
        }
    }

    /// The simulation after one tick: the part before the agents' turns,
    /// and then those turns, unless the player is dead or the clock has
    /// reached the end of the night.
    pub open spec fn ticked(self, drain: DrainRolls, moves: Seq<MoveRolls>) -> SimulationView {
        if self.agents_move(drain) {
            self.opened(drain).agents_ticked(moves)
        } else {
            self.opened(drain)
        }
    }

    /// Whether the power fails in a tick with the given drain rolls.
    pub open spec fn power_fails_in(self, drain: DrainRolls) -> bool {
        !self.night_is_over() && self.drained(drain).power_fails()
    }

    /// What the player perceives of the countdown in a tick with the given
    /// drain rolls.
    pub open spec fn cue_in(self, drain: DrainRolls) -> Option<BlackoutCue> {
        if self.night_is_over() {
            None
        } else {
            self.drained(drain).resolved_cue()
        }
    }

    /// How the night stands after that tick: survived when the clock is at
    /// the end of the night, dead when the player is found dead before the
    /// clock advances, and active otherwise.
    pub open spec fn state_after(self, drain: DrainRolls) -> NightState {
        if self.night_is_over() {
            NightState::Survived
        } else if self.drained(drain).resolved().is_dead {
            NightState::Dead
        } else if self.time + TICK_RATE >= END_TIME {
            NightState::Survived
        } else {
            NightState::Active
        }
    }

    /// What follows the night as it stands.
    pub open spec fn outcome(self) -> NightEnd {
        if self.is_dead {
            NightEnd::GameOver
        } else if !self.night_is_over() {
            NightEnd::Unfinished
        } else if self.night >= NIGHTS {
            NightEnd::Won
        } else {
            NightEnd::NextNight
        }
    }

    /// The simulation after the night has been closed. After the last night
    /// the count of nights starts again at 1. After any other night that was
    /// survived the count rises by one and each agent's difficulty rises by
    /// its entry of `raises`, but not beyond 20. A night that is not over,
    /// or in which the player died, changes nothing.
    pub open spec fn closed(self, raises: Seq<u8>) -> SimulationView {
        match self.outcome() {
            NightEnd::Won => SimulationView { night: 1, ..self },
            NightEnd::NextNight => SimulationView {
                night: self.night + 1,
                agents: Seq::new(
                    self.agents.len(),
                    |i: int| self.agents[i].raised(raises[i] as int),
                ),
                ..self
            },
            _ => self,
        }
    }

    /// The simulation as it is first made: an empty roster, a quiet office, a
    /// full battery, the first night not yet begun.
    pub open spec fn fresh() -> SimulationView {
        SimulationView {
            left_door_closed: false,
            right_door_closed: false,
            left_light_on: false,
            right_light_on: false,
            agents: Seq::empty(),
            is_dead: false,
            killer: nobody(),
            battery: BatteryView::full(),
            time: START_TIME as int,
            stage: 0,
            night: 1,
        }
    }

    /// The simulation at dusk: doors open, lights off, nobody dead, every
    /// agent back on the show stage in plain sight, a full battery, the clock
    /// and the countdown at their start. The difficulties and the number of
    /// the night stay.
    pub open spec fn at_dusk(self) -> SimulationView {
        SimulationView {
            left_door_closed: false,
            right_door_closed: false,
            left_light_on: false,
            right_light_on: false,
            agents: Seq::new(self.agents.len(), |i: int| self.agents[i].rested()),
            is_dead: false,
            killer: nobody(),
            battery: BatteryView::full(),
            time: START_TIME as int,
            stage: 0,
            night: self.night,
        }
    }
}

impl Simulation {
    /// The invariant of the simulation.
    pub closed spec fn wf(&self) -> bool {
        &&& self@.wf()
        &&& self.battery.wf()
    }

    /// Every well-formed simulation has a well-formed view.
    pub proof fn lemma_wf_view(&self)
        requires
            self.wf(),
        ensures
            self@.wf(),
    {
    }

    /// A simulation with an empty roster, before its first night.
    pub fn new() -> (sim: Simulation)
        ensures
            sim.wf(),
            sim@ == SimulationView::fresh(),
    {
        let sim = Simulation {
            left_door_closed: false,
            right_door_closed: false,
            left_light_on: false,
            right_light_on: false,
            anim_states: Vec::new(),
            is_dead: false,
            killer: "MissingNo.".to_owned(),
            battery: Battery::new(),
            time: START_TIME,
            stage: 0,
            night: 1,
        };
        proof {
            sim.battery.lemma_wf_view();
            assert(sim@.agents =~= Seq::<AgentView>::empty());
        }
        sim
    }

    /// Whether the left door is closed.
    pub fn left_door_closed(&self) -> (closed: bool)
        ensures
            closed == self@.left_door_closed,
    {
        self.left_door_closed
    }

    /// Whether the right door is closed.
    pub fn right_door_closed(&self) -> (closed: bool)
        ensures
            closed == self@.right_door_closed,
    {
        self.right_door_closed
    }

    /// Whether the left light is on.
    pub fn left_light_on(&self) -> (on: bool)
        ensures
            on == self@.left_light_on,
    {
        self.left_light_on
    }

    /// Whether the right light is on.
    pub fn right_light_on(&self) -> (on: bool)
        ensures
            on == self@.right_light_on,
    {
        self.right_light_on
    }

    /// Whether the player has been caught.
    pub fn is_dead(&self) -> (dead: bool)
        ensures
            dead == self@.is_dead,
    {
        self.is_dead
    }

    /// The name of the agent that caught the player.
    pub fn killer(&self) -> (name: &String)
        ensures
            name@ == self@.killer,
    {
        &self.killer
    }

    /// The battery.
    pub fn battery(&self) -> (battery: &Battery)
        ensures
            battery@ == self@.battery,
            self.wf() ==> battery.wf(),
    {
        &self.battery
    }

    /// The minutes of the night that have passed.
    pub fn time(&self) -> (time: u32)
        ensures
            time == self@.time,
    {
        self.time
    }

    /// The stage of the countdown that runs once the power has failed.
    pub fn blackout_stage(&self) -> (stage: u8)
        ensures
            stage == self@.stage,
    {
        self.stage
    }

    /// The number of the night.
    pub fn night(&self) -> (night: u8)
        ensures
            night == self@.night,
    {
        self.night
    }

    /// The number of agents on the roster.
    pub fn roster_len(&self) -> (len: usize)
        ensures
            len == self@.agents.len(),
    {
        self.anim_states.len()
    }

    /// The agent at position `index` of the roster.
    pub fn agent(&self, index: usize) -> (agent: &Animatronic)
        requires
            index < self@.agents.len(),
        ensures
            agent@ == self@.agents[index as int],
    {
        &self.anim_states[index]
    }

    /// Replaces the roster.
    pub fn set_roster(&mut self, roster: Vec<Animatronic>)
        requires
            old(self).wf(),
            forall|i: int| 0 <= i < roster@.len() ==> (#[trigger] roster@[i]).wf(),
        ensures
            final(self).wf(),
            final(self)@ == old(self)@.with_roster(views_of(roster@)),
    {
        self.anim_states = roster;
    }

    /// Begins a new game: the usual cast, with difficulty 5 for the lead
    /// agent and 3 for the others, and the first night.
    pub fn start_new_game(&mut self)
        requires
            old(self).wf(),
        ensures
            final(self).wf(),
            final(self)@ == (SimulationView {
                night: 1,
                ..old(self)@.with_roster(
                    usual_cast(LEAD_DIFFICULTY, USUAL_DIFFICULTY, USUAL_DIFFICULTY),
                )
            }),
    {
        self.start_custom_night(None, None, None);
        self.night = 1;
    }

    /// Begins a custom night: the usual cast with the difficulties that were
    /// chosen, and 5 for the lead agent or 3 for another where none was.
    pub fn start_custom_night(
        &mut self,
        lead: Option<u8>,
        second: Option<u8>,
        third: Option<u8>,
    )
        requires
            old(self).wf(),
        ensures
            final(self).wf(),
            final(self)@ == old(self)@.with_roster(
                usual_cast(
                    chosen_or(lead, LEAD_DIFFICULTY),
                    chosen_or(second, USUAL_DIFFICULTY),
                    chosen_or(third, USUAL_DIFFICULTY),
                ),
            ),
    {
        let lead_difficulty: u8 = match lead {
            Some(difficulty) => difficulty,
            None => LEAD_DIFFICULTY,
        };
        let second_difficulty: u8 = match second {
            Some(difficulty) => difficulty,
            None => USUAL_DIFFICULTY,
        };
        let third_difficulty: u8 = match third {
            Some(difficulty) => difficulty,
            None => USUAL_DIFFICULTY,
        };
        let mut roster: Vec<Animatronic> = Vec::new();
        roster.push(Animatronic::new("Freddy".to_owned(), Locations::ShowStage, lead_difficulty));
        roster.push(Animatronic::new("Bonnie".to_owned(), Locations::ShowStage, second_difficulty));
        roster.push(Animatronic::new("Chica".to_owned(), Locations::ShowStage, third_difficulty));
        assert(views_of(roster@) =~= usual_cast(
            lead_difficulty,
            second_difficulty,
            third_difficulty,
        ));
        self.set_roster(roster);
    }

    /// Takes the player's move and says whether it was accepted. Once the
    /// battery is offline every move but sitting is turned down, and changes
    /// nothing.
    pub fn act(&mut self, action: Action) -> (accepted: bool)
        requires
            old(self).wf(),
        ensures
            final(self).wf(),
            accepted == old(self)@.accepts(action),
            final(self)@ == old(self)@.acted(action),
    {
        if !self.battery.is_online() {
            return action == Action::Sit;
        }
        match action {
            Action::LeftDoor => {
                self.left_door_closed = !self.left_door_closed;
                if self.left_door_closed {
                    self.battery.add_power_draw(PowerDraw::Doors);
                } else {
                    self.battery.remove_power_draw(PowerDraw::Doors);
                }
            },
            Action::RightDoor => {
                self.right_door_closed = !self.right_door_closed;
                if self.right_door_closed {
                    self.battery.add_power_draw(PowerDraw::Doors);
                } else {
                    self.battery.remove_power_draw(PowerDraw::Doors);
                }
            },
            Action::LeftLight => {
                self.left_light_on = !self.left_light_on;
                if self.left_light_on {
                    self.battery.add_power_draw(PowerDraw::Lights);
                } else {
                    self.battery.remove_power_draw(PowerDraw::Lights);
                }
            },
            Action::RightLight => {
                self.right_light_on = !self.right_light_on;
                if self.right_light_on {
                    self.battery.add_power_draw(PowerDraw::Lights);
                } else {
                    self.battery.remove_power_draw(PowerDraw::Lights);
                }
            },
            Action::Camera => {
                self.battery.add_power_draw(PowerDraw::Camera);
            },
            Action::Sit => {},
        }
        proof {
            self.battery.lemma_wf_view();
            assert(self@.agents == old(self)@.agents);
        }
        true
    }

    /// The position of the lead agent on the roster: the first agent that
    /// bears the lead agent's name.
    pub fn lead(&self) -> (found: Option<usize>)
        ensures
            match found {
                Some(i) => is_lead(self@.agents, i as int),
                None => forall|j: int|
                    0 <= j < self@.agents.len() ==> (#[trigger] self@.agents[j]).name != freddy(),
            },
    {
        let mut i: usize = 0;
        while i < self.anim_states.len()
            invariant
                i <= self.anim_states@.len(),
                forall|j: int| 0 <= j < i ==> (#[trigger] self@.agents[j]).name != freddy(),
            decreases self.anim_states@.len() - i,
        {
            if self.anim_states[i].is_freddy() {
                return Some(i);
            }
            i += 1;
        }
        None
    }

    /// Puts the lead agent, if there is one, into `room`.
    fn send_lead(&mut self, room: Locations)
        ensures
            final(self)@ == (SimulationView {
                agents: with_lead_in(old(self)@.agents, room),
                ..old(self)@
            }),
            final(self).battery == old(self).battery,
            old(self)@.wf() ==> final(self)@.wf(),
    {
        match self.lead() {
            Some(i) => {
                self.anim_states[i].relocate(room);
                assert(self@.agents =~= with_lead_in(old(self)@.agents, room)) by {
                    assert forall|k: int| 0 <= k < self@.agents.len() implies self@.agents[k]
                        == with_lead_in(old(self)@.agents, room)[k] by {
                        if is_lead(old(self)@.agents, k) {
                            assert(old(self)@.agents[k].name == freddy());
                            assert(old(self)@.agents[i as int].name == freddy());
                            assert(k == i);
                        }
                    }
                }
            },
            None => {
                assert(self@.agents =~= with_lead_in(old(self)@.agents, room));
            },
        }
        assert(old(self)@.wf() ==> self@.wf()) by {
            if old(self)@.wf() {
                assert forall|k: int| 0 <= k < self@.agents.len() implies (#[trigger] self@.agents[k]).wf() by {
                    assert(old(self)@.agents[k].wf());
                }
            }
        }
    }

    /// Whether the lead agent is on the roster and stands in `room`.
    pub fn lead_is_in(&self, room: Locations) -> (there: bool)
        ensures
            there == lead_in(self@.agents, room),
    {
        match self.lead() {
            Some(i) => {
                let there = self.anim_states[i].location() == room;
                proof {
                    if lead_in(self@.agents, room) {
                        let k = choose|k: int| #[trigger]
                            is_lead(self@.agents, k) && self@.agents[k].location == room;
                        assert(self@.agents[k].name == freddy());
                        assert(self@.agents[i as int].name == freddy());
                        assert(k == i);
                    }
                    if there {
                        assert(is_lead(self@.agents, i as int));
                    }
                }
                there
            },
            None => {
                proof {
                    if lead_in(self@.agents, room) {
                        let k = choose|k: int| #[trigger]
                            is_lead(self@.agents, k) && self@.agents[k].location == room;
                        assert(self@.agents[k].name == freddy());
                    }
                }
                false
            },
        }
    }

    /// Cuts the power: the battery shuts down, the doors open, the lights go
    /// off, and the lead agent appears in the right hallway.
    pub fn cut_power(&mut self)
        requires
            old(self).wf(),
        ensures
            final(self).wf(),
            final(self)@ == old(self)@.blacked_out(),
    {
        self.battery.shutdown();
        self.left_door_closed = false;
        self.right_door_closed = false;
        self.left_light_on = false;
        self.right_light_on = false;
        proof {
            self.battery.lemma_wf_view();
            assert(self@.agents == old(self)@.agents);
        }
        self.send_lead(Locations::HallwayR);
    }

    /// One step of the countdown that follows a power failure. While the
    /// battery is offline and the lead agent stands in the right hallway,
    /// the step returns the cue of the current stage and raises the stage by
    /// one; from stage 6 on the lead agent also moves to the attack position
    /// and kills the player. Otherwise nothing happens and there is no cue.
    pub fn blackout_step(&mut self) -> (cue: Option<BlackoutCue>)
        requires
            old(self).wf(),
        ensures
            final(self).wf(),
            cue == old(self)@.cue(),
            final(self)@ == old(self)@.counted_down(),
    {
        if self.battery.is_online() || !self.lead_is_in(Locations::HallwayR) {
            return None;
        }
        let cue = BlackoutCue::for_stage(self.stage);
        if self.stage >= FINAL_STAGE {
            self.send_lead(Locations::SecurityOfficeAttack);
            self.killer = "Freddy".to_owned();
            self.is_dead = true;
        }
        if self.stage < u8::MAX {
            self.stage += 1;
        }
        Some(cue)
    }

    /// What `room` shows on the map. The first agent on the roster that
    /// stands in the room decides: in the attack position it shows its
    /// initial; elsewhere it shows its initial while in plain sight and the
    /// letter of its tell otherwise. A room without agents is empty.
    pub fn mark_of(&self, room: Locations) -> (mark: RoomMark)
        ensures
            match mark {
                RoomMark::Empty => forall|j: int|
                    0 <= j < self@.agents.len() ==> (#[trigger] self@.agents[j]).location != room,
                RoomMark::Initial(i) => is_first_in(self@.agents, room, i as int) && (room
                    == Locations::SecurityOfficeAttack || self@.agents[i as int].tell
                    == Tells::Visual),
                RoomMark::Tell(tell) => exists|i: int| #[trigger]
                    is_first_in(self@.agents, room, i) && self@.agents[i].tell == tell && tell
                        != Tells::Visual && room != Locations::SecurityOfficeAttack,
            },
    {
        let mut i: usize = 0;
        while i < self.anim_states.len()
            invariant
                i <= self.anim_states@.len(),
                forall|j: int| 0 <= j < i ==> (#[trigger] self@.agents[j]).location != room,
            decreases self.anim_states@.len() - i,
        {
            if self.anim_states[i].location() == room {
                let tell = self.anim_states[i].current_tell();
                assert(is_first_in(self@.agents, room, i as int));
                if room == Locations::SecurityOfficeAttack || tell == Tells::Visual {
                    return RoomMark::Initial(i);
                } else {
                    return RoomMark::Tell(tell);
                }
            }
            i += 1;
        }
        RoomMark::Empty
    }

    /// One turn of every agent, in roster order, with the given rolls.
    ///
    /// Each agent moves as `Animatronic::move_with` says, with the neighbors
    /// of the room in which its turn begins and the doors as they stand. The
    /// first agent that ends its turn in the attack position while the
    /// player is alive kills the player. The result says for each agent on
    /// which side the player sees it, if it stands in a lit hallway.
    pub fn map_tick_with(&mut self, rolls: &Vec<MoveRolls>) -> (sightings: Vec<Option<Side>>)
        requires
            old(self).wf(),
            old(self)@.fits(rolls@),
        ensures
            final(self).wf(),
            final(self)@ == old(self)@.agents_ticked(rolls@),
            sightings@.len() == final(self)@.agents.len(),
            forall|i: int|
                0 <= i < sightings@.len() ==> #[trigger] sightings@[i] == sighting_of(
                    final(self)@.agents[i],
                    final(self)@.left_light_on,
                    final(self)@.right_light_on,
                ),
    {
        let ghost before = self@;
        let ghost after = before.agents_after(rolls@);
        let ghost attack = Locations::SecurityOfficeAttack;
        let mut sightings: Vec<Option<Side>> = Vec::new();
        let mut i: usize = 0;
        assert forall|j: int| 0 <= j < before.agents.len() implies (
        #[trigger] self.anim_states@[j])@.wf() by {
            assert(before.agents[j].wf());
        }
        while i < self.anim_states.len()
            invariant
                i <= self.anim_states@.len(),
                self.anim_states@.len() == before.agents.len(),
                before == old(self)@,
                before.wf(),
                before.fits(rolls@),
                after == before.agents_after(rolls@),
                attack == Locations::SecurityOfficeAttack,
                self.left_door_closed == before.left_door_closed,
                self.right_door_closed == before.right_door_closed,
                self.left_light_on == before.left_light_on,
                self.right_light_on == before.right_light_on,
                self.battery == old(self).battery,
                self.battery.wf(),
                self.time == before.time,
                self.stage == before.stage,
                self.night == before.night,
                forall|j: int| 0 <= j < i ==> (#[trigger] self.anim_states@[j])@ == after[j],
                forall|j: int|
                    i <= j < before.agents.len() ==> (#[trigger] self.anim_states@[j])@
                        == before.agents[j],
                forall|j: int|
                    0 <= j < before.agents.len() ==> (#[trigger] self.anim_states@[j])@.wf(),
                self.is_dead == (before.is_dead || !none_attacks(after, i as int)),
                (before.is_dead || none_attacks(after, i as int)) ==> self.killer@
                    == before.killer,
                (!before.is_dead && !none_attacks(after, i as int)) ==> exists|k: int| #[trigger]
                    is_first_in(after, attack, k) && self.killer@ == after[k].name,
                sightings@.len() == i,
                forall|j: int|
                    0 <= j < i ==> #[trigger] sightings@[j] == sighting_of(
                        after[j],
                        before.left_light_on,
                        before.right_light_on,
                    ),
            decreases self.anim_states@.len() - i,
        {
            let right_door_closed = self.right_door_closed;
            let left_door_closed = self.left_door_closed;
            let ghost turn = self.anim_states@[i as int]@;
            assert(turn == before.agents[i as int]);
            assert(turn.wf());
            let locations = self.anim_states[i].find_adjacent_room();
            self.anim_states[i].move_with(locations, right_door_closed, left_door_closed, rolls[i]);
            assert(self.anim_states@[i as int]@ == after[i as int]);
            let location = self.anim_states[i].location();
            if location == Locations::SecurityOfficeAttack && !self.is_dead {
                self.killer = self.anim_states[i].name().clone();
                self.is_dead = true;
                assert(is_first_in(after, attack, i as int));
            }
            let seen = if location == Locations::HallwayL && self.left_light_on {
                Some(Side::Left)
            } else if location == Locations::HallwayR && self.right_light_on {
                Some(Side::Right)
            } else {
                None
            };
            sightings.push(seen);
            proof {
                if location == Locations::SecurityOfficeAttack {
                    assert(after[i as int].location == attack);
                    assert(!none_attacks(after, i + 1));
                } else {
                    assert(none_attacks(after, i + 1) == none_attacks(after, i as int));
                }
            }
            i += 1;
        }
        proof {
            assert(self@.agents =~= after);
            if !before.is_dead && attacked(after) {
                let c = catcher(after);
                assert(is_first_in(after, attack, c));
                assert(!none_attacks(after, i as int));
                let k = choose|k: int| #[trigger]
                    is_first_in(after, attack, k) && self.killer@ == after[k].name;
                assert(after[k].location == attack);
                assert(after[c].location == attack);
                assert(k == c);
            }
            self.battery.lemma_wf_view();
        }
        sightings
    }

    /// One turn of every agent, in roster order, with fresh dice.
    ///
    /// The rolls of each agent are drawn as `Animatronic::roll_move` says,
    /// with the neighbors of the room it stands in, and the agents then move
    /// as `map_tick_with` says for those rolls.
    pub fn map_tick(&mut self) -> (sightings: Vec<Option<Side>>)
        requires
            old(self).wf(),
        ensures
            final(self).wf(),
            exists|rolls: Seq<MoveRolls>| #[trigger]
                old(self)@.in_dice_range(rolls) && final(self)@ == old(self)@.agents_ticked(rolls),
            sightings@.len() == final(self)@.agents.len(),
            forall|i: int|
                0 <= i < sightings@.len() ==> #[trigger] sightings@[i] == sighting_of(
                    final(self)@.agents[i],
                    final(self)@.left_light_on,
                    final(self)@.right_light_on,
                ),
    {
        let rolls = self.roll_moves();
        let sightings = self.map_tick_with(&rolls);
        assert(old(self)@.in_dice_range(rolls@) && self@ == old(self)@.agents_ticked(rolls@));
        sightings
    }

    /// Draws the rolls for one turn of every agent, in roster order.
    fn roll_moves(&self) -> (rolls: Vec<MoveRolls>)
        ensures
            self@.in_dice_range(rolls@),
            self@.fits(rolls@),
    {
        let mut rolls: Vec<MoveRolls> = Vec::new();
        let mut i: usize = 0;
        while i < self.anim_states.len()
            invariant
                i <= self.anim_states@.len(),
                rolls@.len() == i,
                forall|j: int|
                    0 <= j < i ==> (#[trigger] rolls@[j]).in_range(
                        self@.agents[j].location.neighbors().len(),
                    ),
            decreases self.anim_states@.len() - i,
        {
            let locations = self.anim_states[i].location().adjacent();
            let drawn = self.anim_states[i].roll_move(
                &locations,
                self.right_door_closed,
                self.left_door_closed,
            );
            rolls.push(drawn);
            i += 1;
        }
        rolls
    }

    /// Deals with the battery and the countdown: an empty battery makes the
    /// power fail, and then the countdown takes one step.
    fn resolve(&mut self) -> (found: (bool, Option<BlackoutCue>))
        requires
            old(self).wf(),
        ensures
            final(self).wf(),
            final(self)@ == old(self)@.resolved(),
            found.0 == old(self)@.power_fails(),
            found.1 == old(self)@.resolved_cue(),
    {
        let failed = self.battery.power() == 0;
        if failed {
            self.cut_power();
        }
        let cue = self.blackout_step();
        (failed, cue)
    }

    /// The part of a tick that comes before the agents' turns.
    fn open_tick(&mut self, drain: DrainRolls) -> (found: (bool, Option<BlackoutCue>, NightState))
        requires
            old(self).wf(),
        ensures
            final(self).wf(),
            final(self)@ == old(self)@.opened(drain),
            found.0 == old(self)@.power_fails_in(drain),
            found.1 == old(self)@.cue_in(drain),
            found.2 == old(self)@.state_after(drain),
    {
        if self.time >= END_TIME {
            return (false, None, NightState::Survived);
        }
        self.battery.drain_with(drain);
        self.battery.remove_power_draw(PowerDraw::Camera);
        proof {
            self.battery.lemma_wf_view();
            assert(self@.agents == old(self)@.agents);
            assert(self@ == old(self)@.drained(drain));
        }
        let (power_failed, cue) = self.resolve();
        if self.is_dead {
            return (power_failed, cue, NightState::Dead);
        }
        let ghost mid = self@;
        self.time = self.time + TICK_RATE;
        proof {
            assert(self@.agents == mid.agents);
            assert(self@ == mid.clocked());
        }
        if self.time >= END_TIME {
            (power_failed, cue, NightState::Survived)
        } else {
            (power_failed, cue, NightState::Active)
        }
    }

    /// One tick of the night with the given rolls.
    ///
    /// A night that is over does not tick. Otherwise the battery drains under
    /// `drain` and the camera is put away; an empty battery makes the power
    /// fail; the countdown takes its step; and if the player is now dead the
    /// tick ends. If not, the clock advances by a quarter of an hour, and
    /// unless it has reached the end of the night the agents take their
    /// turns under `moves`.
    pub fn tick_with(&mut self, drain: DrainRolls, moves: &Vec<MoveRolls>) -> (report: TickReport)
        requires
            old(self).wf(),
            old(self)@.agents_move(drain) ==> old(self)@.opened(drain).fits(moves@),
        ensures
            final(self).wf(),
            final(self)@ == old(self)@.ticked(drain, moves@),
            report.state == old(self)@.state_after(drain),
            report.power_failed == old(self)@.power_fails_in(drain),
            report.cue == old(self)@.cue_in(drain),
            report.state != NightState::Active ==> report.sightings@.len() == 0,
            report.state == NightState::Active ==> report.sightings@.len()
                == final(self)@.agents.len(),
            forall|i: int|
                0 <= i < report.sightings@.len() ==> #[trigger] report.sightings@[i]
                    == sighting_of(
                    final(self)@.agents[i],
                    final(self)@.left_light_on,
                    final(self)@.right_light_on,
                ),
    {
        let (power_failed, cue, state) = self.open_tick(drain);
        let sightings = if state == NightState::Active {
            self.map_tick_with(moves)
        } else {
            Vec::new()
        };
        TickReport { power_failed, cue, state, sightings }
    }

    /// One tick of the night with fresh dice.
    ///
    /// The tick runs as `tick_with` says. The drain rolls are drawn as
    /// `Battery::roll_drain` says, and the rolls of the agents, where they
    /// take their turns, as `Animatronic::roll_move` says. A night that is
    /// over draws nothing.
    pub fn tick(&mut self) -> (report: TickReport)
        requires
            old(self).wf(),
        ensures
            final(self).wf(),
            exists|drain: DrainRolls, moves: Seq<MoveRolls>|
                {
                    &&& drain.in_range()
                    &&& old(self)@.agents_move(drain) ==> old(self)@.opened(drain).in_dice_range(
                        moves,
                    )
                    &&& final(self)@ == #[trigger] old(self)@.ticked(drain, moves)
                    &&& report.state == old(self)@.state_after(drain)
                    &&& report.power_failed == old(self)@.power_fails_in(drain)
                    &&& report.cue == old(self)@.cue_in(drain)
                },
            report.state != NightState::Active ==> report.sightings@.len() == 0,
            report.state == NightState::Active ==> report.sightings@.len()
                == final(self)@.agents.len(),
            forall|i: int|
                0 <= i < report.sightings@.len() ==> #[trigger] report.sightings@[i]
                    == sighting_of(
                    final(self)@.agents[i],
                    final(self)@.left_light_on,
                    final(self)@.right_light_on,
                ),
    {
        let drain = if self.time >= END_TIME {
            DrainRolls { camera: 1, lights: 1, doors: 1 }
        } else {
            self.battery.roll_drain()
        };
        let (power_failed, cue, state) = self.open_tick(drain);
        if state == NightState::Active {
            let moves = self.roll_moves();
            let sightings = self.map_tick_with(&moves);
            assert(self@ == old(self)@.ticked(drain, moves@));
            TickReport { power_failed, cue, state, sightings }
        } else {
            assert(self@ == old(self)@.ticked(drain, Seq::<MoveRolls>::empty()));
            TickReport { power_failed, cue, state, sightings: Vec::new() }
        }
    }

    /// Closes the night with the given raises of difficulty and says what
    /// follows it. After the last night the count of nights starts again at
    /// 1; after any other night that was survived the count rises and each
    /// agent's difficulty rises by its entry of `raises`, but not beyond 20.
    /// A night that is not over, or in which the player died, changes
    /// nothing.
    pub fn end_night_with(&mut self, raises: &Vec<u8>) -> (end: NightEnd)
        requires
            old(self).wf(),
            old(self)@.outcome() == NightEnd::NextNight ==> raises@.len() == old(
                self,
            )@.agents.len(),
        ensures
            final(self).wf(),
            end == old(self)@.outcome(),
            final(self)@ == old(self)@.closed(raises@),
    {
        if self.is_dead {
            return NightEnd::GameOver;
        }
        if self.time < END_TIME {
            return NightEnd::Unfinished;
        }
        if self.night >= NIGHTS {
            self.night = 1;
            assert(self@.agents == old(self)@.agents);
            return NightEnd::Won;
        }
        self.night = self.night + 1;
        let ghost before = self.anim_states@;
        let mut i: usize = 0;
        assert forall|j: int| 0 <= j < before.len() implies (#[trigger] before[j])@.wf() by {
            assert(old(self)@.agents[j].wf());
        }
        while i < self.anim_states.len()
            invariant
                i <= self.anim_states@.len(),
                self.anim_states@.len() == before.len(),
                raises@.len() == before.len(),
                before == old(self).anim_states@,
                self.left_door_closed == old(self).left_door_closed,
                self.right_door_closed == old(self).right_door_closed,
                self.left_light_on == old(self).left_light_on,
                self.right_light_on == old(self).right_light_on,
                self.is_dead == old(self).is_dead,
                self.killer == old(self).killer,
                self.battery == old(self).battery,
                self.time == old(self).time,
                self.stage == old(self).stage,
                self.night == old(self).night + 1,
                forall|j: int| 0 <= j < before.len() ==> (#[trigger] before[j])@.wf(),
                forall|j: int|
                    0 <= j < i ==> (#[trigger] self.anim_states@[j])@ == before[j]@.raised(
                        raises@[j] as int,
                    ),
                forall|j: int|
                    i <= j < before.len() ==> #[trigger] self.anim_states@[j] == before[j],
            decreases self.anim_states@.len() - i,
        {
            self.anim_states[i].raise_difficulty(raises[i]);
            i += 1;
        }
        proof {
            assert(self@.agents =~= old(self)@.closed(raises@).agents);
        }
        NightEnd::NextNight
    }

    /// Closes the night with fresh dice and says what follows it. Where
    /// another night follows, a raise of 1 or 2 is drawn for each agent, in
    /// roster order, and the night is closed as `end_night_with` says.
    pub fn end_night(&mut self) -> (end: NightEnd)
        requires
            old(self).wf(),
        ensures
            final(self).wf(),
            end == old(self)@.outcome(),
            exists|raises: Seq<u8>|
                {
                    &&& raises.len() == old(self)@.agents.len()
                    &&& forall|i: int|
                        0 <= i < raises.len() ==> RAISE_LOW <= (#[trigger] raises[i]) < RAISE_HIGH
                    &&& final(self)@ == #[trigger] old(self)@.closed(raises)
                },
    {
        let mut raises: Vec<u8> = Vec::new();
        let mut i: usize = 0;
        while i < self.anim_states.len()
            invariant
                i <= self.anim_states@.len(),
                raises@.len() == i,
                forall|j: int| 0 <= j < i ==> RAISE_LOW <= (#[trigger] raises@[j]) < RAISE_HIGH,
            decreases self.anim_states@.len() - i,
        {
            let raise = if !self.is_dead && self.time >= END_TIME && self.night < NIGHTS {
                roll_between(RAISE_LOW, RAISE_HIGH)
            } else {
                RAISE_LOW
            };
            raises.push(raise);
            i += 1;
        }
        let end = self.end_night_with(&raises);
        assert(self@ == old(self)@.closed(raises@));
        end
    }

    /// Sends the simulation back to dusk for a new night.
    pub fn night_reset(&mut self)
        requires
            old(self).wf(),
        ensures
            final(self).wf(),
            final(self)@ == old(self)@.at_dusk(),
    {
        let ghost before = self.anim_states@;
        let mut i: usize = 0;
        while i < self.anim_states.len()
            invariant
                i <= self.anim_states@.len(),
                self.anim_states@.len() == before.len(),
                self.night == old(self).night,
                forall|j: int| 0 <= j < i ==> (#[trigger] self.anim_states@[j])@ == before[j]@.rested(),
                forall|j: int| i <= j < before.len() ==> #[trigger] self.anim_states@[j] == before[j],
            decreases self.anim_states@.len() - i,
        {
            self.anim_states[i].rest();
            i += 1;
        }
        self.left_door_closed = false;
        self.right_door_closed = false;
        self.left_light_on = false;
        self.right_light_on = false;
        self.is_dead = false;
        self.killer = "MissingNo.".to_owned();
        self.battery = Battery::new();
        self.time = START_TIME;
        self.stage = 0;
        proof {
            self.battery.lemma_wf_view();
            assert(self@.agents =~= old(self)@.at_dusk().agents);
            assert forall|j: int| 0 <= j < self@.agents.len() implies (#[trigger] self@.agents[j]).wf() by {
                assert(old(self)@.agents[j].wf());
            }
        }
    }

    /// The rooms that can be entered from `location`, in table order. The
    /// simulation itself does not change.
    pub fn find_adjacent_room(&mut self, location: Locations) -> (ret: Vec<Locations>)
        ensures
            *final(self) == *old(self),
            ret@ == location.neighbors(),
    {
        location.adjacent()
    }

    /// The grid cell `(row, column)` that stands for `location`: the first
    /// cell, reading the grid row by row, that draws the room, and `(0, 0)`
    /// where no cell draws it.
    pub fn find_location(&self, location: &Locations) -> (cell: (u8, u8))
        ensures
            (cell.0 as int, cell.1 as int) == location.coordinates(),
    {
        proof {
            lemma_coordinates_first_cell(*location);
        }
        let mut i: u8 = 0;
        while i < GRID_ROWS
            invariant
                i <= GRID_ROWS,
                forall|row: int, col: int|
                    0 <= row < i && 0 <= col < GRID_COLS ==> #[trigger] grid_room(row, col)
                        != Some(*location),
            decreases GRID_ROWS - i,
        {
            let mut j: u8 = 0;
            while j < GRID_COLS
                invariant
                    i < GRID_ROWS,
                    j <= GRID_COLS,
                    forall|row: int, col: int|
                        0 <= row < i && 0 <= col < GRID_COLS ==> #[trigger] grid_room(row, col)
                            != Some(*location),
                    forall|col: int| 0 <= col < j ==> #[trigger] grid_room(i as int, col) != Some(*location),
                decreases GRID_COLS - j,
            {
                match grid_cell(i, j) {
                    Some(l) => {
                        if l == *location {
                            proof {
                                lemma_coordinates_first_cell(*location);
                                let c = location.coordinates();
                                assert(on_grid(*location));
                                if cell_before(c.0, c.1, i as int, j as int) {
                                    assert(grid_room(c.0, c.1) == Some(*location));
                                }
                            }
                            return (i, j);
                        }
                    },
                    None => {},
                }
                j += 1;
            }
            i += 1;
        }
        proof {
            lemma_coordinates_first_cell(*location);
            let c = location.coordinates();
            if on_grid(*location) {
                assert(grid_room(c.0, c.1) == Some(*location));
            }
        }
        (0, 0)
    }

    /// The straight-line distance on the grid from `location` to the attack
    /// position, rounded down to a whole number.
    pub fn distance_from_office_attack(&self, location: &Locations) -> (distance: u8)
        ensures
            is_floor_sqrt(
                distance as int,
                squared_distance(
                    Locations::SecurityOfficeAttack.coordinates(),
                    location.coordinates(),
                ),
            ),
    {
        let office_attack = Locations::SecurityOfficeAttack;
        let (x1, y1) = self.find_location(&office_attack);
        let (x2, y2) = self.find_location(location);
        proof {
            lemma_coordinates_first_cell(*location);
        }
        let dx: u32 = if x1 >= x2 {
            (x1 - x2) as u32
        } else {
            (x2 - x1) as u32
        };
        let dy: u32 = if y1 >= y2 {
            (y1 - y2) as u32
        } else {
            (y2 - y1) as u32
        };
        assert(dx * dx <= 16 && dy * dy <= 64) by (nonlinear_arith)
            requires
                dx <= 4,
                dy <= 8,
        ;
        let squared: u32 = dx * dx + dy * dy;
        assert(squared == squared_distance(
            Locations::SecurityOfficeAttack.coordinates(),
            location.coordinates(),
        )) by (nonlinear_arith)
            requires
                squared == dx * dx + dy * dy,
                dx == x1 - x2 || dx == x2 - x1,
                dy == y1 - y2 || dy == y2 - y1,
                Locations::SecurityOfficeAttack.coordinates() == (x1 as int, y1 as int),
                location.coordinates() == (x2 as int, y2 as int),
        ;
        let mut distance: u8 = 0;
        while square_of(distance as u32 + 1) <= squared
            invariant
                squared <= 80,
                distance <= 8,
                distance * distance <= squared,
            decreases 9 - distance,
        {
            assert(distance < 8) by (nonlinear_arith)
                requires
                    (distance + 1) * (distance + 1) <= squared,
                    squared <= 80,
                    distance <= 8,
            ;
            distance += 1;
        }
        distance
    }
}

/// The hours and minutes of a time given in minutes.
pub fn display_time(time: u32) -> (clock: (u32, u32))
    ensures
        clock.0 == time / 60,
        clock.1 == time % 60,
        clock.0 * 60 + clock.1 == time,
{
    let hours = time / 60;
    let minutes = time % 60;
    (hours, minutes)
}

} // verus!
