//! The animatronic agents: where each one stands, how eager it is to move, the
//! tell it currently gives off, and the rule by which it moves in one tick.

use crate::dice::{roll_between, roll_index};
use crate::rooms::Locations;
use vstd::prelude::*;

verus! {

/// A hint that an agent gives off and that the player may notice.
#[derive(PartialEq, Eq, Structural, Clone, Copy, Debug, Hash)]
pub enum Tells {
    Laughing,
    Noise,
    Footsteps,
    Static,
    Visual,
    Breathing,
}

/// The highest difficulty an agent can have.
pub const MAX_DIFFICULTY: u8 = 20;

/// The bound that every movement roll stays below.
pub const MOVE_ROLL_HIGH: u8 = 20;

/// The bound that every tell roll stays below.
pub const TELL_ROLL_HIGH: u8 = 5;

/// The name of the lead agent.
pub open spec fn freddy() -> Seq<char> {
    "Freddy"@
}

/// The name of the agent that haunts the kitchen.
pub open spec fn chica() -> Seq<char> {
    "Chica"@
}

impl Tells {
    /// The letter that stands for this tell on the map.
    pub open spec fn letter(self) -> char {
        match self {
            Tells::Laughing => 'l',
            Tells::Noise => 'n',
            Tells::Footsteps => 'f',
            Tells::Static => 's',
            Tells::Visual => 'v',
            Tells::Breathing => 'b',
        }
    }

    /// The tell that a tell roll stands for before any override: 0 to 3 are
    /// Laughing, Noise, Footsteps and Static, and everything from 4 on is
    /// Visual.
    pub open spec fn drawn(roll: int) -> Tells {
        if roll == 0 {
            Tells::Laughing
        } else if roll == 1 {
            Tells::Noise
        } else if roll == 2 {
            Tells::Footsteps
        } else if roll == 3 {
            Tells::Static
        } else {
            Tells::Visual
        }
    }

    /// The one-letter text that stands for this tell on the map.
    pub fn value(&self) -> (text: &'static str)
        ensures
            text@ == seq![self.letter()],
    {
        proof {
            reveal_strlit("l");
            reveal_strlit("n");
            reveal_strlit("f");
            reveal_strlit("s");
            reveal_strlit("v");
            reveal_strlit("b");
        }
        let text = match self {
            Tells::Laughing => "l",
            Tells::Noise => "n",
            Tells::Footsteps => "f",
            Tells::Static => "s",
            Tells::Visual => "v",
            Tells::Breathing => "b",
        };
        assert(text@ =~= seq![self.letter()]);
        text
    }

    /// The tell that a tell roll stands for before any override.
    pub fn from_roll(roll: u8) -> (tell: Tells)
        ensures
            tell == Tells::drawn(roll as int),
    {
        if roll == 0 {
            Tells::Laughing
        } else if roll == 1 {
            Tells::Noise
        } else if roll == 2 {
            Tells::Footsteps
        } else if roll == 3 {
            Tells::Static
        } else {
            Tells::Visual
        }
    }
}

/// Whether a closed door keeps an agent out of `room`: the room is the office
/// position behind the right door and that door is closed, or the same on the
/// left.
pub open spec fn door_blocks(room: Locations, right_door_closed: bool, left_door_closed: bool) -> bool {
    (room == Locations::SecurityOfficeStaticR && right_door_closed) || (room
        == Locations::SecurityOfficeStaticL && left_door_closed)
}

/// The room in which an agent standing in `room` finds itself once the doors
/// have had their say: a closed door pushes an agent out of the office
/// position behind it, into the hallway on that side.
pub open spec fn ejected_from(
    room: Locations,
    right_door_closed: bool,
    left_door_closed: bool,
) -> Locations {
    if right_door_closed && room == Locations::SecurityOfficeStaticR {
        Locations::HallwayR
    } else if left_door_closed && room == Locations::SecurityOfficeStaticL {
        Locations::HallwayL
    } else {
        room
    }
}

/// The tell of an agent called `name` that has just moved into `destination`
/// with a tell roll of `roll`.
///
/// The roll picks a tell. Then the lead agent turns Noise into Laughing, and
/// otherwise Laughing turns into Noise. The kitchen agent, in the kitchen,
/// gives Static on a roll above 2. Next to the office every agent gives
/// Breathing, whatever came before.
pub open spec fn tell_after(name: Seq<char>, destination: Locations, roll: int) -> Tells {
    let raw = Tells::drawn(roll);
    let swapped = if name == freddy() && raw == Tells::Noise {
        Tells::Laughing
    } else if raw == Tells::Laughing {
        Tells::Noise
    } else {
        raw
    };
    let in_kitchen = if name == chica() && destination == Locations::Kitchen && roll > 2 {
        Tells::Static
    } else {
        swapped
    };
    if destination.is_static_office() {
        Tells::Breathing
    } else {
        in_kitchen
    }
}

/// The three rolls that decide one agent's tick.
#[derive(PartialEq, Eq, Structural, Clone, Copy, Debug)]
pub struct MoveRolls {
    /// The movement roll: the agent acts when it does not exceed the
    /// agent's difficulty.
    pub act: u8,
    /// The position of the chosen destination in the neighbor list.
    pub pick: usize,
    /// The tell roll.
    pub tell: u8,
}

impl MoveRolls {
    /// Whether the rolls lie in the ranges that the dice produce for a
    /// neighbor list of `len` rooms.
    pub open spec fn in_range(self, len: nat) -> bool {
        &&& self.act < MOVE_ROLL_HIGH
        &&& self.pick < len
        &&& self.tell < TELL_ROLL_HIGH
    }
}

/// What an agent is, as plain mathematics.
pub struct AgentView {
    pub name: Seq<char>,
    pub location: Locations,
    pub difficulty: int,
    pub tell: Tells,
}

impl AgentView {
    /// The difficulty of an agent lies between 0 and 20.
    pub open spec fn wf(self) -> bool {
        0 <= self.difficulty <= MAX_DIFFICULTY
    }

    /// Whether a movement roll of `roll` lets the agent act.
    pub open spec fn acts_on(self, roll: int) -> bool {
        roll <= self.difficulty
    }

    /// The agent after the doors have pushed it out of the office, if they do.
    pub open spec fn ejected(self, right_door_closed: bool, left_door_closed: bool) -> AgentView {
        AgentView {
            location: ejected_from(self.location, right_door_closed, left_door_closed),
            ..self
        }
    }

    /// The agent after one tick with the given neighbor list, doors and rolls.
    ///
    /// First a closed door ejects it. Then, if the movement roll lets it act,
    /// it picks a destination from the list; a destination behind a closed
    /// door costs it the tick, any other becomes its room, and its tell is
    /// set for the new room.
    pub open spec fn moved(
        self,
        adjacent: Seq<Locations>,
        right_door_closed: bool,
        left_door_closed: bool,
        rolls: MoveRolls,
    ) -> AgentView {
        let pushed = self.ejected(right_door_closed, left_door_closed);
        if !self.acts_on(rolls.act as int) {
            pushed
        } else {
            let destination = adjacent[rolls.pick as int];
            if door_blocks(destination, right_door_closed, left_door_closed) {
                pushed
            } else {
                AgentView {
                    location: destination,
                    tell: tell_after(self.name, destination, rolls.tell as int),
                    ..pushed
                }
            }
        }
    }

    /// The agent as it starts a night: on the show stage, in plain sight.
    pub open spec fn rested(self) -> AgentView {
        AgentView { location: Locations::ShowStage, tell: Tells::Visual, ..self }
    }

    /// The agent with its difficulty raised by `by`, but not beyond 20.
    pub open spec fn raised(self, by: int) -> AgentView {
        AgentView {
            difficulty: if self.difficulty + by > MAX_DIFFICULTY {
                MAX_DIFFICULTY as int
            } else {
                self.difficulty + by
            },
            ..self
        }
    }
}

/// An animatronic agent.
#[derive(Debug)]
pub struct Animatronic {
    name: String,
    location: Locations,
    difficulty: u8,
    current_tell: Tells,
}

impl View for Animatronic {
    type V = AgentView;

    closed spec fn view(&self) -> AgentView {
        AgentView {
            name: self.name@,
            location: self.location,
            difficulty: self.difficulty as int,
            tell: self.current_tell,
        }
    }
}

/// Whether a closed door keeps an agent out of `room`.
pub fn is_blocked(room: Locations, right_door_closed: bool, left_door_closed: bool) -> (blocked:
    bool)
    ensures
        blocked == door_blocks(room, right_door_closed, left_door_closed),
{
    (room == Locations::SecurityOfficeStaticR && right_door_closed) || (room
        == Locations::SecurityOfficeStaticL && left_door_closed)
}

impl Animatronic {
    /// The invariant of an agent: its difficulty is at most 20.
    pub open spec fn wf(&self) -> bool {
        self@.wf()
    }

    /// An agent called `name` in `location`, in plain sight, with the given
    /// difficulty cut down to 20 where it is higher.
    pub fn new(name: String, location: Locations, difficulty: u8) -> (agent: Animatronic)
        ensures
            agent.wf(),
            agent@ == (AgentView {
                name: name@,
                location,
                difficulty: if difficulty > MAX_DIFFICULTY {
                    MAX_DIFFICULTY as int
                } else {
                    difficulty as int
                },
                tell: Tells::Visual,
            }),
    {
        let clamped: u8 = if difficulty > MAX_DIFFICULTY {
            MAX_DIFFICULTY
        } else {
            difficulty
        };
        Animatronic { name, location, difficulty: clamped, current_tell: Tells::Visual }
    }

    /// The agent's name.
    pub fn name(&self) -> (name: &String)
        ensures
            name@ == self@.name,
    {
        &self.name
    }

    /// The room the agent is in.
    pub fn location(&self) -> (location: Locations)
        ensures
            location == self@.location,
    {
        self.location
    }

    /// The agent's difficulty.
    pub fn difficulty(&self) -> (difficulty: u8)
        ensures
            difficulty == self@.difficulty,
    {
        self.difficulty
    }

    /// The tell the agent currently gives off.
    pub fn current_tell(&self) -> (tell: Tells)
        ensures
            tell == self@.tell,
    {
        self.current_tell
    }

    /// Whether the agent is the lead agent.
    pub fn is_freddy(&self) -> (lead: bool)
        ensures
            lead == (self@.name == freddy()),
    {
        self.name == "Freddy".to_owned()
    }

    /// Whether the agent is the one that haunts the kitchen.
    pub fn is_chica(&self) -> (kitchen: bool)
        ensures
            kitchen == (self@.name == chica()),
    {
        self.name == "Chica".to_owned()
    }

    /// Puts the agent into `room`; nothing else changes.
    pub fn relocate(&mut self, room: Locations)
        ensures
            final(self)@ == (AgentView { location: room, ..old(self)@ }),
    {
        self.location = room;
    }

    /// Sends the agent back to the show stage, in plain sight, for a new
    /// night. Its name and difficulty stay.
    pub fn rest(&mut self)
        ensures
            final(self)@ == old(self)@.rested(),
    {
        self.location = Locations::ShowStage;
        self.current_tell = Tells::Visual;
    }

    /// Raises the difficulty by `by`, but not beyond 20.
    pub fn raise_difficulty(&mut self, by: u8)
        requires
            old(self).wf(),
        ensures
            final(self).wf(),
            final(self)@ == old(self)@.raised(by as int),
    {
        if by > MAX_DIFFICULTY - self.difficulty {
            self.difficulty = MAX_DIFFICULTY;
        } else {
            self.difficulty = self.difficulty + by;
        }
    }

    /// The rooms the agent can step into from where it stands, in table
    /// order. The agent itself does not change.
    pub fn find_adjacent_room(&mut self) -> (ret: Vec<Locations>)
        ensures
            *final(self) == *old(self),
            ret@ == old(self)@.location.neighbors(),
    {
        self.location.adjacent()
    }

    /// Whether a movement roll of `roll` lets the agent act: it must not
    /// exceed the difficulty.
    pub fn acts_on(&self, roll: u8) -> (acts: bool)
        ensures
            acts == self@.acts_on(roll as int),
    {
        roll <= self.difficulty
    }

    /// The tell that the agent would give off after moving into
    /// `destination` with a tell roll of `roll`.
    pub fn tell_for(&self, destination: Locations, roll: u8) -> (tell: Tells)
        ensures
            tell == tell_after(self@.name, destination, roll as int),
    {
        let mut tell = Tells::from_roll(roll);
        if self.is_freddy() && tell == Tells::Noise {
            tell = Tells::Laughing;
        } else if tell == Tells::Laughing {
            tell = Tells::Noise;
        }
        if self.is_chica() && destination == Locations::Kitchen && roll > 2 {
            tell = Tells::Static;
        }
        if destination == Locations::SecurityOfficeStaticL || destination
            == Locations::SecurityOfficeStaticR {
            tell = Tells::Breathing;
        }
        tell
    }

    /// One tick of the agent with the given rolls.
    ///
    /// A closed door first pushes the agent out of the office position behind
    /// it. If the movement roll exceeds the difficulty, that is all. Otherwise
    /// the agent picks the room at position `rolls.pick` of `adjacent_loc`;
    /// if a closed door bars that room the tick is lost, else the agent moves
    /// there and its tell is set from the tell roll.
    pub fn move_with(
        &mut self,
        adjacent_loc: Vec<Locations>,
        right_door_closed: bool,
        left_door_closed: bool,
        rolls: MoveRolls,
    )
        requires
            old(self)@.acts_on(rolls.act as int) ==> rolls.pick < adjacent_loc@.len(),
        ensures
            final(self)@ == old(self)@.moved(
                adjacent_loc@,
                right_door_closed,
                left_door_closed,
                rolls,
            ),
            old(self).wf() ==> final(self).wf(),
    {
        let acts = self.acts_on(rolls.act);
        if right_door_closed && self.location == Locations::SecurityOfficeStaticR {
            self.location = Locations::HallwayR;
        }
        if left_door_closed && self.location == Locations::SecurityOfficeStaticL {
            self.location = Locations::HallwayL;
        }
        if acts {
            let destination = adjacent_loc[rolls.pick];
            if is_blocked(destination, right_door_closed, left_door_closed) {
                return ;
            }
            self.location = destination;
            self.current_tell = self.tell_for(destination, rolls.tell);
        }
    }

    /// Draws the rolls for one tick of the agent.
    ///
    /// The movement roll is drawn from 0 up to, but not including, 20. Only
    /// if it lets the agent act is a position in `adjacent_loc` drawn, and
    /// only if no closed door bars the room found there is the tell roll
    /// drawn, from 0 up to, but not including, 5. A roll that is not drawn is
    /// 0.
    pub fn roll_move(
        &self,
        adjacent_loc: &Vec<Locations>,
        right_door_closed: bool,
        left_door_closed: bool,
    ) -> (rolls: MoveRolls)
        requires
            adjacent_loc@.len() > 0,
        ensures
            rolls.in_range(adjacent_loc@.len()),
            !self@.acts_on(rolls.act as int) ==> rolls.pick == 0 && rolls.tell == 0,
            door_blocks(adjacent_loc@[rolls.pick as int], right_door_closed, left_door_closed)
                ==> rolls.tell == 0,
    {
        let mut rolls = MoveRolls { act: 0, pick: 0, tell: 0 };
        rolls.act = roll_between(0, MOVE_ROLL_HIGH);
        if self.acts_on(rolls.act) {
            rolls.pick = roll_index(adjacent_loc.len());
            if !is_blocked(adjacent_loc[rolls.pick], right_door_closed, left_door_closed) {
                rolls.tell = roll_between(0, TELL_ROLL_HIGH);
            }
        }
        rolls
    }

    /// One tick of the agent with fresh dice.
    ///
    /// The rolls are drawn as `roll_move` says, and the agent then changes as
    /// `move_with` says for those rolls.
    pub fn move_tick(
        &mut self,
        adjacent_loc: Vec<Locations>,
        right_door_closed: bool,
        left_door_closed: bool,
    )
        requires
            adjacent_loc@.len() > 0,
        ensures
            exists|rolls: MoveRolls| #[trigger]
                rolls.in_range(adjacent_loc@.len()) && final(self)@ == old(self)@.moved(
                    adjacent_loc@,
                    right_door_closed,
                    left_door_closed,
                    rolls,
                ),
            old(self).wf() ==> final(self).wf(),
    {
        let rolls = self.roll_move(&adjacent_loc, right_door_closed, left_door_closed);
        let ghost len = adjacent_loc@.len();
        let ghost adjacent = adjacent_loc@;
        self.move_with(adjacent_loc, right_door_closed, left_door_closed, rolls);
        assert(rolls.in_range(len) && self@ == old(self)@.moved(
            adjacent,
            right_door_closed,
            left_door_closed,
            rolls,
        ));
    }
}

/// Nothing that happens to an agent takes its difficulty out of the range
/// from 0 to 20: not a tick, not the rest before a night, not a raise.
pub proof fn lemma_difficulty_stays_capped(
    agent: AgentView,
    adjacent: Seq<Locations>,
    right_door_closed: bool,
    left_door_closed: bool,
    rolls: MoveRolls,
    by: u8,
)
    requires
        agent.wf(),
    ensures
        agent.moved(adjacent, right_door_closed, left_door_closed, rolls).wf(),
        agent.moved(adjacent, right_door_closed, left_door_closed, rolls).difficulty
            == agent.difficulty,
        agent.rested().wf(),
        agent.rested().difficulty == agent.difficulty,
        agent.raised(by as int).wf(),
        agent.raised(by as int).difficulty >= agent.difficulty,
{
}

/// A movement roll equal to the difficulty lets the agent act, and one above
/// it does not: the agent then only suffers what the doors do to it.
pub proof fn lemma_move_threshold(
    agent: AgentView,
    adjacent: Seq<Locations>,
    right_door_closed: bool,
    left_door_closed: bool,
    rolls: MoveRolls,
)
    requires
        rolls.pick < adjacent.len(),
    ensures
        rolls.act <= agent.difficulty && !door_blocks(
            adjacent[rolls.pick as int],
            right_door_closed,
            left_door_closed,
        ) ==> agent.moved(adjacent, right_door_closed, left_door_closed, rolls).location
            == adjacent[rolls.pick as int],
        rolls.act > agent.difficulty ==> agent.moved(
            adjacent,
            right_door_closed,
            left_door_closed,
            rolls,
        ) == agent.ejected(right_door_closed, left_door_closed),
{
}

/// An agent never ends a tick in an office position whose door is closed.
pub proof fn lemma_closed_door_keeps_out(
    agent: AgentView,
    adjacent: Seq<Locations>,
    right_door_closed: bool,
    left_door_closed: bool,
    rolls: MoveRolls,
)
    ensures
        !door_blocks(
            agent.moved(adjacent, right_door_closed, left_door_closed, rolls).location,
            right_door_closed,
            left_door_closed,
        ),
{
}

/// How the tell roll is overridden: the lead agent turns a rolled Noise into
/// Laughing; any other agent turns a rolled Laughing into Noise and never
/// shows Laughing at all; and next to the office the tell is Breathing,
/// whoever moved and whatever was rolled.
pub proof fn lemma_tell_overrides(name: Seq<char>, destination: Locations, roll: int)
    ensures
        !destination.is_static_office() ==> tell_after(freddy(), destination, 1)
            == Tells::Laughing,
        name != freddy() && !destination.is_static_office() ==> tell_after(name, destination, 0)
            == Tells::Noise,
        name != freddy() ==> tell_after(name, destination, roll) != Tells::Laughing,
        destination.is_static_office() ==> tell_after(name, destination, roll)
            == Tells::Breathing,
{
    reveal_strlit("Freddy");
    reveal_strlit("Chica");
    assert(freddy().len() == 6);
    assert(chica().len() == 5);
}

} // verus!
