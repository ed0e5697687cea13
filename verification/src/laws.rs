//! What holds of the simulation as a whole, proved over its views.

use crate::animatronic::{freddy, AgentView, MoveRolls};
use crate::battery::{lemma_drain_bounded, DrainRolls};
use crate::rooms::Locations;
use crate::simulation::{
    is_lead, lead_in, with_lead_in, BlackoutCue, SimulationView, END_TIME, FINAL_STAGE, TICK_RATE,
};
use vstd::prelude::*;

verus! {

/// The simulation after `n` steps of the countdown in a row.
pub open spec fn countdown_steps(start: SimulationView, n: nat) -> SimulationView
    decreases n,
{
    if n == 0 {
        start
    } else {
        countdown_steps(start, (n - 1) as nat).counted_down()
    }
}

/// Putting the lead agent into a room changes no name and no difficulty,
/// moves nobody else, and leaves the lead agent, if there is one, in that
/// room.
pub proof fn lemma_with_lead_in(agents: Seq<AgentView>, room: Locations)
    ensures
        with_lead_in(agents, room).len() == agents.len(),
        forall|i: int|
            0 <= i < agents.len() ==> (#[trigger] with_lead_in(agents, room)[i]).name
                == agents[i].name && with_lead_in(agents, room)[i].difficulty
                == agents[i].difficulty && with_lead_in(agents, room)[i].tell == agents[i].tell,
        forall|i: int|
            0 <= i < agents.len() && !is_lead(agents, i) ==> #[trigger] with_lead_in(
                agents,
                room,
            )[i] == agents[i],
        forall|i: int|
            is_lead(agents, i) ==> #[trigger] is_lead(with_lead_in(agents, room), i)
                && with_lead_in(agents, room)[i].location == room,
{
    let moved = with_lead_in(agents, room);
    assert forall|i: int| is_lead(agents, i) implies #[trigger] is_lead(moved, i) && moved[i].location
        == room by {
        assert forall|j: int| 0 <= j < i implies (#[trigger] moved[j]).name != freddy() by {
            assert(agents[j].name != freddy());
        }
    }
}

/// One step of the countdown while it runs: the player perceives the cue of
/// the current stage. Before stage 6 only the stage changes, rising by one,
/// and the countdown keeps running. From stage 6 on the player is dead, the
/// lead agent is the killer and stands in the attack position.
pub proof fn lemma_countdown_step(before: SimulationView)
    requires
        before.countdown_runs(),
        0 <= before.stage < u8::MAX,
    ensures
        before.cue() == Some(BlackoutCue::at_stage(before.stage)),
        before.stage < FINAL_STAGE ==> before.counted_down() == (SimulationView {
            stage: before.stage + 1,
            ..before
        }) && before.counted_down().countdown_runs(),
        before.stage >= FINAL_STAGE ==> before.counted_down().is_dead
            && before.counted_down().killer == freddy() && lead_in(
            before.counted_down().agents,
            Locations::SecurityOfficeAttack,
        ),
{
    if before.stage >= FINAL_STAGE {
        let i = choose|i: int| #[trigger]
            is_lead(before.agents, i) && before.agents[i].location == Locations::HallwayR;
        lemma_with_lead_in(before.agents, Locations::SecurityOfficeAttack);
        assert(is_lead(before.counted_down().agents, i));
    }
}

/// A countdown that starts at stage 0 with the player alive gives the six
/// warnings in turn, one for each step, and leaves the player alive through
/// the sixth step; the seventh step brings silence and kills the player: the
/// lead agent is the killer and stands in the attack position.
pub proof fn lemma_countdown_kills_at_seventh_step(start: SimulationView)
    requires
        start.countdown_runs(),
        start.stage == 0,
        !start.is_dead,
    ensures
        countdown_steps(start, 0).cue() == Some(BlackoutCue::GlowingEyes),
        countdown_steps(start, 1).cue() == Some(BlackoutCue::ItsMe),
        countdown_steps(start, 2).cue() == Some(BlackoutCue::StillHere),
        countdown_steps(start, 3).cue() == Some(BlackoutCue::AlwaysHere),
        countdown_steps(start, 4).cue() == Some(BlackoutCue::AlwaysWatching),
        countdown_steps(start, 5).cue() == Some(BlackoutCue::AlwaysWatchingYou),
        countdown_steps(start, 6).cue() == Some(BlackoutCue::Silence),
        forall|n: nat| n <= 6 ==> !(#[trigger] countdown_steps(start, n)).is_dead,
        countdown_steps(start, 7).is_dead,
        countdown_steps(start, 7).killer == freddy(),
        lead_in(countdown_steps(start, 7).agents, Locations::SecurityOfficeAttack),
{
    assert forall|n: nat| n <= 6 implies #[trigger] countdown_steps(start, n) == (SimulationView {
        stage: n as int,
        ..start
    }) by {
        lemma_countdown_prefix(start, n);
    }
    lemma_countdown_prefix(start, 0);
    lemma_countdown_prefix(start, 1);
    lemma_countdown_prefix(start, 2);
    lemma_countdown_prefix(start, 3);
    lemma_countdown_prefix(start, 4);
    lemma_countdown_prefix(start, 5);
    lemma_countdown_prefix(start, 6);
    lemma_countdown_step(countdown_steps(start, 6));
    assert(countdown_steps(start, 7) == countdown_steps(start, 6).counted_down());
}

/// Through its first six steps a countdown that starts at stage 0 changes
/// nothing but the stage, which counts the steps.
pub proof fn lemma_countdown_prefix(start: SimulationView, n: nat)
    requires
        start.countdown_runs(),
        start.stage == 0,
        n <= 6,
    ensures
        countdown_steps(start, n) == (SimulationView { stage: n as int, ..start }),
        countdown_steps(start, n).countdown_runs(),
    decreases n,
{
    if n > 0 {
        lemma_countdown_prefix(start, (n - 1) as nat);
        lemma_countdown_step(countdown_steps(start, (n - 1) as nat));
    }
}

/// The part of a tick that comes before the agents' turns keeps a well-formed
/// simulation well formed, whatever the drain rolls.
pub proof fn lemma_opened_wf(before: SimulationView, drain: DrainRolls)
    requires
        before.wf(),
    ensures
        before.opened(drain).wf(),
{
    if !before.night_is_over() {
        lemma_drain_bounded(before.battery, drain);
        let drained = before.drained(drain);
        assert(drained.wf());
        lemma_with_lead_in(drained.agents, Locations::HallwayR);
        let checked = if drained.power_fails() {
            drained.blacked_out()
        } else {
            drained
        };
        assert(checked.wf()) by {
            assert forall|i: int| 0 <= i < checked.agents.len() implies (
            #[trigger] checked.agents[i]).wf() by {
                assert(drained.agents[i].wf());
            }
        }
        lemma_with_lead_in(checked.agents, Locations::SecurityOfficeAttack);
        let mid = checked.counted_down();
        assert(mid.wf()) by {
            assert forall|i: int| 0 <= i < mid.agents.len() implies (#[trigger] mid.agents[i]).wf() by {
                assert(checked.agents[i].wf());
            }
        }
    }
}

/// A tick keeps a well-formed simulation well formed, whatever the rolls: the
/// charge stays between 0 and 100 while the battery is online, every
/// difficulty stays between 0 and 20, and the clock stays within the night.
pub proof fn lemma_ticked_wf(before: SimulationView, drain: DrainRolls, moves: Seq<MoveRolls>)
    requires
        before.wf(),
    ensures
        before.ticked(drain, moves).wf(),
{
    lemma_opened_wf(before, drain);
    if before.agents_move(drain) {
        let opened = before.opened(drain);
        let after = opened.agents_ticked(moves);
        assert forall|i: int| 0 <= i < after.agents.len() implies (#[trigger] after.agents[i]).wf() by {
            assert(opened.agents[i].wf());
        }
    }
}

/// A tick never turns the clock back, and advances it by at most a quarter
/// of an hour; once the night is over a tick changes nothing at all.
pub proof fn lemma_tick_and_clock(before: SimulationView, drain: DrainRolls, moves: Seq<MoveRolls>)
    ensures
        before.time <= before.ticked(drain, moves).time <= before.time + TICK_RATE,
        before.time >= END_TIME ==> before.ticked(drain, moves) == before,
{
}

/// Dusk changes no agent's name or difficulty: what an agent has learned in
/// earlier nights it keeps.
pub proof fn lemma_dusk_keeps_difficulty(before: SimulationView, i: int)
    requires
        0 <= i < before.agents.len(),
    ensures
        before.at_dusk().agents.len() == before.agents.len(),
        before.at_dusk().agents[i].name == before.agents[i].name,
        before.at_dusk().agents[i].difficulty == before.agents[i].difficulty,
        before.at_dusk().night == before.night,
{
}

} // verus!
