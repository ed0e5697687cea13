use night_watch::animatronic::{is_blocked, Animatronic, MoveRolls, Tells};
use night_watch::rooms::Locations;

fn agent(name: &str, location: Locations, difficulty: u8) -> Animatronic {
    Animatronic::new(name.to_string(), location, difficulty)
}

fn rolls(act: u8, pick: usize, tell: u8) -> MoveRolls {
    MoveRolls { act, pick, tell }
}

#[test]
fn a_new_agent_is_in_plain_sight() {
    let bonnie = agent("Bonnie", Locations::Arcade, 7);
    assert_eq!(bonnie.name(), "Bonnie");
    assert_eq!(bonnie.location(), Locations::Arcade);
    assert_eq!(bonnie.difficulty(), 7);
    assert_eq!(bonnie.current_tell(), Tells::Visual);
}

#[test]
fn difficulty_is_cut_down_to_twenty() {
    assert_eq!(agent("Freddy", Locations::ShowStage, 255).difficulty(), 20);
    assert_eq!(agent("Freddy", Locations::ShowStage, 21).difficulty(), 20);
    assert_eq!(agent("Freddy", Locations::ShowStage, 20).difficulty(), 20);
    assert_eq!(agent("Freddy", Locations::ShowStage, 19).difficulty(), 19);
    assert_eq!(agent("Freddy", Locations::ShowStage, 0).difficulty(), 0);
    for difficulty in 0..=255u8 {
        assert!(agent("Chica", Locations::ShowStage, difficulty).difficulty() <= 20);
    }
}

#[test]
fn raising_the_difficulty_stops_at_twenty() {
    let mut bonnie = agent("Bonnie", Locations::ShowStage, 3);
    bonnie.raise_difficulty(2);
    assert_eq!(bonnie.difficulty(), 5);
    bonnie.raise_difficulty(14);
    assert_eq!(bonnie.difficulty(), 19);
    bonnie.raise_difficulty(2);
    assert_eq!(bonnie.difficulty(), 20);
    bonnie.raise_difficulty(255);
    assert_eq!(bonnie.difficulty(), 20);
}

#[test]
fn tell_letters() {
    assert_eq!(Tells::Laughing.value(), "l");
    assert_eq!(Tells::Noise.value(), "n");
    assert_eq!(Tells::Footsteps.value(), "f");
    assert_eq!(Tells::Static.value(), "s");
    assert_eq!(Tells::Visual.value(), "v");
    assert_eq!(Tells::Breathing.value(), "b");
}

#[test]
fn tell_rolls() {
    assert_eq!(Tells::from_roll(0), Tells::Laughing);
    assert_eq!(Tells::from_roll(1), Tells::Noise);
    assert_eq!(Tells::from_roll(2), Tells::Footsteps);
    assert_eq!(Tells::from_roll(3), Tells::Static);
    assert_eq!(Tells::from_roll(4), Tells::Visual);
    assert_eq!(Tells::from_roll(5), Tells::Visual);
    assert_eq!(Tells::from_roll(200), Tells::Visual);
}

#[test]
fn a_roll_at_the_difficulty_moves_and_one_above_does_not() {
    for difficulty in 0..19u8 {
        let mut acting = agent("Bonnie", Locations::ShowStage, difficulty);
        let adjacent = acting.find_adjacent_room();
        acting.move_with(adjacent, false, false, rolls(difficulty, 0, 2));
        assert_eq!(acting.location(), Locations::DiningAreaC);
        assert_eq!(acting.current_tell(), Tells::Footsteps);

        let mut idle = agent("Bonnie", Locations::ShowStage, difficulty);
        let adjacent = idle.find_adjacent_room();
        idle.move_with(adjacent, false, false, rolls(difficulty + 1, 0, 2));
        assert_eq!(idle.location(), Locations::ShowStage);
        assert_eq!(idle.current_tell(), Tells::Visual);
    }
}

#[test]
fn acts_on_compares_with_the_difficulty() {
    let bonnie = agent("Bonnie", Locations::ShowStage, 3);
    assert!(bonnie.acts_on(0));
    assert!(bonnie.acts_on(3));
    assert!(!bonnie.acts_on(4));
    assert!(!bonnie.acts_on(19));
    let eager = agent("Bonnie", Locations::ShowStage, 20);
    for roll in 0..20u8 {
        assert!(eager.acts_on(roll));
    }
    let lazy = agent("Bonnie", Locations::ShowStage, 0);
    assert!(lazy.acts_on(0));
    assert!(!lazy.acts_on(1));
}

#[test]
fn freddy_turns_noise_into_laughing() {
    let mut freddy = agent("Freddy", Locations::ShowStage, 20);
    let adjacent = freddy.find_adjacent_room();
    freddy.move_with(adjacent, false, false, rolls(0, 0, 1));
    assert_eq!(freddy.current_tell(), Tells::Laughing);
    assert_eq!(freddy.tell_for(Locations::Arcade, 1), Tells::Laughing);
}

#[test]
fn freddy_turns_laughing_into_noise() {
    let freddy = agent("Freddy", Locations::ShowStage, 20);
    assert_eq!(freddy.tell_for(Locations::Arcade, 0), Tells::Noise);
}

#[test]
fn bonnie_turns_laughing_into_noise() {
    let mut bonnie = agent("Bonnie", Locations::ShowStage, 20);
    let adjacent = bonnie.find_adjacent_room();
    bonnie.move_with(adjacent, false, false, rolls(0, 0, 0));
    assert_eq!(bonnie.current_tell(), Tells::Noise);
    assert_eq!(bonnie.tell_for(Locations::Arcade, 1), Tells::Noise);
}

#[test]
fn nobody_but_freddy_laughs() {
    for name in ["Bonnie", "Chica", "", "freddy", "Freddy "] {
        let other = agent(name, Locations::ShowStage, 20);
        for roll in 0..=255u8 {
            for room in [Locations::Arcade, Locations::Kitchen, Locations::HallwayL] {
                assert_ne!(other.tell_for(room, roll), Tells::Laughing);
            }
        }
    }
}

#[test]
fn plain_rolls_pass_through() {
    let bonnie = agent("Bonnie", Locations::ShowStage, 20);
    assert_eq!(bonnie.tell_for(Locations::Kitchen, 2), Tells::Footsteps);
    assert_eq!(bonnie.tell_for(Locations::Kitchen, 3), Tells::Static);
    assert_eq!(bonnie.tell_for(Locations::Kitchen, 4), Tells::Visual);
    let freddy = agent("Freddy", Locations::ShowStage, 20);
    assert_eq!(freddy.tell_for(Locations::Kitchen, 2), Tells::Footsteps);
    assert_eq!(freddy.tell_for(Locations::Kitchen, 3), Tells::Static);
    assert_eq!(freddy.tell_for(Locations::Kitchen, 4), Tells::Visual);
}

#[test]
fn chica_gives_static_in_the_kitchen() {
    let chica = agent("Chica", Locations::DiningAreaR, 20);
    assert_eq!(chica.tell_for(Locations::Kitchen, 4), Tells::Static);
    assert_eq!(chica.tell_for(Locations::Kitchen, 3), Tells::Static);
    assert_eq!(chica.tell_for(Locations::Kitchen, 2), Tells::Footsteps);
    assert_eq!(chica.tell_for(Locations::Kitchen, 1), Tells::Noise);
    assert_eq!(chica.tell_for(Locations::Kitchen, 0), Tells::Noise);
    assert_eq!(chica.tell_for(Locations::DiningAreaC, 4), Tells::Visual);
    let mut moving = agent("Chica", Locations::DiningAreaR, 20);
    let adjacent = moving.find_adjacent_room();
    moving.move_with(adjacent, false, false, rolls(0, 1, 4));
    assert_eq!(moving.location(), Locations::Kitchen);
    assert_eq!(moving.current_tell(), Tells::Static);
}

#[test]
fn next_to_the_office_everyone_breathes() {
    for name in ["Freddy", "Bonnie", "Chica"] {
        for roll in 0..5u8 {
            let mut left = agent(name, Locations::HallwayL, 20);
            let adjacent = left.find_adjacent_room();
            left.move_with(adjacent, false, false, rolls(0, 1, roll));
            assert_eq!(left.location(), Locations::SecurityOfficeStaticL);
            assert_eq!(left.current_tell(), Tells::Breathing);

            let mut right = agent(name, Locations::HallwayR, 20);
            let adjacent = right.find_adjacent_room();
            right.move_with(adjacent, false, false, rolls(0, 1, roll));
            assert_eq!(right.location(), Locations::SecurityOfficeStaticR);
            assert_eq!(right.current_tell(), Tells::Breathing);
        }
    }
}

#[test]
fn a_closed_door_costs_the_tick() {
    let mut bonnie = agent("Bonnie", Locations::HallwayL, 20);
    let adjacent = bonnie.find_adjacent_room();
    bonnie.move_with(adjacent, false, true, rolls(0, 1, 2));
    assert_eq!(bonnie.location(), Locations::HallwayL);
    assert_eq!(bonnie.current_tell(), Tells::Visual);

    let mut chica = agent("Chica", Locations::HallwayR, 20);
    let adjacent = chica.find_adjacent_room();
    chica.move_with(adjacent, true, false, rolls(0, 1, 2));
    assert_eq!(chica.location(), Locations::HallwayR);
    assert_eq!(chica.current_tell(), Tells::Visual);

    // The door on the other side does not matter.
    let mut freddy = agent("Freddy", Locations::HallwayR, 20);
    let adjacent = freddy.find_adjacent_room();
    freddy.move_with(adjacent, false, true, rolls(0, 1, 2));
    assert_eq!(freddy.location(), Locations::SecurityOfficeStaticR);
}

#[test]
fn a_closed_door_ejects_without_a_roll() {
    // The movement roll fails, and the agent is pushed out all the same.
    let mut bonnie = agent("Bonnie", Locations::SecurityOfficeStaticL, 3);
    let adjacent = bonnie.find_adjacent_room();
    bonnie.move_with(adjacent, false, true, rolls(19, 0, 0));
    assert_eq!(bonnie.location(), Locations::HallwayL);
    assert_eq!(bonnie.current_tell(), Tells::Visual);

    let mut chica = agent("Chica", Locations::SecurityOfficeStaticR, 3);
    let adjacent = chica.find_adjacent_room();
    chica.move_with(adjacent, true, false, rolls(19, 0, 0));
    assert_eq!(chica.location(), Locations::HallwayR);

    // An open door ejects nobody.
    let mut freddy = agent("Freddy", Locations::SecurityOfficeStaticR, 3);
    let adjacent = freddy.find_adjacent_room();
    freddy.move_with(adjacent, false, true, rolls(19, 0, 0));
    assert_eq!(freddy.location(), Locations::SecurityOfficeStaticR);
}

#[test]
fn blocked_rooms() {
    assert!(is_blocked(Locations::SecurityOfficeStaticR, true, false));
    assert!(is_blocked(Locations::SecurityOfficeStaticL, false, true));
    assert!(!is_blocked(Locations::SecurityOfficeStaticR, false, true));
    assert!(!is_blocked(Locations::SecurityOfficeStaticL, true, false));
    assert!(!is_blocked(Locations::SecurityOfficeAttack, true, true));
    assert!(!is_blocked(Locations::HallwayR, true, true));
}

#[test]
fn an_idle_agent_ignores_its_pick() {
    let mut bonnie = agent("Bonnie", Locations::ShowStage, 3);
    let adjacent = bonnie.find_adjacent_room();
    bonnie.move_with(adjacent, false, false, rolls(4, 99, 0));
    assert_eq!(bonnie.location(), Locations::ShowStage);
}

#[test]
fn the_shortest_path_reaches_the_office() {
    // Stage, central dining area, restrooms, left hallway, left office
    // position, attack position: five steps, and no path is shorter.
    let mut freddy = agent("Freddy", Locations::ShowStage, 20);
    let picks = [0usize, 3, 1, 1, 0];
    let expected = [
        Locations::DiningAreaC,
        Locations::Restrooms,
        Locations::HallwayL,
        Locations::SecurityOfficeStaticL,
        Locations::SecurityOfficeAttack,
    ];
    for (pick, room) in picks.iter().zip(expected.iter()) {
        assert_ne!(freddy.location(), Locations::SecurityOfficeAttack);
        let adjacent = freddy.find_adjacent_room();
        freddy.move_with(adjacent, false, false, rolls(19, *pick, 4));
        assert_eq!(freddy.location(), *room);
    }
    // Once there, it stays.
    let adjacent = freddy.find_adjacent_room();
    freddy.move_with(adjacent, true, true, rolls(0, 0, 0));
    assert_eq!(freddy.location(), Locations::SecurityOfficeAttack);
}

#[test]
fn no_path_to_the_office_is_shorter_than_five() {
    let mut reached = vec![Locations::ShowStage];
    let mut steps = 0;
    while !reached.contains(&Locations::SecurityOfficeAttack) {
        let mut next = reached.clone();
        for room in &reached {
            for neighbor in room.adjacent() {
                if !next.contains(&neighbor) {
                    next.push(neighbor);
                }
            }
        }
        reached = next;
        steps += 1;
        assert!(steps <= 12);
    }
    assert_eq!(steps, 5);
}

#[test]
fn always_taking_the_first_neighbor_walks_in_a_circle() {
    let mut freddy = agent("Freddy", Locations::ShowStage, 20);
    let mut visited = Vec::new();
    for _ in 0..9 {
        let adjacent = freddy.find_adjacent_room();
        freddy.move_with(adjacent, false, false, rolls(0, 0, 4));
        visited.push(freddy.location());
    }
    assert_eq!(
        visited,
        vec![
            Locations::DiningAreaC,
            Locations::DiningAreaL,
            Locations::Arcade,
            Locations::Restrooms,
            Locations::DiningAreaC,
            Locations::DiningAreaL,
            Locations::Arcade,
            Locations::Restrooms,
            Locations::DiningAreaC,
        ]
    );
}

#[test]
fn fresh_dice_move_along_the_table() {
    for _ in 0..300 {
        let mut chica = agent("Chica", Locations::DiningAreaC, 10);
        let adjacent = chica.find_adjacent_room();
        chica.move_tick(adjacent.clone(), false, false);
        let now = chica.location();
        assert!(now == Locations::DiningAreaC || adjacent.contains(&now));
        if now == Locations::DiningAreaC {
            // Either it did not act, or it stepped nowhere: the room is not
            // its own neighbor, so the tell is untouched.
            assert_eq!(chica.current_tell(), Tells::Visual);
        } else {
            assert_ne!(chica.current_tell(), Tells::Laughing);
            assert_ne!(chica.current_tell(), Tells::Breathing);
        }
        assert_eq!(chica.difficulty(), 10);
        assert_eq!(chica.name(), "Chica");
    }
}

#[test]
fn fresh_dice_at_full_difficulty_always_move() {
    for _ in 0..100 {
        let mut freddy = agent("Freddy", Locations::ShowStage, 20);
        let adjacent = freddy.find_adjacent_room();
        freddy.move_tick(adjacent, false, false);
        assert_eq!(freddy.location(), Locations::DiningAreaC);
    }
}

#[test]
fn fresh_rolls_are_in_range() {
    let freddy = agent("Freddy", Locations::DiningAreaC, 20);
    let adjacent = Locations::DiningAreaC.adjacent();
    let mut picks = [false; 4];
    let mut tells = [false; 5];
    for _ in 0..2000 {
        let drawn = freddy.roll_move(&adjacent, false, false);
        assert!(drawn.act < 20);
        assert!(drawn.pick < 4);
        assert!(drawn.tell < 5);
        picks[drawn.pick] = true;
        tells[drawn.tell as usize] = true;
    }
    assert_eq!(picks, [true; 4]);
    assert_eq!(tells, [true; 5]);
}

#[test]
fn an_idle_agent_draws_no_further_rolls() {
    let lazy = agent("Bonnie", Locations::DiningAreaC, 0);
    let adjacent = Locations::DiningAreaC.adjacent();
    for _ in 0..500 {
        let drawn = lazy.roll_move(&adjacent, false, false);
        if drawn.act > 0 {
            assert_eq!(drawn.pick, 0);
            assert_eq!(drawn.tell, 0);
        }
    }
}

#[test]
fn relocate_and_rest() {
    let mut bonnie = agent("Bonnie", Locations::ShowStage, 9);
    bonnie.relocate(Locations::HallwayR);
    assert_eq!(bonnie.location(), Locations::HallwayR);
    assert_eq!(bonnie.difficulty(), 9);
    let adjacent = bonnie.find_adjacent_room();
    bonnie.move_with(adjacent, false, false, rolls(0, 1, 0));
    assert_eq!(bonnie.current_tell(), Tells::Breathing);
    bonnie.rest();
    assert_eq!(bonnie.location(), Locations::ShowStage);
    assert_eq!(bonnie.current_tell(), Tells::Visual);
    assert_eq!(bonnie.difficulty(), 9);
    assert_eq!(bonnie.name(), "Bonnie");
}

#[test]
fn names_are_compared_exactly() {
    assert!(agent("Freddy", Locations::ShowStage, 1).is_freddy());
    assert!(!agent("freddy", Locations::ShowStage, 1).is_freddy());
    assert!(!agent("Chica", Locations::ShowStage, 1).is_freddy());
    assert!(agent("Chica", Locations::ShowStage, 1).is_chica());
    assert!(!agent("Freddy", Locations::ShowStage, 1).is_chica());
}
