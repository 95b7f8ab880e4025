use hqm_shootout::attempt::{
    HQMPuckReading, HQMShootoutAttemptState, HQMSimulationEvent, OVER_TICKS,
};
use hqm_shootout::behaviour::{HQMShootoutBehaviour, HQMShootoutStatus};
use hqm_shootout::server::{
    HQMGameValues, HQMPlayerInput, HQMServer, HQMServerAction, HQMServerPlayer, HQMSpawnSpot,
    HQMTeamNames,
};
use hqm_shootout::team::HQMTeam;

const CALM: HQMPlayerInput = HQMPlayerInput { join_red: false, join_blue: false, spectate: false };

fn values() -> HQMGameValues {
    HQMGameValues {
        time: 1000,
        goal_message_timer: 0,
        period: 0,
        red_score: 0,
        blue_score: 0,
        game_over: false,
    }
}

fn player(index: usize, team: Option<HQMTeam>) -> HQMServerPlayer {
    HQMServerPlayer {
        index,
        player_name: format!("player{}", index),
        is_admin: false,
        team,
        input: CALM,
    }
}

fn server(teams: &[Option<HQMTeam>]) -> HQMServer {
    let mut players = Vec::new();
    for (index, team) in teams.iter().enumerate() {
        players.push(player(index, *team));
    }
    HQMServer {
        values: values(),
        players,
        team_names: HQMTeamNames { red: "Red".to_string(), blue: "Blue".to_string() },
        actions: Vec::new(),
    }
}

fn duel() -> HQMServer {
    server(&[Some(HQMTeam::Red), Some(HQMTeam::Blue)])
}

fn reading(stored: f32, progress: f32) -> HQMPuckReading {
    HQMPuckReading { progress: progress.to_bits(), change: (progress - stored).to_bits() }
}

fn describe(actions: &[HQMServerAction]) -> Vec<String> {
    actions.iter().map(|action| format!("{:?}", action)).collect()
}

fn chat(server: &HQMServer) -> Vec<String> {
    let mut lines = Vec::new();
    for action in server.actions.iter() {
        if let HQMServerAction::ServerChat { text } = action {
            lines.push(text.clone());
        }
    }
    lines
}

fn stage(behaviour: &HQMShootoutBehaviour<u8>) -> HQMShootoutAttemptState {
    match behaviour.status() {
        HQMShootoutStatus::Game { state, .. } => state,
        HQMShootoutStatus::WaitingForGame => panic!("no attempt"),
    }
}

fn turn(behaviour: &HQMShootoutBehaviour<u8>) -> (u32, HQMTeam) {
    match behaviour.status() {
        HQMShootoutStatus::Game { round, team, .. } => (round, team),
        HQMShootoutStatus::WaitingForGame => panic!("no attempt"),
    }
}

fn started(attempts: u32, round: u32, team: HQMTeam) -> (HQMShootoutBehaviour<u8>, HQMServer) {
    let mut behaviour = HQMShootoutBehaviour::new(attempts, 0u8);
    let mut ice = duel();
    behaviour.start_attempt(&mut ice, round, team);
    ice.actions.clear();
    (behaviour, ice)
}

fn tick(
    behaviour: &mut HQMShootoutBehaviour<u8>,
    ice: &mut HQMServer,
    events: &[HQMSimulationEvent],
    puck: Option<HQMPuckReading>,
) {
    assert!(behaviour.tick_in_range(ice, events, puck));
    behaviour.after_tick(ice, events, puck);
}

#[test]
fn new_game_mode_waits() {
    let behaviour = HQMShootoutBehaviour::new(5, 0u8);
    assert_eq!(behaviour.status(), HQMShootoutStatus::WaitingForGame);
    assert_eq!(behaviour.get_number_of_players(), 1);
    assert!(!behaviour.save_replay_data());
}

#[test]
fn initial_values_keep_defaults_but_for_the_clock() {
    let behaviour = HQMShootoutBehaviour::new(5, "physics".to_string());
    let defaults = HQMGameValues { time: 7, period: 3, red_score: 2, ..values() };
    let initial = behaviour.get_initial_game_values(defaults);
    assert_eq!(initial.values, HQMGameValues { time: 1000, period: 3, red_score: 2, ..values() });
    assert_eq!(initial.puck_slots, 1);
    assert_eq!(initial.physics_configuration, "physics");
}

#[test]
fn waiting_clock_needs_both_teams() {
    let mut behaviour = HQMShootoutBehaviour::new(5, 0u8);
    let mut ice = server(&[Some(HQMTeam::Red), None]);
    ice.values.time = 1;
    tick(&mut behaviour, &mut ice, &[], None);
    assert_eq!(ice.values.time, 1000);
    assert_eq!(behaviour.status(), HQMShootoutStatus::WaitingForGame);

    let mut ice = duel();
    ice.values.time = 2;
    tick(&mut behaviour, &mut ice, &[HQMSimulationEvent::PuckPassedGoalLine], None);
    assert_eq!(ice.values.time, 1);
    assert!(ice.actions.is_empty());
    assert_eq!(behaviour.status(), HQMShootoutStatus::WaitingForGame);
    tick(&mut behaviour, &mut ice, &[], None);
    assert_eq!(ice.values.time, 2000);
    assert_eq!(ice.values.period, 1);
    assert_eq!(turn(&behaviour), (0, HQMTeam::Red));
    assert!(behaviour.save_replay_data());
}

#[test]
fn attempt_places_puck_and_skaters() {
    let mut behaviour = HQMShootoutBehaviour::new(3, 0u8);
    let mut ice = server(&[
        Some(HQMTeam::Blue),
        Some(HQMTeam::Red),
        None,
        Some(HQMTeam::Red),
        Some(HQMTeam::Red),
        Some(HQMTeam::Red),
        Some(HQMTeam::Blue),
    ]);
    ice.values.goal_message_timer = 9;
    ice.values.red_score = 4;
    behaviour.start_attempt(&mut ice, 0, HQMTeam::Red);
    let spawn = |player: usize, team: HQMTeam, spot: HQMSpawnSpot, side_steps: usize| {
        HQMServerAction::SpawnSkater { player, team, spot, side_steps }
    };
    let expected = vec![
        HQMServerAction::ServerChat { text: "3 attempts left for Red".to_string() },
        HQMServerAction::ClearPucks,
        HQMServerAction::CreatePuck,
        spawn(1, HQMTeam::Red, HQMSpawnSpot::CenterIce, 0),
        spawn(3, HQMTeam::Red, HQMSpawnSpot::CenterIce, 1),
        spawn(4, HQMTeam::Red, HQMSpawnSpot::CenterIce, 2),
        spawn(5, HQMTeam::Red, HQMSpawnSpot::CenterIce, 2),
        spawn(0, HQMTeam::Blue, HQMSpawnSpot::Crease, 0),
        spawn(6, HQMTeam::Blue, HQMSpawnSpot::Crease, 1),
    ];
    assert_eq!(describe(&ice.actions), describe(&expected));
    assert_eq!(
        ice.values,
        HQMGameValues { time: 2000, goal_message_timer: 0, period: 1, red_score: 4, ..values() }
    );
    assert_eq!(stage(&behaviour), HQMShootoutAttemptState::Attack { progress: 0f32.to_bits() });
}

#[test]
fn attempts_are_announced() {
    let mut behaviour = HQMShootoutBehaviour::new(12, 0u8);
    let mut ice = duel();
    behaviour.start_attempt(&mut ice, 0, HQMTeam::Blue);
    behaviour.start_attempt(&mut ice, 10, HQMTeam::Red);
    behaviour.start_attempt(&mut ice, 11, HQMTeam::Red);
    behaviour.start_attempt(&mut ice, 12, HQMTeam::Blue);
    behaviour.start_attempt(&mut ice, 4000000000, HQMTeam::Red);
    assert_eq!(
        chat(&ice),
        vec![
            "12 attempts left for Blue",
            "2 attempts left for Red",
            "Last attempt for Red",
            "Tie-breaker round for Blue",
            "Tie-breaker round for Red",
        ]
    );
}

#[test]
fn teams_take_turns() {
    let mut behaviour = HQMShootoutBehaviour::new(2, 0u8);
    let mut ice = duel();
    let mut turns = Vec::new();
    for _ in 0..5 {
        behaviour.start_next_attempt(&mut ice);
        turns.push(turn(&behaviour));
    }
    assert_eq!(
        turns,
        vec![
            (0, HQMTeam::Red),
            (0, HQMTeam::Blue),
            (1, HQMTeam::Red),
            (1, HQMTeam::Blue),
            (2, HQMTeam::Red),
        ]
    );
}

#[test]
fn goal_counts_once_and_for_the_attackers() {
    let (mut behaviour, mut ice) = started(5, 0, HQMTeam::Red);
    let entered = HQMSimulationEvent::PuckEnteredNet { team: HQMTeam::Blue };
    tick(&mut behaviour, &mut ice, &[entered, entered, HQMSimulationEvent::PuckPassedGoalLine], None);
    assert_eq!(ice.values.red_score, 1);
    assert_eq!(ice.values.blue_score, 0);
    assert_eq!(ice.values.goal_message_timer, 499);
    assert_eq!(
        stage(&behaviour),
        HQMShootoutAttemptState::Over { timer: 499, goal_scored: true }
    );
    assert_eq!(
        describe(&ice.actions),
        describe(&[HQMServerAction::GoalMessage { team: HQMTeam::Red }])
    );
    tick(&mut behaviour, &mut ice, &[entered], None);
    assert_eq!(ice.values.red_score, 1);
}

#[test]
fn own_net_is_a_miss() {
    let (mut behaviour, mut ice) = started(5, 0, HQMTeam::Blue);
    let entered = HQMSimulationEvent::PuckEnteredNet { team: HQMTeam::Blue };
    tick(&mut behaviour, &mut ice, &[entered], None);
    assert_eq!((ice.values.red_score, ice.values.blue_score), (0, 0));
    assert_eq!(chat(&ice), vec!["Miss"]);
    assert_eq!(ice.values.goal_message_timer, 0);
    assert_eq!(
        stage(&behaviour),
        HQMShootoutAttemptState::Over { timer: OVER_TICKS - 1, goal_scored: false }
    );
}

#[test]
fn goal_line_is_a_miss() {
    let (mut behaviour, mut ice) = started(5, 0, HQMTeam::Red);
    tick(&mut behaviour, &mut ice, &[HQMSimulationEvent::PuckPassedGoalLine], None);
    assert_eq!(chat(&ice), vec!["Miss"]);
}

#[test]
fn goalie_touch_stops_the_attack() {
    let (mut behaviour, mut ice) = started(5, 0, HQMTeam::Red);
    let attacker = HQMSimulationEvent::PuckTouch { touching_team: Some(HQMTeam::Red) };
    let goalie = HQMSimulationEvent::PuckTouch { touching_team: Some(HQMTeam::Blue) };
    let nobody = HQMSimulationEvent::PuckTouch { touching_team: None };
    let reading = reading(0.0, 2.5);
    tick(&mut behaviour, &mut ice, &[attacker, nobody, HQMSimulationEvent::Other], Some(reading));
    assert_eq!(stage(&behaviour), HQMShootoutAttemptState::Attack { progress: reading.progress });
    let stopped = HQMShootoutAttemptState::NoMoreAttack { final_progress: reading.progress };
    tick(&mut behaviour, &mut ice, &[goalie], None);
    assert_eq!(stage(&behaviour), stopped);
    tick(&mut behaviour, &mut ice, &[goalie, nobody], Some(reading));
    assert_eq!(stage(&behaviour), stopped);
    tick(&mut behaviour, &mut ice, &[attacker], None);
    assert_eq!(chat(&ice), vec!["Miss"]);
    assert_eq!(
        stage(&behaviour),
        HQMShootoutAttemptState::Over { timer: 499, goal_scored: false }
    );
}

#[test]
fn frame_of_the_attacked_net_stops_the_attack() {
    let (mut behaviour, mut ice) = started(5, 0, HQMTeam::Red);
    let own = HQMSimulationEvent::PuckTouchedNet { team: HQMTeam::Red };
    let theirs = HQMSimulationEvent::PuckTouchedNet { team: HQMTeam::Blue };
    tick(&mut behaviour, &mut ice, &[own], None);
    assert_eq!(stage(&behaviour), HQMShootoutAttemptState::Attack { progress: 0 });
    tick(&mut behaviour, &mut ice, &[theirs], None);
    assert_eq!(stage(&behaviour), HQMShootoutAttemptState::NoMoreAttack { final_progress: 0 });
    // The puck may still slide in.
    let entered = HQMSimulationEvent::PuckEnteredNet { team: HQMTeam::Blue };
    tick(&mut behaviour, &mut ice, &[entered], None);
    assert_eq!(ice.values.red_score, 1);
}

#[test]
fn coming_back_too_far_is_a_miss() {
    let over = HQMShootoutAttemptState::Over { timer: 500, goal_scored: false };
    let (mut behaviour, mut ice) = started(5, 0, HQMTeam::Red);
    tick(&mut behaviour, &mut ice, &[], Some(reading(0.0, 3.0)));
    let attack = HQMShootoutAttemptState::Attack { progress: 3.0f32.to_bits() };
    assert_eq!(stage(&behaviour), attack);
    for progress in [3.0, 2.9, 2.5, f32::NAN] {
        tick(&mut behaviour, &mut ice, &[], Some(reading(3.0, progress)));
        assert_eq!(stage(&behaviour), attack);
    }
    tick(&mut behaviour, &mut ice, &[], Some(reading(3.0, 2.4)));
    assert_eq!(stage(&behaviour), over);
    assert_eq!(ice.values.time, 1994);
    assert_eq!(chat(&ice), vec!["Miss"]);

    let (mut behaviour, mut ice) = started(5, 0, HQMTeam::Red);
    let goalie = HQMSimulationEvent::PuckTouch { touching_team: Some(HQMTeam::Blue) };
    tick(&mut behaviour, &mut ice, &[goalie], Some(reading(0.0, -4.0)));
    let stopped = HQMShootoutAttemptState::NoMoreAttack { final_progress: 0 };
    assert_eq!(stage(&behaviour), stopped);
    for progress in [7.0, -5.0, f32::NAN] {
        tick(&mut behaviour, &mut ice, &[], Some(reading(0.0, progress)));
        assert_eq!(stage(&behaviour), stopped);
    }
    tick(&mut behaviour, &mut ice, &[], Some(reading(0.0, -5.5)));
    assert_eq!(stage(&behaviour), over);
}

#[test]
fn progress_only_grows() {
    let (mut behaviour, mut ice) = started(5, 0, HQMTeam::Blue);
    let mut stored = 0.0f32;
    for (read, kept) in [(-0.25, 0.0), (0.5, 0.5), (0.25, 0.5), (12.5, 12.5), (12.0, 12.5)] {
        tick(&mut behaviour, &mut ice, &[], Some(reading(stored, read)));
        stored = kept;
        assert_eq!(
            stage(&behaviour),
            HQMShootoutAttemptState::Attack { progress: stored.to_bits() }
        );
    }
}

#[test]
fn attempt_ends_when_time_is_up() {
    let (mut behaviour, mut ice) = started(5, 0, HQMTeam::Red);
    let mut ticks = 0;
    while !matches!(stage(&behaviour), HQMShootoutAttemptState::Over { .. }) {
        tick(&mut behaviour, &mut ice, &[], None);
        assert!(ice.values.time > 0);
        ticks += 1;
    }
    assert_eq!(ticks, 2000);
    assert_eq!(ice.values.time, 1);
    assert_eq!(chat(&ice), vec!["Miss"]);
}

#[test]
fn next_attempt_follows_after_the_timer() {
    let (mut behaviour, mut ice) = started(5, 0, HQMTeam::Red);
    behaviour.end_attempt(&mut ice, true);
    for left in (1..500).rev() {
        tick(&mut behaviour, &mut ice, &[], None);
        assert_eq!(
            stage(&behaviour),
            HQMShootoutAttemptState::Over { timer: left, goal_scored: true }
        );
        assert_eq!(ice.values.goal_message_timer, left);
    }
    tick(&mut behaviour, &mut ice, &[], None);
    assert_eq!(turn(&behaviour), (0, HQMTeam::Blue));
    assert_eq!(stage(&behaviour), HQMShootoutAttemptState::Attack { progress: 0 });
    assert_eq!(ice.values.time, 2000);
    assert_eq!(ice.values.goal_message_timer, 0);
}

#[test]
fn finished_game_makes_way_for_a_new_one() {
    let (mut behaviour, mut ice) = started(1, 0, HQMTeam::Blue);
    behaviour.end_attempt(&mut ice, true);
    assert!(ice.values.game_over);
    ice.actions.clear();
    for _ in 0..500 {
        tick(&mut behaviour, &mut ice, &[], None);
    }
    assert_eq!(describe(&ice.actions), describe(&[HQMServerAction::NewGame]));
    assert_eq!(
        stage(&behaviour),
        HQMShootoutAttemptState::Over { timer: 0, goal_scored: true }
    );
    behaviour.game_started();
    assert_eq!(behaviour.status(), HQMShootoutStatus::WaitingForGame);
}

fn over_after(attempts: u32, round: u32, team: HQMTeam, red: u32, blue: u32, goal: bool) -> bool {
    let (mut behaviour, mut ice) = started(attempts, round, team);
    ice.values.red_score = red;
    ice.values.blue_score = blue;
    behaviour.end_attempt(&mut ice, goal);
    ice.values.game_over
}

#[test]
fn game_is_over_when_the_lead_cannot_be_made_up() {
    // Three attempts each. After Red's second one Blue has two left.
    assert!(!over_after(3, 1, HQMTeam::Red, 1, 0, true));
    assert!(over_after(3, 1, HQMTeam::Red, 2, 0, true));
    // After Blue's second one each team has one left.
    assert!(!over_after(3, 1, HQMTeam::Blue, 1, 0, false));
    assert!(over_after(3, 1, HQMTeam::Blue, 2, 0, false));
    assert!(!over_after(3, 1, HQMTeam::Blue, 0, 0, true));
    assert!(over_after(3, 1, HQMTeam::Blue, 0, 1, true));
    // Red's last attempt against a lead of Blue.
    assert!(over_after(3, 2, HQMTeam::Red, 0, 1, false));
    assert!(!over_after(3, 2, HQMTeam::Red, 0, 1, true));
}

#[test]
fn tie_is_broken_by_full_rounds() {
    assert!(!over_after(1, 0, HQMTeam::Blue, 1, 0, true));
    assert!(!over_after(1, 1, HQMTeam::Red, 1, 1, true));
    assert!(over_after(1, 1, HQMTeam::Blue, 2, 1, false));
    assert!(!over_after(1, 1, HQMTeam::Blue, 2, 1, true));
    assert!(!over_after(1, 1, HQMTeam::Red, 1, 1, false));
    assert!(over_after(1, 1, HQMTeam::Blue, 1, 1, true));
    assert!(!over_after(0, 7, HQMTeam::Blue, 3, 3, false));
}

#[test]
fn storage_limits_are_recognised() {
    let entered = HQMSimulationEvent::PuckEnteredNet { team: HQMTeam::Blue };
    let (behaviour, mut ice) = started(5, 0, HQMTeam::Red);
    ice.values.red_score = u32::MAX;
    assert!(!behaviour.tick_in_range(&ice, &[entered], None));
    assert!(behaviour.tick_in_range(&ice, &[HQMSimulationEvent::PuckPassedGoalLine], None));
    assert!(behaviour.tick_in_range(&ice, &[HQMSimulationEvent::PuckPassedGoalLine, entered], None));

    let (behaviour, mut ice) = started(5, u32::MAX, HQMTeam::Red);
    assert!(behaviour.tick_in_range(&ice, &[], None));
    assert!(!behaviour.tick_in_range(&ice, &[HQMSimulationEvent::PuckPassedGoalLine], None));
    ice.values.time = 1;
    assert!(!behaviour.tick_in_range(&ice, &[], None));

    let (mut behaviour, mut ice) = started(5, u32::MAX - 1, HQMTeam::Blue);
    behaviour.end_attempt(&mut ice, false);
    for _ in 0..500 {
        tick(&mut behaviour, &mut ice, &[], None);
    }
    assert_eq!(turn(&behaviour), (u32::MAX, HQMTeam::Red));
}

#[test]
fn ending_nothing_changes_nothing() {
    let mut behaviour = HQMShootoutBehaviour::new(5, 0u8);
    let mut ice = duel();
    behaviour.end_attempt(&mut ice, true);
    behaviour.update_gameover(&mut ice);
    assert_eq!(ice.values, values());
    assert!(ice.actions.is_empty());
}
