use hqm_shootout::attempt::{HQMShootoutAttemptState, HQMSimulationEvent};
use hqm_shootout::behaviour::{HQMForcedMove, HQMShootoutBehaviour, HQMShootoutStatus};
use hqm_shootout::commands::{parse_command, parse_team, HQMShootoutCommand};
use hqm_shootout::server::{
    HQMGameValues, HQMPlayerInput, HQMServer, HQMServerAction, HQMServerPlayer, HQMTeamNames,
};
use hqm_shootout::team::HQMTeam;

const ADMIN: usize = 2;
const GUEST: usize = 5;

fn rink() -> HQMServer {
    let input = HQMPlayerInput { join_red: false, join_blue: false, spectate: false };
    let player = |index: usize, name: &str, is_admin: bool, team: Option<HQMTeam>| {
        HQMServerPlayer { index, player_name: name.to_string(), is_admin, team, input }
    };
    HQMServer {
        values: HQMGameValues {
            time: 1000,
            goal_message_timer: 0,
            period: 0,
            red_score: 0,
            blue_score: 0,
            game_over: false,
        },
        players: vec![
            player(ADMIN, "Ada", true, Some(HQMTeam::Red)),
            player(GUEST, "Gus", false, Some(HQMTeam::Blue)),
        ],
        team_names: HQMTeamNames { red: "Red".to_string(), blue: "Blue".to_string() },
        actions: Vec::new(),
    }
}

fn mode(attempts: u32) -> HQMShootoutBehaviour<u8> {
    HQMShootoutBehaviour::new(attempts, 0u8)
}

fn in_game(attempts: u32) -> (HQMShootoutBehaviour<u8>, HQMServer) {
    let mut behaviour = mode(attempts);
    let mut server = rink();
    behaviour.start_attempt(&mut server, 0, HQMTeam::Red);
    server.actions.clear();
    (behaviour, server)
}

fn said(server: &HQMServer) -> Vec<String> {
    let mut lines = Vec::new();
    for action in server.actions.iter() {
        if let HQMServerAction::ServerChat { text } = action {
            lines.push(text.clone());
        }
    }
    lines
}

fn command(
    behaviour: &mut HQMShootoutBehaviour<u8>,
    server: &mut HQMServer,
    cmd: &str,
    arg: &str,
    player: usize,
) -> Option<HQMForcedMove> {
    behaviour.handle_command(server, cmd, arg, arg.parse::<usize>().ok(), player)
}

#[test]
fn words_for_teams() {
    assert_eq!(parse_team("r"), Some(HQMTeam::Red));
    assert_eq!(parse_team("R"), Some(HQMTeam::Red));
    assert_eq!(parse_team("b"), Some(HQMTeam::Blue));
    assert_eq!(parse_team("B"), Some(HQMTeam::Blue));
    assert_eq!(parse_team("red"), None);
    assert_eq!(parse_team(""), None);
}

#[test]
fn commands_are_read() {
    let red = HQMTeam::Red;
    let blue = HQMTeam::Blue;
    assert_eq!(parse_command("reset", "", None), Some(HQMShootoutCommand::ResetGame));
    assert_eq!(parse_command("resetgame", "x", None), Some(HQMShootoutCommand::ResetGame));
    assert_eq!(
        parse_command("fs", "7", Some(7)),
        Some(HQMShootoutCommand::ForceOffIce { player: 7 })
    );
    assert_eq!(parse_command("fs", "x", None), None);
    assert_eq!(
        parse_command("set", "redscore 4", None),
        Some(HQMShootoutCommand::SetScore { team: red, score: 4 })
    );
    assert_eq!(
        parse_command("set", "bluescore +12 more words", None),
        Some(HQMShootoutCommand::SetScore { team: blue, score: 12 })
    );
    assert_eq!(parse_command("set", "redscore", None), None);
    assert_eq!(parse_command("set", "redscore  4", None), None);
    assert_eq!(parse_command("set", "redscore -4", None), None);
    assert_eq!(parse_command("set", "bluescore 4294967296", None), None);
    assert_eq!(parse_command("set", "greenscore 4", None), None);
    assert_eq!(parse_command("set", "", None), None);
    assert_eq!(
        parse_command("set", "round b 3", None),
        Some(HQMShootoutCommand::SetRound { team: blue, round: 3 })
    );
    assert_eq!(parse_command("set", "round 3", None), None);
    assert_eq!(parse_command("set", "round x 3", None), None);
    assert_eq!(parse_command("set", "round r three", None), None);
    assert_eq!(
        parse_command("redo", "R 2", None),
        Some(HQMShootoutCommand::RedoRound { team: red, round: 2 })
    );
    assert_eq!(parse_command("redo", "R", None), None);
    assert_eq!(parse_command("redo", "2 R", None), None);
    assert_eq!(parse_command("pause", "", None), Some(HQMShootoutCommand::Pause));
    assert_eq!(parse_command("pausegame", "", None), Some(HQMShootoutCommand::Pause));
    assert_eq!(parse_command("unpause", "", None), Some(HQMShootoutCommand::Unpause));
    assert_eq!(parse_command("unpausegame", "", None), Some(HQMShootoutCommand::Unpause));
    assert_eq!(parse_command("Reset", "", None), None);
    assert_eq!(parse_command("", "", None), None);
}

#[test]
fn only_administrators_are_obeyed() {
    let orders = [
        ("reset", ""),
        ("fs", "2"),
        ("set", "redscore 4"),
        ("set", "round b 3"),
        ("redo", "b 3"),
        ("pause", ""),
        ("unpause", ""),
    ];
    for (cmd, arg) in orders {
        let (mut behaviour, mut server) = in_game(5);
        let values = server.values;
        let status = behaviour.status();
        assert!(command(&mut behaviour, &mut server, cmd, arg, GUEST).is_none());
        assert_eq!(server.values, values);
        assert_eq!(behaviour.status(), status);
        assert_eq!(server.actions.len(), 1);
        assert!(matches!(server.actions[0], HQMServerAction::AdminDeny { player: GUEST }));

        server.actions.clear();
        assert!(command(&mut behaviour, &mut server, cmd, arg, 99).is_none());
        assert_eq!(server.values, values);
        assert_eq!(behaviour.status(), status);
        assert!(server.actions.is_empty());
    }
}

#[test]
fn round_zero_is_passed_over() {
    let (mut behaviour, mut server) = in_game(5);
    let status = behaviour.status();
    command(&mut behaviour, &mut server, "set", "round b 0", GUEST);
    command(&mut behaviour, &mut server, "redo", "b 0", ADMIN);
    assert!(server.actions.is_empty());
    assert_eq!(behaviour.status(), status);
}

#[test]
fn unknown_words_are_passed_over() {
    let (mut behaviour, mut server) = in_game(5);
    assert!(command(&mut behaviour, &mut server, "dance", "now", ADMIN).is_none());
    assert!(server.actions.is_empty());
}

#[test]
fn reset_asks_for_a_new_game() {
    let (mut behaviour, mut server) = in_game(5);
    command(&mut behaviour, &mut server, "reset", "", ADMIN);
    assert_eq!(server.actions.len(), 2);
    assert!(matches!(server.actions[0], HQMServerAction::NewGame));
    assert_eq!(said(&server), vec!["Game reset by Ada"]);
}

#[test]
fn scores_are_set() {
    let (mut behaviour, mut server) = in_game(3);
    command(&mut behaviour, &mut server, "set", "redscore 4", ADMIN);
    assert_eq!(server.values.red_score, 4);
    assert_eq!(server.values.blue_score, 0);
    assert!(server.values.game_over);
    command(&mut behaviour, &mut server, "set", "bluescore 1", ADMIN);
    assert_eq!(server.values.blue_score, 1);
    assert!(!server.values.game_over);
    assert_eq!(said(&server), vec!["Red score changed by Ada", "Blue score changed by Ada"]);

    let mut behaviour = mode(3);
    let mut server = rink();
    command(&mut behaviour, &mut server, "set", "redscore 9", ADMIN);
    assert_eq!(server.values.red_score, 9);
    assert!(!server.values.game_over);
}

#[test]
fn red_is_counted_late_while_blue_shoots() {
    // With Blue's only attempt under way, Red's attempt of the round is not counted yet.
    let mut behaviour = mode(1);
    let mut server = rink();
    behaviour.start_attempt(&mut server, 0, HQMTeam::Blue);
    command(&mut behaviour, &mut server, "set", "bluescore 1", ADMIN);
    assert!(!server.values.game_over);
    command(&mut behaviour, &mut server, "set", "bluescore 2", ADMIN);
    assert!(server.values.game_over);
}

#[test]
fn round_is_set() {
    let (mut behaviour, mut server) = in_game(5);
    command(&mut behaviour, &mut server, "set", "round b 30", ADMIN);
    assert_eq!(
        behaviour.status(),
        HQMShootoutStatus::Game {
            state: HQMShootoutAttemptState::Attack { progress: 0 },
            round: 29,
            team: HQMTeam::Blue,
        }
    );
    assert_eq!(said(&server), vec!["Round changed to 30 for Blue by Ada"]);

    let mut behaviour = mode(5);
    let mut server = rink();
    command(&mut behaviour, &mut server, "set", "round b 30", ADMIN);
    assert_eq!(behaviour.status(), HQMShootoutStatus::WaitingForGame);
    assert!(server.actions.is_empty());
}

#[test]
fn attempt_is_taken_again() {
    let (mut behaviour, mut server) = in_game(5);
    behaviour.end_attempt(&mut server, false);
    command(&mut behaviour, &mut server, "pause", "", ADMIN);
    server.actions.clear();
    command(&mut behaviour, &mut server, "redo", "r 1", ADMIN);
    assert_eq!(
        behaviour.status(),
        HQMShootoutStatus::Game {
            state: HQMShootoutAttemptState::Attack { progress: 0 },
            round: 0,
            team: HQMTeam::Red,
        }
    );
    assert_eq!(
        said(&server),
        vec!["Round changed to 1 for Red by Ada", "5 attempts left for Red"]
    );
    assert_eq!(server.values.time, 2000);
    behaviour.after_tick(&mut server, &[], None);
    assert_eq!(server.values.time, 1999);
}

#[test]
fn no_attempt_is_taken_again_in_a_decided_game() {
    let (mut behaviour, mut server) = in_game(2);
    server.values.red_score = 9;
    command(&mut behaviour, &mut server, "redo", "b 1", ADMIN);
    assert!(server.values.game_over);
    assert_eq!(said(&server), vec!["Round changed to 1 for Blue by Ada"]);
    assert_eq!(server.values.time, 2000);
    assert_eq!(server.actions.len(), 1);
}

#[test]
fn redo_starts_a_waiting_game() {
    let mut behaviour = mode(5);
    let mut server = rink();
    command(&mut behaviour, &mut server, "redo", "B 2", ADMIN);
    assert_eq!(
        behaviour.status(),
        HQMShootoutStatus::Game {
            state: HQMShootoutAttemptState::Attack { progress: 0 },
            round: 1,
            team: HQMTeam::Blue,
        }
    );
    assert_eq!(
        said(&server),
        vec!["Round changed to 2 for Blue by Ada", "4 attempts left for Blue"]
    );
}

#[test]
fn pause_stops_the_clock_but_not_the_puck() {
    let (mut behaviour, mut server) = in_game(5);
    command(&mut behaviour, &mut server, "pause", "", ADMIN);
    behaviour.after_tick(&mut server, &[], None);
    assert_eq!(server.values.time, 2000);
    behaviour.after_tick(&mut server, &[HQMSimulationEvent::PuckPassedGoalLine], None);
    behaviour.after_tick(&mut server, &[], None);
    let over = |timer: u32| HQMShootoutStatus::Game {
        state: HQMShootoutAttemptState::Over { timer, goal_scored: false },
        round: 0,
        team: HQMTeam::Red,
    };
    assert_eq!(behaviour.status(), over(500));
    command(&mut behaviour, &mut server, "unpause", "", ADMIN);
    assert_eq!(behaviour.status(), over(500));
    assert_eq!(said(&server), vec!["Game paused by Ada", "Miss", "Game resumed by Ada"]);
    for _ in 0..400 {
        behaviour.after_tick(&mut server, &[], None);
    }
    assert_eq!(behaviour.status(), over(100));
    command(&mut behaviour, &mut server, "pause", "", ADMIN);
    command(&mut behaviour, &mut server, "unpausegame", "", ADMIN);
    assert_eq!(behaviour.status(), over(200));
}

#[test]
fn pause_holds_up_a_waiting_game() {
    let mut behaviour = mode(5);
    let mut server = rink();
    server.values.time = 1;
    command(&mut behaviour, &mut server, "pausegame", "", ADMIN);
    behaviour.after_tick(&mut server, &[], None);
    assert_eq!(server.values.time, 1000);
    assert_eq!(behaviour.status(), HQMShootoutStatus::WaitingForGame);
}

#[test]
fn player_is_forced_off_the_ice() {
    let (mut behaviour, mut server) = in_game(5);
    let forced = match command(&mut behaviour, &mut server, "fs", "5", ADMIN) {
        Some(forced) => forced,
        None => panic!("no order"),
    };
    assert!(server.actions.is_empty());
    assert_eq!(forced.player, GUEST);
    assert_eq!(forced.player_name, "Gus");
    assert_eq!(forced.admin_name, "Ada");
    behaviour.forced_off_ice(&mut server, forced, true);
    assert_eq!(said(&server), vec!["Gus forced off ice by Ada"]);

    // The player has to wait now.
    server.players[1].team = None;
    server.players[1].input.join_blue = true;
    let requests = behaviour.before_tick(&mut server);
    assert!(requests.blue.is_empty());
}

#[test]
fn nobody_is_forced_off_in_vain() {
    let (mut behaviour, mut server) = in_game(5);
    assert!(command(&mut behaviour, &mut server, "fs", "6", ADMIN).is_none());
    assert!(command(&mut behaviour, &mut server, "fs", "Gus", ADMIN).is_none());
    assert!(server.actions.is_empty());
    let forced = HQMForcedMove {
        player: GUEST,
        player_name: "Gus".to_string(),
        admin_name: "Ada".to_string(),
    };
    behaviour.forced_off_ice(&mut server, forced, false);
    assert!(server.actions.is_empty());
    server.players[1].team = None;
    server.players[1].input.join_blue = true;
    let requests = behaviour.before_tick(&mut server);
    assert_eq!(requests.blue, vec![GUEST]);
}
