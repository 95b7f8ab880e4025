use hqm_shootout::behaviour::HQMShootoutBehaviour;
use hqm_shootout::join::{HQMJoinQueue, HQMJoinRequest, HQMJoinRequests};
use hqm_shootout::server::{
    HQMGameValues, HQMPlayerInput, HQMServer, HQMServerAction, HQMServerPlayer, HQMTeamNames,
};
use hqm_shootout::team::HQMTeam;

const NOTHING: HQMPlayerInput =
    HQMPlayerInput { join_red: false, join_blue: false, spectate: false };
const RED: HQMPlayerInput = HQMPlayerInput { join_red: true, join_blue: false, spectate: false };
const BLUE: HQMPlayerInput = HQMPlayerInput { join_red: false, join_blue: true, spectate: false };
const BOTH: HQMPlayerInput = HQMPlayerInput { join_red: true, join_blue: true, spectate: false };
const LEAVE: HQMPlayerInput = HQMPlayerInput { join_red: false, join_blue: false, spectate: true };

fn hall(wishes: &[(Option<HQMTeam>, HQMPlayerInput)]) -> HQMServer {
    let mut players = Vec::new();
    for (place, (team, input)) in wishes.iter().enumerate() {
        players.push(HQMServerPlayer {
            index: 10 + place,
            player_name: format!("p{}", place),
            is_admin: false,
            team: *team,
            input: *input,
        });
    }
    HQMServer {
        values: HQMGameValues {
            time: 1000,
            goal_message_timer: 0,
            period: 0,
            red_score: 0,
            blue_score: 0,
            game_over: false,
        },
        players,
        team_names: HQMTeamNames { red: "Red".to_string(), blue: "Blue".to_string() },
        actions: Vec::new(),
    }
}

fn moved(server: &HQMServer) -> Vec<usize> {
    let mut list = Vec::new();
    for action in server.actions.iter() {
        match action {
            HQMServerAction::MoveToSpectator { player } => list.push(*player),
            _ => panic!("unexpected action"),
        }
    }
    list
}

#[test]
fn wishes_are_sorted() {
    let mut behaviour = HQMShootoutBehaviour::new(5, 0u8);
    let mut server = hall(&[
        (None, BLUE),
        (Some(HQMTeam::Red), LEAVE),
        (None, RED),
        (None, NOTHING),
        (None, BOTH),
        (None, LEAVE),
        (Some(HQMTeam::Blue), RED),
        (Some(HQMTeam::Blue), LEAVE),
    ]);
    let requests = behaviour.before_tick(&mut server);
    assert_eq!(requests.red, vec![12, 14]);
    assert_eq!(requests.blue, vec![10]);
    assert_eq!(moved(&server), vec![11, 17]);
}

#[test]
fn leaving_costs_a_cooldown() {
    let mut behaviour = HQMShootoutBehaviour::new(5, 0u8);
    let mut server = hall(&[(Some(HQMTeam::Red), LEAVE)]);
    behaviour.before_tick(&mut server);
    assert_eq!(moved(&server), vec![10]);
    let mut server = hall(&[(None, RED)]);
    for _ in 1..500 {
        let requests = behaviour.before_tick(&mut server);
        assert!(requests.red.is_empty());
    }
    let requests = behaviour.before_tick(&mut server);
    assert_eq!(requests.red, vec![10]);
    let requests = behaviour.before_tick(&mut server);
    assert_eq!(requests.red, vec![10]);
}

#[test]
fn leaving_the_server_ends_the_cooldown() {
    let mut behaviour = HQMShootoutBehaviour::new(5, 0u8);
    let mut server = hall(&[(Some(HQMTeam::Red), LEAVE)]);
    behaviour.before_tick(&mut server);
    behaviour.before_player_exit(10);
    let mut server = hall(&[(None, BLUE)]);
    let requests = behaviour.before_tick(&mut server);
    assert_eq!(requests.blue, vec![10]);
}

#[test]
fn absent_players_keep_their_cooldown() {
    let mut behaviour = HQMShootoutBehaviour::new(5, 0u8);
    let mut server = hall(&[(Some(HQMTeam::Red), LEAVE)]);
    behaviour.before_tick(&mut server);
    let mut empty = hall(&[]);
    for _ in 0..600 {
        behaviour.before_tick(&mut empty);
    }
    let mut server = hall(&[(None, RED)]);
    assert!(behaviour.before_tick(&mut server).red.is_empty());
}

fn request(player: usize, team: HQMTeam) -> Option<HQMJoinRequest> {
    Some(HQMJoinRequest { player, team })
}

#[test]
fn teams_have_one_place() {
    let behaviour = HQMShootoutBehaviour::new(5, 0u8);
    let server = hall(&[]);
    let requests = HQMJoinRequests { red: vec![1, 2, 3], blue: vec![4, 5] };
    let mut queue = behaviour.join_queue(&server, requests);
    assert_eq!(queue.next_request(), request(1, HQMTeam::Red));
    queue.report(false);
    assert_eq!(queue.next_request(), request(2, HQMTeam::Red));
    queue.report(true);
    assert_eq!(queue.next_request(), request(4, HQMTeam::Blue));
    queue.report(true);
    assert_eq!(queue.next_request(), None);
    queue.report(true);
    assert_eq!(queue.next_request(), None);
}

#[test]
fn full_teams_take_nobody() {
    let behaviour = HQMShootoutBehaviour::new(5, 0u8);
    let server = hall(&[(Some(HQMTeam::Red), NOTHING), (Some(HQMTeam::Red), NOTHING)]);
    let requests = HQMJoinRequests { red: vec![1], blue: vec![2] };
    let mut queue = behaviour.join_queue(&server, requests);
    assert_eq!(queue.next_request(), request(2, HQMTeam::Blue));
    queue.report(false);
    assert_eq!(queue.next_request(), None);
}

#[test]
fn larger_teams_fill_up() {
    let server = hall(&[(Some(HQMTeam::Blue), NOTHING)]);
    let requests = HQMJoinRequests { red: vec![1, 2, 3], blue: vec![4, 5] };
    let mut queue = HQMJoinQueue::new(&server, requests, 2);
    let mut joined = Vec::new();
    while let Some(next) = queue.next_request() {
        joined.push(next.player);
        queue.report(true);
    }
    assert_eq!(joined, vec![1, 2, 4]);
}

#[test]
fn players_are_found() {
    let mut server = hall(&[(Some(HQMTeam::Red), NOTHING), (None, NOTHING)]);
    assert_eq!(server.player(11).map(|p| p.player_name.clone()), Some("p1".to_string()));
    assert!(server.player(12).is_none());
    assert_eq!(server.team_skaters(HQMTeam::Red), vec![10]);
    assert_eq!(server.count_skaters(HQMTeam::Blue), 0);
    assert!(server.authorise(10).is_none());
    assert_eq!(server.actions.len(), 1);
    server.players[0].is_admin = true;
    assert_eq!(server.authorise(10), Some("p0".to_string()));
    assert_eq!(server.actions.len(), 1);
}
