//! What the beginning of an attempt brings: the announcement, the clock, and everyone's place.
use crate::attempt::HQMShootoutAttemptState;
use crate::behaviour::{forced_model, HQMForcedMove, HQMShootoutStatus};
use crate::model::{MatchModel, ShootoutModel, StatusModel};
use crate::server::{
    lemma_place_has_player, lemma_skater_in_place, lemma_skaters_counted, skaters_before,
    skaters_of, ActionModel, GameValuesModel, HQMSpawnSpot, PlayerModel, ServerModel,
};
use crate::team::HQMTeam;
use crate::text::decimal;
use vstd::prelude::*;

verus! {

/// The number of players with a skater in a team.
pub open spec fn team_size(players: Seq<PlayerModel>, team: HQMTeam) -> int {
    skaters_before(players, team, players.len() as int)
}

/// Where, among the actions that the beginning of an attempt adds, a player's skater is put on
/// the ice: after the announcement and the puck, the attackers in the order of the list, then the
/// others in the order of the list.
pub open spec fn turn_of(players: Seq<PlayerModel>, attacking: HQMTeam, k: int) -> int {
    let team = players[k].team->0;
    if team == attacking {
        3 + skaters_before(players, team, k)
    } else {
        3 + team_size(players, attacking) + skaters_before(players, team, k)
    }
}

/// An attempt that begins is an attack without progress, of that team in that round, with the
/// whole time on the clock; scores and everything else of the game stay.
pub proof fn lemma_attempt_begins(m: MatchModel, round: int, team: HQMTeam)
    ensures
        m.start_attempt(round, team).game == (ShootoutModel {
            status: StatusModel::Game {
                state: HQMShootoutAttemptState::Attack { progress: 0 },
                round,
                team,
            },
            ..m.game
        }),
        m.start_attempt(round, team).server == (ServerModel {
            values: GameValuesModel {
                time: 2000,
                goal_message_timer: 0,
                period: 1,
                ..m.server.values
            },
            actions: m.start_attempt(round, team).server.actions,
            ..m.server
        }),
{
}

/// First the attempt is announced: how many the team has left with this one, or that it is its
/// last, or that it is beyond the planned number. Then the ice is cleared of pucks, and one is put
/// on it. What was asked of the server before stays.
pub proof fn lemma_attempt_is_announced(m: MatchModel, round: int, team: HQMTeam)
    ensures
        ({
            let n = m.server.actions.len() as int;
            let actions = m.start_attempt(round, team).server.actions;
            let name = if team == HQMTeam::Red {
                m.server.team_names.red
            } else {
                m.server.team_names.blue
            };
            &&& actions.len() == n + 3 + team_size(m.server.players, HQMTeam::Red) + team_size(
                m.server.players,
                HQMTeam::Blue,
            )
            &&& actions.take(n) == m.server.actions
            &&& actions[n] matches ActionModel::ServerChat { text } && {
                &&& m.game.attempts >= round + 2 ==> text == decimal(
                    (m.game.attempts - round) as nat,
                ) + " attempts left for "@ + name
                &&& m.game.attempts == round + 1 ==> text == "Last attempt for "@ + name
                &&& m.game.attempts <= round ==> text == "Tie-breaker round for "@ + name
            }
            &&& actions[n + 1] == ActionModel::ClearPucks
            &&& actions[n + 2] == ActionModel::CreatePuck
        }),
{
    lemma_skaters_counted(m.server.players, HQMTeam::Red);
    lemma_skaters_counted(m.server.players, HQMTeam::Blue);
    let n = m.server.actions.len() as int;
    assert(m.start_attempt(round, team).server.actions.take(n) =~= m.server.actions);
}

/// Every skater is put in place, in its turn: those of the team whose attempt it is at the middle
/// of the ice, those of the other team in front of their net. The first of a team stands in the
/// middle, the second one step aside, the third and fourth two, and so on.
pub proof fn lemma_every_skater_is_placed(m: MatchModel, round: int, team: HQMTeam, k: int)
    requires
        0 <= k < m.server.players.len(),
        m.server.players[k].team is Some,
    ensures
        ({
            let n = m.server.actions.len() as int;
            let player = m.server.players[k];
            let own = player.team->0;
            let earlier = skaters_before(m.server.players, own, k);
            let i = n + turn_of(m.server.players, team, k);
            &&& n + 3 <= i < m.start_attempt(round, team).server.actions.len()
            &&& m.start_attempt(round, team).server.actions[i] == (ActionModel::SpawnSkater {
                player: player.index,
                team: own,
                spot: if own == team {
                    HQMSpawnSpot::CenterIce
                } else {
                    HQMSpawnSpot::Crease
                },
                side_steps: if earlier == 0 {
                    0
                } else {
                    1 + earlier / 2
                },
            })
        }),
{
    let players = m.server.players;
    let own = players[k].team->0;
    lemma_skaters_counted(players, HQMTeam::Red);
    lemma_skaters_counted(players, HQMTeam::Blue);
    lemma_skater_in_place(players, own, k);
}

/// Nobody else is: each action after the announcement and the puck puts a player in place whose
/// turn it is, so that there is exactly one for each skater.
pub proof fn lemma_only_skaters_are_placed(
    m: MatchModel,
    round: int,
    team: HQMTeam,
    i: int,
) -> (k: int)
    requires
        m.server.actions.len() + 3 <= i < m.start_attempt(round, team).server.actions.len(),
    ensures
        0 <= k < m.server.players.len(),
        m.server.players[k].team is Some,
        i == m.server.actions.len() + turn_of(m.server.players, team, k),
        m.start_attempt(round, team).server.actions[i] matches ActionModel::SpawnSkater {
            player,
            team: own,
            spot,
            ..
        } && {
            &&& player == m.server.players[k].index
            &&& Some(own) == m.server.players[k].team
            &&& spot == HQMSpawnSpot::CenterIce <==> own == team
        },
{
    let players = m.server.players;
    let place = i - m.server.actions.len() - 3;
    lemma_skaters_counted(players, HQMTeam::Red);
    lemma_skaters_counted(players, HQMTeam::Blue);
    let attackers = skaters_of(players, team).len() as int;
    let k = if place < attackers {
        lemma_place_has_player(players, team, place)
    } else {
        let other = if team == HQMTeam::Red {
            HQMTeam::Blue
        } else {
            HQMTeam::Red
        };
        lemma_place_has_player(players, other, place - attackers)
    };
    lemma_every_skater_is_placed(m, round, team, k);
    k
}

/// Two players never share a turn.
pub proof fn lemma_each_skater_once(m: MatchModel, team: HQMTeam, k: int, l: int)
    requires
        0 <= k < l < m.server.players.len(),
        m.server.players[k].team is Some,
        m.server.players[l].team is Some,
    ensures
        turn_of(m.server.players, team, k) != turn_of(m.server.players, team, l),
{
    let players = m.server.players;
    let own = players[k].team->0;
    let others = players[l].team->0;
    lemma_skaters_counted(players, team);
    if own == team {
        lemma_skater_in_place(players, own, k);
    }
    if others == team {
        lemma_skater_in_place(players, others, l);
    }
    lemma_count_grows(players, own, k, l);
    lemma_count_at_least_zero(players, own, k);
    lemma_count_at_least_zero(players, others, l);
}

proof fn lemma_count_at_least_zero(players: Seq<PlayerModel>, team: HQMTeam, n: int)
    requires
        0 <= n <= players.len(),
    ensures
        skaters_before(players, team, n) >= 0,
    decreases n,
{
    if n > 0 {
        lemma_count_at_least_zero(players, team, n - 1);
    }
}

proof fn lemma_count_grows(players: Seq<PlayerModel>, team: HQMTeam, k: int, n: int)
    requires
        0 <= k < n <= players.len(),
        players[k].team == Some(team),
    ensures
        skaters_before(players, team, k) < skaters_before(players, team, n),
    decreases n,
{
    if k < n - 1 {
        lemma_count_grows(players, team, k, n - 1);
    }
}

/// The places do not depend on the round, on the scores or on what went before: two attempts of
/// the same team with the same players on the ice put everyone in the same place.
pub proof fn lemma_places_depend_on_players_and_team(
    m: MatchModel,
    other: MatchModel,
    round: int,
    other_round: int,
    team: HQMTeam,
    i: int,
)
    requires
        m.server.players == other.server.players,
        1 <= i,
        m.server.actions.len() + i < m.start_attempt(round, team).server.actions.len(),
    ensures
        other.server.actions.len() + i < other.start_attempt(
            other_round,
            team,
        ).server.actions.len(),
        m.start_attempt(round, team).server.actions[m.server.actions.len() + i]
            == other.start_attempt(other_round, team).server.actions[other.server.actions.len()
            + i],
{
}

/// The next attempt is the one that its team and round call for: Red's of round zero in a game
/// that waits, Blue's of the same round after Red's, Red's of the next round after Blue's.
pub proof fn lemma_next_attempt_is_due(m: MatchModel)
    ensures
        match m.game.status {
            StatusModel::WaitingForGame => m.start_next_attempt() == m.start_attempt(
                0,
                HQMTeam::Red,
            ),
            StatusModel::Game { round, team, .. } => m.start_next_attempt() == m.start_attempt(
                if team == HQMTeam::Blue {
                    round + 1
                } else {
                    round
                },
                if team == HQMTeam::Blue {
                    HQMTeam::Red
                } else {
                    HQMTeam::Blue
                },
            ),
        },
{
}

/// A new game mode waits, is not paused, knows no cooldown, and lets one player into a team; one
/// for which a new game has begun waits and is otherwise as before.
pub proof fn lemma_at_rest(game: ShootoutModel, attempts: int)
    ensures
        ShootoutModel::initial(attempts) == (ShootoutModel {
            attempts,
            status: StatusModel::WaitingForGame,
            paused: false,
            team_switch_timer: Map::empty(),
            team_max: 1,
        }),
        game.with_status(StatusModel::WaitingForGame) == (ShootoutModel {
            status: StatusModel::WaitingForGame,
            ..game
        }),
{
}

/// A game that began anew waits with its settings, its pause and its cooldowns, is not recorded,
/// and goes on with Red's attempt of round zero, which is.
pub proof fn lemma_begins_anew(game: ShootoutModel, server: ServerModel)
    ensures
        ({
            let anew = game.restarted();
            let begun = MatchModel { game: anew, server }.start_next_attempt().game;
            &&& anew == (ShootoutModel { status: StatusModel::WaitingForGame, ..game })
            &&& !anew.is_recorded()
            &&& begun.is_recorded()
            &&& begun.status matches StatusModel::Game { round, team, .. } && round == 0 && team
                == HQMTeam::Red
            &&& begun.paused == game.paused
            &&& begun.attempts == game.attempts
            &&& begun.team_max == game.team_max
            &&& begun.team_switch_timer == game.team_switch_timer
        }),
{
}

/// A game is recorded from its first attempt on, in whatever stage the attempt is, and not while it
/// waits.
pub proof fn lemma_played_is_recorded(
    game: ShootoutModel,
    state: HQMShootoutAttemptState,
    round: int,
    team: HQMTeam,
)
    ensures
        (ShootoutModel { status: StatusModel::Game { state, round, team }, ..game }).is_recorded(),
        !(ShootoutModel { status: StatusModel::WaitingForGame, ..game }).is_recorded(),
{
}

/// Where the game stands is shown with the same stage, round and team.
pub proof fn lemma_status_is_faithful(
    status: HQMShootoutStatus,
    state: HQMShootoutAttemptState,
    round: u32,
    team: HQMTeam,
)
    ensures
        status@ == StatusModel::WaitingForGame <==> status == HQMShootoutStatus::WaitingForGame,
        status@ == (StatusModel::Game { state, round: round as int, team }) <==> status == (
        HQMShootoutStatus::Game { state, round, team }),
{
}

/// An order is shown with the same player and names.
pub proof fn lemma_order_is_faithful(forced: HQMForcedMove)
    ensures
        forced@.player == forced.player,
        forced@.player_name == forced.player_name@,
        forced@.admin_name == forced.admin_name@,
        forced_model(Some(forced)) == Some(forced@),
        forced_model(None) is None,
{
}

/// What can be stored: a round from zero to the greatest number, and below it once the attempt is
/// over, and scores from zero to the greatest number.
pub proof fn lemma_what_can_be_stored(m: MatchModel)
    ensures
        m.in_range() <==> {
            &&& 0 <= m.server.values.red_score <= 0xFFFF_FFFF
            &&& 0 <= m.server.values.blue_score <= 0xFFFF_FFFF
            &&& match m.game.status {
                StatusModel::WaitingForGame => true,
                StatusModel::Game {
                    state: HQMShootoutAttemptState::Over { .. },
                    round,
                    ..
                } => 0 <= round < 0xFFFF_FFFF,
                StatusModel::Game { round, .. } => 0 <= round <= 0xFFFF_FFFF,
            }
        },
        m.game.in_range() <==> match m.game.status {
            StatusModel::WaitingForGame => true,
            StatusModel::Game {
                state: HQMShootoutAttemptState::Over { .. },
                round,
                ..
            } => 0 <= round < 0xFFFF_FFFF,
            StatusModel::Game { round, .. } => 0 <= round <= 0xFFFF_FFFF,
        },
{
}

} // verus!
