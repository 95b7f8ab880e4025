//! What the commands of administrators do, and that others' do nothing.
use crate::attempt::HQMShootoutAttemptState;
use crate::attempt_laws::{lemma_settled_by_lead, settled_after};
use crate::commands::HQMShootoutCommand;
use crate::model::{ForcedMoveModel, MatchModel, ShootoutModel, StatusModel};
use crate::server::{
    lemma_player_is_the_first, ActionModel, GameValuesModel, PlayerModel, ServerModel,
};
use crate::team::HQMTeam;
use crate::text::decimal;
use vstd::prelude::*;

verus! {

/// A player is the first in the server's list with an index.
pub open spec fn is_player(m: MatchModel, index: usize, player: PlayerModel) -> bool {
    exists|k: int|
        {
            &&& 0 <= k < m.server.players.len()
            &&& #[trigger] m.server.players[k] == player
            &&& player.index == index
            &&& forall|j: int| 0 <= j < k ==> (#[trigger] m.server.players[j]).index != index
        }
}

/// No player has an index.
pub open spec fn is_nobody(m: MatchModel, index: usize) -> bool {
    forall|j: int|
        0 <= j < m.server.players.len() ==> (#[trigger] m.server.players[j]).index != index
}

/// An index finds its player, and with the player name and rank.
pub proof fn lemma_found(m: MatchModel, index: usize, player: PlayerModel)
    requires
        is_player(m, index, player),
    ensures
        m.server.player(index) == Some(player),
        m.is_admin(index) == player.is_admin,
        m.name(index) == player.player_name,
{
    let players = m.server.players;
    lemma_player_is_the_first(players, index);
    let k = choose|k: int|
        {
            &&& 0 <= k < players.len()
            &&& #[trigger] players[k] == player
            &&& player.index == index
            &&& forall|j: int| 0 <= j < k ==> (#[trigger] players[j]).index != index
        };
    assert(players[k].index == index);
    let found = m.server.player(index)->0;
    let l = choose|l: int|
        {
            &&& 0 <= l < players.len()
            &&& #[trigger] players[l] == found
            &&& found.index == index
            &&& forall|j: int| 0 <= j < l ==> (#[trigger] players[j]).index != index
        };
    if k < l {
        assert(players[k].index != index);
    }
    if l < k {
        assert(players[l].index != index);
    }
}

/// An index that nobody has finds nobody.
pub proof fn lemma_not_found(m: MatchModel, index: usize)
    requires
        is_nobody(m, index),
    ensures
        m.server.player(index) is None,
        !m.is_admin(index),
{
    lemma_player_is_the_first(m.server.players, index);
}

/// The same server, with one more thing to do.
pub open spec fn asked(server: ServerModel, action: ActionModel) -> ServerModel {
    ServerModel { actions: server.actions.push(action), ..server }
}

/// The same server, with a message to write.
pub open spec fn told(server: ServerModel, text: Seq<char>) -> ServerModel {
    asked(server, ActionModel::ServerChat { text })
}

/// The game is settled with these scores, where the current attempt counts as taken if it is over:
/// as one of Red, and as one of Blue if Blue takes it.
pub open spec fn settled_now(game: ShootoutModel, red: int, blue: int) -> bool {
    game.status matches StatusModel::Game { state, round, team } && settled_after(
        game.attempts,
        if state is Over {
            round + 1
        } else {
            round
        },
        if state is Over && team == HQMTeam::Blue {
            round + 1
        } else {
            round
        },
        red,
        blue,
    )
}

/// Settling the game anew changes nothing but whether it is over, and nothing at all while it
/// waits.
pub proof fn lemma_game_over_when_settled(m: MatchModel)
    ensures
        m.game.status is WaitingForGame ==> m.update_gameover() == m,
        m.game.status is Game ==> m.update_gameover() == (MatchModel {
            server: ServerModel {
                values: GameValuesModel {
                    game_over: settled_now(
                        m.game,
                        m.server.values.red_score,
                        m.server.values.blue_score,
                    ),
                    ..m.server.values
                },
                ..m.server
            },
            ..m
        }),
{
    if let StatusModel::Game { state, round, team } = m.game.status {
        let red_taken = if state is Over {
            round + 1
        } else {
            round
        };
        let blue_taken = if state is Over && team == HQMTeam::Blue {
            round + 1
        } else {
            round
        };
        let total = if m.game.attempts > red_taken {
            m.game.attempts
        } else {
            red_taken
        };
        lemma_settled_by_lead(
            m.server.values.red_score,
            total - red_taken,
            m.server.values.blue_score,
            total - blue_taken,
        );
    }
}

/// A new game is asked for, and then this is told with the administrator's name; nothing else
/// changes.
pub proof fn lemma_reset(m: MatchModel, index: usize, player: PlayerModel)
    requires
        is_player(m, index, player),
        player.is_admin,
    ensures
        m.reset_game(index) == (MatchModel {
            server: told(
                asked(m.server, ActionModel::NewGame),
                "Game reset by "@ + player.player_name,
            ),
            ..m
        }),
        m.run_command(HQMShootoutCommand::ResetGame, index) == m.reset_game(index),
{
    lemma_found(m, index, player);
}

/// Setting a score sets that team's score and no other, tells so, and settles the game anew if one
/// is being played.
pub proof fn lemma_set_score(
    m: MatchModel,
    team: HQMTeam,
    score: u32,
    index: usize,
    player: PlayerModel,
)
    requires
        is_player(m, index, player),
        player.is_admin,
    ensures
        ({
            let red = if team == HQMTeam::Red {
                score as int
            } else {
                m.server.values.red_score
            };
            let blue = if team == HQMTeam::Blue {
                score as int
            } else {
                m.server.values.blue_score
            };
            let text = if team == HQMTeam::Red {
                "Red score changed by "@
            } else {
                "Blue score changed by "@
            };
            m.set_score(team, score as int, index) == (MatchModel {
                server: told(
                    ServerModel {
                        values: GameValuesModel {
                            red_score: red,
                            blue_score: blue,
                            game_over: if m.game.status is Game {
                                settled_now(m.game, red, blue)
                            } else {
                                m.server.values.game_over
                            },
                            ..m.server.values
                        },
                        ..m.server
                    },
                    text + player.player_name,
                ),
                ..m
            })
        }),
        m.run_command(HQMShootoutCommand::SetScore { team, score }, index) == m.set_score(
            team,
            score as int,
            index,
        ),
{
    lemma_found(m, index, player);
    let start = match team {
        HQMTeam::Red => "Red score changed by "@,
        HQMTeam::Blue => "Blue score changed by "@,
    };
    lemma_game_over_when_settled(
        m.with_values(m.server.values.with_score(team, score as int)).say(
            start + player.player_name,
        ),
    );
}

/// What is told of a change of round, which is counted from one.
pub open spec fn round_changed(
    m: MatchModel,
    team: HQMTeam,
    round: u32,
    player: PlayerModel,
) -> Seq<char> {
    let name = if team == HQMTeam::Red {
        m.server.team_names.red
    } else {
        m.server.team_names.blue
    };
    "Round changed to "@ + decimal(round as nat) + " for "@ + name + " by "@ + player.player_name
}

/// Setting the round makes the current attempt, in the stage it is in, the one of that team in that
/// round, tells so, and settles the game anew. While the game waits it does nothing.
pub proof fn lemma_set_round(
    m: MatchModel,
    team: HQMTeam,
    round: u32,
    index: usize,
    player: PlayerModel,
)
    requires
        is_player(m, index, player),
        player.is_admin,
        round > 0,
    ensures
        m.game.status is WaitingForGame ==> m.set_round(team, round as int, index) == m,
        m.game.status matches StatusModel::Game { state, .. } ==> {
            let game = ShootoutModel {
                status: StatusModel::Game { state, round: round - 1, team },
                ..m.game
            };
            m.set_round(team, round as int, index) == (MatchModel {
                game,
                server: told(
                    ServerModel {
                        values: GameValuesModel {
                            game_over: settled_now(
                                game,
                                m.server.values.red_score,
                                m.server.values.blue_score,
                            ),
                            ..m.server.values
                        },
                        ..m.server
                    },
                    round_changed(m, team, round, player),
                ),
            })
        },
        m.run_command(HQMShootoutCommand::SetRound { team, round }, index) == m.set_round(
            team,
            round as int,
            index,
        ),
{
    lemma_found(m, index, player);
    lemma_game_over_when_settled(
        m.relabelled(round - 1, team).say(m.round_message(team, round as int, index)),
    );
}

/// Taking an attempt again tells of the change of round, ends a pause and settles the game anew;
/// then, unless the game is over, that attempt begins as any other does.
pub proof fn lemma_redo(
    m: MatchModel,
    team: HQMTeam,
    round: u32,
    index: usize,
    player: PlayerModel,
)
    requires
        is_player(m, index, player),
        player.is_admin,
        round > 0,
    ensures
        ({
            let game = ShootoutModel {
                status: match m.game.status {
                    StatusModel::WaitingForGame => StatusModel::WaitingForGame,
                    StatusModel::Game { state, .. } => StatusModel::Game {
                        state,
                        round: round - 1,
                        team,
                    },
                },
                paused: false,
                ..m.game
            };
            let over = if m.game.status is Game {
                settled_now(game, m.server.values.red_score, m.server.values.blue_score)
            } else {
                m.server.values.game_over
            };
            let judged = MatchModel {
                game,
                server: told(
                    ServerModel {
                        values: GameValuesModel { game_over: over, ..m.server.values },
                        ..m.server
                    },
                    round_changed(m, team, round, player),
                ),
            };
            &&& over ==> m.redo_round(team, round as int, index) == judged
            &&& !over ==> m.redo_round(team, round as int, index) == judged.start_attempt(
                round - 1,
                team,
            )
        }),
        m.run_command(HQMShootoutCommand::RedoRound { team, round }, index) == m.redo_round(
            team,
            round as int,
            index,
        ),
{
    lemma_found(m, index, player);
    lemma_game_over_when_settled(
        m.relabelled(round - 1, team).say(m.round_message(team, round as int, index)),
    );
}

/// Pausing sets the pause and tells so, and nothing else.
pub proof fn lemma_pause(m: MatchModel, index: usize, player: PlayerModel)
    requires
        is_player(m, index, player),
        player.is_admin,
    ensures
        m.pause(index) == (MatchModel {
            game: ShootoutModel { paused: true, ..m.game },
            server: told(m.server, "Game paused by "@ + player.player_name),
        }),
        m.run_command(HQMShootoutCommand::Pause, index) == m.pause(index),
{
    lemma_found(m, index, player);
}

/// Resuming ends the pause and tells so; after an attempt at least two hundred ticks are left
/// before the game goes on, and more if more were left. Nothing else changes.
pub proof fn lemma_resume(m: MatchModel, index: usize, player: PlayerModel)
    requires
        is_player(m, index, player),
        player.is_admin,
    ensures
        m.unpause(index).server == told(m.server, "Game resumed by "@ + player.player_name),
        match m.game.status {
            StatusModel::Game {
                state: HQMShootoutAttemptState::Over { timer, goal_scored },
                round,
                team,
            } => {
                &&& m.unpause(index).game == (ShootoutModel {
                    status: m.unpause(index).game.status,
                    paused: false,
                    ..m.game
                })
                &&& m.unpause(index).game.status matches StatusModel::Game {
                    state: HQMShootoutAttemptState::Over {
                        timer: left,
                        goal_scored: still_scored,
                    },
                    round: same_round,
                    team: same_team,
                } && {
                    &&& still_scored == goal_scored
                    &&& same_round == round
                    &&& same_team == team
                    &&& left >= 200
                    &&& left >= timer
                    &&& left == 200 || left == timer
                }
            },
            _ => m.unpause(index).game == (ShootoutModel { paused: false, ..m.game }),
        },
        m.run_command(HQMShootoutCommand::Unpause, index) == m.unpause(index),
{
    lemma_found(m, index, player);
}

/// Forcing a player off the ice changes nothing at first, and is an order to the server exactly if
/// that player is there. Once the server has taken the player off, this is told with both names,
/// and the player has five hundred ticks to wait; if it has not, nothing changes.
pub proof fn lemma_force_off_ice(
    m: MatchModel,
    index: usize,
    admin: PlayerModel,
    target: usize,
    player: PlayerModel,
)
    requires
        is_player(m, index, admin),
        admin.is_admin,
        is_player(m, target, player),
    ensures
        m.force_player_off_ice(index) == m,
        m.run_command(HQMShootoutCommand::ForceOffIce { player: target }, index) == m,
        m.forced_move(index, target) == Some(
            ForcedMoveModel {
                player: target,
                player_name: player.player_name,
                admin_name: admin.player_name,
            },
        ),
        m.command_move(HQMShootoutCommand::ForceOffIce { player: target }, index)
            == m.forced_move(index, target),
{
    lemma_found(m, index, admin);
    lemma_found(m, target, player);
}

/// Nobody can be forced off the ice who is not there.
pub proof fn lemma_force_nobody(
    m: MatchModel,
    index: usize,
    admin: PlayerModel,
    target: usize,
)
    requires
        is_player(m, index, admin),
        admin.is_admin,
        is_nobody(m, target),
    ensures
        m.force_player_off_ice(index) == m,
        m.forced_move(index, target) is None,
        m.command_move(HQMShootoutCommand::ForceOffIce { player: target }, index) is None,
{
    lemma_found(m, index, admin);
    lemma_not_found(m, target);
}

/// What the server's answer to such an order brings.
pub proof fn lemma_forced_off_ice(m: MatchModel, forced: ForcedMoveModel)
    ensures
        m.forced_off_ice(forced, false) == m,
        m.forced_off_ice(forced, true) == (MatchModel {
            game: ShootoutModel {
                team_switch_timer: m.game.team_switch_timer.insert(forced.player, 500),
                ..m.game
            },
            server: told(
                m.server,
                forced.player_name + " forced off ice by "@ + forced.admin_name,
            ),
        }),
{
}

/// Only a command to force a player off the ice is an order to the server.
pub proof fn lemma_no_other_orders(m: MatchModel, command: HQMShootoutCommand, index: usize)
    requires
        !(command is ForceOffIce),
    ensures
        m.command_move(command, index) is None,
{
}

/// There is no round zero: whoever asks for it, nothing happens.
pub proof fn lemma_no_round_zero(m: MatchModel, team: HQMTeam, index: usize)
    ensures
        m.set_round(team, 0, index) == m,
        m.redo_round(team, 0, index) == m,
        m.run_command(HQMShootoutCommand::SetRound { team, round: 0 }, index) == m,
        m.run_command(HQMShootoutCommand::RedoRound { team, round: 0 }, index) == m,
{
}

/// A command that names round zero.
pub open spec fn names_round_zero(command: HQMShootoutCommand) -> bool {
    match command {
        HQMShootoutCommand::SetRound { round, .. } => round == 0,
        HQMShootoutCommand::RedoRound { round, .. } => round == 0,
        _ => false,
    }
}

/// A player who is no administrator is told so, with every command, and nothing else happens; for
/// someone who is not there nothing happens at all.
pub proof fn lemma_others_are_denied(
    m: MatchModel,
    index: usize,
    player: PlayerModel,
    command: HQMShootoutCommand,
    team: HQMTeam,
    number: u32,
)
    requires
        is_player(m, index, player),
        !player.is_admin,
        number > 0,
    ensures
        ({
            let denied = MatchModel {
                server: asked(m.server, ActionModel::AdminDeny { player: index }),
                ..m
            };
            &&& !names_round_zero(command) ==> m.run_command(command, index) == denied
            &&& m.command_move(command, index) is None
            &&& m.reset_game(index) == denied
            &&& m.force_player_off_ice(index) == denied
            &&& m.set_score(team, number as int, index) == denied
            &&& m.set_score(team, 0, index) == denied
            &&& m.set_round(team, number as int, index) == denied
            &&& m.redo_round(team, number as int, index) == denied
            &&& m.pause(index) == denied
            &&& m.unpause(index) == denied
        }),
{
    lemma_found(m, index, player);
}

/// The same for someone who is not there.
pub proof fn lemma_nobody_is_ignored(
    m: MatchModel,
    index: usize,
    command: HQMShootoutCommand,
    team: HQMTeam,
    number: u32,
    target: usize,
)
    requires
        is_nobody(m, index),
    ensures
        m.run_command(command, index) == m,
        m.command_move(command, index) is None,
        m.forced_move(index, target) is None,
        m.reset_game(index) == m,
        m.force_player_off_ice(index) == m,
        m.set_score(team, number as int, index) == m,
        m.set_round(team, number as int, index) == m,
        m.redo_round(team, number as int, index) == m,
        m.pause(index) == m,
        m.unpause(index) == m,
{
    lemma_not_found(m, index);
}

} // verus!
