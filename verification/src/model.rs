//! The shootout as a mathematical state machine.
//!
//! [`MatchModel`] pairs the state of the game mode with the server; each operation of
//! the game mode is a function from one such pair to the next. Rounds and scores are
//! integers here, so that an operation is defined on every state; where the result
//! can be stored is said by `in_range`.
use crate::attempt::{
    HQMClockOutcome, HQMEventOutcome, HQMPuckReading, HQMShootoutAttemptState, HQMSimulationEvent,
    OVER_TICKS,
};
use crate::commands::HQMShootoutCommand;
use crate::server::{
    skaters_of, ActionModel, GameValuesModel, HQMSpawnSpot, PlayerModel, ServerModel,
};
use crate::single::ZERO;
use crate::team::HQMTeam;
use crate::text::decimal;
use vstd::prelude::*;

verus! {

/// Ticks on the clock at the start of an attempt.
pub const ATTEMPT_TICKS: u32 = 2000;

/// Ticks on the clock while a game waits for players.
pub const WAITING_TICKS: u32 = 1000;

/// Ticks for which a player who has left the ice must wait before joining a team.
pub const TEAM_SWITCH_TICKS: u32 = 500;

/// The least number of ticks between an attempt and what follows it, counted from
/// the moment a pause ends.
pub const RESUME_TICKS: u32 = 200;

/// Where the game stands.
pub enum StatusModel {
    WaitingForGame,
    /// `team` takes its attempt of round `round`, counted from zero.
    Game { state: HQMShootoutAttemptState, round: int, team: HQMTeam },
}

impl StatusModel {
    /// The round can be stored, and so can the number of attempts that are over.
    pub open spec fn in_range(self) -> bool {
        self matches StatusModel::Game { state, round, .. } ==> {
            &&& 0 <= round
            &&& round + (if state.is_over() {
                1int
            } else {
                0int
            }) <= u32::MAX
        }
    }

    /// The attempts that a team has behind it: all of its earlier rounds, and the
    /// current attempt once it is over, which counts for both teams when Blue takes
    /// it and for Red alone when Red does.
    pub open spec fn attempts_taken(self, of: HQMTeam) -> int {
        match self {
            StatusModel::WaitingForGame => 0,
            StatusModel::Game { state, round, team } => if state.is_over() && (of == HQMTeam::Red
                || team == HQMTeam::Blue) {
                round + 1
            } else {
                round
            },
        }
    }
}

/// The state of the game mode.
#[verifier::ext_equal]
pub struct ShootoutModel {
    /// Attempts of each team in a game that is not tied after them.
    pub attempts: int,
    pub status: StatusModel,
    pub paused: bool,
    /// For some players, the ticks before they may join a team again.
    pub team_switch_timer: Map<usize, u32>,
    /// The largest number of players that joining brings a team to.
    pub team_max: int,
}

impl ShootoutModel {
    /// A game mode at rest.
    pub open spec fn initial(attempts: int) -> ShootoutModel {
        ShootoutModel {
            attempts,
            status: StatusModel::WaitingForGame,
            paused: false,
            team_switch_timer: Map::empty(),
            team_max: 1,
        }
    }

    /// The state can be stored.
    pub open spec fn in_range(self) -> bool {
        self.status.in_range()
    }

    /// The state with another status.
    pub open spec fn with_status(self, status: StatusModel) -> ShootoutModel {
        ShootoutModel { status, ..self }
    }

    /// The state with the current attempt, if there is one, in another stage.
    pub open spec fn with_state(self, state: HQMShootoutAttemptState) -> ShootoutModel {
        match self.status {
            StatusModel::WaitingForGame => self,
            StatusModel::Game { round, team, .. } => self.with_status(
                StatusModel::Game { state, round, team },
            ),
        }
    }

    /// The state once a new game has begun on the server: it waits for players again.
    pub open spec fn restarted(self) -> ShootoutModel {
        self.with_status(StatusModel::WaitingForGame)
    }

    /// The state once a player has left the server: nothing is kept of the player.
    pub open spec fn without_player(self, index: usize) -> ShootoutModel {
        ShootoutModel { team_switch_timer: self.team_switch_timer.remove(index), ..self }
    }

    /// A game is being played, which is worth recording.
    pub open spec fn is_recorded(self) -> bool {
        self.status is Game
    }

    /// The attempts that both teams will have had if the game is not decided before: one
    /// more than planned for each tie-breaker round.
    pub open spec fn total_attempts(self) -> int {
        let taken = self.status.attempts_taken(HQMTeam::Red);
        if self.attempts > taken {
            self.attempts
        } else {
            taken
        }
    }

    /// The attempts that a team still has.
    pub open spec fn remaining(self, team: HQMTeam) -> int {
        self.total_attempts() - self.status.attempts_taken(team)
    }

    /// One team leads by more goals than the other has attempts left.
    pub open spec fn decided(self, red_score: int, blue_score: int) -> bool {
        ||| red_score > blue_score + self.remaining(HQMTeam::Blue)
        ||| blue_score > red_score + self.remaining(HQMTeam::Red)
    }
}

/// What is announced when a team's attempt of a round begins.
pub open spec fn attempt_message(attempts: int, round: int, name: Seq<char>) -> Seq<char> {
    if attempts - round >= 2 {
        decimal((attempts - round) as nat) + " attempts left for "@ + name
    } else if attempts - round == 1 {
        "Last attempt for "@ + name
    } else {
        "Tie-breaker round for "@ + name
    }
}

/// How many steps the player at a place in its team's list stands aside.
pub open spec fn side_steps(place: int) -> int {
    if place == 0 {
        0
    } else {
        place / 2 + 1
    }
}

/// Puts the players of a list on the ice, in the order of the list.
pub open spec fn spawn_actions(
    players: Seq<usize>,
    team: HQMTeam,
    spot: HQMSpawnSpot,
) -> Seq<ActionModel> {
    Seq::new(
        players.len(),
        |place: int|
            ActionModel::SpawnSkater {
                player: players[place],
                team,
                spot,
                side_steps: side_steps(place),
            },
    )
}

/// One tick less, but not below zero.
pub open spec fn ticked(ticks: u32) -> u32 {
    if ticks == 0 {
        0
    } else {
        (ticks - 1) as u32
    }
}

/// The outcome of one pass over the players: cooldowns, and who wants where.
#[verifier::ext_equal]
pub struct RosterModel {
    pub team_switch_timer: Map<usize, u32>,
    pub spectating: Seq<usize>,
    pub joining_red: Seq<usize>,
    pub joining_blue: Seq<usize>,
}

impl RosterModel {
    /// Before the first player.
    pub open spec fn start(team_switch_timer: Map<usize, u32>) -> RosterModel {
        RosterModel {
            team_switch_timer,
            spectating: Seq::empty(),
            joining_red: Seq::empty(),
            joining_blue: Seq::empty(),
        }
    }

    /// The cooldowns after the one of this player went down by a tick.
    pub open spec fn cooled(self, index: usize) -> Map<usize, u32> {
        if self.team_switch_timer.contains_key(index) {
            self.team_switch_timer.insert(index, ticked(self.team_switch_timer[index]))
        } else {
            self.team_switch_timer
        }
    }

    /// One more player. A spectator whose cooldown is over may join, and Red comes
    /// before Blue where both are asked for; a skater may leave unless it asks to join.
    pub open spec fn visit(self, player: PlayerModel) -> RosterModel {
        let timers = self.cooled(player.index);
        let next = RosterModel { team_switch_timer: timers, ..self };
        if player.input.join_red || player.input.join_blue {
            if player.team is None && (timers.contains_key(player.index) ==> timers[player.index]
                == 0) {
                if player.input.join_red {
                    RosterModel { joining_red: self.joining_red.push(player.index), ..next }
                } else {
                    RosterModel { joining_blue: self.joining_blue.push(player.index), ..next }
                }
            } else {
                next
            }
        } else if player.input.spectate && player.team is Some {
            RosterModel {
                team_switch_timer: timers.insert(player.index, TEAM_SWITCH_TICKS),
                spectating: self.spectating.push(player.index),
                ..next
            }
        } else {
            next
        }
    }

    /// All players of a list, in order.
    pub open spec fn visit_all(self, players: Seq<PlayerModel>) -> RosterModel
        decreases players.len(),
    {
        if players.len() == 0 {
            self
        } else {
            self.visit_all(players.drop_last()).visit(players.last())
        }
    }
}

/// Takes the players of a list off the ice.
pub open spec fn spectate_actions(players: Seq<usize>) -> Seq<ActionModel> {
    players.map_values(|player: usize| ActionModel::MoveToSpectator { player })
}

/// An order of an administrator to take a player off the ice.
pub struct ForcedMoveModel {
    pub player: usize,
    pub player_name: Seq<char>,
    pub admin_name: Seq<char>,
}

/// The game mode and the server.
#[verifier::ext_equal]
pub struct MatchModel {
    pub game: ShootoutModel,
    pub server: ServerModel,
}

/// A game mode together with a server.
pub open spec fn at(game: ShootoutModel, server: ServerModel) -> MatchModel {
    MatchModel { game, server }
}

impl MatchModel {
    /// Round and scores can be stored.
    pub open spec fn in_range(self) -> bool {
        &&& self.game.in_range()
        &&& self.server.values.in_range()
    }

    /// An attempt is under way or just over.
    pub open spec fn in_game(self) -> bool {
        self.game.status is Game
    }

    /// The current attempt is over.
    pub open spec fn attempt_over(self) -> bool {
        self.game.status matches StatusModel::Game { state, .. } && state.is_over()
    }

    /// The pair with other game values.
    pub open spec fn with_values(self, values: GameValuesModel) -> MatchModel {
        MatchModel { server: self.server.with_values(values), ..self }
    }

    /// The pair with one more thing for the server to do.
    pub open spec fn act(self, action: ActionModel) -> MatchModel {
        MatchModel { server: self.server.act(action), ..self }
    }

    /// The pair with a chat message to write.
    pub open spec fn say(self, text: Seq<char>) -> MatchModel {
        MatchModel { server: self.server.say(text), ..self }
    }

    /// The pair with the current attempt, if there is one, in another stage.
    pub open spec fn with_state(self, state: HQMShootoutAttemptState) -> MatchModel {
        MatchModel { game: self.game.with_state(state), ..self }
    }

    /// An attempt of `team` in `round` begins: it is announced, the clock is set, and
    /// puck, attackers and defenders are put in place.
    pub open spec fn start_attempt(self, round: int, team: HQMTeam) -> MatchModel {
        MatchModel {
            game: self.game.with_status(
                StatusModel::Game {
                    state: HQMShootoutAttemptState::Attack { progress: ZERO },
                    round,
                    team,
                },
            ),
            server: self.server.with_values(
                GameValuesModel {
                    time: ATTEMPT_TICKS,
                    goal_message_timer: 0,
                    period: 1,
                    ..self.server.values
                },
            ).say(
                attempt_message(self.game.attempts, round, self.server.team_names.of(team)),
            ).act(ActionModel::ClearPucks).act(ActionModel::CreatePuck).act_all(
                spawn_actions(
                    skaters_of(self.server.players, team),
                    team,
                    HQMSpawnSpot::CenterIce,
                ),
            ).act_all(
                spawn_actions(
                    skaters_of(self.server.players, team.other()),
                    team.other(),
                    HQMSpawnSpot::Crease,
                ),
            ),
        }
    }

    /// The next attempt begins: Red's first, then Blue's of the same round after Red's,
    /// and Red's of the next round after Blue's.
    pub open spec fn start_next_attempt(self) -> MatchModel {
        match self.game.status {
            StatusModel::WaitingForGame => self.start_attempt(0, HQMTeam::Red),
            StatusModel::Game { round, team: HQMTeam::Red, .. } => self.start_attempt(
                round,
                HQMTeam::Blue,
            ),
            StatusModel::Game { round, team: HQMTeam::Blue, .. } => self.start_attempt(
                round + 1,
                HQMTeam::Red,
            ),
        }
    }

    /// Whether the game is over is settled anew, once one has begun.
    pub open spec fn update_gameover(self) -> MatchModel {
        if self.in_game() {
            self.with_values(
                GameValuesModel {
                    game_over: self.game.decided(
                        self.server.values.red_score,
                        self.server.values.blue_score,
                    ),
                    ..self.server.values
                },
            )
        } else {
            self
        }
    }

    /// The current attempt, if there is one, ends.
    pub open spec fn end_attempt(self, goal_scored: bool) -> MatchModel {
        match self.game.status {
            StatusModel::WaitingForGame => self,
            StatusModel::Game { team, .. } => {
                let announced = if goal_scored {
                    self.with_values(
                        self.server.values.with_score(team, self.server.values.score(team) + 1),
                    ).act(ActionModel::GoalMessage { team })
                } else {
                    self.say("Miss"@)
                };
                announced.with_state(
                    HQMShootoutAttemptState::Over { timer: OVER_TICKS, goal_scored },
                ).update_gameover()
            },
        }
    }

    /// The simulation reports an event.
    pub open spec fn on_event(self, event: HQMSimulationEvent) -> MatchModel {
        match self.game.status {
            StatusModel::WaitingForGame => self,
            StatusModel::Game { state, team, .. } => match state.event_outcome(team, event) {
                HQMEventOutcome::Unchanged => self,
                HQMEventOutcome::Stopped => self.with_state(state.stopped()),
                HQMEventOutcome::Ended { goal_scored } => self.end_attempt(goal_scored),
            },
        }
    }

    /// The simulation reports several events, one after the other.
    pub open spec fn on_events(self, events: Seq<HQMSimulationEvent>) -> MatchModel
        decreases events.len(),
    {
        if events.len() == 0 {
            self
        } else {
            self.on_events(events.drop_last()).on_event(events.last())
        }
    }

    /// Both teams have a skater on the ice.
    pub open spec fn both_teams_present(self) -> bool {
        &&& skaters_of(self.server.players, HQMTeam::Red).len() > 0
        &&& skaters_of(self.server.players, HQMTeam::Blue).len() > 0
    }

    /// A tick while the game waits: with both teams there the clock runs, and at zero the
    /// first attempt begins; else it is set back.
    pub open spec fn waiting_clock(self) -> MatchModel {
        let values = self.server.values;
        if self.both_teams_present() && !self.game.paused {
            let counted = self.with_values(
                GameValuesModel { time: ticked(values.time), ..values },
            );
            if ticked(values.time) == 0 {
                counted.start_next_attempt()
            } else {
                counted
            }
        } else {
            self.with_values(GameValuesModel { time: WAITING_TICKS, ..values })
        }
    }

    /// A tick after an attempt: a goal is announced as long as the timer runs; at zero
    /// a new game begins if this one is over, and the next attempt if not.
    pub open spec fn over_clock(self, timer: u32, goal_scored: bool) -> MatchModel {
        let left = ticked(timer);
        let counted = self.with_state(
            HQMShootoutAttemptState::Over { timer: left, goal_scored },
        ).with_values(
            GameValuesModel {
                goal_message_timer: if goal_scored {
                    left
                } else {
                    0
                },
                ..self.server.values
            },
        );
        if left != 0 {
            counted
        } else if self.server.values.game_over {
            counted.act(ActionModel::NewGame)
        } else {
            counted.start_next_attempt()
        }
    }

    /// A tick of an attempt that is not over. The clock never shows zero.
    pub open spec fn live_clock(
        self,
        state: HQMShootoutAttemptState,
        puck: Option<HQMPuckReading>,
    ) -> MatchModel {
        let values = self.server.values;
        let counted = self.with_values(
            GameValuesModel {
                time: if values.time <= 1 {
                    1
                } else {
                    (values.time - 1) as u32
                },
                ..values
            },
        );
        match state.clock_outcome(values.time, puck) {
            HQMClockOutcome::Unchanged => counted,
            HQMClockOutcome::Advanced { progress } => counted.with_state(
                HQMShootoutAttemptState::Attack { progress },
            ),
            HQMClockOutcome::TimeUp => counted.end_attempt(false),
            HQMClockOutcome::TooFarBack => counted.end_attempt(false),
        }
    }

    /// A tick of the clock.
    pub open spec fn on_clock(self, puck: Option<HQMPuckReading>) -> MatchModel {
        match self.game.status {
            StatusModel::WaitingForGame => self.waiting_clock(),
            StatusModel::Game { state, .. } => if self.game.paused {
                self
            } else {
                match state {
                    HQMShootoutAttemptState::Over { timer, goal_scored } => self.over_clock(
                        timer,
                        goal_scored,
                    ),
                    _ => self.live_clock(state, puck),
                }
            },
        }
    }

    /// A tick: the events of the simulation, then the clock.
    pub open spec fn after_tick(
        self,
        events: Seq<HQMSimulationEvent>,
        puck: Option<HQMPuckReading>,
    ) -> MatchModel {
        self.on_events(events).on_clock(puck)
    }

    /// The pass over the players that a tick begins with.
    pub open spec fn roster(self) -> RosterModel {
        RosterModel::start(self.game.team_switch_timer).visit_all(self.server.players)
    }

    /// A tick begins: cooldowns go down and the players who want to leave are taken
    /// off the ice.
    pub open spec fn update_players(self) -> MatchModel {
        MatchModel {
            game: ShootoutModel {
                team_switch_timer: self.roster().team_switch_timer,
                ..self.game
            },
            server: self.server.act_all(spectate_actions(self.roster().spectating)),
        }
    }

    /// The player at an index is an administrator.
    pub open spec fn is_admin(self, index: usize) -> bool {
        self.server.is_admin(index)
    }

    /// The name of the player at an index.
    pub open spec fn name(self, index: usize) -> Seq<char> {
        self.server.name(index)
    }

    /// A player is told that a command is for administrators only, if the player is there.
    pub open spec fn denied(self, index: usize) -> MatchModel {
        MatchModel { server: self.server.denied(index), ..self }
    }

    /// An administrator starts a new game.
    pub open spec fn reset_game(self, player: usize) -> MatchModel {
        if self.is_admin(player) {
            self.act(ActionModel::NewGame).say("Game reset by "@ + self.name(player))
        } else {
            self.denied(player)
        }
    }

    /// An administrator wants a player off the ice: the order that the server gets.
    pub open spec fn forced_move(self, admin: usize, player: usize) -> Option<ForcedMoveModel> {
        if self.is_admin(admin) && self.server.player(player) is Some {
            Some(
                ForcedMoveModel {
                    player,
                    player_name: self.name(player),
                    admin_name: self.name(admin),
                },
            )
        } else {
            None
        }
    }

    /// An administrator wants a player off the ice: what changes before the server acts.
    pub open spec fn force_player_off_ice(self, admin: usize) -> MatchModel {
        if self.is_admin(admin) {
            self
        } else {
            self.denied(admin)
        }
    }

    /// The order that the server gets from a command, if it gets one.
    pub open spec fn command_move(self, command: HQMShootoutCommand, player: usize) -> Option<
        ForcedMoveModel,
    > {
        match command {
            HQMShootoutCommand::ForceOffIce { player: target } => self.forced_move(player, target),
            _ => None,
        }
    }

    /// The server has taken a player off the ice, or found nothing to take off.
    pub open spec fn forced_off_ice(self, forced: ForcedMoveModel, moved: bool) -> MatchModel {
        if moved {
            at(
                ShootoutModel {
                    team_switch_timer: self.game.team_switch_timer.insert(
                        forced.player,
                        TEAM_SWITCH_TICKS,
                    ),
                    ..self.game
                },
                self.server.say(forced.player_name + " forced off ice by "@ + forced.admin_name),
            )
        } else {
            self
        }
    }

    /// An administrator sets the score of a team.
    pub open spec fn set_score(self, team: HQMTeam, score: int, player: usize) -> MatchModel {
        if self.is_admin(player) {
            let start = match team {
                HQMTeam::Red => "Red score changed by "@,
                HQMTeam::Blue => "Blue score changed by "@,
            };
            self.with_values(self.server.values.with_score(team, score)).say(
                start + self.name(player),
            ).update_gameover()
        } else {
            self.denied(player)
        }
    }

    /// The current attempt, if there is one, becomes the one of another team or round.
    pub open spec fn relabelled(self, round: int, team: HQMTeam) -> MatchModel {
        match self.game.status {
            StatusModel::WaitingForGame => self,
            StatusModel::Game { state, .. } => MatchModel {
                game: self.game.with_status(StatusModel::Game { state, round, team }),
                ..self
            },
        }
    }

    /// What is announced when an administrator changes the round, which is counted from
    /// one here.
    pub open spec fn round_message(self, team: HQMTeam, round: int, player: usize) -> Seq<char> {
        "Round changed to "@ + decimal(round as nat) + " for "@ + self.server.team_names.of(team)
            + " by "@ + self.name(player)
    }

    /// An administrator sets round and team of the current attempt. Rounds are counted
    /// from one here, and there is no round zero.
    pub open spec fn set_round(self, team: HQMTeam, round: int, player: usize) -> MatchModel {
        if round == 0 {
            self
        } else if self.is_admin(player) {
            if self.in_game() {
                self.relabelled(round - 1, team).say(
                    self.round_message(team, round, player),
                ).update_gameover()
            } else {
                self
            }
        } else {
            self.denied(player)
        }
    }

    /// An administrator has an attempt taken again, unless the game is over with it. A pause
    /// ends.
    pub open spec fn redo_round(self, team: HQMTeam, round: int, player: usize) -> MatchModel {
        if round == 0 {
            self
        } else if self.is_admin(player) {
            let judged = self.relabelled(round - 1, team).say(
                self.round_message(team, round, player),
            ).update_gameover();
            let resumed = at(ShootoutModel { paused: false, ..judged.game }, judged.server);
            if resumed.server.values.game_over {
                resumed
            } else {
                resumed.start_attempt(round - 1, team)
            }
        } else {
            self.denied(player)
        }
    }

    /// An administrator pauses the game.
    pub open spec fn pause(self, player: usize) -> MatchModel {
        if self.is_admin(player) {
            at(ShootoutModel { paused: true, ..self.game }, self.server).say(
                "Game paused by "@ + self.name(player),
            )
        } else {
            self.denied(player)
        }
    }

    /// The stage of an attempt when a pause ends.
    pub open spec fn resumed_state(state: HQMShootoutAttemptState) -> HQMShootoutAttemptState {
        match state {
            HQMShootoutAttemptState::Over { timer, goal_scored } => HQMShootoutAttemptState::Over {
                timer: if timer < RESUME_TICKS {
                    RESUME_TICKS
                } else {
                    timer
                },
                goal_scored,
            },
            _ => state,
        }
    }

    /// An administrator ends a pause.
    pub open spec fn unpause(self, player: usize) -> MatchModel {
        if self.is_admin(player) {
            let game = match self.game.status {
                StatusModel::WaitingForGame => self.game,
                StatusModel::Game { state, .. } => self.game.with_state(
                    Self::resumed_state(state),
                ),
            };
            at(ShootoutModel { paused: false, ..game }, self.server).say(
                "Game resumed by "@ + self.name(player),
            )
        } else {
            self.denied(player)
        }
    }

    /// A command of a player. Of [`HQMShootoutCommand::ForceOffIce`] this is the part before
    /// the server acts.
    pub open spec fn run_command(self, command: HQMShootoutCommand, player: usize) -> MatchModel {
        match command {
            HQMShootoutCommand::ResetGame => self.reset_game(player),
            HQMShootoutCommand::ForceOffIce { .. } => self.force_player_off_ice(player),
            HQMShootoutCommand::SetScore { team, score } => self.set_score(
                team,
                score as int,
                player,
            ),
            HQMShootoutCommand::SetRound { team, round } => self.set_round(
                team,
                round as int,
                player,
            ),
            HQMShootoutCommand::RedoRound { team, round } => self.redo_round(
                team,
                round as int,
                player,
            ),
            HQMShootoutCommand::Pause => self.pause(player),
            HQMShootoutCommand::Unpause => self.unpause(player),
        }
    }
}

} // verus!
