//! The game mode.
use crate::attempt::{
    HQMClockOutcome, HQMEventOutcome, HQMPuckReading, HQMShootoutAttemptState, HQMSimulationEvent,
    OVER_TICKS,
};
use crate::commands::{command_of, parse_command, HQMShootoutCommand};
use crate::join::{HQMJoinQueue, HQMJoinRequests, JoinModel};
use crate::laws::{lemma_events_in_range, lemma_events_while_waiting, lemma_over_is_final};
use crate::model::{
    at, attempt_message, spawn_actions, spectate_actions, ForcedMoveModel, RosterModel,
    ShootoutModel, StatusModel, ATTEMPT_TICKS, RESUME_TICKS, TEAM_SWITCH_TICKS, WAITING_TICKS,
};
use crate::server::{
    skaters_of, HQMGameValues, HQMServer, HQMServerAction, HQMServerPlayer, HQMSpawnSpot,
    PlayerModel,
};
use crate::single::ZERO;
use crate::team::HQMTeam;
use crate::text::{decimal, decimal_text, joined};
use std::collections::HashMap;
use vstd::prelude::*;
use vstd::string::*;

verus! {

broadcast use vstd::std_specs::hash::group_hash_axioms;

/// Where the game stands.
#[derive(Debug, Clone, Copy, PartialEq, Eq, Structural)]
pub enum HQMShootoutStatus {
    /// No attempt has begun yet.
    WaitingForGame,
    /// `team` takes its attempt of round `round`, counted from zero.
    Game { state: HQMShootoutAttemptState, round: u32, team: HQMTeam },
}

impl View for HQMShootoutStatus {
    type V = StatusModel;

    open spec fn view(&self) -> StatusModel {
        match *self {
            HQMShootoutStatus::WaitingForGame => StatusModel::WaitingForGame,
            HQMShootoutStatus::Game { state, round, team } => StatusModel::Game {
                state,
                round: round as int,
                team,
            },
        }
    }
}

/// An order of an administrator to take a player off the ice.
#[derive(Debug)]
pub struct HQMForcedMove {
    pub player: usize,
    pub player_name: String,
    pub admin_name: String,
}

impl View for HQMForcedMove {
    type V = ForcedMoveModel;

    open spec fn view(&self) -> ForcedMoveModel {
        ForcedMoveModel {
            player: self.player,
            player_name: self.player_name@,
            admin_name: self.admin_name@,
        }
    }
}

/// The order that was given, if one was.
pub open spec fn forced_model(forced: Option<HQMForcedMove>) -> Option<ForcedMoveModel> {
    match forced {
        Some(forced) => Some(forced@),
        None => None,
    }
}

/// The shootout game mode. `P` is the physics configuration, which it only hands on.
#[derive(Debug)]
pub struct HQMShootoutBehaviour<P> {
    attempts: u32,
    status: HQMShootoutStatus,
    physics_config: P,
    paused: bool,
    team_switch_timer: HashMap<usize, u32>,
    team_max: usize,
}

impl<P> View for HQMShootoutBehaviour<P> {
    type V = ShootoutModel;

    closed spec fn view(&self) -> ShootoutModel {
        ShootoutModel {
            attempts: self.attempts as int,
            status: self.status@,
            paused: self.paused,
            team_switch_timer: self.team_switch_timer@,
            team_max: self.team_max as int,
        }
    }
}

impl<P> HQMShootoutBehaviour<P> {
    /// The physics configuration.
    pub closed spec fn physics_configuration(&self) -> P {
        self.physics_config
    }

    /// Makes a game mode with the given number of attempts for each team.
    pub fn new(attempts: u32, physics_config: P) -> (behaviour: Self)
        ensures
            behaviour@ == ShootoutModel::initial(attempts as int),
            behaviour.physics_configuration() == physics_config,
            behaviour@.in_range(),
    {
        HQMShootoutBehaviour {
            attempts,
            status: HQMShootoutStatus::WaitingForGame,
            physics_config,
            paused: false,
            team_switch_timer: HashMap::new(),
            team_max: 1,
        }
    }

    /// Gives where the game stands.
    pub fn status(&self) -> (status: HQMShootoutStatus)
        ensures
            status@ == self@.status,
    {
        self.status
    }

    /// Asks for skaters of one team to be put on the ice.
    fn spawn_team(server: &mut HQMServer, team: HQMTeam, spot: HQMSpawnSpot)
        ensures
            final(server)@ == old(server)@.act_all(
                spawn_actions(skaters_of(old(server)@.players, team), team, spot),
            ),
    {
        let players: Vec<usize> = server.team_skaters(team);
        let ghost before = server@;
        let ghost spawns = spawn_actions(players@, team, spot);
        let mut place: usize = 0;
        assert(before.actions + spawns.take(0) =~= before.actions);
        while place < players.len()
            invariant
                place <= players@.len(),
                spawns == spawn_actions(players@, team, spot),
                server@ == before.act_all(spawns.take(place as int)),
            decreases players@.len() - place,
        {
            let aside: usize = if place > 0 {
                place / 2 + 1
            } else {
                0
            };
            server.request(
                HQMServerAction::SpawnSkater {
                    player: players[place],
                    team,
                    spot,
                    side_steps: aside,
                },
            );
            proof {
                assert(before.actions + spawns.take(place + 1) =~= (before.actions + spawns.take(
                    place as int,
                )).push(spawns[place as int]));
            }
            place = place + 1;
        }
        assert(spawns.take(place as int) =~= spawns);
    }

    /// Writes what is announced when an attempt begins.
    fn announce_attempt(&self, server: &mut HQMServer, round: u32, team: HQMTeam)
        ensures
            final(server)@ == old(server)@.say(
                attempt_message(self@.attempts, round as int, old(server)@.team_names.of(team)),
            ),
    {
        let remaining_attempts: u32 = self.attempts.saturating_sub(round);
        let start: String = if remaining_attempts >= 2 {
            joined(decimal_text(remaining_attempts).as_str(), " attempts left for ")
        } else if remaining_attempts == 1 {
            "Last attempt for ".to_owned()
        } else {
            "Tie-breaker round for ".to_owned()
        };
        let msg: String = joined(start.as_str(), server.team_names.of(team));
        server.say(msg);
    }

    /// Begins an attempt of a team.
    pub fn start_attempt(&mut self, server: &mut HQMServer, round: u32, team: HQMTeam)
        ensures
            at(final(self)@, final(server)@) == at(old(self)@, old(server)@).start_attempt(
                round as int,
                team,
            ),
            final(self).physics_configuration() == old(self).physics_configuration(),
            final(self)@.in_range(),
    {
        self.status = HQMShootoutStatus::Game {
            state: HQMShootoutAttemptState::Attack { progress: ZERO },
            round,
            team,
        };
        self.announce_attempt(server, round, team);
        server.values.time = ATTEMPT_TICKS;
        server.values.goal_message_timer = 0;
        server.values.period = 1;
        server.request(HQMServerAction::ClearPucks);
        server.request(HQMServerAction::CreatePuck);
        Self::spawn_team(server, team, HQMSpawnSpot::CenterIce);
        Self::spawn_team(server, team.get_other_team(), HQMSpawnSpot::Crease);
    }

    /// Begins the attempt that follows the current one, or the first.
    pub fn start_next_attempt(&mut self, server: &mut HQMServer)
        requires
            at(old(self)@, old(server)@).start_next_attempt().in_range(),
        ensures
            at(final(self)@, final(server)@) == at(
                old(self)@,
                old(server)@,
            ).start_next_attempt(),
            final(self).physics_configuration() == old(self).physics_configuration(),
            final(self)@.in_range(),
    {
        match self.status {
            HQMShootoutStatus::WaitingForGame => {
                self.start_attempt(server, 0, HQMTeam::Red);
            },
            HQMShootoutStatus::Game { team, round, .. } => {
                let next_round: u32 = if team == HQMTeam::Blue {
                    round + 1
                } else {
                    round
                };
                self.start_attempt(server, next_round, team.get_other_team());
            },
        }
    }

    /// Begins the first attempt of a game.
    pub fn init(&mut self, server: &mut HQMServer)
        requires
            at(old(self)@, old(server)@).start_next_attempt().in_range(),
        ensures
            at(final(self)@, final(server)@) == at(
                old(self)@,
                old(server)@,
            ).start_next_attempt(),
            final(self).physics_configuration() == old(self).physics_configuration(),
            final(self)@.in_range(),
    {
        self.start_next_attempt(server);
    }

    /// Settles whether the game is over.
    pub fn update_gameover(&self, server: &mut HQMServer)
        requires
            self@.in_range(),
        ensures
            at(self@, final(server)@) == at(self@, old(server)@).update_gameover(),
    {
        if let HQMShootoutStatus::Game { state, team, round } = self.status {
            let is_attempt_over: u32 = if let HQMShootoutAttemptState::Over { .. } = state {
                1
            } else {
                0
            };
            let red_attempts_taken: u32 = round + is_attempt_over;
            let blue_attempts_taken: u32 = match team {
                HQMTeam::Red => round,
                HQMTeam::Blue => round + is_attempt_over,
            };
            let attempts: u32 = if self.attempts > red_attempts_taken {
                self.attempts
            } else {
                red_attempts_taken
            };
            let remaining_red_attempts: u32 = attempts - red_attempts_taken;
            let remaining_blue_attempts: u32 = attempts - blue_attempts_taken;
            let red_score: u32 = server.values.red_score;
            let blue_score: u32 = server.values.blue_score;
            server.values.game_over = if red_score >= blue_score {
                remaining_blue_attempts < red_score - blue_score
            } else {
                remaining_red_attempts < blue_score - red_score
            };
        }
    }

    /// Ends the current attempt, if there is one.
    pub fn end_attempt(&mut self, server: &mut HQMServer, goal_scored: bool)
        requires
            at(old(self)@, old(server)@).end_attempt(goal_scored).in_range(),
        ensures
            at(final(self)@, final(server)@) == at(old(self)@, old(server)@).end_attempt(
                goal_scored,
            ),
            final(self).physics_configuration() == old(self).physics_configuration(),
            final(self)@.in_range(),
    {
        if let HQMShootoutStatus::Game { team, round, .. } = self.status {
            if goal_scored {
                match team {
                    HQMTeam::Red => {
                        server.values.red_score = server.values.red_score + 1;
                    },
                    HQMTeam::Blue => {
                        server.values.blue_score = server.values.blue_score + 1;
                    },
                }
                server.request(HQMServerAction::GoalMessage { team });
            } else {
                server.say("Miss".to_owned());
            }
            self.status = HQMShootoutStatus::Game {
                state: HQMShootoutAttemptState::Over { timer: OVER_TICKS, goal_scored },
                round,
                team,
            };
            self.update_gameover(server);
        }
    }

    /// Takes note of an event of the simulation.
    pub fn on_event(&mut self, server: &mut HQMServer, event: HQMSimulationEvent)
        requires
            old(self)@.in_range(),
            at(old(self)@, old(server)@).on_event(event).in_range(),
        ensures
            at(final(self)@, final(server)@) == at(old(self)@, old(server)@).on_event(event),
            final(self).physics_configuration() == old(self).physics_configuration(),
            final(self)@.in_range(),
    {
        if let HQMShootoutStatus::Game { state, round, team } = self.status {
            match state.decide_event(team, event) {
                HQMEventOutcome::Unchanged => {},
                HQMEventOutcome::Stopped => {
                    self.status = HQMShootoutStatus::Game { state: state.stop(), round, team };
                },
                HQMEventOutcome::Ended { goal_scored } => {
                    self.end_attempt(server, goal_scored);
                },
            }
        }
    }

    /// Lets the clock tick.
    pub fn on_clock(&mut self, server: &mut HQMServer, puck: Option<HQMPuckReading>)
        requires
            old(self)@.in_range(),
            at(old(self)@, old(server)@).on_clock(puck).in_range(),
        ensures
            at(final(self)@, final(server)@) == at(old(self)@, old(server)@).on_clock(puck),
            final(self).physics_configuration() == old(self).physics_configuration(),
            final(self)@.in_range(),
    {
        match self.status {
            HQMShootoutStatus::WaitingForGame => {
                let red_player_count: usize = server.count_skaters(HQMTeam::Red);
                let blue_player_count: usize = server.count_skaters(HQMTeam::Blue);
                if red_player_count > 0 && blue_player_count > 0 && !self.paused {
                    server.values.time = server.values.time.saturating_sub(1);
                    if server.values.time == 0 {
                        self.init(server);
                    }
                } else {
                    server.values.time = WAITING_TICKS;
                }
            },
            HQMShootoutStatus::Game { state, round, team } => {
                if !self.paused {
                    if let HQMShootoutAttemptState::Over { timer, goal_scored } = state {
                        let left: u32 = timer.saturating_sub(1);
                        self.status = HQMShootoutStatus::Game {
                            state: HQMShootoutAttemptState::Over { timer: left, goal_scored },
                            round,
                            team,
                        };
                        server.values.goal_message_timer = if goal_scored {
                            left
                        } else {
                            0
                        };
                        if left == 0 {
                            if server.values.game_over {
                                server.request(HQMServerAction::NewGame);
                            } else {
                                self.start_next_attempt(server);
                            }
                        }
                    } else {
                        let outcome: HQMClockOutcome = state.decide_clock(server.values.time, puck);
                        server.values.time = server.values.time.saturating_sub(1);
                        match outcome {
                            HQMClockOutcome::Unchanged => {},
                            HQMClockOutcome::Advanced { progress } => {
                                self.status = HQMShootoutStatus::Game {
                                    state: HQMShootoutAttemptState::Attack { progress },
                                    round,
                                    team,
                                };
                            },
                            HQMClockOutcome::TimeUp => {
                                // A clock at zero would read as an intermission.
                                server.values.time = 1;
                                self.end_attempt(server, false);
                            },
                            HQMClockOutcome::TooFarBack => {
                                self.end_attempt(server, false);
                            },
                        }
                    }
                }
            },
        }
    }

    /// Takes note of what the simulation reports for a tick, and lets the clock tick. `puck`
    /// is the puck's progress held against the progress stored before the call, if there
    /// is a puck.
    pub fn after_tick(
        &mut self,
        server: &mut HQMServer,
        events: &[HQMSimulationEvent],
        puck: Option<HQMPuckReading>,
    )
        requires
            old(self)@.in_range(),
            at(old(self)@, old(server)@).after_tick(events@, puck).in_range(),
        ensures
            at(final(self)@, final(server)@) == at(old(self)@, old(server)@).after_tick(
                events@,
                puck,
            ),
            final(self).physics_configuration() == old(self).physics_configuration(),
            final(self)@.in_range(),
    {
        let ghost before = at(self@, server@);
        let mut i: usize = 0;
        assert(events@.take(0) =~= Seq::<HQMSimulationEvent>::empty());
        while i < events.len()
            invariant
                i <= events@.len(),
                before.in_range(),
                self@.in_range(),
                before.after_tick(events@, puck).in_range(),
                at(self@, server@) == before.on_events(events@.take(i as int)),
                self.physics_configuration() == old(self).physics_configuration(),
            decreases events@.len() - i,
        {
            proof {
                lemma_events_in_range(before, events@, puck, i + 1);
                assert(events@.take(i + 1).drop_last() =~= events@.take(i as int));
            }
            self.on_event(server, events[i]);
            i = i + 1;
        }
        assert(events@.take(i as int) =~= events@);
        self.on_clock(server, puck);
    }

    /// Tells whether round and scores after a tick with these reports can be stored, as
    /// [`HQMShootoutBehaviour::after_tick`] needs it.
    pub fn tick_in_range(
        &self,
        server: &HQMServer,
        events: &[HQMSimulationEvent],
        puck: Option<HQMPuckReading>,
    ) -> (fits: bool)
        requires
            self@.in_range(),
        ensures
            fits == at(self@, server@).after_tick(events@, puck).in_range(),
    {
        let ghost before = at(self@, server@);
        match self.status {
            HQMShootoutStatus::WaitingForGame => {
                proof {
                    lemma_events_while_waiting(before, events@);
                }
                true
            },
            HQMShootoutStatus::Game { state, round, team } => {
                let mut current: HQMShootoutAttemptState = state;
                let mut i: usize = 0;
                assert(events@.take(0) =~= Seq::<HQMSimulationEvent>::empty());
                assert(before.with_state(current) == before);
                while i < events.len()
                    invariant
                        i <= events@.len(),
                        before == at(self@, server@),
                        self@.in_range(),
                        self@.status == (StatusModel::Game { state, round: round as int, team }),
                        before.on_events(events@.take(i as int)) == before.with_state(current),
                        current.is_over() ==> current == state,
                    decreases events@.len() - i,
                {
                    let ghost so_far = before.with_state(current);
                    assert(events@.take(i + 1).drop_last() =~= events@.take(i as int));
                    assert(before.on_events(events@.take(i + 1)) == so_far.on_event(
                        events@[i as int],
                    ));
                    match current.decide_event(team, events[i]) {
                        HQMEventOutcome::Unchanged => {},
                        HQMEventOutcome::Stopped => {
                            current = current.stop();
                            assert(before.on_events(events@.take(i + 1)) == before.with_state(
                                current,
                            ));
                        },
                        HQMEventOutcome::Ended { goal_scored } => {
                            proof {
                                lemma_over_is_final(before, events@, i + 1);
                            }
                            let score: u32 = match team {
                                HQMTeam::Red => server.values.red_score,
                                HQMTeam::Blue => server.values.blue_score,
                            };
                            return round < u32::MAX && (!goal_scored || score < u32::MAX);
                        },
                    }
                    i = i + 1;
                }
                assert(events@.take(i as int) =~= events@);
                if self.paused {
                    true
                } else if let HQMShootoutAttemptState::Over { timer, .. } = current {
                    timer > 1 || server.values.game_over || team == HQMTeam::Red || round < u32::MAX
                } else {
                    match current.decide_clock(server.values.time, puck) {
                        HQMClockOutcome::Unchanged => true,
                        HQMClockOutcome::Advanced { .. } => true,
                        HQMClockOutcome::TimeUp => round < u32::MAX,
                        HQMClockOutcome::TooFarBack => round < u32::MAX,
                    }
                }
            },
        }
    }

    /// Looks at what each player wants: cooldowns go down by a tick, players who want to
    /// leave the ice are taken off it, and the players who may join a team are listed.
    pub fn update_players(&mut self, server: &mut HQMServer) -> (requests: HQMJoinRequests)
        ensures
            at(final(self)@, final(server)@) == at(old(self)@, old(server)@).update_players(),
            requests.red@ == at(old(self)@, old(server)@).roster().joining_red,
            requests.blue@ == at(old(self)@, old(server)@).roster().joining_blue,
            final(self).physics_configuration() == old(self).physics_configuration(),
            old(self)@.in_range() ==> final(self)@.in_range(),
    {
        let ghost before = at(self@, server@);
        let ghost players = server@.players;
        let ghost start = RosterModel::start(self@.team_switch_timer);
        let mut spectating_players: Vec<usize> = Vec::new();
        let mut joining_red: Vec<usize> = Vec::new();
        let mut joining_blue: Vec<usize> = Vec::new();
        let mut i: usize = 0;
        assert(players.take(0) =~= Seq::<PlayerModel>::empty());
        assert(start.spectating =~= spectating_players@);
        assert(start.joining_red =~= joining_red@);
        assert(start.joining_blue =~= joining_blue@);
        while i < server.players.len()
            invariant
                i <= server.players@.len(),
                *server == *old(server),
                players == server@.players,
                start == RosterModel::start(old(self)@.team_switch_timer),
                start.visit_all(players.take(i as int)) == (RosterModel {
                    team_switch_timer: self@.team_switch_timer,
                    spectating: spectating_players@,
                    joining_red: joining_red@,
                    joining_blue: joining_blue@,
                }),
                self@ == (ShootoutModel {
                    team_switch_timer: self@.team_switch_timer,
                    ..old(self)@
                }),
                self.physics_configuration() == old(self).physics_configuration(),
            decreases server.players@.len() - i,
        {
            let player: &HQMServerPlayer = &server.players[i];
            proof {
                assert(players.take(i + 1).drop_last() =~= players.take(i as int));
                assert(players.take(i + 1).last() == player@);
            }
            let index: usize = player.index;
            let waiting: Option<u32> = match self.team_switch_timer.get(&index) {
                Some(ticks) => Some((*ticks).saturating_sub(1)),
                None => None,
            };
            if let Some(ticks) = waiting {
                self.team_switch_timer.insert(index, ticks);
            }
            if player.input.join_red || player.input.join_blue {
                let may_join: bool = match waiting {
                    Some(ticks) => ticks == 0,
                    None => true,
                };
                if player.team.is_none() && may_join {
                    if player.input.join_red {
                        joining_red.push(index);
                    } else {
                        joining_blue.push(index);
                    }
                }
            } else if player.input.spectate {
                if player.team.is_some() {
                    self.team_switch_timer.insert(index, TEAM_SWITCH_TICKS);
                    spectating_players.push(index);
                }
            }
            i = i + 1;
        }
        assert(players.take(i as int) =~= players);
        let ghost moves = spectate_actions(spectating_players@);
        let ghost first = server@;
        assert(first.actions + moves.take(0) =~= first.actions);
        let mut k: usize = 0;
        while k < spectating_players.len()
            invariant
                k <= spectating_players@.len(),
                moves == spectate_actions(spectating_players@),
                server@ == first.act_all(moves.take(k as int)),
            decreases spectating_players@.len() - k,
        {
            server.request(HQMServerAction::MoveToSpectator { player: spectating_players[k] });
            proof {
                assert(first.actions + moves.take(k + 1) =~= (first.actions + moves.take(
                    k as int,
                )).push(moves[k as int]));
            }
            k = k + 1;
        }
        assert(moves.take(k as int) =~= moves);
        HQMJoinRequests { red: joining_red, blue: joining_blue }
    }

    /// Begins a tick, as [`HQMShootoutBehaviour::update_players`] does.
    pub fn before_tick(&mut self, server: &mut HQMServer) -> (requests: HQMJoinRequests)
        ensures
            at(final(self)@, final(server)@) == at(old(self)@, old(server)@).update_players(),
            requests.red@ == at(old(self)@, old(server)@).roster().joining_red,
            requests.blue@ == at(old(self)@, old(server)@).roster().joining_blue,
            final(self).physics_configuration() == old(self).physics_configuration(),
            old(self)@.in_range() ==> final(self)@.in_range(),
    {
        self.update_players(server)
    }

    /// Lines up the players who may join a team. `server` shows who is on the ice after the
    /// players who wanted to leave have left it.
    pub fn join_queue(&self, server: &HQMServer, requests: HQMJoinRequests) -> (queue: HQMJoinQueue)
        ensures
            queue@ == JoinModel::start(
                requests.red@,
                requests.blue@,
                server@.players,
                self@.team_max,
            ),
            queue.well_formed(),
    {
        HQMJoinQueue::new(server, requests, self.team_max)
    }

    /// Starts a new game for an administrator.
    pub fn reset_game(&mut self, server: &mut HQMServer, player_index: usize)
        ensures
            at(final(self)@, final(server)@) == at(old(self)@, old(server)@).reset_game(
                player_index,
            ),
            *final(self) == *old(self),
    {
        if let Some(name) = server.authorise(player_index) {
            server.request(HQMServerAction::NewGame);
            server.say(joined("Game reset by ", name.as_str()));
        }
    }

    /// Has a player taken off the ice for an administrator. What the server then did is
    /// reported by [`HQMShootoutBehaviour::forced_off_ice`].
    pub fn force_player_off_ice(
        &mut self,
        server: &mut HQMServer,
        admin_player_index: usize,
        force_player_index: usize,
    ) -> (forced: Option<HQMForcedMove>)
        ensures
            at(final(self)@, final(server)@) == at(
                old(self)@,
                old(server)@,
            ).force_player_off_ice(admin_player_index),
            forced_model(forced) == at(old(self)@, old(server)@).forced_move(
                admin_player_index,
                force_player_index,
            ),
            *final(self) == *old(self),
    {
        match server.authorise(admin_player_index) {
            None => None,
            Some(admin_name) => match server.player(force_player_index) {
                None => None,
                Some(force_player) => Some(
                    HQMForcedMove {
                        player: force_player_index,
                        player_name: force_player.player_name.clone(),
                        admin_name,
                    },
                ),
            },
        }
    }

    /// Takes note of whether the server took a player off the ice. If it did, this is
    /// announced, and the player has to wait before joining a team.
    pub fn forced_off_ice(&mut self, server: &mut HQMServer, forced: HQMForcedMove, moved: bool)
        ensures
            at(final(self)@, final(server)@) == at(old(self)@, old(server)@).forced_off_ice(
                forced@,
                moved,
            ),
            final(self).physics_configuration() == old(self).physics_configuration(),
            old(self)@.in_range() ==> final(self)@.in_range(),
    {
        if moved {
            let start: String = joined(forced.player_name.as_str(), " forced off ice by ");
            server.say(joined(start.as_str(), forced.admin_name.as_str()));
            self.team_switch_timer.insert(forced.player, TEAM_SWITCH_TICKS);
        }
    }

    /// Sets the score of a team for an administrator.
    pub fn set_score(
        &mut self,
        server: &mut HQMServer,
        input_team: HQMTeam,
        input_score: u32,
        player_index: usize,
    )
        requires
            old(self)@.in_range(),
        ensures
            at(final(self)@, final(server)@) == at(old(self)@, old(server)@).set_score(
                input_team,
                input_score as int,
                player_index,
            ),
            *final(self) == *old(self),
    {
        if let Some(name) = server.authorise(player_index) {
            match input_team {
                HQMTeam::Red => {
                    server.values.red_score = input_score;
                    server.say(joined("Red score changed by ", name.as_str()));
                },
                HQMTeam::Blue => {
                    server.values.blue_score = input_score;
                    server.say(joined("Blue score changed by ", name.as_str()));
                },
            }
            self.update_gameover(server);
        }
    }

    /// Writes that an administrator has changed the round.
    fn announce_round(server: &mut HQMServer, team: HQMTeam, round: u32, name: &str)
        ensures
            final(server)@ == old(server)@.say(
                "Round changed to "@ + decimal(round as nat) + " for "@ + old(
                    server,
                )@.team_names.of(team) + " by "@ + name@,
            ),
    {
        let mut msg: String = joined("Round changed to ", decimal_text(round).as_str());
        msg.append(" for ");
        msg.append(server.team_names.of(team));
        msg.append(" by ");
        msg.append(name);
        server.say(msg);
    }

    /// Sets team and round of the current attempt for an administrator. The first round is
    /// round one.
    pub fn set_round(
        &mut self,
        server: &mut HQMServer,
        input_team: HQMTeam,
        input_round: u32,
        player_index: usize,
    )
        requires
            old(self)@.in_range(),
        ensures
            at(final(self)@, final(server)@) == at(old(self)@, old(server)@).set_round(
                input_team,
                input_round as int,
                player_index,
            ),
            final(self).physics_configuration() == old(self).physics_configuration(),
            final(self)@.in_range(),
    {
        if input_round == 0 {
            return;
        }
        if let Some(name) = server.authorise(player_index) {
            if let HQMShootoutStatus::Game { state, .. } = self.status {
                self.status = HQMShootoutStatus::Game {
                    state,
                    round: input_round - 1,
                    team: input_team,
                };
                Self::announce_round(server, input_team, input_round, name.as_str());
            }
            self.update_gameover(server);
        }
    }

    /// Has an attempt taken again for an administrator. The first round is round one.
    pub fn redo_round(
        &mut self,
        server: &mut HQMServer,
        input_team: HQMTeam,
        input_round: u32,
        player_index: usize,
    )
        requires
            old(self)@.in_range(),
        ensures
            at(final(self)@, final(server)@) == at(old(self)@, old(server)@).redo_round(
                input_team,
                input_round as int,
                player_index,
            ),
            final(self).physics_configuration() == old(self).physics_configuration(),
            final(self)@.in_range(),
    {
        if input_round == 0 {
            return;
        }
        if let Some(name) = server.authorise(player_index) {
            if let HQMShootoutStatus::Game { state, .. } = self.status {
                self.status = HQMShootoutStatus::Game {
                    state,
                    round: input_round - 1,
                    team: input_team,
                };
            }
            Self::announce_round(server, input_team, input_round, name.as_str());
            self.update_gameover(server);
            self.paused = false;
            if !server.values.game_over {
                self.start_attempt(server, input_round - 1, input_team);
            }
        }
    }

    /// Pauses the game for an administrator.
    pub fn pause(&mut self, server: &mut HQMServer, player_index: usize)
        ensures
            at(final(self)@, final(server)@) == at(old(self)@, old(server)@).pause(player_index),
            final(self).physics_configuration() == old(self).physics_configuration(),
            old(self)@.in_range() ==> final(self)@.in_range(),
    {
        if let Some(name) = server.authorise(player_index) {
            self.paused = true;
            server.say(joined("Game paused by ", name.as_str()));
        }
    }

    /// Ends a pause for an administrator.
    pub fn unpause(&mut self, server: &mut HQMServer, player_index: usize)
        ensures
            at(final(self)@, final(server)@) == at(old(self)@, old(server)@).unpause(player_index),
            final(self).physics_configuration() == old(self).physics_configuration(),
            old(self)@.in_range() ==> final(self)@.in_range(),
    {
        if let Some(name) = server.authorise(player_index) {
            self.paused = false;
            if let HQMShootoutStatus::Game { state, round, team } = self.status {
                if let HQMShootoutAttemptState::Over { timer, goal_scored } = state {
                    if timer < RESUME_TICKS {
                        self.status = HQMShootoutStatus::Game {
                            state: HQMShootoutAttemptState::Over {
                                timer: RESUME_TICKS,
                                goal_scored,
                            },
                            round,
                            team,
                        };
                    }
                }
            }
            server.say(joined("Game resumed by ", name.as_str()));
        }
    }

    /// Carries out a command. For [`HQMShootoutCommand::ForceOffIce`], gives the order that
    /// the server gets, if it gets one.
    pub fn run_command(
        &mut self,
        server: &mut HQMServer,
        command: HQMShootoutCommand,
        player_index: usize,
    ) -> (forced: Option<HQMForcedMove>)
        requires
            old(self)@.in_range(),
        ensures
            at(final(self)@, final(server)@) == at(old(self)@, old(server)@).run_command(
                command,
                player_index,
            ),
            forced_model(forced) == at(old(self)@, old(server)@).command_move(
                command,
                player_index,
            ),
            final(self).physics_configuration() == old(self).physics_configuration(),
            final(self)@.in_range(),
    {
        match command {
            HQMShootoutCommand::ResetGame => {
                self.reset_game(server, player_index);
            },
            HQMShootoutCommand::ForceOffIce { player } => {
                return self.force_player_off_ice(server, player_index, player);
            },
            HQMShootoutCommand::SetScore { team, score } => {
                self.set_score(server, team, score, player_index);
            },
            HQMShootoutCommand::SetRound { team, round } => {
                self.set_round(server, team, round, player_index);
            },
            HQMShootoutCommand::RedoRound { team, round } => {
                self.redo_round(server, team, round, player_index);
            },
            HQMShootoutCommand::Pause => {
                self.pause(server, player_index);
            },
            HQMShootoutCommand::Unpause => {
                self.unpause(server, player_index);
            },
        }
        None
    }

    /// Carries out a command word with its argument; what is no command is passed over.
    /// `named_player` is the player that the whole argument names, if it names one.
    pub fn handle_command(
        &mut self,
        server: &mut HQMServer,
        cmd: &str,
        arg: &str,
        named_player: Option<usize>,
        player_index: usize,
    ) -> (forced: Option<HQMForcedMove>)
        requires
            old(self)@.in_range(),
        ensures
            match command_of(cmd@, arg@, named_player) {
                Some(command) => {
                    &&& at(final(self)@, final(server)@) == at(
                        old(self)@,
                        old(server)@,
                    ).run_command(command, player_index)
                    &&& forced_model(forced) == at(old(self)@, old(server)@).command_move(
                        command,
                        player_index,
                    )
                },
                None => {
                    &&& *final(self) == *old(self)
                    &&& *final(server) == *old(server)
                    &&& forced is None
                },
            },
            final(self).physics_configuration() == old(self).physics_configuration(),
            final(self)@.in_range(),
    {
        match parse_command(cmd, arg, named_player) {
            Some(command) => self.run_command(server, command, player_index),
            None => None,
        }
    }

    /// Takes note that a new game has begun.
    pub fn game_started(&mut self)
        ensures
            final(self)@ == old(self)@.with_status(StatusModel::WaitingForGame),
            final(self)@ == old(self)@.restarted(),
            final(self).physics_configuration() == old(self).physics_configuration(),
            final(self)@.in_range(),
    {
        self.status = HQMShootoutStatus::WaitingForGame;
    }

    /// Takes note that a player leaves the server.
    pub fn before_player_exit(&mut self, player_index: usize)
        ensures
            final(self)@ == (ShootoutModel {
                team_switch_timer: old(self)@.team_switch_timer.remove(player_index),
                ..old(self)@
            }),
            final(self)@ == old(self)@.without_player(player_index),
            final(self).physics_configuration() == old(self).physics_configuration(),
            old(self)@.in_range() ==> final(self)@.in_range(),
    {
        self.team_switch_timer.remove(&player_index);
    }

    /// Gives the number of players that a team has.
    pub fn get_number_of_players(&self) -> (count: u32)
        ensures
            count == self@.team_max as u32,
            self@.team_max <= 0xFFFF_FFFF ==> count == self@.team_max,
    {
        self.team_max as u32
    }

    /// Tells whether the current tick belongs to a game worth recording.
    pub fn save_replay_data(&self) -> (save: bool)
        ensures
            save == (self@.status is Game),
            save == self@.is_recorded(),
    {
        match self.status {
            HQMShootoutStatus::WaitingForGame => false,
            HQMShootoutStatus::Game { .. } => true,
        }
    }
}

/// What a new game starts with.
#[derive(Debug)]
pub struct HQMInitialGameValues<P> {
    pub values: HQMGameValues,
    pub puck_slots: usize,
    pub physics_configuration: P,
}

impl<P: Clone> HQMShootoutBehaviour<P> {
    /// Gives what a new game starts with: the default values but for the clock, one puck, and
    /// the physics configuration.
    pub fn get_initial_game_values(&self, default_values: HQMGameValues) -> (initial:
        HQMInitialGameValues<P>)
        ensures
            initial.values == (HQMGameValues { time: WAITING_TICKS, ..default_values }),
            initial.values.time == 1000,
            initial.puck_slots == 1,
            cloned(self.physics_configuration(), initial.physics_configuration),
    {
        HQMInitialGameValues {
            values: HQMGameValues { time: WAITING_TICKS, ..default_values },
            puck_slots: 1,
            physics_configuration: self.physics_config.clone(),
        }
    }
}

} // verus!
