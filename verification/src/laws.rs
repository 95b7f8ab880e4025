//! What holds of every shootout.
use crate::attempt::{HQMPuckReading, HQMShootoutAttemptState, HQMSimulationEvent, OVER_TICKS};
use crate::commands::HQMShootoutCommand;
use crate::model::{
    at, ticked, MatchModel, ShootoutModel, StatusModel, ATTEMPT_TICKS, RESUME_TICKS,
};
use crate::server::{ActionModel, GameValuesModel, ServerModel};
use crate::single::is_less;
use crate::team::HQMTeam;
use vstd::prelude::*;

verus! {

// Events within one tick.

/// Once an attempt is over, no further event of the tick changes anything.
pub proof fn lemma_over_is_final(m: MatchModel, events: Seq<HQMSimulationEvent>, i: int)
    requires
        0 <= i <= events.len(),
        m.on_events(events.take(i)).attempt_over(),
    ensures
        m.on_events(events) == m.on_events(events.take(i)),
    decreases events.len() - i,
{
    if i < events.len() {
        assert(events.take(i + 1).drop_last() =~= events.take(i));
        lemma_over_is_final(m, events, i + 1);
    } else {
        assert(events.take(i) =~= events);
    }
}

/// While the game waits, events change nothing.
pub proof fn lemma_events_while_waiting(m: MatchModel, events: Seq<HQMSimulationEvent>)
    requires
        m.game.status is WaitingForGame,
    ensures
        m.on_events(events) == m,
    decreases events.len(),
{
    if events.len() > 0 {
        lemma_events_while_waiting(m, events.drop_last());
    }
}

/// Events that lead out of the range of what can be stored have just ended an attempt.
proof fn lemma_out_of_range_is_over(m: MatchModel, events: Seq<HQMSimulationEvent>)
    requires
        m.in_range(),
        !m.on_events(events).in_range(),
    ensures
        m.on_events(events).attempt_over(),
        stage(m.on_events(events))->timer == OVER_TICKS,
    decreases events.len(),
{
    if events.len() > 0 {
        if !m.on_events(events.drop_last()).in_range() {
            lemma_out_of_range_is_over(m, events.drop_last());
        }
    }
}

/// If round and scores can be stored after a tick, they can be stored after each of its
/// events.
pub proof fn lemma_events_in_range(
    m: MatchModel,
    events: Seq<HQMSimulationEvent>,
    puck: Option<HQMPuckReading>,
    i: int,
)
    requires
        m.in_range(),
        m.after_tick(events, puck).in_range(),
        0 <= i <= events.len(),
    ensures
        m.on_events(events.take(i)).in_range(),
{
    if !m.on_events(events.take(i)).in_range() {
        lemma_out_of_range_is_over(m, events.take(i));
        lemma_over_is_final(m, events, i);
    }
}

/// The stage of the current attempt.
pub open spec fn stage(m: MatchModel) -> HQMShootoutAttemptState {
    m.game.status->state
}

/// The progress that an attempt has stored, as long as it is not over.
pub open spec fn stored_progress(state: HQMShootoutAttemptState) -> Option<u32> {
    match state {
        HQMShootoutAttemptState::Attack { progress } => Some(progress),
        HQMShootoutAttemptState::NoMoreAttack { final_progress } => Some(final_progress),
        HQMShootoutAttemptState::Over { .. } => None,
    }
}

/// What a tick's events do to an attempt: round and team stay, and either it goes on,
/// with the progress it had stored and nothing else changed, or it is over.
pub proof fn lemma_events_keep_progress(m: MatchModel, events: Seq<HQMSimulationEvent>)
    requires
        m.in_game(),
    ensures
        m.on_events(events).in_game(),
        m.on_events(events).game.status->round == m.game.status->round,
        m.on_events(events).game.status->team == m.game.status->team,
        m.on_events(events).attempt_over() || {
            &&& stored_progress(stage(m.on_events(events))) == stored_progress(stage(m))
            &&& m.on_events(events) == m.with_state(stage(m.on_events(events)))
        },
    decreases events.len(),
{
    if events.len() > 0 {
        lemma_events_keep_progress(m, events.drop_last());
    }
}

/// A stopped attack does not get under way again: after any events it is still stopped,
/// with the same progress, or over.
pub proof fn lemma_stopped_stays_stopped(m: MatchModel, events: Seq<HQMSimulationEvent>)
    requires
        m.in_game(),
        stage(m) is NoMoreAttack,
    ensures
        m.on_events(events) == m || m.on_events(events).attempt_over(),
    decreases events.len(),
{
    if events.len() > 0 {
        lemma_stopped_stays_stopped(m, events.drop_last());
    }
}

// Turns.

/// The first attempt of a game is Red's of round zero.
pub proof fn lemma_red_begins(m: MatchModel)
    requires
        m.game.status is WaitingForGame,
    ensures
        m.start_next_attempt().game.status->team == HQMTeam::Red,
        m.start_next_attempt().game.status->round == 0,
        stage(m.start_next_attempt()) is Attack,
{
}

/// The teams take turns, and two turns make a round: the next attempt is the other
/// team's, and the one after it the same team's of the next round.
pub proof fn lemma_teams_take_turns(m: MatchModel)
    requires
        m.in_game(),
    ensures
        m.start_next_attempt().game.status->team == m.game.status->team.other(),
        m.start_next_attempt().start_next_attempt().game.status->team == m.game.status->team,
        m.start_next_attempt().start_next_attempt().game.status->round == m.game.status->round + 1,
{
}

// When a game is decided.

/// No team has a negative number of attempts left.
pub proof fn lemma_remaining_not_negative(game: ShootoutModel, team: HQMTeam)
    ensures
        game.remaining(team) >= 0,
{
}

/// A game that is decided stays won by the team that leads: however many of their remaining
/// attempts the teams turn into goals, that team is ahead.
pub proof fn lemma_decided_cannot_turn(
    game: ShootoutModel,
    red_score: int,
    blue_score: int,
    red_more: int,
    blue_more: int,
)
    requires
        game.decided(red_score, blue_score),
        0 <= red_more <= game.remaining(HQMTeam::Red),
        0 <= blue_more <= game.remaining(HQMTeam::Blue),
    ensures
        red_score != blue_score,
        red_score > blue_score ==> red_score + red_more > blue_score + blue_more,
        blue_score > red_score ==> blue_score + blue_more > red_score + red_more,
{
}

/// As long as a game is not decided, each team can still come to a draw at least.
pub proof fn lemma_undecided_can_turn(game: ShootoutModel, red_score: int, blue_score: int)
    requires
        !game.decided(red_score, blue_score),
    ensures
        red_score + game.remaining(HQMTeam::Red) >= blue_score,
        blue_score + game.remaining(HQMTeam::Blue) >= red_score,
{
}

/// A tied game is never over.
pub proof fn lemma_tie_goes_on(game: ShootoutModel, score: int)
    ensures
        !game.decided(score, score),
{
}

/// After the last planned round, and after each tie-breaker round, a game is over if and
/// only if one team leads.
pub proof fn lemma_full_round_decides(
    game: ShootoutModel,
    red_score: int,
    blue_score: int,
)
    requires
        game.status matches StatusModel::Game { state, round, team } && state.is_over() && team
            == HQMTeam::Blue && round + 1 >= game.attempts,
    ensures
        game.decided(red_score, blue_score) <==> red_score != blue_score,
{
}

/// In a tie-breaker round with a level score before it, Red's attempt alone decides
/// nothing: Blue may still answer.
pub proof fn lemma_blue_may_answer(game: ShootoutModel, score: int, red_scored: bool)
    requires
        game.status matches StatusModel::Game { state, round, team } && state.is_over() && team
            == HQMTeam::Red && round >= game.attempts,
    ensures
        !game.decided(
            if red_scored {
                score + 1
            } else {
                score
            },
            score,
        ),
{
}

/// When an attempt ends, the game is over if and only if it is decided.
pub proof fn lemma_end_settles_the_game(m: MatchModel, goal_scored: bool)
    requires
        m.in_game(),
    ensures
        m.end_attempt(goal_scored).server.values.game_over == m.end_attempt(
            goal_scored,
        ).game.decided(
            m.end_attempt(goal_scored).server.values.red_score,
            m.end_attempt(goal_scored).server.values.blue_score,
        ),
{
}

// Goals.

/// What the events of a tick do to the scores. Only the attacking team's score may change, by
/// one goal, and only if the puck entered the other team's net; the attempt is over
/// then, and was not before.
pub proof fn lemma_events_score(m: MatchModel, events: Seq<HQMSimulationEvent>)
    requires
        m.in_game(),
    ensures
        ({
            let team = m.game.status->team;
            let before = m.server.values;
            let after = m.on_events(events).server.values;
            &&& after.score(team.other()) == before.score(team.other())
            &&& after.score(team) == before.score(team) || {
                &&& after.score(team) == before.score(team) + 1
                &&& !m.attempt_over()
                &&& stage(m.on_events(events)) == (HQMShootoutAttemptState::Over {
                    timer: OVER_TICKS,
                    goal_scored: true,
                })
                &&& events.contains(HQMSimulationEvent::PuckEnteredNet { team: team.other() })
            }
        }),
    decreases events.len(),
{
    if events.len() > 0 {
        let earlier = events.drop_last();
        lemma_events_score(m, earlier);
        lemma_events_keep_progress(m, earlier);
        let goal = HQMSimulationEvent::PuckEnteredNet { team: m.game.status->team.other() };
        if earlier.contains(goal) {
            let k = choose|k: int| 0 <= k < earlier.len() && earlier[k] == goal;
            assert(events[k] == goal);
        }
        if events.last() == goal {
            assert(events[events.len() - 1] == goal);
        }
    }
}

/// A tick scores at most one goal, for the team whose attempt it is, and only if the puck
/// entered the other team's net. While the game waits no goal is scored.
pub proof fn lemma_tick_scores_at_most_once(
    m: MatchModel,
    events: Seq<HQMSimulationEvent>,
    puck: Option<HQMPuckReading>,
)
    ensures
        ({
            let before = m.server.values;
            let after = m.after_tick(events, puck).server.values;
            match m.game.status {
                StatusModel::WaitingForGame => {
                    &&& after.red_score == before.red_score
                    &&& after.blue_score == before.blue_score
                },
                StatusModel::Game { team, .. } => {
                    &&& after.score(team.other()) == before.score(team.other())
                    &&& after.score(team) == before.score(team) || {
                        &&& after.score(team) == before.score(team) + 1
                        &&& !m.attempt_over()
                        &&& m.after_tick(events, puck).attempt_over()
                        &&& events.contains(
                            HQMSimulationEvent::PuckEnteredNet { team: team.other() },
                        )
                    }
                },
            }
        }),
{
    if m.in_game() {
        lemma_events_score(m, events);
        lemma_events_keep_progress(m, events);
    } else {
        lemma_events_while_waiting(m, events);
    }
}

// The clock.

/// While the game waits, an attempt begins only if both teams are on the ice, the game is
/// not paused, and the clock runs out.
pub proof fn lemma_start_needs_both_teams(
    m: MatchModel,
    events: Seq<HQMSimulationEvent>,
    puck: Option<HQMPuckReading>,
)
    requires
        m.game.status is WaitingForGame,
    ensures
        m.after_tick(events, puck).in_game() <==> m.both_teams_present() && !m.game.paused
            && m.server.values.time <= 1,
{
    lemma_events_while_waiting(m, events);
}

/// In a paused game the clock stands still.
pub proof fn lemma_pause_stops_the_clock(m: MatchModel, puck: Option<HQMPuckReading>)
    requires
        m.in_game(),
        m.game.paused,
    ensures
        m.on_clock(puck) == m,
{
}

/// In a game the clock never shows zero after a tick, if it did not before it.
pub proof fn lemma_clock_never_shows_zero(
    m: MatchModel,
    events: Seq<HQMSimulationEvent>,
    puck: Option<HQMPuckReading>,
)
    requires
        m.in_game() ==> m.server.values.time > 0,
    ensures
        m.after_tick(events, puck).in_game() ==> m.after_tick(events, puck).server.values.time > 0,
{
    if m.in_game() {
        lemma_events_keep_clock(m, events);
    } else {
        lemma_events_while_waiting(m, events);
    }
}

/// Events do not touch the clock.
proof fn lemma_events_keep_clock(m: MatchModel, events: Seq<HQMSimulationEvent>)
    ensures
        m.on_events(events).server.values.time == m.server.values.time,
        m.on_events(events).game.paused == m.game.paused,
    decreases events.len(),
{
    if events.len() > 0 {
        lemma_events_keep_clock(m, events.drop_last());
    }
}

/// The reports that come with one tick.
pub struct TickModel {
    pub events: Seq<HQMSimulationEvent>,
    pub puck: Option<HQMPuckReading>,
}

/// Several ticks, one after the other.
pub open spec fn after_ticks(m: MatchModel, ticks: Seq<TickModel>) -> MatchModel
    decreases ticks.len(),
{
    if ticks.len() == 0 {
        m
    } else {
        after_ticks(m, ticks.drop_last()).after_tick(ticks.last().events, ticks.last().puck)
    }
}

/// A tick either ends an attempt under way or takes one off the clock.
proof fn lemma_live_tick(
    m: MatchModel,
    events: Seq<HQMSimulationEvent>,
    puck: Option<HQMPuckReading>,
)
    requires
        m.in_game(),
        !m.attempt_over(),
        !m.game.paused,
    ensures
        m.after_tick(events, puck).attempt_over() || {
            &&& m.after_tick(events, puck).in_game()
            &&& !m.after_tick(events, puck).game.paused
            &&& m.server.values.time > 1
            &&& m.after_tick(events, puck).server.values.time == m.server.values.time - 1
        },
{
    lemma_events_keep_clock(m, events);
    lemma_events_keep_progress(m, events);
    let after = m.on_events(events);
    if after.attempt_over() {
        lemma_newly_over(m, events);
    }
}

/// An attempt that events have ended has its whole timer left.
proof fn lemma_newly_over(m: MatchModel, events: Seq<HQMSimulationEvent>)
    requires
        m.in_game(),
        !m.attempt_over(),
        m.on_events(events).attempt_over(),
    ensures
        stage(m.on_events(events))->timer == OVER_TICKS,
    decreases events.len(),
{
    if events.len() > 0 {
        lemma_events_keep_progress(m, events.drop_last());
        if m.on_events(events.drop_last()).attempt_over() {
            lemma_newly_over(m, events.drop_last());
        }
    }
}

/// An attempt lasts no longer than the clock shows: with `n` ticks or fewer on the clock it is
/// over after at most `n` ticks (one, if the clock shows zero), whatever happens in them.
pub proof fn lemma_attempt_ends_in_time(m: MatchModel, ticks: Seq<TickModel>) -> (k: int)
    requires
        m.in_game(),
        !m.attempt_over(),
        !m.game.paused,
        ticks.len() > 0,
        m.server.values.time <= ticks.len(),
    ensures
        0 < k <= ticks.len(),
        after_ticks(m, ticks.take(k)).attempt_over(),
{
    lemma_attempt_ends_from(m, ticks, 0)
}

/// The same, with some of the ticks behind.
proof fn lemma_attempt_ends_from(m: MatchModel, ticks: Seq<TickModel>, done: int) -> (k: int)
    requires
        0 <= done < ticks.len(),
        after_ticks(m, ticks.take(done)).in_game(),
        !after_ticks(m, ticks.take(done)).attempt_over(),
        !after_ticks(m, ticks.take(done)).game.paused,
        after_ticks(m, ticks.take(done)).server.values.time <= ticks.len() - done,
    ensures
        done < k <= ticks.len(),
        after_ticks(m, ticks.take(k)).attempt_over(),
    decreases ticks.len() - done,
{
    let now = after_ticks(m, ticks.take(done));
    let tick = ticks[done];
    assert(ticks.take(done + 1).drop_last() =~= ticks.take(done));
    lemma_live_tick(now, tick.events, tick.puck);
    if now.after_tick(tick.events, tick.puck).attempt_over() {
        done + 1
    } else {
        lemma_attempt_ends_from(m, ticks, done + 1)
    }
}

/// Between attempts the timer runs down: after fewer ticks than it shows, the attempt
/// is still over, with that many ticks less; nothing else changes but for the
/// announcement of a goal.
pub proof fn lemma_over_counts_down(m: MatchModel, ticks: Seq<TickModel>)
    requires
        m.attempt_over(),
        !m.game.paused,
        ticks.len() < stage(m)->timer,
    ensures
        after_ticks(m, ticks).game == m.game.with_state(
            HQMShootoutAttemptState::Over {
                timer: (stage(m)->timer - ticks.len()) as u32,
                goal_scored: stage(m)->goal_scored,
            },
        ),
        after_ticks(m, ticks).server.actions == m.server.actions,
        after_ticks(m, ticks).server.players == m.server.players,
        after_ticks(m, ticks).server.values.red_score == m.server.values.red_score,
        after_ticks(m, ticks).server.values.blue_score == m.server.values.blue_score,
        after_ticks(m, ticks).server.values.game_over == m.server.values.game_over,
    decreases ticks.len(),
{
    if ticks.len() > 0 {
        lemma_over_counts_down(m, ticks.drop_last());
        let now = after_ticks(m, ticks.drop_last());
        let events = ticks.last().events;
        assert(events.take(0) =~= Seq::<HQMSimulationEvent>::empty());
        assert(now.on_events(events.take(0)) == now);
        lemma_over_is_final(now, events, 0);
    }
}

/// When the timer runs out, a game that is over makes way for a new one, and in a game that
/// goes on the next attempt begins.
pub proof fn lemma_over_leads_on(m: MatchModel, ticks: Seq<TickModel>)
    requires
        m.attempt_over(),
        !m.game.paused,
        ticks.len() > 0,
        ticks.len() == stage(m)->timer,
    ensures
        m.server.values.game_over ==> after_ticks(m, ticks).server.actions
            == m.server.actions.push(ActionModel::NewGame),
        !m.server.values.game_over ==> {
            &&& stage(after_ticks(m, ticks)) is Attack
            &&& after_ticks(m, ticks).game.status->team == m.game.status->team.other()
            &&& after_ticks(m, ticks).server.values.time == ATTEMPT_TICKS
        },
{
    lemma_over_counts_down(m, ticks.drop_last());
    let now = after_ticks(m, ticks.drop_last());
    let events = ticks.last().events;
    assert(events.take(0) =~= Seq::<HQMSimulationEvent>::empty());
    assert(now.on_events(events.take(0)) == now);
    lemma_over_is_final(now, events, 0);
}

/// The progress that an attempt has stored only ever grows: a tick that does not end the
/// attempt leaves it, or makes it the greater progress that was read.
pub proof fn lemma_progress_only_grows(
    m: MatchModel,
    events: Seq<HQMSimulationEvent>,
    puck: Option<HQMPuckReading>,
)
    requires
        m.in_game(),
        !m.attempt_over(),
        m.after_tick(events, puck).in_game(),
        !m.after_tick(events, puck).attempt_over(),
    ensures
        ({
            let before = stored_progress(stage(m))->0;
            let after = stored_progress(stage(m.after_tick(events, puck)))->0;
            after == before || (puck matches Some(reading) && after == reading.progress
                && is_less(before, after))
        }),
{
    lemma_events_keep_progress(m, events);
    lemma_events_keep_clock(m, events);
    if m.on_events(events).attempt_over() {
        lemma_newly_over(m, events);
    }
}

// Commands.

/// A player who is no administrator changes nothing by a command: at most the player is told
/// so, and the server gets no order.
pub proof fn lemma_commands_are_for_admins(
    m: MatchModel,
    command: HQMShootoutCommand,
    player: usize,
)
    requires
        !m.is_admin(player),
    ensures
        m.run_command(command, player) == m || m.run_command(command, player) == m.act(
            ActionModel::AdminDeny { player },
        ),
        m.command_move(command, player) is None,
{
}

/// A command of someone who is not there has no effect at all.
pub proof fn lemma_commands_need_a_player(
    m: MatchModel,
    command: HQMShootoutCommand,
    player: usize,
)
    requires
        m.server.player(player) is None,
    ensures
        m.run_command(command, player) == m,
        m.command_move(command, player) is None,
{
}

/// A pause that is ended leaves the game as it was, but that at least [`RESUME_TICKS`] remain
/// before it goes on after an attempt; the game values are as they were.
pub proof fn lemma_pause_and_resume(m: MatchModel, player: usize)
    requires
        m.is_admin(player),
        !m.game.paused,
    ensures
        m.pause(player).game == (ShootoutModel { paused: true, ..m.game }),
        m.pause(player).unpause(player).server.values == m.server.values,
        !m.attempt_over() ==> m.pause(player).unpause(player).game == m.game,
        m.attempt_over() ==> {
            let timer = stage(m)->timer;
            m.pause(player).unpause(player).game == m.game.with_state(
                HQMShootoutAttemptState::Over {
                    timer: if timer >= RESUME_TICKS {
                        timer
                    } else {
                        RESUME_TICKS
                    },
                    goal_scored: stage(m)->goal_scored,
                },
            )
        },
{
}

/// A score that an administrator sets is the score of that team, and of that team alone.
pub proof fn lemma_set_score_sets(m: MatchModel, team: HQMTeam, score: int, player: usize)
    requires
        m.is_admin(player),
    ensures
        m.set_score(team, score, player).server.values.score(team) == score,
        m.set_score(team, score, player).server.values.score(team.other())
            == m.server.values.score(team.other()),
        m.set_score(team, score, player).game == m.game,
{
}

/// After an administrator has had an attempt taken again, either the game is over or that
/// attempt is under way, and no pause holds it up.
pub proof fn lemma_redo_begins_the_attempt(
    m: MatchModel,
    team: HQMTeam,
    round: int,
    player: usize,
)
    requires
        m.is_admin(player),
        round > 0,
    ensures
        ({
            let after = m.redo_round(team, round, player);
            &&& !after.game.paused
            &&& after.server.values.game_over || {
                &&& stage(after) is Attack
                &&& after.game.status->round == round - 1
                &&& after.game.status->team == team
                &&& after.server.values.time == ATTEMPT_TICKS
            }
        }),
{
}

// What the game mode leaves alone.

/// The server's players and names are as before, and what it was asked to do it is still
/// asked to do, in the same order.
pub open spec fn only_adds(before: ServerModel, after: ServerModel) -> bool {
    &&& after.players == before.players
    &&& after.team_names == before.team_names
    &&& before.actions.is_prefix_of(after.actions)
}

/// An attempt that begins only adds to what the server is asked to do.
proof fn lemma_start_only_adds(m: MatchModel, round: int, team: HQMTeam)
    ensures
        only_adds(m.server, m.start_attempt(round, team).server),
{
}

/// Events only add to what the server is asked to do.
proof fn lemma_events_only_add(m: MatchModel, events: Seq<HQMSimulationEvent>)
    ensures
        only_adds(m.server, m.on_events(events).server),
    decreases events.len(),
{
    if events.len() > 0 {
        lemma_events_only_add(m, events.drop_last());
    }
}

/// A tick of the clock only adds to what the server is asked to do.
proof fn lemma_clock_only_adds(m: MatchModel, puck: Option<HQMPuckReading>)
    ensures
        only_adds(m.server, m.on_clock(puck).server),
{
    match m.game.status {
        StatusModel::WaitingForGame => {
            let values = m.server.values;
            let counted = m.with_values(GameValuesModel { time: ticked(values.time), ..values });
            lemma_start_only_adds(counted, 0, HQMTeam::Red);
        },
        StatusModel::Game { state, round, team } => {
            if let HQMShootoutAttemptState::Over { timer, goal_scored } = state {
                let counted = m.with_state(
                    HQMShootoutAttemptState::Over { timer: ticked(timer), goal_scored },
                ).with_values(
                    GameValuesModel {
                        goal_message_timer: if goal_scored {
                            ticked(timer)
                        } else {
                            0
                        },
                        ..m.server.values
                    },
                );
                lemma_start_only_adds(counted, round, HQMTeam::Blue);
                lemma_start_only_adds(counted, round + 1, HQMTeam::Red);
            }
        },
    }
}

/// A tick does not change the players or the names of the teams, and takes back nothing that
/// the server was asked to do.
pub proof fn lemma_tick_only_adds(
    m: MatchModel,
    events: Seq<HQMSimulationEvent>,
    puck: Option<HQMPuckReading>,
)
    ensures
        only_adds(m.server, m.after_tick(events, puck).server),
{
    lemma_events_only_add(m, events);
    lemma_clock_only_adds(m.on_events(events), puck);
}

/// Neither does the beginning of a tick, nor a command.
pub proof fn lemma_players_and_commands_only_add(
    m: MatchModel,
    command: HQMShootoutCommand,
    player: usize,
)
    ensures
        only_adds(m.server, m.update_players().server),
        only_adds(m.server, m.run_command(command, player).server),
{
    if let HQMShootoutCommand::RedoRound { team, round } = command {
        let judged = m.relabelled(round - 1, team).say(
            m.round_message(team, round as int, player),
        ).update_gameover();
        lemma_start_only_adds(
            at(ShootoutModel { paused: false, ..judged.game }, judged.server),
            round - 1,
            team,
        );
    }
}

/// Number of attempts and size of the teams stay as they were set.
pub proof fn lemma_settings_stay(
    m: MatchModel,
    events: Seq<HQMSimulationEvent>,
    puck: Option<HQMPuckReading>,
    command: HQMShootoutCommand,
    player: usize,
)
    ensures
        m.after_tick(events, puck).game.attempts == m.game.attempts,
        m.after_tick(events, puck).game.team_max == m.game.team_max,
        m.update_players().game.attempts == m.game.attempts,
        m.update_players().game.team_max == m.game.team_max,
        m.run_command(command, player).game.attempts == m.game.attempts,
        m.run_command(command, player).game.team_max == m.game.team_max,
{
    lemma_events_keep_settings(m, events);
}

/// Events do not touch them.
proof fn lemma_events_keep_settings(m: MatchModel, events: Seq<HQMSimulationEvent>)
    ensures
        m.on_events(events).game.attempts == m.game.attempts,
        m.on_events(events).game.team_max == m.game.team_max,
    decreases events.len(),
{
    if events.len() > 0 {
        lemma_events_keep_settings(m, events.drop_last());
    }
}

} // verus!
