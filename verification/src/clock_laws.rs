//! What a tick of the clock does: before a game, during an attempt, and between attempts.
use crate::attempt::{HQMClockOutcome, HQMPuckReading, HQMShootoutAttemptState, HQMSimulationEvent};
use crate::attempt_laws::{
    lemma_attempt_ends_as_told, lemma_events_before_clock, lemma_nothing_to_judge, missed,
    progress_of,
};
use crate::laws::{after_ticks, TickModel};
use crate::model::{MatchModel, ShootoutModel, StatusModel};
use crate::server::{
    lemma_skaters_counted, skaters_before, ActionModel, GameValuesModel, PlayerModel, ServerModel,
};
use crate::single::{is_number, lemma_constants_are_meant, value};
use crate::team::HQMTeam;
use vstd::arithmetic::power2::pow2;
use vstd::prelude::*;

verus! {

/// A player of a list has a skater in a team.
pub open spec fn has_skater(players: Seq<PlayerModel>, team: HQMTeam) -> bool {
    exists|k: int| 0 <= k < players.len() && (#[trigger] players[k]).team == Some(team)
}

/// The list of a team's skaters is empty exactly if no player has one.
proof fn lemma_has_skater(players: Seq<PlayerModel>, team: HQMTeam)
    ensures
        has_skater(players, team) <==> crate::server::skaters_of(players, team).len() > 0,
{
    lemma_skaters_counted(players, team);
    if has_skater(players, team) {
        let k = choose|k: int| 0 <= k < players.len() && (#[trigger] players[k]).team == Some(team);
        lemma_counted_if_there(players, team, k, players.len() as int);
    } else {
        lemma_not_counted(players, team, players.len() as int);
    }
}

proof fn lemma_counted_if_there(players: Seq<PlayerModel>, team: HQMTeam, k: int, n: int)
    requires
        0 <= k < n <= players.len(),
        players[k].team == Some(team),
    ensures
        skaters_before(players, team, n) > 0,
    decreases n,
{
    lemma_count_not_negative(players, team, n - 1);
    if k < n - 1 {
        lemma_counted_if_there(players, team, k, n - 1);
    }
}

proof fn lemma_count_not_negative(players: Seq<PlayerModel>, team: HQMTeam, n: int)
    requires
        0 <= n <= players.len(),
    ensures
        skaters_before(players, team, n) >= 0,
    decreases n,
{
    if n > 0 {
        lemma_count_not_negative(players, team, n - 1);
    }
}

proof fn lemma_not_counted(players: Seq<PlayerModel>, team: HQMTeam, n: int)
    requires
        0 <= n <= players.len(),
        !has_skater(players, team),
    ensures
        skaters_before(players, team, n) == 0,
    decreases n,
{
    if n > 0 {
        lemma_not_counted(players, team, n - 1);
        assert(players[n - 1].team != Some(team));
    }
}

/// The same pair with another time on the clock.
pub open spec fn showing(m: MatchModel, time: u32) -> MatchModel {
    MatchModel {
        server: ServerModel {
            values: GameValuesModel { time, ..m.server.values },
            ..m.server
        },
        ..m
    }
}

/// A waiting game with both teams on the ice and more than one tick on the clock: a tick takes
/// one off the clock and does nothing else.
pub proof fn lemma_waiting_counts_down(
    m: MatchModel,
    events: Seq<HQMSimulationEvent>,
    puck: Option<HQMPuckReading>,
)
    requires
        m.game.status is WaitingForGame,
        !m.game.paused,
        has_skater(m.server.players, HQMTeam::Red),
        has_skater(m.server.players, HQMTeam::Blue),
        m.server.values.time > 1,
    ensures
        m.after_tick(events, puck) == showing(m, (m.server.values.time - 1) as u32),
{
    lemma_has_skater(m.server.players, HQMTeam::Red);
    lemma_has_skater(m.server.players, HQMTeam::Blue);
    lemma_nothing_to_judge(m, events);
}

/// A waiting game with both teams on the ice and at most one tick on the clock: Red's attempt of
/// round zero begins.
pub proof fn lemma_waiting_ends(
    m: MatchModel,
    events: Seq<HQMSimulationEvent>,
    puck: Option<HQMPuckReading>,
)
    requires
        m.game.status is WaitingForGame,
        !m.game.paused,
        has_skater(m.server.players, HQMTeam::Red),
        has_skater(m.server.players, HQMTeam::Blue),
        m.server.values.time <= 1,
    ensures
        m.after_tick(events, puck) == m.start_attempt(0, HQMTeam::Red),
        m.after_tick(events, puck).game.status == (StatusModel::Game {
            state: HQMShootoutAttemptState::Attack { progress: 0 },
            round: 0,
            team: HQMTeam::Red,
        }),
        m.after_tick(events, puck).server.values.time == 2000,
{
    lemma_has_skater(m.server.players, HQMTeam::Red);
    lemma_has_skater(m.server.players, HQMTeam::Blue);
    lemma_nothing_to_judge(m, events);
}

/// A waiting game that is paused, or in which a team is missing: the clock is set back to the
/// full waiting time, and nothing else happens.
pub proof fn lemma_waiting_is_held_up(
    m: MatchModel,
    events: Seq<HQMSimulationEvent>,
    puck: Option<HQMPuckReading>,
)
    requires
        m.game.status is WaitingForGame,
        m.game.paused || !has_skater(m.server.players, HQMTeam::Red) || !has_skater(
            m.server.players,
            HQMTeam::Blue,
        ),
    ensures
        m.after_tick(events, puck) == showing(m, 1000),
{
    lemma_has_skater(m.server.players, HQMTeam::Red);
    lemma_has_skater(m.server.players, HQMTeam::Blue);
    lemma_nothing_to_judge(m, events);
}

/// A waiting game with both teams on the ice and `n` ticks on the clock still waits after fewer
/// ticks, with as many ticks less on the clock, and after exactly `n` is in Red's attempt of
/// round zero.
pub proof fn lemma_game_starts_in_time(m: MatchModel, ticks: Seq<TickModel>)
    requires
        m.game.status is WaitingForGame,
        !m.game.paused,
        has_skater(m.server.players, HQMTeam::Red),
        has_skater(m.server.players, HQMTeam::Blue),
        m.server.values.time > 0,
        ticks.len() <= m.server.values.time,
    ensures
        ticks.len() < m.server.values.time ==> after_ticks(m, ticks) == showing(
            m,
            (m.server.values.time - ticks.len()) as u32,
        ),
        ticks.len() == m.server.values.time ==> after_ticks(m, ticks).game.status == (
        StatusModel::Game {
            state: HQMShootoutAttemptState::Attack { progress: 0 },
            round: 0,
            team: HQMTeam::Red,
        }),
    decreases ticks.len(),
{
    if ticks.len() > 0 {
        lemma_game_starts_in_time(m, ticks.drop_last());
        let now = after_ticks(m, ticks.drop_last());
        let tick = ticks.last();
        if now.server.values.time > 1 {
            lemma_waiting_counts_down(now, tick.events, tick.puck);
        } else {
            lemma_waiting_ends(now, tick.events, tick.puck);
        }
    }
}

/// Time is up: with at most one tick on the clock an attempt under way ends without a goal,
/// whatever the puck does, and the clock shows one.
pub proof fn lemma_time_is_up(m: MatchModel, puck: Option<HQMPuckReading>)
    requires
        m.in_game(),
        !m.attempt_over(),
        !m.game.paused,
        m.server.values.time <= 1,
    ensures
        missed(showing(m, 1), m.on_clock(puck)),
{
    lemma_attempt_ends_as_told(showing(m, 1));
}

/// With time left and no puck on the ice, a tick takes one off the clock and does nothing else.
pub proof fn lemma_time_runs(m: MatchModel)
    requires
        m.in_game(),
        !m.attempt_over(),
        !m.game.paused,
        m.server.values.time > 1,
    ensures
        m.on_clock(None) == showing(m, (m.server.values.time - 1) as u32),
{
}

/// One number lies further than a distance, given as a fraction, below zero.
pub open spec fn below(bits: u32, numerator: int, denominator: int) -> bool {
    is_number(bits) && denominator * value(bits) < -numerator * pow2(149)
}

/// The two distances that the game knows.
proof fn lemma_below(bits: u32)
    ensures
        below(bits, 1, 2) <==> is_number(bits) && 2 * value(bits) < -pow2(149),
        below(bits, 5, 1) <==> is_number(bits) && value(bits) < -5 * pow2(149),
{
    assert(-1 * pow2(149) == -pow2(149));
    assert(1 * value(bits) == value(bits));
}

/// With time left, an attack goes on with the greater progress if the puck has come further than
/// ever; if it has not, it is given up, without a goal, exactly if the change from the stored
/// progress is more than one half backwards; else nothing happens but that the clock runs.
pub proof fn lemma_attack_is_judged(
    m: MatchModel,
    progress: u32,
    round: int,
    team: HQMTeam,
    reading: HQMPuckReading,
)
    requires
        m.game.status == (StatusModel::Game {
            state: HQMShootoutAttemptState::Attack { progress },
            round,
            team,
        }),
        !m.game.paused,
        m.server.values.time > 1,
    ensures
        ({
            let counted = showing(m, (m.server.values.time - 1) as u32);
            let after = m.on_clock(Some(reading));
            let further = is_number(progress) && is_number(reading.progress) && value(progress)
                < value(reading.progress);
            &&& further ==> after == (MatchModel {
                game: ShootoutModel {
                    status: StatusModel::Game {
                        state: HQMShootoutAttemptState::Attack { progress: reading.progress },
                        round,
                        team,
                    },
                    ..m.game
                },
                ..counted
            })
            &&& !further && below(reading.change, 1, 2) ==> missed(counted, after)
            &&& !further && !below(reading.change, 1, 2) ==> after == counted
        }),
{
    lemma_constants_are_meant(pow2(149) as int);
    lemma_attempt_ends_as_told(showing(m, (m.server.values.time - 1) as u32));
    assert(is_number(crate::single::MINUS_HALF));
}

/// With time left, an attempt whose attack was stopped ends, without a goal, exactly if the change
/// from the stored progress is more than five backwards; else nothing happens but that the
/// clock runs.
pub proof fn lemma_stopped_is_judged(
    m: MatchModel,
    final_progress: u32,
    round: int,
    team: HQMTeam,
    reading: HQMPuckReading,
)
    requires
        m.game.status == (StatusModel::Game {
            state: HQMShootoutAttemptState::NoMoreAttack { final_progress },
            round,
            team,
        }),
        !m.game.paused,
        m.server.values.time > 1,
    ensures
        ({
            let counted = showing(m, (m.server.values.time - 1) as u32);
            let after = m.on_clock(Some(reading));
            &&& below(reading.change, 5, 1) ==> missed(counted, after)
            &&& !below(reading.change, 5, 1) ==> after == counted
        }),
{
    lemma_constants_are_meant(pow2(149) as int);
    lemma_attempt_ends_as_told(showing(m, (m.server.values.time - 1) as u32));
    assert(is_number(crate::single::MINUS_FIVE));
}

/// A reading whose change is the progress read less the progress stored.
pub open spec fn is_measured_from(reading: HQMPuckReading, stored: u32) -> bool {
    &&& is_number(stored)
    &&& is_number(reading.progress)
    &&& is_number(reading.change)
    &&& value(reading.change) == value(reading.progress) - value(stored)
}

/// What counts is the distance from the stored progress, wherever on the ice that is: with time
/// left, a stopped attempt is over after a tick exactly if the puck is more than five behind the
/// place where the attack was stopped, and an attack exactly if it is more than one half behind
/// its best place.
#[verifier::spinoff_prover]
pub proof fn lemma_distance_from_stored_progress_counts(
    m: MatchModel,
    state: HQMShootoutAttemptState,
    round: int,
    team: HQMTeam,
    reading: HQMPuckReading,
)
    requires
        m.game.status == (StatusModel::Game { state, round, team }),
        !(state is Over),
        !m.game.paused,
        m.server.values.time > 1,
        is_measured_from(reading, progress_of(state)),
    ensures
        state is NoMoreAttack ==> (m.on_clock(Some(reading)).attempt_over() <==> value(
            reading.progress,
        ) < value(progress_of(state)) - 5 * pow2(149)),
        state is Attack ==> (m.on_clock(Some(reading)).attempt_over() <==> 2 * value(
            reading.progress,
        ) < 2 * value(progress_of(state)) - pow2(149)),
        state is Attack && !m.on_clock(Some(reading)).attempt_over() ==> progress_of(
            m.on_clock(Some(reading)).game.status->state,
        ) == (if value(reading.progress) > value(progress_of(state)) {
            reading.progress
        } else {
            progress_of(state)
        }),
{
    vstd::arithmetic::power2::lemma_pow2_pos(149);
    lemma_below(reading.change);
    let counted = showing(m, (m.server.values.time - 1) as u32);
    let after = m.on_clock(Some(reading));
    assert(counted.game.status == m.game.status);
    match state {
        HQMShootoutAttemptState::Attack { progress } => {
            lemma_attack_is_judged(m, progress, round, team, reading);
            if value(progress) < value(reading.progress) {
                assert(!after.attempt_over());
            } else if below(reading.change, 1, 2) {
                assert(missed(counted, after));
                assert(after.attempt_over());
            } else {
                assert(after == counted);
                assert(!after.attempt_over());
            }
        },
        HQMShootoutAttemptState::NoMoreAttack { final_progress } => {
            lemma_stopped_is_judged(m, final_progress, round, team, reading);
            if below(reading.change, 5, 1) {
                assert(missed(counted, after));
                assert(after.attempt_over());
            } else {
                assert(after == counted);
                assert(!after.attempt_over());
            }
        },
        HQMShootoutAttemptState::Over { .. } => {},
    }
}

/// The decision that is made on the puck of a stopped attempt depends on the change alone: two
/// readings with the same change get the same answer.
pub proof fn lemma_stopped_goes_by_change(
    final_progress: u32,
    other_progress: u32,
    time: u32,
    reading: HQMPuckReading,
    other: HQMPuckReading,
)
    requires
        reading.change == other.change,
    ensures
        (HQMShootoutAttemptState::NoMoreAttack { final_progress }).clock_outcome(
            time,
            Some(reading),
        ) == (HQMShootoutAttemptState::NoMoreAttack {
            final_progress: other_progress,
        }).clock_outcome(time, Some(other)),
        time > 1 ==> ((HQMShootoutAttemptState::NoMoreAttack { final_progress }).clock_outcome(
            time,
            Some(reading),
        ) == HQMClockOutcome::TooFarBack <==> below(reading.change, 5, 1)),
{
    lemma_constants_are_meant(pow2(149) as int);
    assert(is_number(crate::single::MINUS_FIVE));
}

/// Between attempts, with more than one tick before the game goes on: a tick takes one off, a
/// goal, if there was one, is announced for as long, and nothing else happens.
pub proof fn lemma_break_counts_down(
    m: MatchModel,
    timer: u32,
    goal_scored: bool,
    round: int,
    team: HQMTeam,
    puck: Option<HQMPuckReading>,
)
    requires
        m.game.status == (StatusModel::Game {
            state: HQMShootoutAttemptState::Over { timer, goal_scored },
            round,
            team,
        }),
        !m.game.paused,
        timer > 1,
    ensures
        m.on_clock(puck) == (MatchModel {
            game: ShootoutModel {
                status: StatusModel::Game {
                    state: HQMShootoutAttemptState::Over { timer: (timer - 1) as u32, goal_scored },
                    round,
                    team,
                },
                ..m.game
            },
            server: ServerModel {
                values: GameValuesModel {
                    goal_message_timer: if goal_scored {
                        (timer - 1) as u32
                    } else {
                        0
                    },
                    ..m.server.values
                },
                ..m.server
            },
        }),
{
}

/// Between attempts, with at most one tick left: if the game is over a new one is asked for, and
/// nothing else; if it is not, the next attempt begins, Blue's of the same round after Red's and
/// Red's of the next round after Blue's, as it would have begun by itself.
pub proof fn lemma_break_ends(
    m: MatchModel,
    timer: u32,
    goal_scored: bool,
    round: int,
    team: HQMTeam,
    puck: Option<HQMPuckReading>,
)
    requires
        m.game.status == (StatusModel::Game {
            state: HQMShootoutAttemptState::Over { timer, goal_scored },
            round,
            team,
        }),
        !m.game.paused,
        timer <= 1,
    ensures
        m.server.values.game_over ==> m.on_clock(puck) == (MatchModel {
            game: ShootoutModel {
                status: StatusModel::Game {
                    state: HQMShootoutAttemptState::Over { timer: 0, goal_scored },
                    round,
                    team,
                },
                ..m.game
            },
            server: ServerModel {
                values: GameValuesModel { goal_message_timer: 0, ..m.server.values },
                actions: m.server.actions.push(ActionModel::NewGame),
                ..m.server
            },
        }),
        !m.server.values.game_over && team == HQMTeam::Red ==> m.on_clock(puck)
            == m.start_attempt(round, HQMTeam::Blue),
        !m.server.values.game_over && team == HQMTeam::Blue ==> m.on_clock(puck)
            == m.start_attempt(round + 1, HQMTeam::Red),
{
}

/// In a paused game a tick is what its events make of it, and without events nothing.
pub proof fn lemma_pause_leaves_events(
    m: MatchModel,
    events: Seq<HQMSimulationEvent>,
    puck: Option<HQMPuckReading>,
)
    requires
        m.in_game(),
        m.game.paused,
    ensures
        m.after_tick(events, puck) == m.on_events(events),
        m.after_tick(seq![], puck) == m,
{
    lemma_events_before_clock(m, events, puck);
    lemma_events_before_clock(m, seq![], puck);
}

/// Every decision on a tick, whatever the stage: without time the time is up; with time there is
/// nothing to decide without a puck or once the attempt is over; an attack advances if the puck has
/// come further than ever, and is given up if it has not and the change is more than one half
/// backwards; an attempt whose attack was stopped ends if the change is more than five backwards.
pub proof fn lemma_decisions_on_ticks(
    state: HQMShootoutAttemptState,
    time: u32,
    reading: HQMPuckReading,
    puck: Option<HQMPuckReading>,
)
    ensures
        state.clock_outcome(time, puck) == HQMClockOutcome::TimeUp <==> time == 0 || time == 1,
        time > 1 ==> state.clock_outcome(time, None) == HQMClockOutcome::Unchanged,
        time > 1 ==> match state {
            HQMShootoutAttemptState::Attack { progress } => {
                let outcome = state.clock_outcome(time, Some(reading));
                let further = is_number(progress) && is_number(reading.progress) && value(progress)
                    < value(reading.progress);
                &&& outcome == (HQMClockOutcome::Advanced { progress: reading.progress })
                    <==> further
                &&& outcome == HQMClockOutcome::TooFarBack <==> !further && below(
                    reading.change,
                    1,
                    2,
                )
                &&& outcome == HQMClockOutcome::Unchanged <==> !further && !below(
                    reading.change,
                    1,
                    2,
                )
            },
            HQMShootoutAttemptState::NoMoreAttack { .. } => {
                let outcome = state.clock_outcome(time, Some(reading));
                &&& outcome == HQMClockOutcome::TooFarBack <==> below(reading.change, 5, 1)
                &&& outcome == HQMClockOutcome::Unchanged <==> !below(reading.change, 5, 1)
            },
            HQMShootoutAttemptState::Over { .. } => state.clock_outcome(time, puck)
                == HQMClockOutcome::Unchanged,
        },
{
    lemma_constants_are_meant(pow2(149) as int);
    lemma_below(reading.change);
    assert(is_number(crate::single::MINUS_HALF));
    assert(is_number(crate::single::MINUS_FIVE));
}

} // verus!
