//! What the events of a tick mean for an attempt, and what the end of an attempt brings.
use crate::attempt::{HQMPuckReading, HQMShootoutAttemptState, HQMSimulationEvent};
use crate::laws::lemma_over_is_final;
use crate::model::{MatchModel, ShootoutModel, StatusModel};
use crate::server::{ActionModel, GameValuesModel, ServerModel};
use crate::team::HQMTeam;
use vstd::prelude::*;

verus! {

/// One team with more goals to come finishes ahead of another with more goals to come.
pub open spec fn finishes_ahead(
    mine: int,
    mine_to_come: int,
    theirs: int,
    theirs_to_come: int,
) -> bool {
    mine + mine_to_come > theirs + theirs_to_come
}

/// However many of their remaining attempts the teams turn into goals, it is the same team that
/// finishes ahead.
pub open spec fn settled(red: int, red_left: int, blue: int, blue_left: int) -> bool {
    ||| forall|r: int, b: int|
        0 <= r <= red_left && 0 <= b <= blue_left ==> #[trigger] finishes_ahead(red, r, blue, b)
    ||| forall|r: int, b: int|
        0 <= r <= red_left && 0 <= b <= blue_left ==> #[trigger] finishes_ahead(blue, b, red, r)
}

/// A game is settled, with `red_taken` and `blue_taken` attempts taken of at least `attempts`
/// for each team.
pub open spec fn settled_after(
    attempts: int,
    red_taken: int,
    blue_taken: int,
    red: int,
    blue: int,
) -> bool {
    let total = if attempts > red_taken {
        attempts
    } else {
        red_taken
    };
    settled(red, total - red_taken, blue, total - blue_taken)
}

/// The same by comparing the lead with what is left.
pub proof fn lemma_settled_by_lead(red: int, red_left: int, blue: int, blue_left: int)
    requires
        red_left >= 0,
        blue_left >= 0,
    ensures
        settled(red, red_left, blue, blue_left) <==> (red > blue + blue_left || blue > red
            + red_left),
{
    if settled(red, red_left, blue, blue_left) {
        assert(finishes_ahead(red, 0, blue, blue_left) || finishes_ahead(blue, 0, red, red_left));
    }
}

/// An attempt ends without a goal: this is announced, the scores stay, and the game is over if
/// it is settled with this attempt behind.
pub open spec fn missed(before: MatchModel, after: MatchModel) -> bool {
    before.game.status matches StatusModel::Game { round, team, .. } && after == (MatchModel {
        game: ShootoutModel {
            status: StatusModel::Game {
                state: HQMShootoutAttemptState::Over { timer: 500, goal_scored: false },
                round,
                team,
            },
            ..before.game
        },
        server: ServerModel {
            values: GameValuesModel {
                game_over: settled_after(
                    before.game.attempts,
                    round + 1,
                    if team == HQMTeam::Blue {
                        round + 1
                    } else {
                        round
                    },
                    before.server.values.red_score,
                    before.server.values.blue_score,
                ),
                ..before.server.values
            },
            actions: before.server.actions.push(ActionModel::ServerChat { text: "Miss"@ }),
            ..before.server
        },
    })
}

/// An attempt ends with a goal: the team that takes it, and no other, has one goal more, this is
/// announced, and the game is over if it is settled with this attempt behind.
pub open spec fn scored(before: MatchModel, after: MatchModel) -> bool {
    before.game.status matches StatusModel::Game { round, team, .. } && ({
        let red = before.server.values.red_score + (if team == HQMTeam::Red {
            1int
        } else {
            0int
        });
        let blue = before.server.values.blue_score + (if team == HQMTeam::Blue {
            1int
        } else {
            0int
        });
        after == (MatchModel {
            game: ShootoutModel {
                status: StatusModel::Game {
                    state: HQMShootoutAttemptState::Over { timer: 500, goal_scored: true },
                    round,
                    team,
                },
                ..before.game
            },
            server: ServerModel {
                values: GameValuesModel {
                    red_score: red,
                    blue_score: blue,
                    game_over: settled_after(
                        before.game.attempts,
                        round + 1,
                        if team == HQMTeam::Blue {
                            round + 1
                        } else {
                            round
                        },
                        red,
                        blue,
                    ),
                    ..before.server.values
                },
                actions: before.server.actions.push(ActionModel::GoalMessage { team }),
                ..before.server
            },
        })
    })
}

/// Ending an attempt counts as a goal or as a miss, as it is told.
pub proof fn lemma_attempt_ends_as_told(m: MatchModel)
    requires
        m.in_game(),
    ensures
        missed(m, m.end_attempt(false)),
        scored(m, m.end_attempt(true)),
{
    let attempts = m.game.attempts;
    let round = m.game.status->round;
    let team = m.game.status->team;
    let values = m.server.values;
    let total = if attempts > round + 1 {
        attempts
    } else {
        round + 1
    };
    let blue_left = if team == HQMTeam::Blue {
        total - (round + 1)
    } else {
        total - round
    };
    let red = values.red_score + (if team == HQMTeam::Red {
        1int
    } else {
        0int
    });
    let blue = values.blue_score + (if team == HQMTeam::Blue {
        1int
    } else {
        0int
    });
    lemma_settled_by_lead(values.red_score, total - (round + 1), values.blue_score, blue_left);
    lemma_settled_by_lead(red, total - (round + 1), blue, blue_left);
    assert(missed(m, m.end_attempt(false)));
    assert(scored(m, m.end_attempt(true)));
}

/// An event that stops the attack of a team: a touch by the other team, or the frame of the
/// other team's net.
pub open spec fn stops(event: HQMSimulationEvent, team: HQMTeam) -> bool {
    match event {
        HQMSimulationEvent::PuckTouch { touching_team: Some(toucher) } => toucher != team,
        HQMSimulationEvent::PuckTouchedNet { team: net } => net != team,
        _ => false,
    }
}

/// The attack of a team is stopped before the event at a place: it was so at the start, or an
/// earlier event did it.
pub open spec fn stopped_before(
    state: HQMShootoutAttemptState,
    team: HQMTeam,
    events: Seq<HQMSimulationEvent>,
    i: int,
) -> bool {
    ||| state is NoMoreAttack
    ||| exists|k: int| 0 <= k < i && #[trigger] stops(events[k], team)
}

/// The event at a place ends an attempt of a team that is under way: the puck is in a net or
/// over a goal line, or the team touches it after its attack was stopped.
pub open spec fn ends_at(
    state: HQMShootoutAttemptState,
    team: HQMTeam,
    events: Seq<HQMSimulationEvent>,
    i: int,
) -> bool {
    match events[i] {
        HQMSimulationEvent::PuckEnteredNet { .. } => true,
        HQMSimulationEvent::PuckPassedGoalLine => true,
        HQMSimulationEvent::PuckTouch { touching_team } => touching_team == Some(team)
            && stopped_before(state, team, events, i),
        _ => false,
    }
}

/// The event at a place is a goal of a team: the puck is in the net of another team.
pub open spec fn is_goal(
    team: HQMTeam,
    events: Seq<HQMSimulationEvent>,
    i: int,
) -> bool {
    events[i] matches HQMSimulationEvent::PuckEnteredNet { team: net } && net != team
}

/// The progress stored in an attempt that is not over.
pub open spec fn progress_of(state: HQMShootoutAttemptState) -> u32 {
    match state {
        HQMShootoutAttemptState::Attack { progress } => progress,
        HQMShootoutAttemptState::NoMoreAttack { final_progress } => final_progress,
        HQMShootoutAttemptState::Over { .. } => 0,
    }
}

/// As long as no event ends an attempt, it goes on with the progress that it has stored, and
/// nothing changes but that its attack may have been stopped.
pub proof fn lemma_attempt_goes_on(
    m: MatchModel,
    state: HQMShootoutAttemptState,
    round: int,
    team: HQMTeam,
    events: Seq<HQMSimulationEvent>,
    i: int,
)
    requires
        m.game.status == (StatusModel::Game { state, round, team }),
        !(state is Over),
        0 <= i <= events.len(),
        forall|k: int| 0 <= k < i ==> !#[trigger] ends_at(state, team, events, k),
    ensures
        m.on_events(events.take(i)) == (MatchModel {
            game: ShootoutModel {
                status: StatusModel::Game {
                    state: if stopped_before(state, team, events, i) {
                        HQMShootoutAttemptState::NoMoreAttack { final_progress: progress_of(state) }
                    } else {
                        state
                    },
                    round,
                    team,
                },
                ..m.game
            },
            ..m
        }),
    decreases i,
{
    let earlier = events.take(i);
    if i == 0 {
        assert(earlier =~= Seq::<HQMSimulationEvent>::empty());
        assert(m.on_events(earlier) == m);
    } else {
        lemma_attempt_goes_on(m, state, round, team, events, i - 1);
        assert(earlier.drop_last() =~= events.take(i - 1));
        assert(earlier.last() == events[i - 1]);
        assert(!ends_at(state, team, events, i - 1));
        let event = events[i - 1];
        if stopped_before(state, team, events, i - 1) {
            if !(state is NoMoreAttack) {
                let k = choose|k: int| 0 <= k < i - 1 && #[trigger] stops(events[k], team);
                assert(stops(events[k], team));
            }
            assert(stopped_before(state, team, events, i));
        } else if stops(event, team) {
            assert(stopped_before(state, team, events, i));
        } else {
            assert(!stopped_before(state, team, events, i)) by {
                if stopped_before(state, team, events, i) {
                    let k = choose|k: int| 0 <= k < i && #[trigger] stops(events[k], team);
                    assert(k < i - 1);
                }
            }
        }
        assert(m.on_events(earlier) == m.on_events(events.take(i - 1)).on_event(event));
    }
}

/// The first event that ends an attempt settles how it ends, whatever comes after it: with a
/// goal if the puck is in the net of the other team, and else without one. This holds for the
/// attempts of both teams, before and after the attack was stopped.
pub proof fn lemma_first_end_counts(
    m: MatchModel,
    state: HQMShootoutAttemptState,
    round: int,
    team: HQMTeam,
    events: Seq<HQMSimulationEvent>,
    i: int,
)
    requires
        m.game.status == (StatusModel::Game { state, round, team }),
        !(state is Over),
        0 <= i < events.len(),
        forall|k: int| 0 <= k < i ==> !#[trigger] ends_at(state, team, events, k),
        ends_at(state, team, events, i),
    ensures
        is_goal(team, events, i) ==> scored(m, m.on_events(events)),
        !is_goal(team, events, i) ==> missed(m, m.on_events(events)),
{
    lemma_attempt_goes_on(m, state, round, team, events, i);
    let so_far = m.on_events(events.take(i));
    lemma_attempt_ends_as_told(so_far);
    assert(events.take(i + 1).drop_last() =~= events.take(i));
    assert(events.take(i + 1).last() == events[i]);
    lemma_over_is_final(m, events, i + 1);
}

/// A goal counts: if the first of a tick's events that ends an attempt is the puck in the
/// other team's net, then after the tick the team that takes the attempt, whichever it is, has
/// exactly one goal more, the other as many as before, and the attempt is over with a goal.
pub proof fn lemma_goal_counts(
    m: MatchModel,
    state: HQMShootoutAttemptState,
    round: int,
    team: HQMTeam,
    events: Seq<HQMSimulationEvent>,
    puck: Option<HQMPuckReading>,
    i: int,
)
    requires
        m.game.status == (StatusModel::Game { state, round, team }),
        !(state is Over),
        0 <= i < events.len(),
        forall|k: int| 0 <= k < i ==> !#[trigger] ends_at(state, team, events, k),
        is_goal(team, events, i),
    ensures
        ({
            let after = m.after_tick(events, puck);
            &&& team == HQMTeam::Red ==> after.server.values.red_score
                == m.server.values.red_score + 1 && after.server.values.blue_score
                == m.server.values.blue_score
            &&& team == HQMTeam::Blue ==> after.server.values.blue_score
                == m.server.values.blue_score + 1 && after.server.values.red_score
                == m.server.values.red_score
            &&& after.server.actions == m.server.actions.push(ActionModel::GoalMessage { team })
            &&& after.game.status == (StatusModel::Game {
                state: HQMShootoutAttemptState::Over {
                    timer: if m.game.paused {
                        500
                    } else {
                        499
                    },
                    goal_scored: true,
                },
                round,
                team,
            })
        }),
{
    assert(ends_at(state, team, events, i));
    lemma_first_end_counts(m, state, round, team, events, i);
}

/// A miss counts: if the first of a tick's events that ends an attempt is no goal, then after the
/// tick the scores are as before, and the attempt is over without a goal.
pub proof fn lemma_miss_counts(
    m: MatchModel,
    state: HQMShootoutAttemptState,
    round: int,
    team: HQMTeam,
    events: Seq<HQMSimulationEvent>,
    puck: Option<HQMPuckReading>,
    i: int,
)
    requires
        m.game.status == (StatusModel::Game { state, round, team }),
        !(state is Over),
        0 <= i < events.len(),
        forall|k: int| 0 <= k < i ==> !#[trigger] ends_at(state, team, events, k),
        ends_at(state, team, events, i),
        !is_goal(team, events, i),
    ensures
        ({
            let after = m.after_tick(events, puck);
            &&& after.server.values.red_score == m.server.values.red_score
            &&& after.server.values.blue_score == m.server.values.blue_score
            &&& after.server.actions == m.server.actions.push(
                ActionModel::ServerChat { text: "Miss"@ },
            )
            &&& after.game.status == (StatusModel::Game {
                state: HQMShootoutAttemptState::Over {
                    timer: if m.game.paused {
                        500
                    } else {
                        499
                    },
                    goal_scored: false,
                },
                round,
                team,
            })
        }),
{
    lemma_first_end_counts(m, state, round, team, events, i);
}

/// An attempt that is over, and a game that waits, are not changed by events.
pub proof fn lemma_nothing_to_judge(m: MatchModel, events: Seq<HQMSimulationEvent>)
    requires
        m.game.status is WaitingForGame || m.attempt_over(),
    ensures
        m.on_events(events) == m,
    decreases events.len(),
{
    if events.len() > 0 {
        lemma_nothing_to_judge(m, events.drop_last());
    }
}

/// Events are judged one by one, in order: those of two batches as if the second came after
/// the first.
pub proof fn lemma_events_in_order(
    m: MatchModel,
    first: Seq<HQMSimulationEvent>,
    second: Seq<HQMSimulationEvent>,
)
    ensures
        m.on_events(first + second) == m.on_events(first).on_events(second),
    decreases second.len(),
{
    if second.len() == 0 {
        assert(first + second =~= first);
    } else {
        assert((first + second).drop_last() =~= first + second.drop_last());
        assert((first + second).last() == second.last());
        lemma_events_in_order(m, first, second.drop_last());
    }
}

/// Judging one event is judging a batch of one.
pub proof fn lemma_one_event(m: MatchModel, event: HQMSimulationEvent)
    ensures
        m.on_event(event) == m.on_events(seq![event]),
{
    let batch = seq![event];
    assert(batch.drop_last() =~= Seq::<HQMSimulationEvent>::empty());
    assert(m.on_events(batch.drop_last()) == m);
}

/// A tick judges its events before the clock ticks: it is the judging of the events followed by
/// a tick without events, and in a paused game it is the judging alone.
pub proof fn lemma_events_before_clock(
    m: MatchModel,
    events: Seq<HQMSimulationEvent>,
    puck: Option<HQMPuckReading>,
)
    ensures
        m.after_tick(events, puck) == m.on_events(events).after_tick(seq![], puck),
        m.after_tick(seq![], puck) == m.on_clock(puck),
        m.in_game() && m.game.paused ==> m.after_tick(events, puck) == m.on_events(events),
{
    let judged = m.on_events(events);
    assert(judged.on_events(seq![]) == judged);
    assert(m.on_events(seq![]) == m);
    if m.in_game() {
        lemma_events_keep_game(m, events);
    }
}

/// Events leave a game a game, paused or not as before.
proof fn lemma_events_keep_game(m: MatchModel, events: Seq<HQMSimulationEvent>)
    requires
        m.in_game(),
    ensures
        m.on_events(events).in_game(),
        m.on_events(events).game.paused == m.game.paused,
    decreases events.len(),
{
    if events.len() > 0 {
        lemma_events_keep_game(m, events.drop_last());
    }
}

/// What single events do to an attempt under way, by the decision that is made on each: a net
/// or a goal line ends it, with a goal exactly if it is the net of the other team; the other
/// team's touch or the frame of its net stops an attack and nothing else; the own team's touch
/// ends it exactly if the attack was stopped; and nothing else matters.
pub proof fn lemma_decisions_on_events(
    state: HQMShootoutAttemptState,
    team: HQMTeam,
    other: HQMTeam,
    event: HQMSimulationEvent,
)
    requires
        team != other,
    ensures
        state.event_outcome(team, event) is Ended <==> !(state is Over) && (event
            is PuckEnteredNet || event is PuckPassedGoalLine || (state is NoMoreAttack && event
            == (HQMSimulationEvent::PuckTouch { touching_team: Some(team) }))),
        state.event_outcome(team, event) is Ended ==> (
        state.event_outcome(team, event)->goal_scored <==> event == (
        HQMSimulationEvent::PuckEnteredNet { team: other })),
        state.event_outcome(team, event) is Stopped <==> state is Attack && (event == (
        HQMSimulationEvent::PuckTouch { touching_team: Some(other) }) || event == (
        HQMSimulationEvent::PuckTouchedNet { team: other })),
        state matches HQMShootoutAttemptState::Attack { progress } ==> state.stopped() == (
        HQMShootoutAttemptState::NoMoreAttack { final_progress: progress }),
        !(state is Attack) ==> state.stopped() == state,
{
}

} // verus!
