//! One attempt: its stages, and what an event or a tick of the clock does to it.
use crate::single::{is_less, less, MINUS_FIVE, MINUS_HALF};
use crate::team::HQMTeam;
use vstd::prelude::*;

verus! {

/// Ticks between the end of an attempt and what follows it.
pub const OVER_TICKS: u32 = 500;

/// The stage of an attempt.
///
/// Progress is the distance of the puck from the middle of the ice towards the attacked
/// goal, as the bit pattern of a single-precision number.
#[derive(Debug, Clone, Copy, PartialEq, Eq, Structural)]
pub enum HQMShootoutAttemptState {
    /// The goalie has not touched the puck, it has not hit the net's frame and has
    /// not come back too far. `progress` is the best progress so far.
    Attack { progress: u32 },
    /// The attack was stopped, but the puck may still enter the net.
    NoMoreAttack { final_progress: u32 },
    /// The attempt is over; after `timer` more ticks the game goes on.
    Over { timer: u32, goal_scored: bool },
}

/// What the simulation reports.
#[derive(Debug, Clone, Copy, PartialEq, Eq, Structural)]
pub enum HQMSimulationEvent {
    /// The puck entered the net that `team` defends.
    PuckEnteredNet { team: HQMTeam },
    /// The puck crossed a goal line outside the net.
    PuckPassedGoalLine,
    /// A skater touched the puck. `touching_team` is the team of the player whose skater it
    /// is, if there is such a player.
    PuckTouch { touching_team: Option<HQMTeam> },
    /// The puck hit the frame of the net that `team` defends.
    PuckTouchedNet { team: HQMTeam },
    /// Anything else.
    Other,
}

/// Where the puck is in a tick. Both numbers are bit patterns of single-precision numbers.
#[derive(Debug, Clone, Copy, PartialEq, Eq, Structural)]
pub struct HQMPuckReading {
    /// The progress.
    pub progress: u32,
    /// The progress less the progress that the attempt has stored.
    pub change: u32,
}

/// What an event does to an attempt.
#[derive(Debug, Clone, Copy, PartialEq, Eq, Structural)]
pub enum HQMEventOutcome {
    /// Nothing.
    Unchanged,
    /// The attack is stopped.
    Stopped,
    /// The attempt ends.
    Ended { goal_scored: bool },
}

/// What a tick of the clock does to an attempt that is not over.
#[derive(Debug, Clone, Copy, PartialEq, Eq, Structural)]
pub enum HQMClockOutcome {
    /// Nothing.
    Unchanged,
    /// The puck has come closer to the goal than ever in this attempt.
    Advanced { progress: u32 },
    /// The attempt ends without a goal: its time is up.
    TimeUp,
    /// The attempt ends without a goal: the puck has come back too far.
    TooFarBack,
}

impl HQMShootoutAttemptState {
    /// The attempt is over.
    pub open spec fn is_over(self) -> bool {
        self is Over
    }

    /// The attempt after its attack, if one is under way, was stopped.
    pub open spec fn stopped(self) -> HQMShootoutAttemptState {
        match self {
            HQMShootoutAttemptState::Attack { progress } => HQMShootoutAttemptState::NoMoreAttack {
                final_progress: progress,
            },
            _ => self,
        }
    }

    /// What `event` does to the attempt of team `attacking`.
    ///
    /// The first goal or crossing of a goal line ends it; only a puck in the other
    /// team's net is a goal. A touch by the other team, or the frame of its net, stops
    /// the attack, and the attackers must not touch the puck after that.
    pub open spec fn event_outcome(
        self,
        attacking: HQMTeam,
        event: HQMSimulationEvent,
    ) -> HQMEventOutcome {
        match event {
            HQMSimulationEvent::PuckEnteredNet { team } => if self is Over {
                HQMEventOutcome::Unchanged
            } else {
                HQMEventOutcome::Ended { goal_scored: team == attacking.other() }
            },
            HQMSimulationEvent::PuckPassedGoalLine => if self is Over {
                HQMEventOutcome::Unchanged
            } else {
                HQMEventOutcome::Ended { goal_scored: false }
            },
            HQMSimulationEvent::PuckTouch { touching_team } => if touching_team == Some(attacking)
                && self is NoMoreAttack {
                HQMEventOutcome::Ended { goal_scored: false }
            } else if touching_team == Some(attacking.other()) && self is Attack {
                HQMEventOutcome::Stopped
            } else {
                HQMEventOutcome::Unchanged
            },
            HQMSimulationEvent::PuckTouchedNet { team } => if team == attacking.other()
                && self is Attack {
                HQMEventOutcome::Stopped
            } else {
                HQMEventOutcome::Unchanged
            },
            HQMSimulationEvent::Other => HQMEventOutcome::Unchanged,
        }
    }

    /// What a tick does to an attempt that is not over, with `time` ticks left before
    /// it, and with the puck read if there is one. An attack is given up when the puck comes
    /// back from its best progress by more than half a unit of length; after it was
    /// stopped, the attempt ends when the puck has come back by more than five.
    pub open spec fn clock_outcome(
        self,
        time: u32,
        puck: Option<HQMPuckReading>,
    ) -> HQMClockOutcome {
        if time <= 1 {
            HQMClockOutcome::TimeUp
        } else {
            match (self, puck) {
                (HQMShootoutAttemptState::Attack { progress }, Some(reading)) => if is_less(
                    progress,
                    reading.progress,
                ) {
                    HQMClockOutcome::Advanced { progress: reading.progress }
                } else if is_less(reading.change, MINUS_HALF) {
                    HQMClockOutcome::TooFarBack
                } else {
                    HQMClockOutcome::Unchanged
                },
                (HQMShootoutAttemptState::NoMoreAttack { .. }, Some(reading)) => if is_less(
                    reading.change,
                    MINUS_FIVE,
                ) {
                    HQMClockOutcome::TooFarBack
                } else {
                    HQMClockOutcome::Unchanged
                },
                _ => HQMClockOutcome::Unchanged,
            }
        }
    }

    /// Decides what an event does to the attempt of team `attacking`.
    pub fn decide_event(
        self,
        attacking: HQMTeam,
        event: HQMSimulationEvent,
    ) -> (outcome: HQMEventOutcome)
        ensures
            outcome == self.event_outcome(attacking, event),
    {
        match event {
            HQMSimulationEvent::PuckEnteredNet { team: net_team } => {
                let scoring_team = net_team.get_other_team();
                if let HQMShootoutAttemptState::Over { .. } = self {
                    HQMEventOutcome::Unchanged
                } else {
                    HQMEventOutcome::Ended { goal_scored: scoring_team == attacking }
                }
            },
            HQMSimulationEvent::PuckPassedGoalLine => {
                if let HQMShootoutAttemptState::Over { .. } = self {
                    HQMEventOutcome::Unchanged
                } else {
                    HQMEventOutcome::Ended { goal_scored: false }
                }
            },
            HQMSimulationEvent::PuckTouch { touching_team } => {
                match touching_team {
                    None => HQMEventOutcome::Unchanged,
                    Some(team) => {
                        if team == attacking {
                            if let HQMShootoutAttemptState::NoMoreAttack { .. } = self {
                                HQMEventOutcome::Ended { goal_scored: false }
                            } else {
                                HQMEventOutcome::Unchanged
                            }
                        } else {
                            if let HQMShootoutAttemptState::Attack { .. } = self {
                                HQMEventOutcome::Stopped
                            } else {
                                HQMEventOutcome::Unchanged
                            }
                        }
                    },
                }
            },
            HQMSimulationEvent::PuckTouchedNet { team: net_team } => {
                if net_team.get_other_team() == attacking {
                    if let HQMShootoutAttemptState::Attack { .. } = self {
                        HQMEventOutcome::Stopped
                    } else {
                        HQMEventOutcome::Unchanged
                    }
                } else {
                    HQMEventOutcome::Unchanged
                }
            },
            HQMSimulationEvent::Other => HQMEventOutcome::Unchanged,
        }
    }

    /// Stops the attack, if one is under way.
    pub fn stop(self) -> (state: HQMShootoutAttemptState)
        ensures
            state == self.stopped(),
    {
        match self {
            HQMShootoutAttemptState::Attack { progress } => HQMShootoutAttemptState::NoMoreAttack {
                final_progress: progress,
            },
            _ => self,
        }
    }

    /// Decides what a tick does to an attempt that is not over.
    pub fn decide_clock(self, time: u32, puck: Option<HQMPuckReading>) -> (outcome: HQMClockOutcome)
        ensures
            outcome == self.clock_outcome(time, puck),
    {
        if time <= 1 {
            return HQMClockOutcome::TimeUp;
        }
        match puck {
            None => HQMClockOutcome::Unchanged,
            Some(reading) => match self {
                HQMShootoutAttemptState::Attack { progress } => {
                    if less(progress, reading.progress) {
                        HQMClockOutcome::Advanced { progress: reading.progress }
                    } else if less(reading.change, MINUS_HALF) {
                        HQMClockOutcome::TooFarBack
                    } else {
                        HQMClockOutcome::Unchanged
                    }
                },
                HQMShootoutAttemptState::NoMoreAttack { .. } => {
                    if less(reading.change, MINUS_FIVE) {
                        HQMClockOutcome::TooFarBack
                    } else {
                        HQMClockOutcome::Unchanged
                    }
                },
                HQMShootoutAttemptState::Over { .. } => HQMClockOutcome::Unchanged,
            },
        }
    }
}

} // verus!
