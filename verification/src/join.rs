//! Letting players join the teams, as long as there is room.
use crate::server::{lemma_skaters_counted, skaters_before, skaters_of, HQMServer, PlayerModel};
use crate::team::HQMTeam;
use vstd::prelude::*;

verus! {

/// The players who may join a team, in the order of the server's list.
#[derive(Debug)]
pub struct HQMJoinRequests {
    pub red: Vec<usize>,
    pub blue: Vec<usize>,
}

/// A player to be put on the bench of a team.
#[derive(Debug, Clone, Copy, PartialEq, Eq, Structural)]
pub struct HQMJoinRequest {
    pub player: usize,
    pub team: HQMTeam,
}

/// The players who still wait to be let in, and how full the teams are.
#[verifier::ext_equal]
pub struct JoinModel {
    pub waiting: Seq<HQMJoinRequest>,
    pub red_count: int,
    pub blue_count: int,
    pub team_max: int,
    /// The team of the player for whom the server's answer is awaited.
    pub trying: Option<HQMTeam>,
}

/// The wishes of the players of a list to join a team.
pub open spec fn requests_for(players: Seq<usize>, team: HQMTeam) -> Seq<HQMJoinRequest> {
    players.map_values(|player: usize| HQMJoinRequest { player, team })
}

impl JoinModel {
    /// The line before the first player: those for Red, then those for Blue.
    pub open spec fn start(
        red: Seq<usize>,
        blue: Seq<usize>,
        players: Seq<PlayerModel>,
        team_max: int,
    ) -> JoinModel {
        JoinModel {
            waiting: requests_for(red, HQMTeam::Red) + requests_for(blue, HQMTeam::Blue),
            red_count: skaters_of(players, HQMTeam::Red).len() as int,
            blue_count: skaters_of(players, HQMTeam::Blue).len() as int,
            team_max,
            trying: None,
        }
    }

    /// The number of players in a team.
    pub open spec fn count(self, team: HQMTeam) -> int {
        match team {
            HQMTeam::Red => self.red_count,
            HQMTeam::Blue => self.blue_count,
        }
    }

    /// A team has room for another player.
    pub open spec fn has_room(self, team: HQMTeam) -> bool {
        self.count(team) < self.team_max
    }

    /// The first player in the line whose team has room.
    pub open spec fn next(self) -> Option<HQMJoinRequest>
        decreases self.waiting.len(),
    {
        if self.waiting.len() == 0 {
            None
        } else if self.has_room(self.waiting[0].team) {
            Some(self.waiting[0])
        } else {
            self.without_first().next()
        }
    }

    /// The line without its first player.
    pub open spec fn without_first(self) -> JoinModel {
        JoinModel { waiting: self.waiting.skip(1), ..self }
    }

    /// The line after that player was called up: all players before that one are
    /// turned away.
    pub open spec fn after_next(self) -> JoinModel
        decreases self.waiting.len(),
    {
        if self.waiting.len() == 0 {
            JoinModel { trying: None, ..self }
        } else if self.has_room(self.waiting[0].team) {
            JoinModel { trying: Some(self.waiting[0].team), ..self.without_first() }
        } else {
            self.without_first().after_next()
        }
    }

    /// The line after the server has answered whether it put the player on the ice.
    pub open spec fn after_report(self, spawned: bool) -> JoinModel {
        let answered = JoinModel { trying: None, ..self };
        match self.trying {
            Some(HQMTeam::Red) if spawned => JoinModel {
                red_count: self.red_count + 1,
                ..answered
            },
            Some(HQMTeam::Blue) if spawned => JoinModel {
                blue_count: self.blue_count + 1,
                ..answered
            },
            _ => answered,
        }
    }
}

/// The players who wait to be let into a team.
#[derive(Debug)]
pub struct HQMJoinQueue {
    requests: Vec<HQMJoinRequest>,
    position: usize,
    red_count: usize,
    blue_count: usize,
    team_max: usize,
    trying: Option<HQMTeam>,
}

impl View for HQMJoinQueue {
    type V = JoinModel;

    closed spec fn view(&self) -> JoinModel {
        JoinModel {
            waiting: self.requests@.skip(self.position as int),
            red_count: self.red_count as int,
            blue_count: self.blue_count as int,
            team_max: self.team_max as int,
            trying: self.trying,
        }
    }
}

impl HQMJoinQueue {
    /// The line is intact, and an answer is awaited only for a team with room.
    pub closed spec fn well_formed(&self) -> bool {
        &&& self.position <= self.requests@.len()
        &&& self.trying matches Some(team) ==> self@.has_room(team)
    }

    /// Lines up the players who may join, with room for `team_max` players in a team.
    pub fn new(server: &HQMServer, requests: HQMJoinRequests, team_max: usize) -> (queue: Self)
        ensures
            queue@ == JoinModel::start(
                requests.red@,
                requests.blue@,
                server@.players,
                team_max as int,
            ),
            queue.well_formed(),
    {
        let ghost all = requests_for(requests.red@, HQMTeam::Red) + requests_for(
            requests.blue@,
            HQMTeam::Blue,
        );
        let mut line: Vec<HQMJoinRequest> = Vec::new();
        let mut i: usize = 0;
        while i < requests.red.len()
            invariant
                i <= requests.red@.len(),
                all == requests_for(requests.red@, HQMTeam::Red) + requests_for(
                    requests.blue@,
                    HQMTeam::Blue,
                ),
                line@ =~= all.take(i as int),
            decreases requests.red@.len() - i,
        {
            line.push(HQMJoinRequest { player: requests.red[i], team: HQMTeam::Red });
            i = i + 1;
        }
        let mut k: usize = 0;
        while k < requests.blue.len()
            invariant
                k <= requests.blue@.len(),
                all == requests_for(requests.red@, HQMTeam::Red) + requests_for(
                    requests.blue@,
                    HQMTeam::Blue,
                ),
                line@ =~= all.take(requests.red@.len() + k),
            decreases requests.blue@.len() - k,
        {
            line.push(HQMJoinRequest { player: requests.blue[k], team: HQMTeam::Blue });
            k = k + 1;
        }
        assert(line@.skip(0) =~= all);
        HQMJoinQueue {
            requests: line,
            position: 0,
            red_count: server.count_skaters(HQMTeam::Red),
            blue_count: server.count_skaters(HQMTeam::Blue),
            team_max,
            trying: None,
        }
    }

    /// Calls up the next player whose team has room; the others are turned away.
    pub fn next_request(&mut self) -> (request: Option<HQMJoinRequest>)
        requires
            old(self).well_formed(),
        ensures
            request == old(self)@.next(),
            final(self)@ == old(self)@.after_next(),
            final(self).well_formed(),
    {
        while self.position < self.requests.len()
            invariant
                self.position <= self.requests@.len(),
                self@.next() == old(self)@.next(),
                self@.after_next() == old(self)@.after_next(),
            decreases self.requests@.len() - self.position,
        {
            let ghost before = self@;
            let request: HQMJoinRequest = self.requests[self.position];
            self.position = self.position + 1;
            assert(self@ =~= before.without_first());
            let count: usize = match request.team {
                HQMTeam::Red => self.red_count,
                HQMTeam::Blue => self.blue_count,
            };
            if count < self.team_max {
                self.trying = Some(request.team);
                return Some(request);
            }
        }
        self.trying = None;
        None
    }

    /// Takes note of whether the server has put the called player on the ice.
    pub fn report(&mut self, spawned: bool)
        requires
            old(self).well_formed(),
        ensures
            final(self)@ == old(self)@.after_report(spawned),
            final(self).well_formed(),
    {
        if spawned {
            match self.trying {
                Some(HQMTeam::Red) => {
                    self.red_count = self.red_count + 1;
                },
                Some(HQMTeam::Blue) => {
                    self.blue_count = self.blue_count + 1;
                },
                None => {},
            }
        }
        self.trying = None;
    }
}

/// A player is called up only for a team with room, and the answer awaited is the one for
/// that team. If nobody is called up, nobody is left in the line.
pub proof fn lemma_called_up_for_room(line: JoinModel)
    ensures
        line.next() matches Some(request) ==> {
            &&& line.has_room(request.team)
            &&& line.waiting.contains(request)
            &&& line.after_next().trying == Some(request.team)
            &&& line.after_next().waiting.len() < line.waiting.len()
        },
        line.next() is None ==> {
            &&& line.after_next().trying is None
            &&& line.after_next().waiting.len() == 0
            &&& forall|i: int|
                0 <= i < line.waiting.len() ==> !line.has_room((#[trigger] line.waiting[i]).team)
        },
        line.after_next().red_count == line.red_count,
        line.after_next().blue_count == line.blue_count,
        line.after_next().team_max == line.team_max,
    decreases line.waiting.len(),
{
    if line.waiting.len() > 0 && !line.has_room(line.waiting[0].team) {
        let rest = line.without_first();
        lemma_called_up_for_room(rest);
        if let Some(request) = line.next() {
            let i = choose|i: int| 0 <= i < rest.waiting.len() && rest.waiting[i] == request;
            assert(line.waiting[i + 1] == request);
        } else {
            assert forall|i: int| 0 <= i < line.waiting.len() implies !line.has_room(
                (#[trigger] line.waiting[i]).team,
            ) by {
                if i > 0 {
                    assert(line.waiting[i] == rest.waiting[i - 1]);
                    assert(!rest.has_room(rest.waiting[i - 1].team));
                }
            }
        }
    }
}

impl JoinModel {
    /// The line after players were called up, one for each answer of the server.
    pub open spec fn after_answers(self, answers: Seq<bool>) -> JoinModel
        decreases answers.len(),
    {
        if answers.len() == 0 {
            self
        } else {
            self.after_answers(answers.drop_last()).after_next().after_report(answers.last())
        }
    }
}

/// However the server answers, joining brings no team above its limit, and takes no player
/// out of a team.
pub proof fn lemma_teams_are_not_overfilled(
    line: JoinModel,
    answers: Seq<bool>,
    team: HQMTeam,
)
    ensures
        line.after_answers(answers).team_max == line.team_max,
        line.after_answers(answers).count(team) >= line.count(team),
        line.after_answers(answers).count(team) <= (if line.count(team) > line.team_max {
            line.count(team)
        } else {
            line.team_max
        }),
    decreases answers.len(),
{
    if answers.len() > 0 {
        let before = line.after_answers(answers.drop_last());
        lemma_teams_are_not_overfilled(line, answers.drop_last(), team);
        lemma_called_up_for_room(before);
    }
}

/// A team of a line is full, by its number of players.
pub open spec fn is_full(line: JoinModel, team: HQMTeam) -> bool {
    match team {
        HQMTeam::Red => line.red_count >= line.team_max,
        HQMTeam::Blue => line.blue_count >= line.team_max,
    }
}

/// The line is made of those who want to join Red, in their order, and behind them those who want
/// to join Blue, in theirs. The numbers of players are those of the skaters that the server shows.
pub proof fn lemma_line_as_asked(
    red: Seq<usize>,
    blue: Seq<usize>,
    players: Seq<PlayerModel>,
    team_max: int,
)
    ensures
        ({
            let line = JoinModel::start(red, blue, players, team_max);
            let n = players.len() as int;
            &&& line.waiting.len() == red.len() + blue.len()
            &&& forall|i: int|
                0 <= i < red.len() ==> #[trigger] line.waiting[i] == (HQMJoinRequest {
                    player: red[i],
                    team: HQMTeam::Red,
                })
            &&& forall|i: int|
                red.len() <= i < red.len() + blue.len() ==> #[trigger] line.waiting[i] == (
                HQMJoinRequest { player: blue[i - red.len()], team: HQMTeam::Blue })
            &&& line.red_count == skaters_before(players, HQMTeam::Red, n)
            &&& line.blue_count == skaters_before(players, HQMTeam::Blue, n)
            &&& line.team_max == team_max
            &&& line.trying is None
        }),
{
    lemma_skaters_counted(players, HQMTeam::Red);
    lemma_skaters_counted(players, HQMTeam::Blue);
}

/// The player who is called up is the first in the line whose team is not full; those before are
/// turned away, and those behind keep their order. Nobody is called up exactly if all teams asked
/// for are full.
pub proof fn lemma_first_with_room_is_called(line: JoinModel)
    ensures
        match line.next() {
            Some(request) => exists|i: int|
                {
                    &&& 0 <= i < line.waiting.len()
                    &&& #[trigger] line.waiting[i] == request
                    &&& !is_full(line, request.team)
                    &&& forall|j: int|
                        0 <= j < i ==> is_full(line, (#[trigger] line.waiting[j]).team)
                    &&& line.after_next() == (JoinModel {
                        waiting: line.waiting.skip(i + 1),
                        trying: Some(request.team),
                        ..line
                    })
                },
            None => {
                &&& forall|j: int|
                    0 <= j < line.waiting.len() ==> is_full(line, (#[trigger] line.waiting[j]).team)
                &&& line.after_next() == (JoinModel {
                    waiting: Seq::empty(),
                    trying: None,
                    ..line
                })
            },
        },
    decreases line.waiting.len(),
{
    if line.waiting.len() == 0 {
        assert(line.waiting =~= Seq::<HQMJoinRequest>::empty());
    } else if !is_full(line, line.waiting[0].team) {
        assert(line.waiting[0] == line.next()->0);
        assert(line.after_next() == (JoinModel {
            waiting: line.waiting.skip(1),
            trying: Some(line.waiting[0].team),
            ..line
        }));
    } else {
        let rest = line.without_first();
        lemma_first_with_room_is_called(rest);
        match line.next() {
            Some(request) => {
                let i = choose|i: int|
                    {
                        &&& 0 <= i < rest.waiting.len()
                        &&& #[trigger] rest.waiting[i] == request
                        &&& !is_full(rest, request.team)
                        &&& forall|j: int|
                            0 <= j < i ==> is_full(rest, (#[trigger] rest.waiting[j]).team)
                        &&& rest.after_next() == (JoinModel {
                            waiting: rest.waiting.skip(i + 1),
                            trying: Some(request.team),
                            ..rest
                        })
                    };
                assert(line.waiting[i + 1] == request);
                assert forall|j: int| 0 <= j < i + 1 implies is_full(
                    line,
                    (#[trigger] line.waiting[j]).team,
                ) by {
                    if j > 0 {
                        assert(rest.waiting[j - 1] == line.waiting[j]);
                    }
                }
                assert(rest.waiting.skip(i + 1) =~= line.waiting.skip(i + 2));
            },
            None => {
                assert forall|j: int| 0 <= j < line.waiting.len() implies is_full(
                    line,
                    (#[trigger] line.waiting[j]).team,
                ) by {
                    if j > 0 {
                        assert(rest.waiting[j - 1] == line.waiting[j]);
                    }
                }
            },
        }
    }
}

/// The server's answer counts: a player put on the ice makes the team that was called up for one
/// larger, and no other; a player who was not changes no number.
pub proof fn lemma_answer_counts(line: JoinModel, team: HQMTeam)
    requires
        line.trying == Some(team),
    ensures
        line.after_report(false) == (JoinModel { trying: None, ..line }),
        team == HQMTeam::Red ==> line.after_report(true) == (JoinModel {
            red_count: line.red_count + 1,
            trying: None,
            ..line
        }),
        team == HQMTeam::Blue ==> line.after_report(true) == (JoinModel {
            blue_count: line.blue_count + 1,
            trying: None,
            ..line
        }),
{
}

/// An answer that nobody waits for changes nothing.
pub proof fn lemma_unasked_answer(line: JoinModel, spawned: bool)
    requires
        line.trying is None,
    ensures
        line.after_report(spawned) == line,
{
}

/// How many players the server has reported as put on the ice for a team, with one answer for each
/// player called up.
pub open spec fn reported(line: JoinModel, answers: Seq<bool>, team: HQMTeam) -> int
    decreases answers.len(),
{
    if answers.len() == 0 {
        0
    } else {
        let earlier = answers.drop_last();
        let called = line.after_answers(earlier).next();
        reported(line, earlier, team) + (if answers.last() && called is Some && called->0.team
            == team {
            1int
        } else {
            0int
        })
    }
}

/// The numbers of the line are those of the skaters on the ice at the start and of the players put
/// there since.
proof fn lemma_numbers_are_kept(
    red: Seq<usize>,
    blue: Seq<usize>,
    players: Seq<PlayerModel>,
    team_max: int,
    answers: Seq<bool>,
)
    ensures
        ({
            let start = JoinModel::start(red, blue, players, team_max);
            let line = start.after_answers(answers);
            let n = players.len() as int;
            &&& line.red_count == skaters_before(players, HQMTeam::Red, n) + reported(
                start,
                answers,
                HQMTeam::Red,
            )
            &&& line.blue_count == skaters_before(players, HQMTeam::Blue, n) + reported(
                start,
                answers,
                HQMTeam::Blue,
            )
            &&& line.team_max == team_max
        }),
    decreases answers.len(),
{
    lemma_line_as_asked(red, blue, players, team_max);
    if answers.len() > 0 {
        lemma_numbers_are_kept(red, blue, players, team_max, answers.drop_last());
        let line = JoinModel::start(red, blue, players, team_max).after_answers(
            answers.drop_last(),
        );
        lemma_first_with_room_is_called(line);
        let called = line.after_next();
        match line.next() {
            Some(request) => {
                lemma_answer_counts(called, request.team);
            },
            None => {
                lemma_unasked_answer(called, answers.last());
            },
        }
    }
}

/// Whatever the server has answered so far, a player is called up only for a team whose skaters on
/// the ice, with those put there since, are fewer than a team may have; so joining brings no team
/// above that number.
pub proof fn lemma_limit_holds_on_the_ice(
    red: Seq<usize>,
    blue: Seq<usize>,
    players: Seq<PlayerModel>,
    team_max: int,
    answers: Seq<bool>,
    team: HQMTeam,
)
    ensures
        ({
            let start = JoinModel::start(red, blue, players, team_max);
            let on_ice = skaters_before(players, team, players.len() as int);
            let now = on_ice + reported(start, answers, team);
            &&& (start.after_answers(answers).next() is Some && start.after_answers(
                answers,
            ).next()->0.team == team ==> now < team_max)
            &&& now <= (if on_ice > team_max {
                on_ice
            } else {
                team_max
            })
        }),
    decreases answers.len(),
{
    let start = JoinModel::start(red, blue, players, team_max);
    lemma_numbers_are_kept(red, blue, players, team_max, answers);
    lemma_first_with_room_is_called(start.after_answers(answers));
    if answers.len() > 0 {
        lemma_limit_holds_on_the_ice(red, blue, players, team_max, answers.drop_last(), team);
    }
}

/// Nobody waits in vain: when nobody is called up any more, each team for which someone was still
/// in the line has as many skaters on the ice, with those put there since, as it may have.
pub proof fn lemma_turned_away_only_if_full(
    red: Seq<usize>,
    blue: Seq<usize>,
    players: Seq<PlayerModel>,
    team_max: int,
    answers: Seq<bool>,
    i: int,
)
    requires
        ({
            let line = JoinModel::start(red, blue, players, team_max).after_answers(answers);
            line.next() is None && 0 <= i < line.waiting.len()
        }),
    ensures
        ({
            let start = JoinModel::start(red, blue, players, team_max);
            let team = start.after_answers(answers).waiting[i].team;
            skaters_before(players, team, players.len() as int) + reported(start, answers, team)
                >= team_max
        }),
{
    let start = JoinModel::start(red, blue, players, team_max);
    lemma_numbers_are_kept(red, blue, players, team_max, answers);
    lemma_first_with_room_is_called(start.after_answers(answers));
}

} // verus!
