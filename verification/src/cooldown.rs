//! Who may leave the ice and who may join a team: what one pass over the players, and what
//! many of them, come to.
use crate::model::{
    ticked, ForcedMoveModel, MatchModel, RosterModel, ShootoutModel, TEAM_SWITCH_TICKS,
};
use crate::server::{ActionModel, PlayerModel, ServerModel};
use vstd::prelude::*;

verus! {

/// No two players of a list have the same index.
pub open spec fn distinct(players: Seq<PlayerModel>) -> bool {
    forall|i: int, k: int|
        0 <= i < k < players.len() ==> (#[trigger] players[i]).index != (
        #[trigger] players[k]).index
}

/// A player with this index is in a list.
pub open spec fn listed(players: Seq<PlayerModel>, index: usize) -> bool {
    exists|k: int| 0 <= k < players.len() && (#[trigger] players[k]).index == index
}

/// A player leaves the ice: there is a skater, and the wish to spectate without one to join.
pub open spec fn leaves(player: PlayerModel) -> bool {
    &&& player.team is Some
    &&& player.input.spectate
    &&& !player.input.join_red
    &&& !player.input.join_blue
}

/// The cooldown of a player, if there is one, ends in this tick or has ended.
pub open spec fn cooled_down(timers: Map<usize, u32>, index: usize) -> bool {
    timers.contains_key(index) ==> timers[index] <= 1
}

/// A player may join Red in this tick.
pub open spec fn may_join_red(timers: Map<usize, u32>, player: PlayerModel) -> bool {
    &&& player.team is None
    &&& player.input.join_red
    &&& cooled_down(timers, player.index)
}

/// A player may join Blue in this tick; who asks for both teams is asking for Red.
pub open spec fn may_join_blue(timers: Map<usize, u32>, player: PlayerModel) -> bool {
    &&& player.team is None
    &&& player.input.join_blue
    &&& !player.input.join_red
    &&& cooled_down(timers, player.index)
}

/// The indices of players.
pub open spec fn indices(players: Seq<PlayerModel>) -> Seq<usize> {
    players.map_values(|player: PlayerModel| player.index)
}

/// The cooldowns after a pass over the players.
pub open spec fn timers_after(timers: Map<usize, u32>, players: Seq<PlayerModel>) -> Map<
    usize,
    u32,
> {
    RosterModel::start(timers).visit_all(players).team_switch_timer
}

/// The cooldowns after a pass in each of several ticks.
pub open spec fn timers_after_ticks(
    timers: Map<usize, u32>,
    ticks: Seq<Seq<PlayerModel>>,
) -> Map<usize, u32>
    decreases ticks.len(),
{
    if ticks.len() == 0 {
        timers
    } else {
        timers_after(timers_after_ticks(timers, ticks.drop_last()), ticks.last())
    }
}

/// A pass does not touch the cooldown of anyone who is not in the list.
pub proof fn lemma_others_keep_cooldown(
    timers: Map<usize, u32>,
    players: Seq<PlayerModel>,
    index: usize,
)
    requires
        !listed(players, index),
    ensures
        timers_after(timers, players).contains_key(index) == timers.contains_key(index),
        timers.contains_key(index) ==> timers_after(timers, players)[index] == timers[index],
    decreases players.len(),
{
    if players.len() > 0 {
        let earlier = players.drop_last();
        assert(!listed(earlier, index)) by {
            if listed(earlier, index) {
                let k = choose|k: int|
                    0 <= k < earlier.len() && (#[trigger] earlier[k]).index == index;
                assert(players[k].index == index);
            }
        }
        lemma_others_keep_cooldown(timers, earlier, index);
        assert(players[players.len() - 1].index != index);
    }
}

/// The last player of a list without repetition is not among those before.
proof fn lemma_last_is_new(players: Seq<PlayerModel>)
    requires
        distinct(players),
        players.len() > 0,
    ensures
        distinct(players.drop_last()),
        !listed(players.drop_last(), players.last().index),
{
    let earlier = players.drop_last();
    if listed(earlier, players.last().index) {
        let k = choose|k: int|
            0 <= k < earlier.len() && (#[trigger] earlier[k]).index == players.last().index;
        assert(players[k].index == players[players.len() - 1].index);
    }
}

/// What a pass makes of each player's cooldown: who leaves has the whole of it to wait, and for
/// everyone else it goes down by a tick, or there still is none.
pub proof fn lemma_pass_cooldowns(timers: Map<usize, u32>, players: Seq<PlayerModel>, k: int)
    requires
        distinct(players),
        0 <= k < players.len(),
    ensures
        ({
            let player = players[k];
            let after = timers_after(timers, players);
            if leaves(player) {
                after.contains_key(player.index) && after[player.index] == TEAM_SWITCH_TICKS
            } else {
                &&& after.contains_key(player.index) == timers.contains_key(player.index)
                &&& timers.contains_key(player.index) ==> after[player.index] == ticked(
                    timers[player.index],
                )
            }
        }),
    decreases players.len(),
{
    let earlier = players.drop_last();
    lemma_last_is_new(players);
    if k < earlier.len() {
        lemma_pass_cooldowns(timers, earlier, k);
        assert(players[k].index != players[players.len() - 1].index);
    } else {
        lemma_others_keep_cooldown(timers, earlier, players.last().index);
    }
}

/// Whom a pass lists: in the order of the players, those who leave, and those who have no
/// skater, ask for a team and have no cooldown left.
pub proof fn lemma_pass_lists(timers: Map<usize, u32>, players: Seq<PlayerModel>)
    requires
        distinct(players),
    ensures
        RosterModel::start(timers).visit_all(players).spectating == indices(
            players.filter(|player: PlayerModel| leaves(player)),
        ),
        RosterModel::start(timers).visit_all(players).joining_red == indices(
            players.filter(|player: PlayerModel| may_join_red(timers, player)),
        ),
        RosterModel::start(timers).visit_all(players).joining_blue == indices(
            players.filter(|player: PlayerModel| may_join_blue(timers, player)),
        ),
    decreases players.len(),
{
    reveal(Seq::filter);
    let roster = RosterModel::start(timers).visit_all(players);
    let leaving = players.filter(|player: PlayerModel| leaves(player));
    let red = players.filter(|player: PlayerModel| may_join_red(timers, player));
    let blue = players.filter(|player: PlayerModel| may_join_blue(timers, player));
    if players.len() > 0 {
        let earlier = players.drop_last();
        lemma_last_is_new(players);
        lemma_pass_lists(timers, earlier);
        lemma_others_keep_cooldown(timers, earlier, players.last().index);
    }
    assert(roster.spectating =~= indices(leaving));
    assert(roster.joining_red =~= indices(red));
    assert(roster.joining_blue =~= indices(blue));
}

/// A player is on the server in each of several ticks and does not leave the ice in any.
pub open spec fn stays_around(ticks: Seq<Seq<PlayerModel>>, index: usize) -> bool {
    forall|t: int|
        0 <= t < ticks.len() ==> {
            &&& distinct(#[trigger] ticks[t])
            &&& listed(ticks[t], index)
            &&& forall|k: int|
                0 <= k < ticks[t].len() && (#[trigger] ticks[t][k]).index == index ==> !leaves(
                    ticks[t][k],
                )
        }
}

/// A cooldown goes down by one in each tick, as long as the player is on the server and does
/// not leave the ice anew.
pub proof fn lemma_cooldown_runs_down(
    timers: Map<usize, u32>,
    ticks: Seq<Seq<PlayerModel>>,
    index: usize,
)
    requires
        timers.contains_key(index),
        stays_around(ticks, index),
    ensures
        timers_after_ticks(timers, ticks).contains_key(index),
        timers_after_ticks(timers, ticks)[index] == (if ticks.len() < timers[index] {
            timers[index] - ticks.len()
        } else {
            0
        }),
    decreases ticks.len(),
{
    if ticks.len() > 0 {
        let earlier = ticks.drop_last();
        let players = ticks.last();
        assert(stays_around(earlier, index)) by {
            assert forall|t: int| 0 <= t < earlier.len() implies {
                &&& distinct(#[trigger] earlier[t])
                &&& listed(earlier[t], index)
                &&& forall|k: int|
                    0 <= k < earlier[t].len() && (#[trigger] earlier[t][k]).index == index
                        ==> !leaves(earlier[t][k])
            } by {
                assert(earlier[t] == ticks[t]);
            }
        }
        lemma_cooldown_runs_down(timers, earlier, index);
        assert(players == ticks[ticks.len() - 1]);
        let k = choose|k: int| 0 <= k < players.len() && (#[trigger] players[k]).index == index;
        lemma_pass_cooldowns(timers_after_ticks(timers, earlier), players, k);
    }
}

/// Who has left the ice may join a team in the tick that is [`TEAM_SWITCH_TICKS`] ticks later,
/// and not before: with `n` ticks between the two, this holds in the tick after them if and
/// only if `n + 1` is at least that many.
pub proof fn lemma_leaving_means_waiting(
    timers: Map<usize, u32>,
    players: Seq<PlayerModel>,
    k: int,
    ticks: Seq<Seq<PlayerModel>>,
)
    requires
        distinct(players),
        0 <= k < players.len(),
        leaves(players[k]),
        stays_around(ticks, players[k].index),
    ensures
        cooled_down(
            timers_after_ticks(timers_after(timers, players), ticks),
            players[k].index,
        ) <==> ticks.len() + 1 >= TEAM_SWITCH_TICKS,
{
    lemma_pass_cooldowns(timers, players, k);
    lemma_cooldown_runs_down(timers_after(timers, players), ticks, players[k].index);
}

/// Who was forced off the ice waits as long as who left it: with `n` ticks after that, the player
/// may join a team in the tick after them if and only if `n + 1` is at least
/// [`TEAM_SWITCH_TICKS`].
pub proof fn lemma_force_means_waiting(
    m: MatchModel,
    forced: ForcedMoveModel,
    ticks: Seq<Seq<PlayerModel>>,
)
    requires
        stays_around(ticks, forced.player),
    ensures
        cooled_down(
            timers_after_ticks(m.forced_off_ice(forced, true).game.team_switch_timer, ticks),
            forced.player,
        ) <==> ticks.len() + 1 >= TEAM_SWITCH_TICKS,
{
    lemma_cooldown_runs_down(
        m.forced_off_ice(forced, true).game.team_switch_timer,
        ticks,
        forced.player,
    );
}

/// What a tick begins with: the server is asked to take off the ice, in the order of the players,
/// every skater who wants to spectate and asks for no team, and nothing else but cooldowns changes.
pub proof fn lemma_tick_begins(m: MatchModel)
    requires
        distinct(m.server.players),
    ensures
        m.update_players() == (MatchModel {
            game: ShootoutModel {
                team_switch_timer: m.update_players().game.team_switch_timer,
                ..m.game
            },
            server: ServerModel {
                actions: m.server.actions + m.server.players.filter(
                    |player: PlayerModel|
                        player.team is Some && player.input.spectate && !player.input.join_red
                            && !player.input.join_blue,
                ).map_values(
                    |player: PlayerModel| ActionModel::MoveToSpectator { player: player.index },
                ),
                ..m.server
            },
        }),
{
    let wanting = |player: PlayerModel|
        player.team is Some && player.input.spectate && !player.input.join_red
            && !player.input.join_blue;
    let leaving = |player: PlayerModel| leaves(player);
    lemma_pass_lists(m.game.team_switch_timer, m.server.players);
    assert(wanting =~= leaving);
    assert(m.update_players().server.actions =~= m.server.actions + m.server.players.filter(
        wanting,
    ).map_values(|player: PlayerModel| ActionModel::MoveToSpectator { player: player.index }));
}

/// What a tick makes of the cooldown of a player: five hundred ticks for a skater who leaves, one
/// tick less for everyone else who has to wait still, and none for who had none.
pub proof fn lemma_tick_cools_down(m: MatchModel, k: int)
    requires
        distinct(m.server.players),
        0 <= k < m.server.players.len(),
    ensures
        ({
            let player = m.server.players[k];
            let before = m.game.team_switch_timer;
            let after = m.update_players().game.team_switch_timer;
            if player.team is Some && player.input.spectate && !player.input.join_red
                && !player.input.join_blue {
                after.contains_key(player.index) && after[player.index] == 500
            } else {
                &&& after.contains_key(player.index) == before.contains_key(player.index)
                &&& before.contains_key(player.index) && before[player.index] > 0
                    ==> after[player.index] == before[player.index] - 1
                &&& before.contains_key(player.index) && before[player.index] == 0
                    ==> after[player.index] == 0
            }
        }),
{
    lemma_pass_cooldowns(m.game.team_switch_timer, m.server.players, k);
}

/// The cooldown of someone who is not on the server stays as it is.
pub proof fn lemma_tick_leaves_others(m: MatchModel, index: usize)
    requires
        forall|k: int|
            0 <= k < m.server.players.len() ==> (#[trigger] m.server.players[k]).index != index,
    ensures
        ({
            let before = m.game.team_switch_timer;
            let after = m.update_players().game.team_switch_timer;
            &&& after.contains_key(index) == before.contains_key(index)
            &&& before.contains_key(index) ==> after[index] == before[index]
        }),
{
    lemma_others_keep_cooldown(m.game.team_switch_timer, m.server.players, index);
}

/// Whom a tick lists for a team: in the order of the players, all who have no skater, ask for that
/// team and have at most this tick left to wait. Who asks for both is listed for Red.
pub proof fn lemma_tick_lists(m: MatchModel)
    requires
        distinct(m.server.players),
    ensures
        m.roster().joining_red == m.server.players.filter(
            |player: PlayerModel|
                player.team is None && player.input.join_red && (
                m.game.team_switch_timer.contains_key(player.index)
                    ==> m.game.team_switch_timer[player.index] <= 1),
        ).map_values(|player: PlayerModel| player.index),
        m.roster().joining_blue == m.server.players.filter(
            |player: PlayerModel|
                player.team is None && player.input.join_blue && !player.input.join_red && (
                m.game.team_switch_timer.contains_key(player.index)
                    ==> m.game.team_switch_timer[player.index] <= 1),
        ).map_values(|player: PlayerModel| player.index),
{
    let timers = m.game.team_switch_timer;
    let red = |player: PlayerModel|
        player.team is None && player.input.join_red && (timers.contains_key(player.index)
            ==> timers[player.index] <= 1);
    let blue = |player: PlayerModel|
        player.team is None && player.input.join_blue && !player.input.join_red && (
        timers.contains_key(player.index) ==> timers[player.index] <= 1);
    lemma_pass_lists(timers, m.server.players);
    assert(red =~= |player: PlayerModel| may_join_red(timers, player));
    assert(blue =~= |player: PlayerModel| may_join_blue(timers, player));
    assert(m.roster().joining_red =~= m.server.players.filter(red).map_values(
        |player: PlayerModel| player.index,
    ));
    assert(m.roster().joining_blue =~= m.server.players.filter(blue).map_values(
        |player: PlayerModel| player.index,
    ));
}

/// Who has left the server and comes back may join a team at once: of the player nothing is kept,
/// and everything else is.
pub proof fn lemma_left_is_forgotten(m: MatchModel, index: usize, other: usize)
    ensures
        ({
            let left = m.game.without_player(index);
            &&& !left.team_switch_timer.contains_key(index)
            &&& other != index ==> left.team_switch_timer.contains_key(other)
                == m.game.team_switch_timer.contains_key(other)
            &&& other != index && left.team_switch_timer.contains_key(other)
                ==> left.team_switch_timer[other] == m.game.team_switch_timer[other]
            &&& left.attempts == m.game.attempts
            &&& left.status == m.game.status
            &&& left.paused == m.game.paused
            &&& left.team_max == m.game.team_max
        }),
{
}

} // verus!
