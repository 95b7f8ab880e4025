//! The picture of the server that the game mode reads, and what it asks of the server.
use crate::team::HQMTeam;
use vstd::prelude::*;

verus! {

/// What the scoreboard holds.
#[derive(Debug, Clone, Copy, PartialEq, Eq, Structural)]
pub struct HQMGameValues {
    /// Ticks left on the clock.
    pub time: u32,
    /// Ticks for which a goal is still announced.
    pub goal_message_timer: u32,
    pub period: u32,
    pub red_score: u32,
    pub blue_score: u32,
    pub game_over: bool,
}

/// [`HQMGameValues`] with scores that know no upper limit.
pub struct GameValuesModel {
    pub time: u32,
    pub goal_message_timer: u32,
    pub period: u32,
    pub red_score: int,
    pub blue_score: int,
    pub game_over: bool,
}

impl View for HQMGameValues {
    type V = GameValuesModel;

    open spec fn view(&self) -> GameValuesModel {
        GameValuesModel {
            time: self.time,
            goal_message_timer: self.goal_message_timer,
            period: self.period,
            red_score: self.red_score as int,
            blue_score: self.blue_score as int,
            game_over: self.game_over,
        }
    }
}

impl GameValuesModel {
    /// The score of a team.
    pub open spec fn score(self, team: HQMTeam) -> int {
        match team {
            HQMTeam::Red => self.red_score,
            HQMTeam::Blue => self.blue_score,
        }
    }

    /// The values with another score for a team.
    pub open spec fn with_score(self, team: HQMTeam, score: int) -> GameValuesModel {
        match team {
            HQMTeam::Red => GameValuesModel { red_score: score, ..self },
            HQMTeam::Blue => GameValuesModel { blue_score: score, ..self },
        }
    }

    /// The scores can be kept on the scoreboard.
    pub open spec fn in_range(self) -> bool {
        &&& 0 <= self.red_score <= u32::MAX
        &&& 0 <= self.blue_score <= u32::MAX
    }
}

/// The wishes that a player's input holds.
#[derive(Debug, Clone, Copy, PartialEq, Eq, Structural)]
pub struct HQMPlayerInput {
    pub join_red: bool,
    pub join_blue: bool,
    pub spectate: bool,
}

/// A connected player.
#[derive(Debug)]
pub struct HQMServerPlayer {
    /// The player's place in the server's list.
    pub index: usize,
    pub player_name: String,
    pub is_admin: bool,
    /// The team of the player's skater; none for a spectator.
    pub team: Option<HQMTeam>,
    pub input: HQMPlayerInput,
}

/// [`HQMServerPlayer`] with the name as a sequence of characters.
pub struct PlayerModel {
    pub index: usize,
    pub player_name: Seq<char>,
    pub is_admin: bool,
    pub team: Option<HQMTeam>,
    pub input: HQMPlayerInput,
}

impl View for HQMServerPlayer {
    type V = PlayerModel;

    open spec fn view(&self) -> PlayerModel {
        PlayerModel {
            index: self.index,
            player_name: self.player_name@,
            is_admin: self.is_admin,
            team: self.team,
            input: self.input,
        }
    }
}

/// How the teams are called in messages.
#[derive(Debug)]
pub struct HQMTeamNames {
    pub red: String,
    pub blue: String,
}

/// [`HQMTeamNames`] as sequences of characters.
pub struct TeamNamesModel {
    pub red: Seq<char>,
    pub blue: Seq<char>,
}

impl View for HQMTeamNames {
    type V = TeamNamesModel;

    open spec fn view(&self) -> TeamNamesModel {
        TeamNamesModel { red: self.red@, blue: self.blue@ }
    }
}

impl TeamNamesModel {
    /// The name of a team.
    pub open spec fn of(self, team: HQMTeam) -> Seq<char> {
        match team {
            HQMTeam::Red => self.red,
            HQMTeam::Blue => self.blue,
        }
    }
}

impl HQMTeamNames {
    /// Gives the name of a team.
    pub fn of(&self, team: HQMTeam) -> (name: &str)
        ensures
            name@ == self@.of(team),
    {
        match team {
            HQMTeam::Red => self.red.as_str(),
            HQMTeam::Blue => self.blue.as_str(),
        }
    }
}

/// Where a skater is put for an attempt. A skater faces the goal that its team
/// attacks.
#[derive(Debug, Clone, Copy, PartialEq, Eq, Structural)]
pub enum HQMSpawnSpot {
    /// Behind the middle of the ice, by [`ATTACKER_BACK_TENTHS`].
    CenterIce,
    /// On the axis of the ice in front of the own net, [`GOALIE_OUT_TENTHS`] from the
    /// end of the rink.
    Crease,
}

/// How far from the middle of the ice, in tenths of the unit of length, attackers
/// start.
pub const ATTACKER_BACK_TENTHS: u32 = 30;

/// How far from the end of the rink, in tenths of the unit of length, the goalie
/// starts.
pub const GOALIE_OUT_TENTHS: u32 = 50;

/// How far above the ice, in tenths of the unit of length, a skater is put.
pub const SKATER_HEIGHT_TENTHS: u32 = 15;

/// How far above the ice, in tenths of the unit of length, the puck is put.
pub const PUCK_HEIGHT_TENTHS: u32 = 10;

/// One step to the left, in tenths of the unit of length, by which skaters of one
/// team are kept apart.
pub const SIDE_STEP_TENTHS: u32 = 15;

/// Something that the server is asked to do.
#[derive(Debug)]
pub enum HQMServerAction {
    /// Write a message of the server to the chat.
    ServerChat { text: String },
    /// Announce a goal of a team, without scorer or assist.
    GoalMessage { team: HQMTeam },
    /// Tell a player that the command is for administrators only.
    AdminDeny { player: usize },
    /// Start a new game with the initial game values.
    NewGame,
    /// Take all pucks off the ice.
    ClearPucks,
    /// Put a puck in the middle of the ice.
    CreatePuck,
    /// Put a player's skater on the ice, `side_steps` steps to the left of the spot.
    SpawnSkater { player: usize, team: HQMTeam, spot: HQMSpawnSpot, side_steps: usize },
    /// Take a player's skater off the ice.
    MoveToSpectator { player: usize },
}

/// [`HQMServerAction`] with texts as sequences of characters.
pub enum ActionModel {
    ServerChat { text: Seq<char> },
    GoalMessage { team: HQMTeam },
    AdminDeny { player: usize },
    NewGame,
    ClearPucks,
    CreatePuck,
    SpawnSkater { player: usize, team: HQMTeam, spot: HQMSpawnSpot, side_steps: int },
    MoveToSpectator { player: usize },
}

impl View for HQMServerAction {
    type V = ActionModel;

    open spec fn view(&self) -> ActionModel {
        match *self {
            HQMServerAction::ServerChat { text } => ActionModel::ServerChat { text: text@ },
            HQMServerAction::GoalMessage { team } => ActionModel::GoalMessage { team },
            HQMServerAction::AdminDeny { player } => ActionModel::AdminDeny { player },
            HQMServerAction::NewGame => ActionModel::NewGame,
            HQMServerAction::ClearPucks => ActionModel::ClearPucks,
            HQMServerAction::CreatePuck => ActionModel::CreatePuck,
            HQMServerAction::SpawnSkater {
                player,
                team,
                spot,
                side_steps,
            } => ActionModel::SpawnSkater { player, team, spot, side_steps: side_steps as int },
            HQMServerAction::MoveToSpectator { player } => ActionModel::MoveToSpectator { player },
        }
    }
}

/// The server as the game mode sees it in one call.
#[derive(Debug)]
pub struct HQMServer {
    pub values: HQMGameValues,
    /// The connected players, in the order of the server's list.
    pub players: Vec<HQMServerPlayer>,
    pub team_names: HQMTeamNames,
    /// What the server is asked to do, in this order, once `values` are in place.
    pub actions: Vec<HQMServerAction>,
}

/// [`HQMServer`] as a mathematical value.
#[verifier::ext_equal]
pub struct ServerModel {
    pub values: GameValuesModel,
    pub players: Seq<PlayerModel>,
    pub team_names: TeamNamesModel,
    pub actions: Seq<ActionModel>,
}

/// The players of a list.
pub open spec fn player_models(players: Seq<HQMServerPlayer>) -> Seq<PlayerModel> {
    players.map_values(|player: HQMServerPlayer| player@)
}

/// The actions of a list.
pub open spec fn action_models(actions: Seq<HQMServerAction>) -> Seq<ActionModel> {
    actions.map_values(|action: HQMServerAction| action@)
}

impl View for HQMServer {
    type V = ServerModel;

    open spec fn view(&self) -> ServerModel {
        ServerModel {
            values: self.values@,
            players: player_models(self.players@),
            team_names: self.team_names@,
            actions: action_models(self.actions@),
        }
    }
}

/// The first player of a list at the given index.
pub open spec fn player_at(players: Seq<PlayerModel>, index: usize) -> Option<PlayerModel>
    decreases players.len(),
{
    if players.len() == 0 {
        None
    } else if players[0].index == index {
        Some(players[0])
    } else {
        player_at(players.skip(1), index)
    }
}

/// The indices of the players with a skater in a team, in the order of the list.
pub open spec fn skaters_of(players: Seq<PlayerModel>, team: HQMTeam) -> Seq<usize> {
    players.filter(|player: PlayerModel| player.team == Some(team)).map_values(
        |player: PlayerModel| player.index,
    )
}

impl ServerModel {
    /// The server with one more thing to do.
    pub open spec fn act(self, action: ActionModel) -> ServerModel {
        ServerModel { actions: self.actions.push(action), ..self }
    }

    /// The server with several more things to do.
    pub open spec fn act_all(self, actions: Seq<ActionModel>) -> ServerModel {
        ServerModel { actions: self.actions + actions, ..self }
    }

    /// The server with a chat message to write.
    pub open spec fn say(self, text: Seq<char>) -> ServerModel {
        self.act(ActionModel::ServerChat { text })
    }

    /// The server with other game values.
    pub open spec fn with_values(self, values: GameValuesModel) -> ServerModel {
        ServerModel { values, ..self }
    }

    /// The player at an index.
    pub open spec fn player(self, index: usize) -> Option<PlayerModel> {
        player_at(self.players, index)
    }

    /// The player at an index is an administrator.
    pub open spec fn is_admin(self, index: usize) -> bool {
        self.player(index) matches Some(player) && player.is_admin
    }

    /// The name of the player at an index.
    pub open spec fn name(self, index: usize) -> Seq<char> {
        self.player(index)->0.player_name
    }

    /// The player at an index is told that a command is for administrators only, if the
    /// player is there.
    pub open spec fn denied(self, index: usize) -> ServerModel {
        if self.player(index) is Some {
            self.act(ActionModel::AdminDeny { player: index })
        } else {
            self
        }
    }
}

/// What one more player adds to the skaters of a team.
pub proof fn lemma_skaters_push(players: Seq<PlayerModel>, player: PlayerModel, team: HQMTeam)
    ensures
        skaters_of(players.push(player), team) == (if player.team == Some(team) {
            skaters_of(players, team).push(player.index)
        } else {
            skaters_of(players, team)
        }),
{
    let in_team = |p: PlayerModel| p.team == Some(team);
    assert(players.push(player).drop_last() =~= players);
    reveal_with_fuel(Seq::filter, 2);
    assert(skaters_of(players.push(player), team) =~= (if player.team == Some(team) {
        skaters_of(players, team).push(player.index)
    } else {
        skaters_of(players, team)
    }));
}

/// A team has no more skaters than there are players.
pub proof fn lemma_skaters_len(players: Seq<PlayerModel>, team: HQMTeam)
    ensures
        skaters_of(players, team).len() <= players.len(),
{
    players.lemma_filter_len(|p: PlayerModel| p.team == Some(team));
}

impl HQMServer {
    /// Asks the server to do something.
    pub fn request(&mut self, action: HQMServerAction)
        ensures
            final(self)@ == old(self)@.act(action@),
    {
        let ghost before = self.actions@;
        self.actions.push(action);
        assert(action_models(self.actions@) =~= action_models(before).push(action@));
    }

    /// Asks the server to write a chat message.
    pub fn say(&mut self, text: String)
        ensures
            final(self)@ == old(self)@.say(text@),
    {
        self.request(HQMServerAction::ServerChat { text });
    }

    /// Finds the player at an index.
    pub fn player(&self, index: usize) -> (found: Option<&HQMServerPlayer>)
        ensures
            match found {
                Some(player) => self@.player(index) == Some(player@),
                None => self@.player(index) is None,
            },
    {
        let ghost players = self@.players;
        let mut i: usize = 0;
        assert(players.skip(0) =~= players);
        while i < self.players.len()
            invariant
                i <= self.players@.len(),
                players == self@.players,
                player_at(players, index) == player_at(players.skip(i as int), index),
            decreases self.players@.len() - i,
        {
            assert(players.skip(i as int)[0] == self.players@[i as int]@);
            if self.players[i].index == index {
                return Some(&self.players[i]);
            }
            assert(players.skip(i as int).skip(1) =~= players.skip(i + 1));
            i = i + 1;
        }
        assert(players.skip(i as int).len() == 0);
        None
    }

    /// Gives the name of the player at an index if the player is an administrator, and
    /// else has the player told that a command is for administrators only.
    pub fn authorise(&mut self, index: usize) -> (name: Option<String>)
        ensures
            match name {
                Some(name) => {
                    &&& old(self)@.is_admin(index)
                    &&& name@ == old(self)@.name(index)
                    &&& final(self)@ == old(self)@
                },
                None => {
                    &&& !old(self)@.is_admin(index)
                    &&& final(self)@ == old(self)@.denied(index)
                },
            },
    {
        let name: Option<String> = match self.player(index) {
            None => return None,
            Some(player) => if player.is_admin {
                Some(player.player_name.clone())
            } else {
                None
            },
        };
        if name.is_none() {
            self.request(HQMServerAction::AdminDeny { player: index });
        }
        name
    }

    /// Lists the players with a skater in a team.
    pub fn team_skaters(&self, team: HQMTeam) -> (list: Vec<usize>)
        ensures
            list@ == skaters_of(self@.players, team),
    {
        let ghost players = self@.players;
        let mut list: Vec<usize> = Vec::new();
        let mut i: usize = 0;
        assert(players.take(0) =~= Seq::<PlayerModel>::empty());
        proof {
            lemma_skaters_len(players.take(0), team);
        }
        assert(list@ =~= skaters_of(players.take(0), team));
        while i < self.players.len()
            invariant
                i <= self.players@.len(),
                players == self@.players,
                list@ == skaters_of(players.take(i as int), team),
            decreases self.players@.len() - i,
        {
            let player: &HQMServerPlayer = &self.players[i];
            proof {
                lemma_skaters_push(players.take(i as int), player@, team);
                assert(players.take(i as int).push(player@) =~= players.take(i + 1));
            }
            if let Some(player_team) = player.team {
                if player_team == team {
                    list.push(player.index);
                }
            }
            i = i + 1;
        }
        assert(players.take(i as int) =~= players);
        list
    }

    /// Counts the players with a skater in a team.
    pub fn count_skaters(&self, team: HQMTeam) -> (count: usize)
        ensures
            count == skaters_of(self@.players, team).len(),
    {
        self.team_skaters(team).len()
    }
}

/// The number of skaters that a team has among the first players of a list.
pub open spec fn skaters_before(players: Seq<PlayerModel>, team: HQMTeam, n: int) -> int
    decreases n,
{
    if n <= 0 {
        0
    } else if players[n - 1].team == Some(team) {
        skaters_before(players, team, n - 1) + 1
    } else {
        skaters_before(players, team, n - 1)
    }
}

/// The list of a team's skaters is as long as there are players with a skater in it.
pub proof fn lemma_skaters_counted(players: Seq<PlayerModel>, team: HQMTeam)
    ensures
        skaters_of(players, team).len() == skaters_before(players, team, players.len() as int),
{
    lemma_skaters_counted_to(players, team, players.len() as int);
    assert(players.take(players.len() as int) =~= players);
}

proof fn lemma_skaters_counted_to(players: Seq<PlayerModel>, team: HQMTeam, n: int)
    requires
        0 <= n <= players.len(),
    ensures
        skaters_of(players.take(n), team).len() == skaters_before(players, team, n),
    decreases n,
{
    if n == 0 {
        lemma_skaters_len(players.take(0), team);
    } else {
        lemma_skaters_counted_to(players, team, n - 1);
        lemma_skaters_push(players.take(n - 1), players[n - 1], team);
        assert(players.take(n - 1).push(players[n - 1]) =~= players.take(n));
    }
}

/// In the list of a team's skaters each player stands behind exactly those who come earlier among
/// the players.
pub proof fn lemma_skater_in_place(players: Seq<PlayerModel>, team: HQMTeam, k: int)
    requires
        0 <= k < players.len(),
        players[k].team == Some(team),
    ensures
        0 <= skaters_before(players, team, k) < skaters_of(players, team).len(),
        skaters_of(players, team)[skaters_before(players, team, k)] == players[k].index,
{
    lemma_skater_in_place_to(players, team, k, players.len() as int);
    assert(players.take(players.len() as int) =~= players);
}

proof fn lemma_skater_in_place_to(players: Seq<PlayerModel>, team: HQMTeam, k: int, n: int)
    requires
        0 <= k < n <= players.len(),
        players[k].team == Some(team),
    ensures
        0 <= skaters_before(players, team, k) < skaters_of(players.take(n), team).len(),
        skaters_of(players.take(n), team)[skaters_before(players, team, k)] == players[k].index,
    decreases n,
{
    lemma_skaters_push(players.take(n - 1), players[n - 1], team);
    assert(players.take(n - 1).push(players[n - 1]) =~= players.take(n));
    if k < n - 1 {
        lemma_skater_in_place_to(players, team, k, n - 1);
    } else {
        lemma_skaters_counted_to(players, team, k);
    }
}

/// Each place in the list of a team's skaters belongs to a player.
pub proof fn lemma_place_has_player(
    players: Seq<PlayerModel>,
    team: HQMTeam,
    place: int,
) -> (k: int)
    requires
        0 <= place < skaters_of(players, team).len(),
    ensures
        0 <= k < players.len(),
        players[k].team == Some(team),
        skaters_before(players, team, k) == place,
{
    lemma_skaters_counted(players, team);
    lemma_place_has_player_to(players, team, place, players.len() as int)
}

proof fn lemma_place_has_player_to(
    players: Seq<PlayerModel>,
    team: HQMTeam,
    place: int,
    n: int,
) -> (k: int)
    requires
        0 <= n <= players.len(),
        0 <= place < skaters_before(players, team, n),
    ensures
        0 <= k < players.len(),
        players[k].team == Some(team),
        skaters_before(players, team, k) == place,
    decreases n,
{
    if players[n - 1].team == Some(team) && skaters_before(players, team, n - 1) == place {
        n - 1
    } else {
        lemma_place_has_player_to(players, team, place, n - 1)
    }
}

/// The player at an index is the first one in the list with this index, and there is none exactly
/// if no player of the list has it.
pub proof fn lemma_player_is_the_first(players: Seq<PlayerModel>, index: usize)
    ensures
        match player_at(players, index) {
            Some(player) => exists|k: int|
                {
                    &&& 0 <= k < players.len()
                    &&& #[trigger] players[k] == player
                    &&& player.index == index
                    &&& forall|j: int| 0 <= j < k ==> (#[trigger] players[j]).index != index
                },
            None => forall|j: int|
                0 <= j < players.len() ==> (#[trigger] players[j]).index != index,
        },
    decreases players.len(),
{
    if players.len() > 0 && players[0].index != index {
        let rest = players.skip(1);
        lemma_player_is_the_first(rest, index);
        match player_at(rest, index) {
            Some(player) => {
                let k = choose|k: int|
                    {
                        &&& 0 <= k < rest.len()
                        &&& #[trigger] rest[k] == player
                        &&& player.index == index
                        &&& forall|j: int| 0 <= j < k ==> (#[trigger] rest[j]).index != index
                    };
                assert(players[k + 1] == player);
                assert forall|j: int| 0 <= j < k + 1 implies (#[trigger] players[j]).index
                    != index by {
                    if j > 0 {
                        assert(rest[j - 1] == players[j]);
                    }
                }
            },
            None => {
                assert forall|j: int| 0 <= j < players.len() implies (#[trigger] players[j]).index
                    != index by {
                    if j > 0 {
                        assert(rest[j - 1] == players[j]);
                    }
                }
            },
        }
    } else if players.len() > 0 {
        assert(players[0] == player_at(players, index)->0);
    }
}

/// Values, players, names and actions stand for what they hold.
pub proof fn lemma_views_are_faithful(server: HQMServer, k: int, i: int)
    ensures
        server@.values.time == server.values.time,
        server@.values.goal_message_timer == server.values.goal_message_timer,
        server@.values.period == server.values.period,
        server@.values.red_score == server.values.red_score,
        server@.values.blue_score == server.values.blue_score,
        server@.values.game_over == server.values.game_over,
        server@.team_names.red == server.team_names.red@,
        server@.team_names.blue == server.team_names.blue@,
        server@.players.len() == server.players@.len(),
        0 <= k < server.players@.len() ==> {
            let player = server.players@[k];
            &&& server@.players[k].index == player.index
            &&& server@.players[k].player_name == player.player_name@
            &&& server@.players[k].is_admin == player.is_admin
            &&& server@.players[k].team == player.team
            &&& server@.players[k].input == player.input
        },
        server@.actions.len() == server.actions@.len(),
        0 <= i < server.actions@.len() ==> match server.actions@[i] {
            HQMServerAction::ServerChat { text } => server@.actions[i]
                == ActionModel::ServerChat { text: text@ },
            HQMServerAction::GoalMessage { team } => server@.actions[i]
                == ActionModel::GoalMessage { team },
            HQMServerAction::AdminDeny { player } => server@.actions[i]
                == ActionModel::AdminDeny { player },
            HQMServerAction::NewGame => server@.actions[i] == ActionModel::NewGame,
            HQMServerAction::ClearPucks => server@.actions[i] == ActionModel::ClearPucks,
            HQMServerAction::CreatePuck => server@.actions[i] == ActionModel::CreatePuck,
            HQMServerAction::SpawnSkater { player, team, spot, side_steps } => server@.actions[i]
                == (ActionModel::SpawnSkater { player, team, spot, side_steps: side_steps as int }),
            HQMServerAction::MoveToSpectator { player } => server@.actions[i]
                == ActionModel::MoveToSpectator { player },
        },
{
}

} // verus!
