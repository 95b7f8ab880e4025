//! The two teams.
use vstd::prelude::*;

verus! {

/// A team on the ice.
#[derive(Debug, Clone, Copy, PartialEq, Eq, Hash, Structural)]
pub enum HQMTeam {
    Red,
    Blue,
}

impl HQMTeam {
    /// The opponent.
    pub open spec fn other(self) -> HQMTeam {
        match self {
            HQMTeam::Red => HQMTeam::Blue,
            HQMTeam::Blue => HQMTeam::Red,
        }
    }

    /// Gives the opponent of this team.
    pub fn get_other_team(self) -> (other: HQMTeam)
        ensures
            other == self.other(),
    {
        match self {
            HQMTeam::Red => HQMTeam::Blue,
            HQMTeam::Blue => HQMTeam::Red,
        }
    }
}

/// The opponent is the team that this team is not, and its opponent is this team.
pub proof fn lemma_opponents(team: HQMTeam)
    ensures
        team.other() != team,
        team.other().other() == team,
{
}

} // verus!
