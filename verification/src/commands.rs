//! Chat commands.
use crate::team::HQMTeam;
use crate::text::{
    decimal, lemma_decimal_is_plain, lemma_decimal_reads_back, lemma_parts_of_words, parse_u32,
    parts, put_together, same_text, split_text, u32_of_text, words,
};
use vstd::prelude::*;

verus! {

/// A command that a player has given.
#[derive(Debug, Clone, Copy, PartialEq, Eq, Structural)]
pub enum HQMShootoutCommand {
    /// `reset` or `resetgame`
    ResetGame,
    /// `fs <player>`
    ForceOffIce { player: usize },
    /// `set redscore <score>` or `set bluescore <score>`
    SetScore { team: HQMTeam, score: u32 },
    /// `set round <team> <round>`
    SetRound { team: HQMTeam, round: u32 },
    /// `redo <team> <round>`
    RedoRound { team: HQMTeam, round: u32 },
    /// `pause` or `pausegame`
    Pause,
    /// `unpause` or `unpausegame`
    Unpause,
}

/// The team that a word of a command stands for.
pub open spec fn team_of_word(word: Seq<char>) -> Option<HQMTeam> {
    if word == "r"@ || word == "R"@ {
        Some(HQMTeam::Red)
    } else if word == "b"@ || word == "B"@ {
        Some(HQMTeam::Blue)
    } else {
        None
    }
}

/// Team and round, from a word each.
pub open spec fn team_and_round(team: Seq<char>, round: Seq<char>) -> Option<(HQMTeam, u32)> {
    match (team_of_word(team), u32_of_text(round)) {
        (Some(team), Some(round)) => Some((team, round)),
        _ => None,
    }
}

/// What `set` with these words asks for.
pub open spec fn set_command(args: Seq<Seq<char>>) -> Option<HQMShootoutCommand> {
    if args.len() < 2 {
        None
    } else if args[0] == "redscore"@ {
        match u32_of_text(args[1]) {
            Some(score) => Some(HQMShootoutCommand::SetScore { team: HQMTeam::Red, score }),
            None => None,
        }
    } else if args[0] == "bluescore"@ {
        match u32_of_text(args[1]) {
            Some(score) => Some(HQMShootoutCommand::SetScore { team: HQMTeam::Blue, score }),
            None => None,
        }
    } else if args[0] == "round"@ && args.len() >= 3 {
        match team_and_round(args[1], args[2]) {
            Some((team, round)) => Some(HQMShootoutCommand::SetRound { team, round }),
            None => None,
        }
    } else {
        None
    }
}

/// What `redo` with these words asks for.
pub open spec fn redo_command(args: Seq<Seq<char>>) -> Option<HQMShootoutCommand> {
    if args.len() < 2 {
        None
    } else {
        match team_and_round(args[0], args[1]) {
            Some((team, round)) => Some(HQMShootoutCommand::RedoRound { team, round }),
            None => None,
        }
    }
}

/// The command that a command word and its argument stand for. `named_player` is the
/// player that the whole argument names, if it names one.
pub open spec fn command_of(
    cmd: Seq<char>,
    arg: Seq<char>,
    named_player: Option<usize>,
) -> Option<HQMShootoutCommand> {
    if cmd == "reset"@ || cmd == "resetgame"@ {
        Some(HQMShootoutCommand::ResetGame)
    } else if cmd == "fs"@ {
        match named_player {
            Some(player) => Some(HQMShootoutCommand::ForceOffIce { player }),
            None => None,
        }
    } else if cmd == "set"@ {
        set_command(parts(arg, ' '))
    } else if cmd == "redo"@ {
        redo_command(parts(arg, ' '))
    } else if cmd == "pause"@ || cmd == "pausegame"@ {
        Some(HQMShootoutCommand::Pause)
    } else if cmd == "unpause"@ || cmd == "unpausegame"@ {
        Some(HQMShootoutCommand::Unpause)
    } else {
        None
    }
}

/// Reads the word for a team.
pub fn parse_team(word: &str) -> (team: Option<HQMTeam>)
    ensures
        team == team_of_word(word@),
{
    if same_text(word, "r") || same_text(word, "R") {
        Some(HQMTeam::Red)
    } else if same_text(word, "b") || same_text(word, "B") {
        Some(HQMTeam::Blue)
    } else {
        None
    }
}

/// Reads the words for a team and a round.
fn parse_team_and_round(team: &str, round: &str) -> (parsed: Option<(HQMTeam, u32)>)
    ensures
        parsed == team_and_round(team@, round@),
{
    match (parse_team(team), parse_u32(round)) {
        (Some(team), Some(round)) => Some((team, round)),
        _ => None,
    }
}

/// Reads the argument of `set`.
fn parse_set(arg: &str) -> (command: Option<HQMShootoutCommand>)
    ensures
        command == set_command(parts(arg@, ' ')),
{
    let args: Vec<&str> = split_text(arg, ' ');
    let ghost said = words(args@);
    assert(said.len() == args@.len());
    if args.len() < 2 {
        return None;
    }
    assert(said[0] == args@[0]@ && said[1] == args@[1]@);
    if same_text(args[0], "redscore") {
        match parse_u32(args[1]) {
            Some(score) => Some(HQMShootoutCommand::SetScore { team: HQMTeam::Red, score }),
            None => None,
        }
    } else if same_text(args[0], "bluescore") {
        match parse_u32(args[1]) {
            Some(score) => Some(HQMShootoutCommand::SetScore { team: HQMTeam::Blue, score }),
            None => None,
        }
    } else if same_text(args[0], "round") && args.len() >= 3 {
        assert(said[2] == args@[2]@);
        match parse_team_and_round(args[1], args[2]) {
            Some((team, round)) => Some(HQMShootoutCommand::SetRound { team, round }),
            None => None,
        }
    } else {
        None
    }
}

/// Reads the argument of `redo`.
fn parse_redo(arg: &str) -> (command: Option<HQMShootoutCommand>)
    ensures
        command == redo_command(parts(arg@, ' ')),
{
    let args: Vec<&str> = split_text(arg, ' ');
    let ghost said = words(args@);
    assert(said.len() == args@.len());
    if args.len() < 2 {
        return None;
    }
    assert(said[0] == args@[0]@ && said[1] == args@[1]@);
    match parse_team_and_round(args[0], args[1]) {
        Some((team, round)) => Some(HQMShootoutCommand::RedoRound { team, round }),
        None => None,
    }
}

/// Reads a command word and its argument. `named_player` is the player that the whole
/// argument names, if it names one.
pub fn parse_command(cmd: &str, arg: &str, named_player: Option<usize>) -> (command: Option<
    HQMShootoutCommand,
>)
    ensures
        command == command_of(cmd@, arg@, named_player),
{
    if same_text(cmd, "reset") || same_text(cmd, "resetgame") {
        Some(HQMShootoutCommand::ResetGame)
    } else if same_text(cmd, "fs") {
        match named_player {
            Some(player) => Some(HQMShootoutCommand::ForceOffIce { player }),
            None => None,
        }
    } else if same_text(cmd, "set") {
        parse_set(arg)
    } else if same_text(cmd, "redo") {
        parse_redo(arg)
    } else if same_text(cmd, "pause") || same_text(cmd, "pausegame") {
        Some(HQMShootoutCommand::Pause)
    } else if same_text(cmd, "unpause") || same_text(cmd, "unpausegame") {
        Some(HQMShootoutCommand::Unpause)
    } else {
        None
    }
}

/// The command words are different from one another.
proof fn lemma_command_words_differ(cmd: Seq<char>)
    ensures
        cmd == "reset"@ || cmd == "resetgame"@ ==> cmd != "fs"@ && cmd != "set"@ && cmd != "redo"@
            && cmd != "pause"@ && cmd != "pausegame"@ && cmd != "unpause"@ && cmd
            != "unpausegame"@,
        cmd == "fs"@ ==> cmd != "set"@ && cmd != "redo"@ && cmd != "pause"@ && cmd != "pausegame"@
            && cmd != "unpause"@ && cmd != "unpausegame"@,
        cmd == "set"@ ==> cmd != "redo"@ && cmd != "pause"@ && cmd != "pausegame"@ && cmd
            != "unpause"@ && cmd != "unpausegame"@,
        cmd == "redo"@ ==> cmd != "pause"@ && cmd != "pausegame"@ && cmd != "unpause"@ && cmd
            != "unpausegame"@,
        cmd == "pause"@ || cmd == "pausegame"@ ==> cmd != "unpause"@ && cmd != "unpausegame"@,
{
    reveal_strlit("reset");
    reveal_strlit("resetgame");
    reveal_strlit("fs");
    reveal_strlit("set");
    reveal_strlit("redo");
    reveal_strlit("pause");
    reveal_strlit("pausegame");
    reveal_strlit("unpause");
    reveal_strlit("unpausegame");
    assert("reset"@[0] == 'r' && "resetgame"@[0] == 'r');
    assert("pause"@[0] == 'p' && "pausegame"@[0] == 'p');
    assert("unpause"@[0] == 'u' && "unpausegame"@[0] == 'u');
    assert("fs"@[0] == 'f' && "set"@[0] == 's');
    assert("redo"@[0] == 'r' && "redo"@.len() == 4);
    assert("reset"@.len() == 5 && "resetgame"@.len() == 9);
}

/// The words of the commands that need no argument, whatever stands behind them.
pub proof fn lemma_bare_commands(arg: Seq<char>, named_player: Option<usize>)
    ensures
        command_of("reset"@, arg, named_player) == Some(HQMShootoutCommand::ResetGame),
        command_of("resetgame"@, arg, named_player) == Some(HQMShootoutCommand::ResetGame),
        command_of("pause"@, arg, named_player) == Some(HQMShootoutCommand::Pause),
        command_of("pausegame"@, arg, named_player) == Some(HQMShootoutCommand::Pause),
        command_of("unpause"@, arg, named_player) == Some(HQMShootoutCommand::Unpause),
        command_of("unpausegame"@, arg, named_player) == Some(HQMShootoutCommand::Unpause),
{
    lemma_command_words_differ("pause"@);
    lemma_command_words_differ("pausegame"@);
    lemma_command_words_differ("reset"@);
    lemma_command_words_differ("resetgame"@);
    lemma_command_words_differ("fs"@);
    lemma_command_words_differ("set"@);
    lemma_command_words_differ("redo"@);
}

/// `fs` is about the player whom its argument names, and nothing if it names none.
pub proof fn lemma_force_command(arg: Seq<char>, player: usize)
    ensures
        command_of("fs"@, arg, Some(player)) == Some(HQMShootoutCommand::ForceOffIce { player }),
        command_of("fs"@, arg, None) is None,
{
    lemma_command_words_differ("reset"@);
    lemma_command_words_differ("resetgame"@);
}

/// No other word is a command.
pub proof fn lemma_no_other_commands(
    cmd: Seq<char>,
    arg: Seq<char>,
    named_player: Option<usize>,
)
    requires
        cmd != "reset"@,
        cmd != "resetgame"@,
        cmd != "fs"@,
        cmd != "set"@,
        cmd != "redo"@,
        cmd != "pause"@,
        cmd != "pausegame"@,
        cmd != "unpause"@,
        cmd != "unpausegame"@,
    ensures
        command_of(cmd, arg, named_player) is None,
{
}

/// The words for the teams: a single letter, small or capital.
pub proof fn lemma_team_words(word: Seq<char>)
    ensures
        team_of_word(word) == Some(HQMTeam::Red) <==> word == seq!['r'] || word == seq!['R'],
        team_of_word(word) == Some(HQMTeam::Blue) <==> word == seq!['b'] || word == seq!['B'],
        team_of_word(word) is None <==> word != seq!['r'] && word != seq!['R'] && word != seq!['b']
            && word != seq!['B'],
{
    reveal_strlit("r");
    reveal_strlit("R");
    reveal_strlit("b");
    reveal_strlit("B");
    assert("r"@ =~= seq!['r']);
    assert("R"@ =~= seq!['R']);
    assert("b"@ =~= seq!['b']);
    assert("B"@ =~= seq!['B']);
    assert(seq!['r'][0] == 'r' && seq!['R'][0] == 'R' && seq!['b'][0] == 'b' && seq!['B'][0]
        == 'B');
}

/// Words, none of which has a space in it.
pub open spec fn are_words(list: Seq<Seq<char>>) -> bool {
    forall|i: int| 0 <= i < list.len() ==> !(#[trigger] list[i]).contains(' ')
}

/// `set redscore` and `set bluescore` with a number set that score, whatever follows; without a
/// number they are no command.
pub proof fn lemma_score_commands(
    team: HQMTeam,
    list: Seq<Seq<char>>,
    named_player: Option<usize>,
)
    requires
        are_words(list),
        list.len() >= 1,
        list[0] == (if team == HQMTeam::Red {
            "redscore"@
        } else {
            "bluescore"@
        }),
    ensures
        ({
            let command = command_of("set"@, put_together(list, ' '), named_player);
            &&& list.len() >= 2 && u32_of_text(list[1]) is Some ==> command == Some(
                HQMShootoutCommand::SetScore { team, score: u32_of_text(list[1])->0 },
            )
            &&& list.len() < 2 || u32_of_text(list[1]) is None ==> command is None
        }),
{
    lemma_command_words_differ("reset"@);
    lemma_command_words_differ("resetgame"@);
    lemma_command_words_differ("fs"@);
    lemma_parts_of_words(list, ' ');
    reveal_strlit("redscore");
    reveal_strlit("bluescore");
    assert("redscore"@[0] == 'r' && "bluescore"@[0] == 'b');
}

/// `set round` with a team and a number sets team and round, whatever follows; with anything else,
/// or with less, it is no command.
pub proof fn lemma_round_commands(list: Seq<Seq<char>>, named_player: Option<usize>)
    requires
        are_words(list),
        list.len() >= 1,
        list[0] == "round"@,
    ensures
        ({
            let command = command_of("set"@, put_together(list, ' '), named_player);
            &&& list.len() >= 3 && team_of_word(list[1]) is Some && u32_of_text(list[2]) is Some
                ==> command == Some(
                HQMShootoutCommand::SetRound {
                    team: team_of_word(list[1])->0,
                    round: u32_of_text(list[2])->0,
                },
            )
            &&& list.len() < 3 || team_of_word(list[1]) is None || u32_of_text(list[2]) is None
                ==> command is None
        }),
{
    lemma_command_words_differ("reset"@);
    lemma_command_words_differ("resetgame"@);
    lemma_command_words_differ("fs"@);
    lemma_parts_of_words(list, ' ');
    reveal_strlit("redscore");
    reveal_strlit("bluescore");
    reveal_strlit("round");
    assert("redscore"@.len() == 8 && "bluescore"@.len() == 9 && "round"@.len() == 5);
}

/// `set` with anything else is no command.
pub proof fn lemma_no_other_settings(list: Seq<Seq<char>>, named_player: Option<usize>)
    requires
        are_words(list),
        list.len() >= 1,
        list[0] != "redscore"@,
        list[0] != "bluescore"@,
        list[0] != "round"@,
    ensures
        command_of("set"@, put_together(list, ' '), named_player) is None,
{
    lemma_command_words_differ("reset"@);
    lemma_command_words_differ("resetgame"@);
    lemma_command_words_differ("fs"@);
    lemma_parts_of_words(list, ' ');
}

/// `redo` with a team and a number has that attempt taken again, whatever follows; with anything
/// else, or with less, it is no command.
pub proof fn lemma_redo_commands(list: Seq<Seq<char>>, named_player: Option<usize>)
    requires
        are_words(list),
        list.len() >= 1,
    ensures
        ({
            let command = command_of("redo"@, put_together(list, ' '), named_player);
            &&& list.len() >= 2 && team_of_word(list[0]) is Some && u32_of_text(list[1]) is Some
                ==> command == Some(
                HQMShootoutCommand::RedoRound {
                    team: team_of_word(list[0])->0,
                    round: u32_of_text(list[1])->0,
                },
            )
            &&& list.len() < 2 || team_of_word(list[0]) is None || u32_of_text(list[1]) is None
                ==> command is None
        }),
{
    lemma_command_words_differ("reset"@);
    lemma_command_words_differ("resetgame"@);
    lemma_command_words_differ("fs"@);
    lemma_command_words_differ("set"@);
    lemma_parts_of_words(list, ' ');
}

/// Each number can be given as a score or a round, written in decimal.
pub proof fn lemma_numbers_can_be_given(
    word: Seq<char>,
    team: HQMTeam,
    number: u32,
    named_player: Option<usize>,
)
    requires
        word == seq!['r'] || word == seq!['R'] ==> team == HQMTeam::Red,
        word == seq!['b'] || word == seq!['B'] ==> team == HQMTeam::Blue,
        word == seq!['r'] || word == seq!['R'] || word == seq!['b'] || word == seq!['B'],
    ensures
        ({
            let score = if team == HQMTeam::Red {
                "redscore"@
            } else {
                "bluescore"@
            };
            &&& command_of(
                "set"@,
                put_together(seq![score, decimal(number as nat)], ' '),
                named_player,
            ) == Some(HQMShootoutCommand::SetScore { team, score: number })
            &&& command_of(
                "set"@,
                put_together(seq!["round"@, word, decimal(number as nat)], ' '),
                named_player,
            ) == Some(HQMShootoutCommand::SetRound { team, round: number })
            &&& command_of(
                "redo"@,
                put_together(seq![word, decimal(number as nat)], ' '),
                named_player,
            ) == Some(HQMShootoutCommand::RedoRound { team, round: number })
        }),
{
    let score = if team == HQMTeam::Red {
        "redscore"@
    } else {
        "bluescore"@
    };
    let text = decimal(number as nat);
    lemma_team_words(word);
    lemma_decimal_reads_back(number);
    lemma_decimal_is_plain(number as nat);
    reveal_strlit("redscore");
    reveal_strlit("bluescore");
    reveal_strlit("round");
    assert(!score.contains(' '));
    assert(!"round"@.contains(' '));
    assert(!word.contains(' '));
    assert(!text.contains(' '));
    let scores = seq![score, text];
    let rounds = seq!["round"@, word, text];
    let redos = seq![word, text];
    assert(are_words(scores) && are_words(rounds) && are_words(redos));
    lemma_score_commands(team, scores, named_player);
    lemma_round_commands(rounds, named_player);
    lemma_redo_commands(redos, named_player);
}

} // verus!
