//! The choice of a team for a new configuration.

use vstd::prelude::*;
use vstd::string::*;
use crate::text::{
    cat3, decimal, decimal_text, failure, parse_number, parsed_number, texts, trim, trimmed, Error,
};

verus! {

/// The team that was given, without space around it.
pub fn given_team_id(team_id: &str) -> (result: Result<String, Error>)
    ensures
        if trimmed(team_id@).len() == 0 {
            result matches Err(error) && error@ == "team ID cannot be empty"@
        } else {
            result matches Ok(id) && id@ == trimmed(team_id@)
        },
{
    let id = trim(team_id);
    if id.unicode_len() == 0 {
        return Err(failure("team ID cannot be empty".to_owned()));
    }
    Ok(id.to_owned())
}

/// How the team is found among those whose keys are stored.
#[derive(Debug)]
pub enum TeamChoice {
    /// There is only this one.
    Only(String),
    /// There are several.
    Ask,
}

/// How the team is found among those whose keys are stored.
pub fn select_team_id_from_auth_store(team_ids: &Vec<String>) -> (result: Result<TeamChoice, Error>)
    ensures
        if team_ids@.len() == 0 {
            result matches Err(error) && error@
                == "no imported App Store Connect auth entries found; run `asc-sync auth import` first or pass --team-id explicitly"@
        } else if team_ids@.len() == 1 {
            result matches Ok(TeamChoice::Only(id)) && id@ == team_ids@[0]@
        } else {
            result matches Ok(TeamChoice::Ask)
        },
{
    if team_ids.len() == 0 {
        return Err(
            failure(
                "no imported App Store Connect auth entries found; run `asc-sync auth import` first or pass --team-id explicitly".to_owned(),
            ),
        );
    }
    if team_ids.len() == 1 {
        return Ok(TeamChoice::Only(team_ids[0].clone()));
    }
    Ok(TeamChoice::Ask)
}

/// The line for the team at place `i`.
pub open spec fn team_line(team_ids: Seq<String>, i: int) -> Seq<char> {
    "  "@ + decimal((i + 1) as nat) + ". "@ + team_ids[i]@
}

/// The lines that offer the teams.
pub fn team_menu(team_ids: &Vec<String>) -> (lines: Vec<String>)
    requires
        team_ids@.len() < u64::MAX,
    ensures
        texts(lines@) == Seq::new(
            team_ids@.len() + 1,
            |i: int|
                if i == 0 {
                    "Select teamId for asc.json:"@
                } else {
                    team_line(team_ids@, i - 1)
                },
        ),
{
    let mut lines: Vec<String> = Vec::new();
    lines.push("Select teamId for asc.json:".to_owned());
    let mut i: usize = 0;
    while i < team_ids.len()
        invariant
            i <= team_ids.len() < u64::MAX,
            lines.len() == i + 1,
            lines@[0]@ == "Select teamId for asc.json:"@,
            forall|k: int| 1 <= k <= i ==> (#[trigger] lines@[k])@ == team_line(team_ids@, k - 1),
        decreases team_ids.len() - i,
    {
        lines.push(
            cat3("  ", decimal_text(i as u64 + 1).as_str(), ". ").concat(team_ids[i].as_str()),
        );
        i += 1;
    }
    lines
}

/// The question for the number of a team.
pub fn team_question(count: u64) -> (question: String)
    ensures
        question@ == "Choice [1-"@ + decimal(count as nat) + "]: "@,
{
    cat3("Choice [1-", decimal_text(count).as_str(), "]: ")
}

/// What is said of an answer that is no number of a team.
pub fn team_hint(count: u64) -> (hint: String)
    ensures
        hint@ == "Enter a number from 1 to "@ + decimal(count as nat) + "."@,
{
    cat3("Enter a number from 1 to ", decimal_text(count).as_str(), ".")
}

/// The team that an answer chooses.
pub open spec fn chosen_team(team_ids: Seq<String>, input: Seq<char>) -> Option<Seq<char>> {
    match parsed_number(trimmed(input), team_ids.len()) {
        Some(choice) => if choice == 0 {
            None
        } else {
            Some(team_ids[choice - 1]@)
        },
        None => None,
    }
}

/// The team that an answer chooses, if it is the number of one.
pub fn prompt_team_selection(team_ids: &Vec<String>, input: &str) -> (team: Option<String>)
    ensures
        match chosen_team(team_ids@, input@) {
            Some(id) => team matches Some(found) && found@ == id,
            None => team is None,
        },
{
    let count: usize = team_ids.len();
    match parse_number(trim(input), count as u64) {
        Some(choice) => if choice == 0 {
            None
        } else {
            Some(team_ids[choice as usize - 1].clone())
        },
        None => None,
    }
}

/// A number that is entered chooses the team that is listed under it, counted from one; anything else
/// chooses none.
pub proof fn law_numbers_choose_teams(team_ids: Seq<String>, input: Seq<char>, number: nat)
    requires
        parsed_number(trimmed(input), u64::MAX as nat) == Some(number),
        team_ids.len() <= u64::MAX,
    ensures
        1 <= number <= team_ids.len() ==> chosen_team(team_ids, input) == Some(
            team_ids[number - 1]@,
        ),
        number == 0 || number > team_ids.len() ==> chosen_team(team_ids, input) is None,
        1 <= number <= team_ids.len() ==> team_line(team_ids, number - 1) == "  "@ + decimal(number)
            + ". "@ + chosen_team(team_ids, input)->0,
{
}

} // verus!
