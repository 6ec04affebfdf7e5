//! Linking a team of the workspace under an alias.

use vstd::prelude::*;
use crate::config::{add_team, opt_str_text, Config, Creds, TeamConfigView};
use crate::error::{Error, ErrorView};
use crate::linear::{
    agrees, request_for, teams_outcome, LinearClient, Reply, Request, Team, TeamsData,
    TEAMS_QUERY,
};

verus! {

/// Starts the linking: without a stored key there is nothing to ask the
/// service with, with one the result is the request that lists the teams.
pub fn run(creds: &Creds) -> (step: Result<Request, Error>)
    ensures
        match creds@ {
            Some(key) => step matches Ok(request) && request@ == request_for(
                key,
                TEAMS_QUERY@,
                "{}"@,
            ),
            None => step matches Err(e) && e@ == ErrorView::MissingCredential,
        },
{
    match &creds.api_key {
        Some(key) => Ok(LinearClient::new(key.as_str()).teams_request()),
        None => Err(Error::MissingCredential),
    }
}

/// What a reply to the listing offers for linking.
pub open spec fn offered_outcome(reply: Reply<TeamsData>) -> Result<Vec<Team>, ErrorView> {
    match teams_outcome(reply) {
        Ok(teams) => if teams@.len() == 0 {
            Err(ErrorView::NoTeamsAvailable)
        } else {
            Ok(teams)
        },
        Err(e) => Err(e),
    }
}

/// The teams that the reply offers for linking. A workspace without teams
/// is a failure: there is nothing to choose from.
pub fn offered(reply: Reply<TeamsData>) -> (result: Result<Vec<Team>, Error>)
    ensures
        agrees(result, offered_outcome(reply)),
{
    match LinearClient::get_teams(reply) {
        Ok(teams) => {
            if teams.len() == 0 {
                Err(Error::NoTeamsAvailable)
            } else {
                Ok(teams)
            }
        },
        Err(e) => Err(e),
    }
}

/// A text in lower case: what `str::to_lowercase` gives for it.
pub uninterp spec fn lowercase(text: Seq<char>) -> Seq<char>;

/// Calls `str::to_lowercase`. The contract claims only that the result
/// depends on the text alone: the standard library lowers by the Unicode
/// tables it was built with, not by a locale.
#[verifier::external_body]
fn to_lowercase(text: &str) -> (lower: String)
    ensures
        lower@ == lowercase(text@),
{
    text.to_lowercase()
}

/// The alias a team is linked under: the one supplied or, where none or an
/// empty one is supplied, the team's key in lower case.
pub open spec fn chosen_alias(team_key: Seq<char>, alias: Option<Seq<char>>) -> Seq<char> {
    match alias {
        Some(a) => if a.len() > 0 {
            a
        } else {
            lowercase(team_key)
        },
        None => lowercase(team_key),
    }
}

/// The alias that `team` is linked under when the user supplied `alias`.
pub fn alias_for(team: &Team, alias: Option<&str>) -> (chosen: String)
    ensures
        chosen@ == chosen_alias(team.key@, opt_str_text(alias)),
{
    match alias {
        Some(a) => {
            if a.is_empty() {
                to_lowercase(team.key.as_str())
            } else {
                a.to_owned()
            }
        },
        None => to_lowercase(team.key.as_str()),
    }
}

/// Links `team` under the alias that [`alias_for`] gives and hands that
/// alias back.
pub fn link(config: &mut Config, team: &Team, alias: Option<&str>) -> (linked: String)
    requires
        old(config).wf(),
    ensures
        linked@ == chosen_alias(team.key@, opt_str_text(alias)),
        final(config).wf(),
        final(config)@ == old(config)@.add(
            linked@,
            TeamConfigView { id: team.id@, name: team.name@ },
        ),
{
    let linked = alias_for(team, alias);
    add_team(config, linked.as_str(), team.id.as_str(), team.name.as_str());
    linked
}

} // verus!
