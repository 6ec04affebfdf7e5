//! Creating an issue.

use vstd::prelude::*;
use crate::config::{
    get_team, opt_str_text, Config, Creds, RegistryState, TeamConfig, TeamConfigView,
};
use crate::error::{Error, ErrorView};
use crate::linear::{issue_variables, request_for, LinearClient, Request, RequestView, ISSUE_MUTATION};

verus! {

/// Which team an issue goes to. The checks come in this order: a stored
/// key, then a team, the one named or else the default.
pub open spec fn target_step(
    creds: Option<Seq<char>>,
    state: RegistryState,
    alias: Option<Seq<char>>,
) -> Result<(Seq<char>, TeamConfigView), ErrorView> {
    if creds is None {
        Err(ErrorView::MissingCredential)
    } else {
        match state.wanted(alias) {
            None => Err(ErrorView::NoDefaultTeam),
            Some(wanted) => if state.links.contains_key(wanted) {
                Ok((wanted, state.links[wanted]))
            } else {
                Err(ErrorView::TeamNotFound)
            },
        }
    }
}

/// What creating an issue starts with: the checks of [`target_step`], then
/// a title. Only when all are met is there a request to post.
pub open spec fn issue_step(
    creds: Option<Seq<char>>,
    state: RegistryState,
    alias: Option<Seq<char>>,
    title: Seq<char>,
    description: Option<Seq<char>>,
) -> Result<RequestView, ErrorView> {
    match target_step(creds, state, alias) {
        Err(e) => Err(e),
        Ok(target) => if title.len() == 0 {
            Err(ErrorView::EmptyTitle)
        } else {
            Ok(
                request_for(
                    creds->Some_0,
                    ISSUE_MUTATION@,
                    issue_variables(target.1.id, title, description),
                ),
            )
        },
    }
}

/// The team that an issue would go to, with its alias: the one that `alias`
/// names or, without an alias, the default. Fails without a stored key
/// before it looks at the teams.
pub fn target(creds: &Creds, config: &Config, alias: Option<&str>) -> (found: Result<
    (String, TeamConfig),
    Error,
>)
    requires
        config.wf(),
    ensures
        match found {
            Ok(entry) => target_step(creds@, config@, opt_str_text(alias)) == Ok::<
                (Seq<char>, TeamConfigView),
                ErrorView,
            >((entry.0@, entry.1@)),
            Err(e) => target_step(creds@, config@, opt_str_text(alias)) == Err::<
                (Seq<char>, TeamConfigView),
                ErrorView,
            >(e@),
        },
{
    if creds.api_key.is_none() {
        return Err(Error::MissingCredential);
    }
    match get_team(config, alias) {
        Ok(Some(entry)) => Ok(entry),
        Ok(None) => Err(Error::TeamNotFound),
        Err(e) => Err(e),
    }
}

/// Starts the creation of an issue titled `title` in the team that
/// [`target`] finds. The result is the request to post, or the first check
/// that failed; nothing is posted by this step.
pub fn run(
    creds: &Creds,
    config: &Config,
    alias: Option<&str>,
    title: &str,
    description: Option<&str>,
) -> (step: Result<Request, Error>)
    requires
        config.wf(),
    ensures
        match step {
            Ok(request) => issue_step(
                creds@,
                config@,
                opt_str_text(alias),
                title@,
                opt_str_text(description),
            ) == Ok::<RequestView, ErrorView>(request@),
            Err(e) => issue_step(
                creds@,
                config@,
                opt_str_text(alias),
                title@,
                opt_str_text(description),
            ) == Err::<RequestView, ErrorView>(e@),
        },
{
    let team = match target(creds, config, alias) {
        Ok(entry) => entry.1,
        Err(e) => {
            return Err(e);
        },
    };
    if title.is_empty() {
        return Err(Error::EmptyTitle);
    }
    match &creds.api_key {
        Some(key) => Ok(
            LinearClient::new(key.as_str()).issue_request(team.id.as_str(), title, description),
        ),
        None => Err(Error::MissingCredential),
    }
}

} // verus!
