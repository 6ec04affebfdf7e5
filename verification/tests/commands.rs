use rofi_linear::commands::{auth, link, list, run, unlink};
use rofi_linear::config::{add_team, get_api_key, list_teams, set_api_key, Config, Creds, TeamConfig};
use rofi_linear::error::Error;
use rofi_linear::linear::{
    GraphQLError, GraphQLResponse, LinearClient, Reply, Team, TeamsData, TeamsNodes, Viewer,
    ViewerData,
};

fn ada() -> Viewer {
    Viewer { id: "u1".to_string(), name: "Ada".to_string(), email: "ada@example.com".to_string() }
}

fn viewer_reply() -> Reply<ViewerData> {
    Reply {
        status: 200,
        body: "{}".to_string(),
        decoded: Ok(GraphQLResponse {
            data: Some(Ok(ViewerData { viewer: ada() })),
            errors: None,
        }),
    }
}

fn eng() -> Team {
    Team { id: "T1".to_string(), name: "Engineering".to_string(), key: "ENG".to_string() }
}

fn teams_reply(nodes: Vec<Team>) -> Reply<TeamsData> {
    Reply {
        status: 200,
        body: "{}".to_string(),
        decoded: Ok(GraphQLResponse {
            data: Some(Ok(TeamsData { teams: TeamsNodes { nodes } })),
            errors: None,
        }),
    }
}

fn stored(key: &str) -> Creds {
    Creds { api_key: Some(key.to_string()) }
}

fn eng_and_ops() -> Config {
    let mut config = Config::new();
    add_team(&mut config, "eng", "T1", "Engineering");
    add_team(&mut config, "ops", "T2", "Operations");
    config
}

#[test]
fn authenticate_with_empty_key_is_refused_before_any_request() {
    assert_eq!(auth::run(""), Err(Error::EmptyCredential));
    let mut creds = stored("old");
    assert_eq!(auth::finish(&mut creds, "", viewer_reply()), Err(Error::EmptyCredential));
    assert_eq!(creds, stored("old"));
}

#[test]
fn authenticate_asks_for_the_viewer_with_the_new_key() {
    assert_eq!(auth::run("lin_api_new"), Ok(LinearClient::new("lin_api_new").viewer_request()));
}

#[test]
fn authenticate_stores_key_after_validation() {
    let mut creds = Creds::default();
    assert_eq!(auth::finish(&mut creds, "lin_api_new", viewer_reply()), Ok(ada()));
    assert_eq!(get_api_key(&creds), Some("lin_api_new".to_string()));
}

#[test]
fn authenticate_overwrites_key_after_validation() {
    let mut creds = stored("old");
    assert_eq!(auth::finish(&mut creds, "new", viewer_reply()), Ok(ada()));
    assert_eq!(creds, stored("new"));
}

#[test]
fn failed_validation_keeps_stored_key() {
    let mut creds = stored("old");
    let reply: Reply<ViewerData> =
        Reply { status: 401, body: "no".to_string(), decoded: Err("no json".to_string()) };
    assert_eq!(
        auth::finish(&mut creds, "new", reply),
        Err(Error::InvalidCredential {
            cause: Box::new(Error::RemoteHttpError { status: 401, body: "no".to_string() })
        })
    );
    assert_eq!(creds, stored("old"));
}

#[test]
fn failed_validation_keeps_absent_key_absent() {
    let mut creds = Creds::default();
    let reply: Reply<ViewerData> = Reply {
        status: 200,
        body: "{}".to_string(),
        decoded: Ok(GraphQLResponse {
            data: None,
            errors: Some(vec![GraphQLError { message: "bad key".to_string() }]),
        }),
    };
    assert_eq!(
        auth::finish(&mut creds, "new", reply),
        Err(Error::InvalidCredential {
            cause: Box::new(Error::RemoteGraphQLError { messages: "bad key".to_string() })
        })
    );
    assert_eq!(creds, Creds::default());
}

#[test]
fn link_without_credential_is_refused() {
    assert_eq!(link::run(&Creds::default()), Err(Error::MissingCredential));
}

#[test]
fn link_asks_for_the_teams_with_the_stored_key() {
    assert_eq!(link::run(&stored("k")), Ok(LinearClient::new("k").teams_request()));
}

#[test]
fn link_with_no_teams_fails() {
    assert_eq!(link::offered(teams_reply(vec![])), Err(Error::NoTeamsAvailable));
}

#[test]
fn link_offers_the_teams() {
    assert_eq!(link::offered(teams_reply(vec![eng()])), Ok(vec![eng()]));
}

#[test]
fn link_passes_remote_failure_on() {
    let reply: Reply<TeamsData> =
        Reply { status: 503, body: "later".to_string(), decoded: Err("x".to_string()) };
    assert_eq!(
        link::offered(reply),
        Err(Error::RemoteHttpError { status: 503, body: "later".to_string() })
    );
}

#[test]
fn default_alias_is_lowercased_key() {
    assert_eq!(link::alias_for(&eng(), None), "eng");
    assert_eq!(link::alias_for(&eng(), Some("")), "eng");
    let mixed = Team { id: "T3".to_string(), name: "N".to_string(), key: "DevOps".to_string() };
    assert_eq!(link::alias_for(&mixed, None), "devops");
}

#[test]
fn supplied_alias_is_kept_as_given() {
    assert_eq!(link::alias_for(&eng(), Some("Core")), "Core");
}

#[test]
fn link_persists_team_under_alias() {
    let mut config = Config::new();
    assert_eq!(link::link(&mut config, &eng(), None), "eng");
    assert_eq!(config.default_team(), Some("eng".to_string()));
    assert_eq!(
        list_teams(&config),
        vec![(
            "eng".to_string(),
            TeamConfig { id: "T1".to_string(), name: "Engineering".to_string() }
        )]
    );
    assert_eq!(link::link(&mut config, &eng(), Some("core")), "core");
    assert_eq!(config.default_team(), Some("eng".to_string()));
    assert_eq!(list_teams(&config).len(), 2);
}

#[test]
fn list_marks_the_default() {
    let rows = list::run(&eng_and_ops());
    assert_eq!(
        rows,
        vec![
            list::Listed {
                alias: "eng".to_string(),
                name: "Engineering".to_string(),
                is_default: true
            },
            list::Listed {
                alias: "ops".to_string(),
                name: "Operations".to_string(),
                is_default: false
            },
        ]
    );
    assert_eq!(rows[0].line(), "  eng - Engineering (default)");
    assert_eq!(rows[1].line(), "  ops - Operations");
    assert_eq!(rows[0].label(), "eng (Engineering)");
}

#[test]
fn list_of_nothing_is_empty() {
    assert_eq!(list::run(&Config::new()), vec![]);
}

#[test]
fn unlink_removes_the_team() {
    let mut config = eng_and_ops();
    assert_eq!(unlink::run(&mut config, "eng"), Ok(()));
    assert_eq!(config.default_team(), Some("ops".to_string()));
    assert_eq!(list_teams(&config).len(), 1);
}

#[test]
fn unlink_of_unknown_alias_is_reported() {
    let mut config = eng_and_ops();
    assert_eq!(unlink::run(&mut config, "missing"), Err(Error::TeamNotFound));
    assert_eq!(config, eng_and_ops());
}

#[test]
fn create_issue_with_empty_title_is_refused() {
    let step = run::run(&stored("k"), &eng_and_ops(), None, "", Some("text"));
    assert_eq!(step, Err(Error::EmptyTitle));
}

#[test]
fn create_issue_without_credential_is_refused() {
    let step = run::run(&Creds::default(), &eng_and_ops(), None, "Fix it", None);
    assert_eq!(step, Err(Error::MissingCredential));
    let step = run::run(&Creds::default(), &Config::new(), None, "", None);
    assert_eq!(step, Err(Error::MissingCredential));
}

#[test]
fn create_issue_without_team_or_default_is_refused() {
    let step = run::run(&stored("k"), &Config::new(), None, "Fix it", None);
    assert_eq!(step, Err(Error::NoDefaultTeam));
    let step = run::run(&stored("k"), &Config::new(), None, "", None);
    assert_eq!(step, Err(Error::NoDefaultTeam));
}

#[test]
fn create_issue_for_unknown_team_is_refused() {
    let step = run::run(&stored("k"), &eng_and_ops(), Some("qa"), "Fix it", None);
    assert_eq!(step, Err(Error::TeamNotFound));
    let step = run::run(&stored("k"), &eng_and_ops(), Some("qa"), "", None);
    assert_eq!(step, Err(Error::TeamNotFound));
}

#[test]
fn create_issue_uses_default_team() {
    let step = run::run(&stored("k"), &eng_and_ops(), None, "Fix it", Some("Soon"));
    assert_eq!(step, Ok(LinearClient::new("k").issue_request("T1", "Fix it", Some("Soon"))));
}

#[test]
fn create_issue_uses_named_team() {
    let step = run::run(&stored("k"), &eng_and_ops(), Some("ops"), "Fix it", None);
    assert_eq!(step, Ok(LinearClient::new("k").issue_request("T2", "Fix it", None)));
}

#[test]
fn stored_key_is_what_requests_carry() {
    let mut creds = Creds::default();
    set_api_key(&mut creds, "lin_api_z");
    let request = link::run(&creds).unwrap();
    assert_eq!(request.authorization, "lin_api_z");
}
