use rofi_linear::config::{
    add_team, get_api_key, get_team, list_teams, load_config, load_creds, remove_team,
    set_api_key, Config, Creds, Stored, TeamConfig,
};
use rofi_linear::error::Error;

fn team(id: &str, name: &str) -> TeamConfig {
    TeamConfig { id: id.to_string(), name: name.to_string() }
}

fn entry(alias: &str, id: &str, name: &str) -> (String, TeamConfig) {
    (alias.to_string(), team(id, name))
}

fn eng_and_ops() -> Config {
    let mut config = Config::new();
    add_team(&mut config, "eng", "T1", "Engineering");
    add_team(&mut config, "ops", "T2", "Operations");
    config
}

#[test]
fn fresh_registry_is_empty() {
    let config = Config::new();
    assert_eq!(config.default_team(), None);
    assert_eq!(list_teams(&config), vec![]);
    assert_eq!(config, Config::default());
}

#[test]
fn first_link_becomes_default() {
    let mut config = Config::new();
    add_team(&mut config, "eng", "T1", "Engineering");
    assert_eq!(config.default_team(), Some("eng".to_string()));
    assert_eq!(list_teams(&config), vec![entry("eng", "T1", "Engineering")]);
    assert!(config.is_default("eng"));
}

#[test]
fn second_link_keeps_default() {
    let config = eng_and_ops();
    assert_eq!(config.default_team(), Some("eng".to_string()));
    assert_eq!(
        list_teams(&config),
        vec![entry("eng", "T1", "Engineering"), entry("ops", "T2", "Operations")]
    );
    assert!(!config.is_default("ops"));
}

#[test]
fn linking_a_known_alias_overwrites_in_place() {
    let mut config = eng_and_ops();
    add_team(&mut config, "eng", "T9", "Platform");
    assert_eq!(
        list_teams(&config),
        vec![entry("eng", "T9", "Platform"), entry("ops", "T2", "Operations")]
    );
    assert_eq!(config.default_team(), Some("eng".to_string()));
}

#[test]
fn aliases_are_case_sensitive() {
    let mut config = Config::new();
    add_team(&mut config, "eng", "T1", "Engineering");
    add_team(&mut config, "ENG", "T2", "Shouting");
    assert_eq!(list_teams(&config).len(), 2);
    assert_eq!(get_team(&config, Some("Eng")), Ok(None));
}

#[test]
fn removing_default_reassigns_to_remaining() {
    let mut config = eng_and_ops();
    assert!(remove_team(&mut config, "eng"));
    assert_eq!(config.default_team(), Some("ops".to_string()));
    assert_eq!(list_teams(&config), vec![entry("ops", "T2", "Operations")]);
}

#[test]
fn removing_last_team_clears_default() {
    let mut config = Config::new();
    add_team(&mut config, "eng", "T1", "Engineering");
    assert!(remove_team(&mut config, "eng"));
    assert_eq!(config.default_team(), None);
    assert_eq!(list_teams(&config), vec![]);
    assert_eq!(config, Config::new());
}

#[test]
fn removing_other_team_keeps_default() {
    let mut config = eng_and_ops();
    assert!(remove_team(&mut config, "ops"));
    assert_eq!(config.default_team(), Some("eng".to_string()));
    assert_eq!(list_teams(&config), vec![entry("eng", "T1", "Engineering")]);
}

#[test]
fn removing_missing_team_changes_nothing() {
    let mut config = eng_and_ops();
    assert!(!remove_team(&mut config, "missing"));
    assert_eq!(config, eng_and_ops());
    let mut empty = Config::new();
    assert!(!remove_team(&mut empty, "missing"));
    assert_eq!(empty, Config::new());
}

#[test]
fn default_is_always_linked_after_any_changes() {
    let mut config = Config::new();
    let aliases = ["a", "b", "c", "d"];
    let mut step: usize = 0;
    while step < 200 {
        let alias = aliases[(step * 7 + step / 3) % 4];
        if (step * 5 + step / 4) % 3 == 0 {
            remove_team(&mut config, alias);
        } else {
            add_team(&mut config, alias, "id", "name");
        }
        match config.default_team() {
            Some(d) => assert!(matches!(get_team(&config, Some(&d)), Ok(Some(_)))),
            None => assert!(list_teams(&config).is_empty()),
        }
        step += 1;
    }
}

#[test]
fn lookup_without_alias_uses_default() {
    let config = eng_and_ops();
    assert_eq!(get_team(&config, None), Ok(Some(entry("eng", "T1", "Engineering"))));
    assert_eq!(get_team(&config, Some("ops")), Ok(Some(entry("ops", "T2", "Operations"))));
}

#[test]
fn lookup_without_alias_or_default_fails() {
    let config = Config::new();
    assert_eq!(get_team(&config, None), Err(Error::NoDefaultTeam));
    assert_eq!(get_team(&config, Some("eng")), Ok(None));
}

#[test]
fn record_without_default_loads() {
    let loaded = Config::from_parts(None, vec![entry("eng", "T1", "Engineering")]);
    let config = loaded.unwrap();
    assert_eq!(config.default_team(), None);
    assert_eq!(get_team(&config, None), Err(Error::NoDefaultTeam));
    assert_eq!(list_teams(&config), vec![entry("eng", "T1", "Engineering")]);
}

#[test]
fn link_into_record_without_default_sets_default() {
    let mut config = Config::from_parts(None, vec![entry("eng", "T1", "Engineering")]).unwrap();
    add_team(&mut config, "ops", "T2", "Operations");
    assert_eq!(config.default_team(), Some("ops".to_string()));
}

#[test]
fn record_round_trips_through_parts() {
    let config = eng_and_ops();
    let again = Config::from_parts(config.default_team(), list_teams(&config));
    assert_eq!(again, Ok(eng_and_ops()));
}

#[test]
fn record_with_unlinked_default_is_corrupt() {
    let loaded =
        Config::from_parts(Some("ops".to_string()), vec![entry("eng", "T1", "Engineering")]);
    assert_eq!(
        loaded,
        Err(Error::CorruptState {
            reason: "the default team is not among the linked teams".to_string()
        })
    );
    assert!(Config::from_parts(Some("eng".to_string()), vec![]).is_err());
}

#[test]
fn record_with_repeated_alias_is_corrupt() {
    let loaded = Config::from_parts(
        Some("eng".to_string()),
        vec![entry("eng", "T1", "Engineering"), entry("ops", "T2", "Ops"), entry("eng", "T3", "x")],
    );
    assert_eq!(
        loaded,
        Err(Error::CorruptState { reason: "an alias is linked twice".to_string() })
    );
}

#[test]
fn team_config_clone_is_equal() {
    let t = team("T1", "Engineering");
    assert_eq!(t.clone(), t);
}

#[test]
fn credential_is_absent_until_set() {
    let creds = Creds::default();
    assert_eq!(get_api_key(&creds), None);
}

#[test]
fn credential_is_overwritten() {
    let mut creds = Creds::default();
    set_api_key(&mut creds, "lin_api_one");
    assert_eq!(get_api_key(&creds), Some("lin_api_one".to_string()));
    set_api_key(&mut creds, "lin_api_two");
    assert_eq!(get_api_key(&creds), Some("lin_api_two".to_string()));
    assert_eq!(creds, Creds { api_key: Some("lin_api_two".to_string()) });
}

#[test]
fn missing_registry_record_is_fresh_state() {
    assert_eq!(load_config(Stored::Missing), Ok(Config::new()));
}

#[test]
fn unreadable_registry_record_is_corrupt() {
    assert_eq!(
        load_config(Stored::Unreadable { reason: "did not find expected key".to_string() }),
        Err(Error::CorruptState { reason: "did not find expected key".to_string() })
    );
}

#[test]
fn found_registry_record_is_loaded() {
    let config = eng_and_ops();
    let record = (config.default_team(), list_teams(&config));
    assert_eq!(load_config(Stored::Found(record)), Ok(eng_and_ops()));
    assert_eq!(load_config(Stored::Found((None, vec![]))), Ok(Config::new()));
}

#[test]
fn found_registry_record_with_unlinked_default_is_corrupt() {
    let record = (Some("ops".to_string()), vec![entry("eng", "T1", "Engineering")]);
    assert!(matches!(load_config(Stored::Found(record)), Err(Error::CorruptState { .. })));
}

#[test]
fn missing_credential_record_is_absent_key() {
    assert_eq!(load_creds(Stored::Missing), Ok(Creds::default()));
}

#[test]
fn unreadable_credential_record_is_corrupt() {
    assert_eq!(
        load_creds(Stored::Unreadable { reason: "bad".to_string() }),
        Err(Error::CorruptState { reason: "bad".to_string() })
    );
}

#[test]
fn found_credential_record_is_loaded() {
    assert_eq!(
        load_creds(Stored::Found(Some("k".to_string()))),
        Ok(Creds { api_key: Some("k".to_string()) })
    );
    assert_eq!(load_creds(Stored::Found(None)), Ok(Creds::default()));
}
