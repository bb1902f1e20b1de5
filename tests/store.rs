use ldap_commands::config::{Config, ServerConfig, StoredFile};
use ldap_commands::error::StoreError;
use ldap_commands::server::{
    add, check_name_free, confirmation, list, new_profile, parse_port, rm,
    server_url, switch_to, Confirmation,
};

fn profile(name: &str) -> ServerConfig {
    ServerConfig {
        host: format!("{name}.example.com"),
        name: name.to_string(),
        password: "secret".to_string(),
        port: 636,
        search_base: "dc=x".to_string(),
        user: "cn=a,dc=x".to_string(),
    }
}

fn names(config: &Config) -> Vec<String> {
    config.servers.iter().map(|s| s.name.clone()).collect()
}

fn store_of(list: &[&str], current: &str) -> Config {
    let mut config = Config::new();
    for name in list {
        add(&mut config, profile(name)).unwrap();
    }
    switch_to(&mut config, current).unwrap();
    config
}

#[test]
fn new_store_is_empty_with_sentinel() {
    let config = Config::new();
    assert_eq!(config.current, "none");
    assert!(config.servers.is_empty());
    assert!(config.current().is_err());
}

#[test]
fn add_to_empty_store() {
    let mut config = Config::new();
    let p = new_profile(
        "prod",
        "ldap.example.com".to_string(),
        "636",
        "cn=a,dc=x".to_string(),
        "p".to_string(),
        "dc=x".to_string(),
    )
    .unwrap();
    assert_eq!(add(&mut config, p), Ok(()));
    assert_eq!(config.current, "prod");
    assert_eq!(names(&config), vec!["prod".to_string()]);
    let active = config.current().unwrap();
    assert_eq!(active.host, "ldap.example.com");
    assert_eq!(active.port, 636);
    assert_eq!(active.user, "cn=a,dc=x");
    assert_eq!(active.password, "p");
    assert_eq!(active.search_base, "dc=x");
}

#[test]
fn add_keeps_names_sorted_and_selects_new() {
    let mut config = Config::new();
    for name in ["delta", "alpha", "charlie", "bravo", "Zulu"] {
        add(&mut config, profile(name)).unwrap();
        assert_eq!(config.current, name);
    }
    assert_eq!(names(&config), vec!["Zulu", "alpha", "bravo", "charlie", "delta"]);
    let listed = list(&config);
    assert_eq!(listed.iter().filter(|(n, _)| n == "bravo").count(), 1);
    assert_eq!(listed.iter().filter(|(_, a)| *a).count(), 1);
    assert!(listed.iter().any(|(n, a)| n == "Zulu" && *a));
}

#[test]
fn add_duplicate_changes_nothing() {
    let mut config = store_of(&["alpha", "beta"], "alpha");
    let mut other = profile("beta");
    other.host = "elsewhere".to_string();
    assert_eq!(add(&mut config, other), Err(StoreError::DuplicateName));
    assert_eq!(config.current, "alpha");
    assert_eq!(names(&config), vec!["alpha", "beta"]);
    assert_eq!(config.servers[1].host, "beta.example.com");
    assert_eq!(check_name_free(&config, "beta"), Err(StoreError::DuplicateName));
    assert_eq!(check_name_free(&config, "gamma"), Ok(()));
}

#[test]
fn remove_current_confirmed_moves_to_smallest() {
    let mut config = store_of(&["alpha", "beta"], "alpha");
    assert_eq!(rm(&mut config, "alpha", Confirmation::Yes), Ok(()));
    assert_eq!(config.current, "beta");
    assert_eq!(names(&config), vec!["beta"]);
}

#[test]
fn remove_current_picks_smallest_of_several() {
    let mut config = store_of(&["delta", "bravo", "charlie"], "charlie");
    rm(&mut config, "charlie", Confirmation::Yes).unwrap();
    assert_eq!(config.current, "bravo");
    assert_eq!(names(&config), vec!["bravo", "delta"]);
}

#[test]
fn remove_last_profile_leaves_sentinel() {
    let mut config = store_of(&["alpha"], "alpha");
    rm(&mut config, "alpha", Confirmation::Yes).unwrap();
    assert_eq!(config.current, "none");
    assert!(config.servers.is_empty());
}

#[test]
fn remove_other_keeps_current() {
    let mut config = store_of(&["alpha", "beta", "gamma"], "gamma");
    rm(&mut config, "alpha", Confirmation::Yes).unwrap();
    assert_eq!(config.current, "gamma");
    assert_eq!(names(&config), vec!["beta", "gamma"]);
}

#[test]
fn remove_declined_or_unclear_changes_nothing() {
    let mut config = store_of(&["alpha", "beta"], "alpha");
    assert_eq!(rm(&mut config, "alpha", Confirmation::No), Ok(()));
    assert_eq!(rm(&mut config, "alpha", Confirmation::NotUnderstood), Ok(()));
    assert_eq!(config.current, "alpha");
    assert_eq!(names(&config), vec!["alpha", "beta"]);
}

#[test]
fn remove_unknown_fails() {
    let mut config = store_of(&["alpha", "beta"], "alpha");
    assert_eq!(rm(&mut config, "gamma", Confirmation::Yes), Err(StoreError::UnknownProfile));
    assert_eq!(names(&config), vec!["alpha", "beta"]);
}

#[test]
fn switch_to_known_profile() {
    let mut config = store_of(&["alpha", "beta"], "alpha");
    assert_eq!(switch_to(&mut config, "beta"), Ok(()));
    assert_eq!(config.current, "beta");
    assert_eq!(names(&config), vec!["alpha", "beta"]);
    assert_eq!(config.current().unwrap().name, "beta");
}

#[test]
fn switch_to_unknown_fails_unchanged() {
    let mut config = store_of(&["alpha", "beta"], "alpha");
    assert_eq!(switch_to(&mut config, "gamma"), Err(StoreError::UnknownProfile));
    assert_eq!(config.current, "alpha");
    assert_eq!(names(&config), vec!["alpha", "beta"]);
}

#[test]
fn dangling_current_has_no_active_profile() {
    let mut config = store_of(&["alpha"], "alpha");
    config.current = "ghost".to_string();
    assert_eq!(config.current().map(|p| p.name), Err(StoreError::NoActiveProfile));
}

#[test]
fn list_marks_active_entry() {
    let config = store_of(&["beta", "alpha"], "beta");
    assert_eq!(
        list(&config),
        vec![("alpha".to_string(), false), ("beta".to_string(), true)]
    );
    assert!(list(&Config::new()).is_empty());
}

#[test]
fn from_parts_accepts_written_store() {
    let config = store_of(&["alpha", "beta"], "beta");
    let back = Config::from_parts(config.current.clone(), config.servers).unwrap();
    assert_eq!(back.current, "beta");
    assert_eq!(names(&back), vec!["alpha", "beta"]);
    let empty = Config::from_parts("none".to_string(), vec![]).unwrap();
    assert!(empty.servers.is_empty());
}

#[test]
fn from_parts_rejects_malformed_store() {
    let unsorted = vec![profile("beta"), profile("alpha")];
    assert_eq!(
        Config::from_parts("alpha".to_string(), unsorted).map(|_| ()),
        Err(StoreError::CorruptConfig)
    );
    let repeated = vec![profile("alpha"), profile("alpha")];
    assert_eq!(
        Config::from_parts("alpha".to_string(), repeated).map(|_| ()),
        Err(StoreError::CorruptConfig)
    );
}

#[test]
fn from_parts_keeps_a_dangling_pointer() {
    let dangling = Config::from_parts("beta".to_string(), vec![profile("alpha")]).unwrap();
    assert_eq!(dangling.current, "beta");
    assert_eq!(dangling.current().map(|p| p.name), Err(StoreError::NoActiveProfile));
    let emptied = Config::from_parts(String::new(), vec![]).unwrap();
    assert!(emptied.servers.is_empty());
    assert_eq!(emptied.current().map(|p| p.name), Err(StoreError::NoActiveProfile));
}

#[test]
fn add_after_loading_an_emptied_store() {
    let mut config = Config::load(StoredFile::Parsed(String::new(), vec![])).unwrap();
    assert_eq!(add(&mut config, profile("prod")), Ok(()));
    assert_eq!(config.current, "prod");
    assert_eq!(config.current().unwrap().name, "prod");
}

#[test]
fn replies_are_classified_as_given() {
    assert_eq!(confirmation("y"), Confirmation::Yes);
    assert_eq!(confirmation("n"), Confirmation::No);
    assert_eq!(confirmation("Y"), Confirmation::NotUnderstood);
    assert_eq!(confirmation("N"), Confirmation::NotUnderstood);
    assert_eq!(confirmation("yes"), Confirmation::NotUnderstood);
    assert_eq!(confirmation(" y"), Confirmation::NotUnderstood);
    assert_eq!(confirmation(""), Confirmation::NotUnderstood);
}

#[test]
fn remove_with_capital_reply_changes_nothing() {
    let mut config = store_of(&["alpha", "beta"], "alpha");
    let answer = confirmation("Y");
    assert_eq!(rm(&mut config, "alpha", answer), Ok(()));
    assert_eq!(config.current, "alpha");
    assert_eq!(names(&config), vec!["alpha", "beta"]);
}

#[test]
fn ports_parse_as_unsigned_decimal() {
    assert_eq!(parse_port("636"), Ok(636));
    assert_eq!(parse_port("+389"), Ok(389));
    assert_eq!(parse_port("4294967295"), Ok(u32::MAX));
    assert_eq!(parse_port("4294967296"), Err(StoreError::InvalidPort));
    assert_eq!(parse_port(""), Err(StoreError::InvalidPort));
    assert_eq!(parse_port("-1"), Err(StoreError::InvalidPort));
    assert_eq!(parse_port("63a"), Err(StoreError::InvalidPort));
    let bad = new_profile(
        "x",
        "h".to_string(),
        "port",
        "u".to_string(),
        "p".to_string(),
        "b".to_string(),
    );
    assert_eq!(bad.map(|p| p.port), Err(StoreError::InvalidPort));
}

#[test]
fn load_without_store_file_is_not_configured() {
    assert_eq!(Config::load(StoredFile::Missing).map(|_| ()), Err(StoreError::NotConfigured));
}

#[test]
fn load_of_unparsable_file_is_corrupt() {
    assert_eq!(Config::load(StoredFile::Unparsable).map(|_| ()), Err(StoreError::CorruptConfig));
}

#[test]
fn load_of_saved_parts_gives_same_store() {
    let config = store_of(&["alpha", "beta"], "alpha");
    let hosts: Vec<String> = config.servers.iter().map(|s| s.host.clone()).collect();
    let back = Config::load(StoredFile::Parsed(config.current.clone(), config.servers)).unwrap();
    assert_eq!(back.current, "alpha");
    assert_eq!(names(&back), vec!["alpha", "beta"]);
    let back_hosts: Vec<String> = back.servers.iter().map(|s| s.host.clone()).collect();
    assert_eq!(back_hosts, hosts);
}

#[test]
fn url_names_host_and_port() {
    let mut p = profile("prod");
    p.host = "ldap.example.com".to_string();
    assert_eq!(server_url(&p), "ldaps://ldap.example.com:636");
    p.port = 0;
    assert_eq!(server_url(&p), "ldaps://ldap.example.com:0");
    p.port = 4294967295;
    assert_eq!(server_url(&p), "ldaps://ldap.example.com:4294967295");
}
