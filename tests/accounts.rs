use deltachat_core::accounts::{AccountConfig, Accounts, Config, ConfigError, InnerConfig};

/// A registry with its default account, as a freshly created accounts
/// directory has it, with the account's database file standing in for it.
fn create(dir: &str) -> Accounts<String> {
    let mut config = Config::new("my_os".to_string(), dir);
    let opened: Vec<String> = Vec::new();
    let mut accounts = Accounts::open(dir.to_string(), config_copy(&mut config), opened).unwrap();
    accounts.add_account(|a: &AccountConfig| Some(a.dbfile())).unwrap();
    accounts
}

fn config_copy(config: &mut Config) -> Config {
    Config::from_file(config.file.clone(), inner_copy(&config.inner)).unwrap()
}

fn inner_copy(inner: &InnerConfig) -> InnerConfig {
    InnerConfig {
        os_name: inner.os_name.clone(),
        selected_account: inner.selected_account,
        next_id: inner.next_id,
        accounts: inner.accounts.iter().map(|a| a.clone()).collect(),
    }
}

fn reopen(accounts: &Accounts<String>) -> Accounts<String> {
    let config =
        Config::from_file(accounts.config.file.clone(), inner_copy(&accounts.config.inner)).unwrap();
    let opened: Vec<String> = config.load_accounts().into_iter().map(|(_, db)| db).collect();
    Accounts::open(accounts.dir.clone(), config, opened).unwrap()
}

fn same_registry(a: &InnerConfig, b: &InnerConfig) -> bool {
    a.os_name == b.os_name
        && a.selected_account == b.selected_account
        && a.next_id == b.next_id
        && a.accounts.len() == b.accounts.len()
        && a.accounts.iter().zip(b.accounts.iter()).all(|(x, y)| {
            x.id == y.id && x.dir == y.dir && x.uuid == y.uuid
        })
}

#[test]
fn test_account_new_open() {
    let accounts1 = create("/tmp/accounts1");
    let accounts2 = reopen(&accounts1);

    assert_eq!(accounts1.accounts.len(), 1);
    assert_eq!(accounts1.config.get_selected_account(), 1);

    assert_eq!(accounts1.dir, accounts2.dir);
    assert!(same_registry(&accounts1.config.inner, &accounts2.config.inner));
    assert_eq!(accounts1.accounts.len(), accounts2.accounts.len());
}

#[test]
fn test_account_new_add_remove() {
    let mut accounts = create("/tmp/accounts");

    assert_eq!(accounts.accounts.len(), 1);
    assert_eq!(accounts.config.get_selected_account(), 1);

    let id = accounts.add_account(|a: &AccountConfig| Some(a.dbfile())).unwrap();
    assert_eq!(id, 2);
    assert_eq!(accounts.config.get_selected_account(), id);
    assert_eq!(accounts.accounts.len(), 2);

    accounts.select_account(1).unwrap();
    assert_eq!(accounts.config.get_selected_account(), 1);

    accounts.remove_account(1).unwrap();
    assert_eq!(accounts.config.get_selected_account(), 2);
    assert_eq!(accounts.accounts.len(), 1);
}

#[test]
fn test_accounts_sorted() {
    let mut accounts = create("/tmp/accounts");

    for expected_id in 2..10 {
        let id = accounts.add_account(|a: &AccountConfig| Some(a.dbfile())).unwrap();
        assert_eq!(id, expected_id);
    }

    let ids = accounts.get_all();
    for (i, expected_id) in (1..10).enumerate() {
        assert_eq!(ids.get(i), Some(&expected_id));
    }
}

#[test]
fn account_directories_and_databases() {
    let accounts = create("/tmp/accounts");
    assert_eq!(accounts.config.file, "/tmp/accounts/accounts.toml");
    let acc = accounts.config.get_account(1).unwrap();
    assert_eq!(acc.uuid.len(), 32);
    assert!(acc.uuid.chars().all(|c| c.is_ascii_hexdigit() && !c.is_ascii_uppercase()));
    assert_eq!(acc.dir, format!("/tmp/accounts/{}", acc.uuid));
    assert_eq!(acc.dbfile(), format!("/tmp/accounts/{}/dc.db", acc.uuid));
    assert_eq!(accounts.get_selected_account(), &acc.dbfile());
    assert_eq!(accounts.get_account(1), Some(&acc.dbfile()));
    assert_eq!(accounts.get_account(2), None);

    let mut config = Config::new("os".to_string(), "/tmp/x/");
    assert_eq!(config.file, "/tmp/x/accounts.toml");
    let a = config.new_account_with_uuid("/tmp/x/", "abc".to_string()).unwrap();
    assert_eq!(a.dir, "/tmp/x/abc");
    assert_eq!(a.id, 1);
    assert_eq!(config.load_accounts(), vec![(1, "/tmp/x/abc/dc.db".to_string())]);
}

#[test]
fn removing_selected_picks_smallest() {
    let mut accounts = create("/tmp/accounts");
    for _ in 0..3 {
        accounts.add_account(|a: &AccountConfig| Some(a.dbfile())).unwrap();
    }
    accounts.select_account(3).unwrap();
    accounts.remove_account(3).unwrap();
    assert_eq!(accounts.config.get_selected_account(), 1);
    assert_eq!(accounts.get_all(), vec![1, 2, 4]);
    accounts.remove_account(2).unwrap();
    assert_eq!(accounts.config.get_selected_account(), 1);
    accounts.remove_account(1).unwrap();
    assert_eq!(accounts.config.get_selected_account(), 4);
    let (ctx, entry) = accounts.remove_account(4).unwrap();
    assert_eq!(entry.id, 4);
    assert_eq!(ctx, entry.dbfile());
    assert_eq!(accounts.config.get_selected_account(), 0);
    assert!(accounts.get_all().is_empty());
    assert_eq!(accounts.config.inner.next_id, 5);
}

#[test]
fn invalid_ids_are_refused() {
    let mut accounts = create("/tmp/accounts");
    assert_eq!(accounts.select_account(7), Err(ConfigError::InvalidAccountId { id: 7 }));
    assert_eq!(accounts.config.get_selected_account(), 1);
    assert!(matches!(
        accounts.remove_account(7),
        Err(ConfigError::InvalidAccountId { id: 7 })
    ));
    assert_eq!(accounts.get_all(), vec![1]);
}

#[test]
fn failed_setup_is_rolled_back() {
    let mut accounts = create("/tmp/accounts");
    accounts.add_account(|a: &AccountConfig| Some(a.dbfile())).unwrap();
    accounts.select_account(1).unwrap();
    let r = accounts.add_account(|_: &AccountConfig| None);
    assert_eq!(r, Err(ConfigError::OpenFailed));
    assert_eq!(accounts.get_all(), vec![1, 2]);
    assert_eq!(accounts.config.get_selected_account(), 1);
    assert_eq!(accounts.config.inner.next_id, 4);
    let id = accounts.add_account(|a: &AccountConfig| Some(a.dbfile())).unwrap();
    assert_eq!(id, 4);
}

#[test]
fn exhausted_ids_are_refused() {
    let mut config = Config::new("os".to_string(), "/tmp/x");
    config.inner.next_id = u32::MAX;
    assert_eq!(
        config.new_account("/tmp/x").map(|a| a.id),
        Err(ConfigError::IdsExhausted)
    );
}

#[test]
fn inconsistent_registry_is_refused() {
    let inner = InnerConfig {
        os_name: "os".to_string(),
        selected_account: 3,
        next_id: 2,
        accounts: vec![AccountConfig { id: 1, dir: "/a".to_string(), uuid: "u".to_string() }],
    };
    assert!(matches!(
        Config::from_file("/f".to_string(), inner),
        Err(ConfigError::Inconsistent)
    ));
    let inner = InnerConfig {
        os_name: "os".to_string(),
        selected_account: 1,
        next_id: 1,
        accounts: vec![AccountConfig { id: 1, dir: "/a".to_string(), uuid: "u".to_string() }],
    };
    assert!(Config::from_file("/f".to_string(), inner).is_err());
    let inner = InnerConfig {
        os_name: "os".to_string(),
        selected_account: 1,
        next_id: 2,
        accounts: vec![AccountConfig { id: 1, dir: "/a".to_string(), uuid: "u".to_string() }],
    };
    assert!(Config::from_file("/f".to_string(), inner).is_ok());
}
