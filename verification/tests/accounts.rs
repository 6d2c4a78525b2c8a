use rf_desktop::account_manager::{
    account_name, add_account, delete_account, get_account_settings, get_active_account,
    load_store, migrate_legacy_config, normalize_active_account, purge_legacy_config_accounts,
    set_active_account, target_account_name, update_account_settings, AccountStore, LoadedStore,
    StoreFile,
};
use rf_desktop::json::{Json, JsonNumber, JsonObject};

fn object(entries: Vec<(&str, Json)>) -> Json {
    let mut object = JsonObject::new();
    for (key, value) in entries {
        object.insert(key.to_string(), value);
    }
    Json::Object(object)
}

fn text(value: &str) -> Json {
    Json::Text(value.to_string())
}

fn number(value: u64) -> Json {
    Json::Number(JsonNumber::Unsigned(value))
}

fn named(name: &str) -> Json {
    object(vec![("account", text(name))])
}

fn store(names: &[&str], active: Option<&str>) -> AccountStore {
    AccountStore {
        accounts: names.iter().map(|name| named(name)).collect(),
        active_account: active.map(|name| name.to_string()),
    }
}

fn held(names: &[&str], active: Option<&str>) -> StoreFile {
    StoreFile::Holds(store(names, active))
}

fn names(store: &AccountStore) -> Vec<&str> {
    store.accounts.iter().map(|account| account_name(account).unwrap_or("-")).collect()
}

fn text_at<'a>(value: &'a Json, key: &str) -> &'a str {
    match value.get(key) {
        Some(Json::Text(text)) => text,
        _ => panic!("no text under {key}"),
    }
}

#[test]
fn objects_hold_each_key_once() {
    let mut object = JsonObject::new();
    assert!(object.get("a").is_none());
    object.insert("a".to_string(), number(1));
    object.insert("b".to_string(), number(2));
    object.insert("a".to_string(), number(3));
    assert!(matches!(object.get("a"), Some(Json::Number(JsonNumber::Unsigned(3)))));
    assert!(object.remove("b").is_some());
    assert!(object.remove("b").is_none());
    let entries = object.into_entries();
    assert_eq!(entries.len(), 1);
    assert_eq!(entries[0].0, "a");
}

#[test]
fn names_are_trimmed_and_not_empty() {
    assert_eq!(account_name(&named(" a b\u{3000}")), Some("a b"));
    assert_eq!(account_name(&named("  ")), None);
    assert_eq!(account_name(&object(vec![("account", number(1))])), None);
    assert_eq!(account_name(&Json::Null), None);
    assert_eq!(target_account_name(None), None);
    assert_eq!(
        target_account_name(Some(&object(vec![("accountName", text(" x "))]))),
        Some("x".to_string())
    );
    assert_eq!(
        target_account_name(Some(&object(vec![
            ("account", Json::Null),
            ("accountName", text("x"))
        ]))),
        None
    );
}

#[test]
fn logins_are_added_once_per_name() {
    let mut accounts = AccountStore::default();
    assert!(!add_account(&mut accounts, named(" ")));
    assert!(!add_account(&mut accounts, Json::Null));
    assert!(add_account(&mut accounts, named("one")));
    assert!(add_account(&mut accounts, named("two")));
    assert!(add_account(&mut accounts, named(" one ")));
    assert_eq!(names(&accounts), ["one", "two"]);
    assert_eq!(accounts.active_account.as_deref(), Some("one"));
    assert!(matches!(accounts.accounts[0].get("settings"), Some(Json::Object(_))));
}

#[test]
fn further_login_keeps_settings_and_skips_nulls() {
    let mut accounts = AccountStore::default();
    add_account(
        &mut accounts,
        object(vec![
            ("account", text("one")),
            ("password", text("old")),
            ("note", text("kept")),
            ("settings", object(vec![("bgm_volume", number(0))])),
        ]),
    );
    add_account(
        &mut accounts,
        object(vec![
            ("account", text("one")),
            ("password", text("new")),
            ("note", Json::Null),
            ("server", text("tw")),
            ("settings", object(vec![("bgm_volume", number(9))])),
        ]),
    );
    let account = &accounts.accounts[0];
    assert_eq!(text_at(account, "password"), "new");
    assert_eq!(text_at(account, "note"), "kept");
    assert_eq!(text_at(account, "server"), "tw");
    let settings = get_account_settings(&accounts, None);
    assert_eq!(settings.bgm, Some(JsonNumber::Unsigned(0)));
}

#[test]
fn settings_that_are_no_object_are_replaced() {
    let mut accounts = AccountStore::default();
    add_account(
        &mut accounts,
        object(vec![("account", text("one")), ("settings", text("x"))]),
    );
    assert!(matches!(accounts.accounts[0].get("settings"), Some(Json::Object(_))));
}

#[test]
fn deleting_moves_to_the_neighbour() {
    let mut accounts = store(&["a", "b", "c"], Some("b"));
    assert!(delete_account(&mut accounts, 1));
    assert_eq!(names(&accounts), ["a", "c"]);
    assert_eq!(accounts.active_account.as_deref(), Some("c"));
    assert!(delete_account(&mut accounts, 1));
    assert_eq!(accounts.active_account.as_deref(), Some("a"));
    assert!(!delete_account(&mut accounts, 1));
    assert!(delete_account(&mut accounts, 0));
    assert_eq!(accounts.active_account, None);
    assert!(!delete_account(&mut accounts, 0));
}

#[test]
fn deleting_another_keeps_the_active_account() {
    let mut accounts = store(&["a", "b", "c"], Some("c"));
    assert!(delete_account(&mut accounts, 0));
    assert_eq!(accounts.active_account.as_deref(), Some("c"));
}

#[test]
fn active_account_is_one_of_the_stored() {
    let mut accounts = store(&["a", "b"], Some("gone"));
    assert!(normalize_active_account(&mut accounts));
    assert_eq!(accounts.active_account.as_deref(), Some("a"));
    assert!(!normalize_active_account(&mut accounts));
    let mut accounts = store(&[" ", "b"], None);
    assert!(normalize_active_account(&mut accounts));
    assert_eq!(accounts.active_account.as_deref(), Some("b"));
    let mut accounts = store(&[], Some("a"));
    assert!(normalize_active_account(&mut accounts));
    assert_eq!(accounts.active_account, None);
}

#[test]
fn accounts_are_made_active_by_place() {
    let mut accounts = store(&["a", "b", " "], Some("a"));
    assert!(set_active_account(&mut accounts, 1));
    assert!(!set_active_account(&mut accounts, 2));
    assert!(!set_active_account(&mut accounts, 3));
    assert_eq!(accounts.active_account.as_deref(), Some("b"));
    let active = get_active_account(accounts).unwrap();
    assert_eq!(account_name(&active), Some("b"));
    assert!(get_active_account(store(&["a"], Some("b"))).is_none());
    assert!(get_active_account(store(&["a"], None)).is_none());
}

#[test]
fn settings_default_where_nothing_is_stored() {
    let settings = get_account_settings(&AccountStore::default(), None);
    assert_eq!(settings.bgm, None);
    assert_eq!(settings.se, None);
    assert!(!settings.se147_muted);
    assert_eq!(settings.report_faction_filter, "全部");
}

#[test]
fn written_settings_are_read_back() {
    let mut accounts = store(&["a", "b"], Some("a"));
    let half = JsonNumber::FloatBits(0.5f64.to_bits());
    assert!(update_account_settings(
        &mut accounts,
        object(vec![
            ("target_account", named("b")),
            ("bgm", Json::Number(half)),
            ("se147Muted", Json::Bool(true)),
            ("se", Json::Null),
        ])
    ));
    let settings = get_account_settings(&accounts, Some(&named("b")));
    assert_eq!(settings.bgm, Some(half));
    assert_eq!(settings.se, None);
    assert!(settings.se147_muted);
    assert_eq!(settings.report_faction_filter, "全部");

    let others = get_account_settings(&accounts, None);
    assert_eq!(others.bgm, None);
    assert!(!others.se147_muted);

    assert!(update_account_settings(
        &mut accounts,
        object(vec![("target_account", named("b")), ("se", number(1))])
    ));
    let settings = get_account_settings(&accounts, Some(&named("b")));
    assert_eq!(settings.bgm, Some(half));
    assert_eq!(settings.se, Some(JsonNumber::Unsigned(1)));
}

#[test]
fn requests_without_settings_or_account_change_nothing() {
    let mut accounts = store(&["a"], None);
    assert!(!update_account_settings(&mut accounts, object(vec![("bgm", Json::Null)])));
    assert!(!update_account_settings(
        &mut accounts,
        object(vec![("target_account", named("x")), ("bgm", number(1))])
    ));
    assert!(!update_account_settings(&mut accounts, Json::Null));
    assert!(accounts.accounts[0].get("settings").is_none());
    assert!(update_account_settings(&mut accounts, object(vec![("bgm", number(1))])));
}

fn legacy_config(index: Json) -> Json {
    object(vec![
        ("accounts", Json::Array(vec![named("a"), named("b")])),
        ("active_account_index", index),
        ("theme", text("dark")),
    ])
}

#[test]
fn accounts_move_out_of_the_configuration() {
    let (accounts, config) = migrate_legacy_config(legacy_config(number(1))).unwrap();
    assert_eq!(names(&accounts), ["a", "b"]);
    assert_eq!(accounts.active_account.as_deref(), Some("b"));
    assert!(config.get("accounts").is_none());
    assert!(config.get("active_account_index").is_none());
    assert_eq!(text_at(&config, "theme"), "dark");

    for index in [number(7), Json::Null, Json::Number(JsonNumber::Negative(-1))] {
        let (accounts, _) = migrate_legacy_config(legacy_config(index)).unwrap();
        assert_eq!(accounts.active_account.as_deref(), Some("a"));
    }
    assert!(migrate_legacy_config(object(vec![("accounts", text("x"))])).is_none());
    assert!(migrate_legacy_config(Json::Null).is_none());
}

#[test]
fn configurations_are_cleaned() {
    let mut config = legacy_config(Json::Null);
    assert!(purge_legacy_config_accounts(&mut config));
    assert!(!purge_legacy_config_accounts(&mut config));
    assert_eq!(text_at(&config, "theme"), "dark");
    let mut config = Json::Bool(true);
    assert!(!purge_legacy_config_accounts(&mut config));
}

#[test]
fn stored_accounts_come_before_all_others() {
    let old = || Some(store(&["old"], Some("old")));
    match load_store(held(&["s"], Some("s")), old(), old(), legacy_config(number(0))) {
        LoadedStore::Stored { store, cleaned } => {
            assert_eq!(names(&store), ["s"]);
            assert!(cleaned.unwrap().get("accounts").is_none());
        }
        _ => unreachable!(),
    }
    match load_store(held(&["s"], None), None, None, object(vec![])) {
        LoadedStore::Stored { cleaned, .. } => assert!(cleaned.is_none()),
        _ => unreachable!(),
    }
    match load_store(StoreFile::Missing, None, None, legacy_config(number(0))) {
        LoadedStore::Migrated { store, config } => {
            assert_eq!(names(&store), ["a", "b"]);
            assert_eq!(text_at(&config, "theme"), "dark");
        }
        _ => unreachable!(),
    }
    match load_store(StoreFile::Missing, None, None, object(vec![])) {
        LoadedStore::Fresh { store } => assert!(store.accounts.is_empty()),
        _ => unreachable!(),
    }
}

#[test]
fn accounts_of_an_earlier_version_are_taken_over_where_nothing_is_stored() {
    let database = || Some(store(&["d"], Some("d")));
    let file = || Some(store(&["f"], Some("f")));
    let imported = |database, file| match load_store(
        StoreFile::Missing,
        database,
        file,
        legacy_config(number(0)),
    ) {
        LoadedStore::Imported { store, cleaned } => {
            assert!(cleaned.unwrap().get("accounts").is_none());
            store
        }
        _ => unreachable!(),
    };
    assert_eq!(names(&imported(database(), file())), ["d"]);
    assert_eq!(names(&imported(None, file())), ["f"]);
    assert_eq!(imported(None, file()).active_account.as_deref(), Some("f"));
}

#[test]
fn unreadable_store_lets_nothing_be_imported() {
    let old = || Some(store(&["old"], Some("old")));
    match load_store(StoreFile::Unreadable, old(), old(), object(vec![])) {
        LoadedStore::Fresh { store } => assert!(store.accounts.is_empty()),
        _ => unreachable!(),
    }
    match load_store(StoreFile::Unreadable, old(), old(), legacy_config(number(1))) {
        LoadedStore::Migrated { store, .. } => assert_eq!(names(&store), ["a", "b"]),
        _ => unreachable!(),
    }
}
