use rf_desktop::config_manager::{
    get_account_store_file, get_config_file, get_hidden_config_dir, get_legacy_account_db_file,
    get_legacy_account_store_file, get_resource_base_dir, get_user_data_base_dir, load_config,
    mod_update_root, runtime_storage_root, set_resource_base_path, set_user_data_base_path,
    update_lock_path, web_root, BasePaths, ConfigFile, Environment, Location,
};
use rf_desktop::json::Json;
use rf_desktop::packaging::{is_carried_root, is_carried_script, is_kept_out};
use rf_desktop::path::Platform;

fn environment(development: bool) -> Environment<&'static str> {
    Environment {
        development,
        current_dir: "cwd",
        project_dir: "project",
        executable_dir: "exe",
        data_local_dir: Some("local"),
    }
}

fn unset() -> BasePaths<&'static str> {
    BasePaths { resource: None, user_data: None }
}

fn joined(location: Location<&'static str>) -> String {
    let mut path = location.base.to_string();
    for segment in location.segments {
        path.push('/');
        path.push_str(segment);
    }
    path
}

#[test]
fn directories_are_fixed_once() {
    let mut paths = unset();
    set_resource_base_path(&mut paths, "first");
    set_resource_base_path(&mut paths, "second");
    set_user_data_base_path(&mut paths, "user");
    set_user_data_base_path(&mut paths, "later");
    assert_eq!(paths.resource, Some("first"));
    assert_eq!(paths.user_data, Some("user"));
    let released = environment(false);
    assert_eq!(joined(get_resource_base_dir(&paths, &released)), "first");
    assert_eq!(joined(get_account_store_file(&paths, &released)), "first/accounts.db");
    assert_eq!(joined(get_config_file(&paths, &released)), "user/mod/data/config.json");
    assert_eq!(
        joined(get_legacy_account_store_file(&paths, &released)),
        "user/accounts.json"
    );
    assert_eq!(joined(get_legacy_account_db_file(&paths, &released)), "user/accounts.db");
}

#[test]
fn development_builds_use_the_project() {
    let paths = unset();
    let development = environment(true);
    assert_eq!(joined(get_resource_base_dir(&paths, &development)), "project/web");
    assert_eq!(
        joined(get_hidden_config_dir(&paths, &development, "passionfruit")),
        "project/web/passionfruit"
    );
    assert_eq!(joined(get_hidden_config_dir(&paths, &development, "root")), "project/web");
    assert_eq!(
        joined(get_hidden_config_dir(&paths, &development, "data")),
        "project/web/mod/data"
    );
}

#[test]
fn released_builds_fall_back() {
    let mut paths = unset();
    let released = environment(false);
    assert_eq!(joined(get_resource_base_dir(&paths, &released)), "exe");
    assert_eq!(joined(get_hidden_config_dir(&paths, &released, "root")), "exe");
    assert_eq!(joined(get_user_data_base_dir(&paths, &released)), "local");
    let mut bare = environment(false);
    bare.data_local_dir = None;
    assert_eq!(joined(get_user_data_base_dir(&paths, &bare)), "cwd");
    set_resource_base_path(&mut paths, "resources");
    assert_eq!(
        joined(get_hidden_config_dir(&paths, &released, "data")),
        "resources/mod/data"
    );
    assert_eq!(
        joined(rf_desktop::resource_manager::get_hidden_config_dir(
            &paths,
            &released,
            "passionfruit"
        )),
        "resources/passionfruit"
    );
}

#[test]
fn web_files_and_locks() {
    assert_eq!(joined(update_lock_path(&"data")), "data/.reversedfront-update.lock");
    assert_eq!(joined(web_root(true, &"project", None).unwrap()), "project/web");
    assert_eq!(joined(web_root(false, &"project", Some(&"res")).unwrap()), "res");
    assert!(web_root(false, &"project", None).is_none());
    assert_eq!(
        joined(mod_update_root(false, &"project", Some(&"res")).ok().unwrap()),
        "res/mod"
    );
    assert_eq!(
        mod_update_root(false, &"project", None).err().unwrap(),
        "無法取得應用程式安裝資源目錄"
    );
}

#[test]
fn configuration_is_read_from_its_place_first() {
    let flag = |value| ConfigFile::Holds(Json::Bool(value));
    assert!(matches!(load_config(flag(true), flag(false)), (Json::Bool(true), false)));
    assert!(matches!(
        load_config(ConfigFile::Missing, flag(false)),
        (Json::Bool(false), true)
    ));
    assert!(matches!(
        load_config(ConfigFile::Unreadable, flag(false)),
        (Json::Object(_), false)
    ));
    assert!(matches!(
        load_config(ConfigFile::Missing, ConfigFile::Missing),
        (Json::Object(_), false)
    ));
}

#[test]
fn only_a_portable_windows_program_writes_beside_itself() {
    let root = |development, platform, executable| {
        joined(runtime_storage_root(development, platform, &"web", executable, &"data"))
    };
    let windows = Platform::Windows;
    assert_eq!(root(true, windows, Some((&"exe", true))), "web");
    assert_eq!(root(false, windows, Some((&"exe", true))), "exe");
    assert_eq!(root(false, windows, Some((&"exe", false))), "data/runtime");
    assert_eq!(root(false, windows, None), "data/runtime");
    assert_eq!(root(false, Platform::Linux, Some((&"exe", true))), "data/runtime");
    assert_eq!(root(false, Platform::MacOs, Some((&"exe", true))), "data/runtime");
}

#[test]
fn installers_carry_no_accounts_and_no_sources() {
    for name in [
        "key.pfx",
        "config.json",
        "accounts.json",
        "accounts.db",
        "node_modules",
        "package.json",
        "package-lock.json",
        "webpack.config.cjs",
    ] {
        assert!(is_kept_out(name), "{name}");
    }
    assert!(!is_kept_out("transportRoutes.json"));
    for name in ["tiles", "static"] {
        assert!(is_carried_root(name, true));
        assert!(!is_carried_root(name, false));
    }
    for name in ["index.html", "desktop_bridge.js", "favicon.ico", "transporter.html"] {
        assert!(is_carried_root(name, false));
        assert!(!is_carried_root(name, true));
    }
    assert!(!is_carried_root("passionfruit", true));
    assert!(!is_carried_root("accounts.db", false));
    assert!(is_carried_script("main.bundle.js", true));
    assert!(is_carried_script("main.bundle.js.LICENSE.txt", true));
    assert!(!is_carried_script("main.bundle.js.map", true));
    assert!(!is_carried_script("index.js", true));
    assert!(!is_carried_script("main.bundle.js", false));
}
