use rf_desktop::account_manager::{add_account, AccountStore};
use rf_desktop::commands::{
    browser_failure, check_all_updates, check_for_updates, check_resource_exists, download_resource, finish_resource_download,
    get_report_faction_filter, open_external_url, open_parsed_url, process_data_store_identifier,
    safe_data_filename, save_report_faction_filter, stable_account_hash,
};
use rf_desktop::json::{Json, JsonObject};
use rf_desktop::mod_updater::ModUpdateInfo;
use rf_desktop::path::Platform;
use rf_desktop::updater::UpdateInfo;
use std::path::{Component, Path};

#[test]
fn accepts_supported_data_files() {
    for platform in [Platform::Windows, Platform::MacOs, Platform::Linux, Platform::Other] {
        assert_eq!(
            safe_data_filename("exit_prompts.yaml", platform),
            Some("exit_prompts.yaml")
        );
        assert_eq!(
            safe_data_filename("routes.JSON", platform),
            Some("routes.JSON")
        );
    }
}

#[test]
fn rejects_paths_and_unsupported_extensions() {
    for platform in [Platform::Windows, Platform::MacOs, Platform::Linux, Platform::Other] {
        assert_eq!(safe_data_filename("../accounts.db", platform), None);
        assert_eq!(safe_data_filename("folder/data.yaml", platform), None);
        assert_eq!(safe_data_filename("script.js", platform), None);
        assert_eq!(safe_data_filename("", platform), None);
    }
}

#[test]
fn data_files_follow_the_platforms_paths() {
    assert_eq!(safe_data_filename("a.yml/.", Platform::Linux), Some("a.yml/."));
    assert_eq!(safe_data_filename("./a.yml", Platform::Linux), None);
    assert_eq!(safe_data_filename("/a.yml", Platform::Linux), None);
    assert_eq!(safe_data_filename(".yaml", Platform::Linux), None);
    assert_eq!(safe_data_filename("x\\a.yml", Platform::Linux), Some("x\\a.yml"));
    assert_eq!(safe_data_filename("x\\a.yml", Platform::Windows), None);
    assert_eq!(safe_data_filename("c:a.yml", Platform::Windows), None);
    assert_eq!(safe_data_filename("c:a.yml", Platform::Linux), Some("c:a.yml"));
}

#[test]
fn data_files_agree_with_std_paths() {
    let pieces = ["", ".", "..", "/", "a", "a.yaml", ".yml", "b.JSON", "x\\y.yml", "c:"];
    for first in pieces {
        for second in pieces {
            for third in pieces {
                let name = format!("{first}{second}{third}");
                let path = Path::new(&name);
                let extension = path
                    .extension()
                    .and_then(|extension| extension.to_str())
                    .map(|extension| extension.to_ascii_lowercase());
                let data = matches!(extension.as_deref(), Some("yaml" | "yml" | "json"));
                let single = !path.is_absolute()
                    && path
                        .components()
                        .all(|component| matches!(component, Component::Normal(_)))
                    && path
                        .parent()
                        .map_or(true, |parent| parent.as_os_str().is_empty());
                let expected = if data && single { Some(name.as_str()) } else { None };
                assert_eq!(safe_data_filename(&name, Platform::Linux), expected, "{name}");
            }
        }
    }
}

#[test]
fn account_hash_is_fnv1a_of_salt_and_account() {
    let expected = |text: &str| {
        let mut hash = 0xcbf29ce484222325u64;
        for byte in text.bytes() {
            hash ^= u64::from(byte);
            hash = hash.wrapping_mul(0x100000001b3);
        }
        hash
    };
    assert_eq!(stable_account_hash("", ""), expected(":"));
    assert_eq!(stable_account_hash("", ""), 0xaf63b74c8601adad);
    assert_eq!(stable_account_hash("帳號", "s"), expected("s:帳號"));
}

#[test]
fn data_store_identifier_joins_two_hashes() {
    let seed = "main-slot:3";
    let identifier = process_data_store_identifier(seed);
    let first = stable_account_hash(seed, "ReversedFront-macos-1").to_le_bytes();
    let second = stable_account_hash(seed, "ReversedFront-macos-2").to_le_bytes();
    assert_eq!(identifier[..8], first);
    assert_eq!(identifier[8..], second);
    assert_ne!(identifier, process_data_store_identifier("main-slot:4"));
}

#[test]
fn only_missing_game_resources_are_going_to_be_downloaded() {
    assert!(check_resource_exists("passionfruit/a.png", false));
    assert!(check_resource_exists("assets/passionfruit/a.png", false));
    assert!(!check_resource_exists("passionfruit/a.png", true));
    assert!(!check_resource_exists("static/a.png", false));
}

#[test]
fn download_is_limited_to_game_resources() {
    assert_eq!(download_resource("passionfruit/a.png"), Ok(()));
    assert_eq!(download_resource("assets/passionfruit/a.png"), Ok(()));
    assert_eq!(
        download_resource("mod/a.png"),
        Err("只允許下載 passionfruit 資源".to_string())
    );
}

#[test]
fn download_outcomes_are_told() {
    assert_eq!(finish_resource_download(Ok(Some(7))), Ok(7));
    assert_eq!(
        finish_resource_download::<u8>(Ok(None)),
        Err("找不到資源".to_string())
    );
    assert_eq!(
        finish_resource_download::<u8>(Err("upstream 404 Not Found".to_string())),
        Err("資源下載失敗：upstream 404 Not Found".to_string())
    );
}

#[test]
fn external_addresses_are_normalized_and_https_only() {
    let command = open_external_url("HTTPS://Example.COM/a b", Platform::Linux).ok().unwrap();
    assert_eq!(command.program, "xdg-open");
    assert_eq!(command.leading_argument, None);
    assert_eq!(command.url, "https://example.com/a%20b");

    let command = open_external_url("https://example.com", Platform::Windows).ok().unwrap();
    assert_eq!(command.program, "rundll32.exe");
    assert_eq!(command.leading_argument, Some("url.dll,FileProtocolHandler"));
    assert_eq!(command.url, "https://example.com/");

    let command = open_external_url("https://example.com/x", Platform::MacOs).ok().unwrap();
    assert_eq!(command.program, "open");

    assert_eq!(
        open_external_url("not a url", Platform::Linux).err().unwrap(),
        "無效的網址"
    );
    assert_eq!(
        open_external_url("http://example.com", Platform::Linux).err().unwrap(),
        "只允許透過 HTTPS 開啟外部網址"
    );
    assert_eq!(
        open_external_url("https://example.com", Platform::Other).err().unwrap(),
        "目前平台不支援開啟外部網址"
    );
}

#[test]
fn parsed_addresses_are_judged_by_their_scheme() {
    let parsed = Some(("https".to_string(), "https://a/".to_string()));
    assert_eq!(open_parsed_url(parsed, Platform::MacOs).ok().unwrap().url, "https://a/");
    let parsed = Some(("file".to_string(), "file:///a".to_string()));
    assert!(open_parsed_url(parsed, Platform::MacOs).is_err());
    assert!(open_parsed_url(None, Platform::MacOs).is_err());
    assert_eq!(browser_failure("x"), "無法啟動預設瀏覽器：x");
}

fn named(name: &str) -> Json {
    let mut object = JsonObject::new();
    object.insert("account".to_string(), Json::Text(name.to_string()));
    Json::Object(object)
}

#[test]
fn saved_faction_filter_is_read_back() {
    let mut store = AccountStore::default();
    assert!(!save_report_faction_filter(&mut store, "紅".to_string(), None));
    assert!(add_account(&mut store, named("one")));
    assert!(add_account(&mut store, named("two")));
    assert_eq!(get_report_faction_filter(&store, None), "全部");

    assert!(save_report_faction_filter(&mut store, "紅".to_string(), Some(named(" two "))));
    assert_eq!(get_report_faction_filter(&store, Some(&named("two"))), "紅");
    assert_eq!(get_report_faction_filter(&store, None), "全部");

    assert!(save_report_faction_filter(&mut store, "藍".to_string(), None));
    assert_eq!(get_report_faction_filter(&store, Some(&named("one"))), "藍");
    assert_eq!(get_report_faction_filter(&store, Some(&named("two"))), "紅");
    assert!(!save_report_faction_filter(&mut store, "x".to_string(), Some(named("three"))));
}

fn offer() -> UpdateInfo {
    UpdateInfo {
        version: "3.2.6".to_string(),
        download_url: "u".to_string(),
        filename: "f".to_string(),
        has_update: true,
    }
}

#[test]
fn program_checks_are_told() {
    let told = check_for_updates(Ok(offer()));
    assert!(matches!(told.get("version"), Some(Json::Text(text)) if text == "3.2.6"));
    assert!(matches!(told.get("download_url"), Some(Json::Text(text)) if text == "u"));
    assert!(matches!(told.get("filename"), Some(Json::Text(text)) if text == "f"));
    assert!(matches!(told.get("has_update"), Some(Json::Bool(true))));
    let told = check_for_updates(Err("x".to_string()));
    assert!(matches!(told.get("error"), Some(Json::Text(text)) if text == "x"));
    assert!(told.get("version").is_none());
}

#[test]
fn neither_check_hides_the_other() {
    let report = check_all_updates(Ok(offer()), Err("unreachable".to_string()));
    let program = report.get("app").unwrap();
    assert!(matches!(program.get("ok"), Some(Json::Bool(true))));
    assert!(program.get("info").unwrap().get("version").is_some());
    assert!(program.get("error").is_none());
    let installed_mod = report.get("mod").unwrap();
    assert!(matches!(installed_mod.get("ok"), Some(Json::Bool(false))));
    assert!(matches!(installed_mod.get("error"), Some(Json::Text(text)) if text == "unreachable"));
    assert!(installed_mod.get("info").is_none());

    let info = ModUpdateInfo {
        has_update: false,
        current_ref: "c".to_string(),
        remote_ref: "c".to_string(),
        archive: None,
        source: "GitHub main",
    };
    let report = check_all_updates(Err("x".to_string()), Ok(info));
    assert!(matches!(report.get("app").unwrap().get("ok"), Some(Json::Bool(false))));
    let told = report.get("mod").unwrap().get("info").unwrap();
    assert!(matches!(told.get("hasUpdate"), Some(Json::Bool(false))));
}
