//! Updates of the desktop program: which release to offer, which download to
//! accept, and how the update is handed over to a process of its own.

use crate::json::{fields, flag_field, text_field, Json, JsonObject};
use crate::outside::{first_group, VERSION_PATTERN};
use crate::path::{is_file_name, is_whole_file_name, Platform};
use crate::text::{
    ascii_lowercase, decimal, decimal_text, ends_with, joined, lemma_decimal_injective,
    lemma_framed, lemma_not_suffix, occurs, occurs_at, same_text, starts_with, to_ascii_lowercase,
};
pub use crate::version::{extract_version, is_newer};
use crate::version::{
    later, law_written_versions_are_ordered, version_numbers, written_version,
};
use vstd::prelude::*;

verus! {

/// The public repository from which updates come.
pub const REPOSITORY: &'static str = "MoLinOwO/ReversedFront_Public";

pub const RELEASES_API_URL: &'static str =
    "https://api.github.com/repos/MoLinOwO/ReversedFront_Public/releases/latest";

pub const STATIC_UPDATE_MANIFEST_URL: &'static str =
    "https://github.com/MoLinOwO/ReversedFront_Public/releases/latest/download/update.json";

pub const GITHUB_RELEASE_DOWNLOAD_PREFIX: &'static str =
    "https://github.com/MoLinOwO/ReversedFront_Public/releases/download/";

/// A release and the files that belong to it.
pub struct GithubRelease {
    pub tag_name: String,
    pub assets: Vec<GithubReleaseAsset>,
}

/// A file of a release.
pub struct GithubReleaseAsset {
    pub name: String,
    pub browser_download_url: String,
}

/// The release that is offered, and whether it is newer than the running
/// program.
pub struct UpdateInfo {
    pub version: String,
    pub download_url: String,
    pub filename: String,
    pub has_update: bool,
}

/// What came of asking a server for a document.
pub enum Reply<T> {
    /// The request could not be sent; the error's text.
    Unsent(String),
    /// The server refused; the status.
    Refused(String),
    /// The body is no such document; the error's text.
    Malformed(String),
    Document(T),
}

/// How well a file of a release suits the platform: 0 best, then 1; none where
/// it does not suit at all.
pub open spec fn asset_priority(filename: Seq<char>, platform: Platform) -> Option<u8> {
    let lower = ascii_lowercase(filename);
    if !"reversedfront_"@.is_prefix_of(lower) {
        None
    } else {
        match platform {
            Platform::Windows => first_suffix(lower, ".exe"@, ".msi"@),
            Platform::MacOs => first_suffix(lower, ".dmg"@, ".app.tar.gz"@),
            Platform::Linux => first_suffix(lower, ".appimage"@, ".deb"@),
            Platform::Other => None,
        }
    }
}

/// Which of two suffixes `s` ends with.
pub open spec fn first_suffix(s: Seq<char>, best: Seq<char>, second: Seq<char>) -> Option<u8> {
    if best.is_suffix_of(s) {
        Some(0u8)
    } else if second.is_suffix_of(s) {
        Some(1u8)
    } else {
        None
    }
}

fn suffix_rank(s: &str, best: &str, second: &str) -> (r: Option<u8>)
    ensures
        r == first_suffix(s@, best@, second@),
{
    if ends_with(s, best) {
        Some(0)
    } else if ends_with(s, second) {
        Some(1)
    } else {
        None
    }
}

/// How well a file of a release suits the platform.
pub fn release_asset_priority(filename: &str, platform: Platform) -> (r: Option<u8>)
    ensures
        r == asset_priority(filename@, platform),
{
    let lower = to_ascii_lowercase(filename);
    if !starts_with(&lower, "reversedfront_") {
        return None;
    }
    match platform {
        Platform::Windows => suffix_rank(&lower, ".exe", ".msi"),
        Platform::MacOs => suffix_rank(&lower, ".dmg", ".app.tar.gz"),
        Platform::Linux => suffix_rank(&lower, ".appimage", ".deb"),
        Platform::Other => None,
    }
}

/// The priority of the `i`-th file.
pub open spec fn priority_of(
    assets: Seq<GithubReleaseAsset>,
    platform: Platform,
    i: int,
) -> Option<u8> {
    asset_priority(assets[i].name@, platform)
}

/// The `i`-th file suits the platform, no file suits it better, and none before
/// it suits it as well.
pub open spec fn best_asset(assets: Seq<GithubReleaseAsset>, platform: Platform, i: int) -> bool {
    &&& 0 <= i < assets.len()
    &&& priority_of(assets, platform, i) is Some
    &&& forall|j: int|
        0 <= j < assets.len() && (#[trigger] priority_of(assets, platform, j)) is Some ==> if j
            < i {
            priority_of(assets, platform, i)->0 < priority_of(assets, platform, j)->0
        } else {
            priority_of(assets, platform, i)->0 <= priority_of(assets, platform, j)->0
        }
}

/// No file suits the platform.
pub open spec fn no_asset(assets: Seq<GithubReleaseAsset>, platform: Platform) -> bool {
    forall|i: int| 0 <= i < assets.len() ==> (#[trigger] priority_of(assets, platform, i)) is None
}

/// The first of the files that suit the platform best.
pub fn select_release_asset(release: &GithubRelease, platform: Platform) -> (r: Option<
    &GithubReleaseAsset,
>)
    ensures
        match r {
            Some(asset) => exists|i: int|
                #[trigger] best_asset(release.assets@, platform, i) && *asset == release.assets@[i],
            None => no_asset(release.assets@, platform),
        },
{
    match best_index(&release.assets, platform) {
        Some(i) => Some(&release.assets[i]),
        None => None,
    }
}

fn best_index(assets: &Vec<GithubReleaseAsset>, platform: Platform) -> (r: Option<usize>)
    ensures
        match r {
            Some(i) => best_asset(assets@, platform, i as int),
            None => no_asset(assets@, platform),
        },
{
    let mut best: Option<(usize, u8)> = None;
    let mut i: usize = 0;
    while i < assets.len()
        invariant
            i <= assets.len(),
            match best {
                Some((b, rank)) => {
                    &&& b < i
                    &&& priority_of(assets@, platform, b as int) == Some(rank)
                    &&& forall|j: int|
                        0 <= j < i && (#[trigger] priority_of(assets@, platform, j)) is Some
                            ==> if j < b {
                            rank < priority_of(assets@, platform, j)->0
                        } else {
                            rank <= priority_of(assets@, platform, j)->0
                        }
                },
                None => forall|j: int|
                    0 <= j < i ==> (#[trigger] priority_of(assets@, platform, j)) is None,
            },
        decreases assets.len() - i,
    {
        let found = release_asset_priority(&assets[i].name, platform);
        assert(found == priority_of(assets@, platform, i as int));
        match found {
            Some(rank) => {
                let better = match best {
                    Some((_, held)) => rank < held,
                    None => true,
                };
                if better {
                    best = Some((i, rank));
                }
            },
            None => {},
        }
        i += 1;
    }
    match best {
        Some((b, _)) => Some(b),
        None => None,
    }
}

/// The file that is offered of a release is determined by the release.
pub proof fn law_best_asset_is_unique(
    assets: Seq<GithubReleaseAsset>,
    platform: Platform,
    i: int,
    j: int,
)
    requires
        best_asset(assets, platform, i),
        best_asset(assets, platform, j),
    ensures
        i == j,
{
    let a = priority_of(assets, platform, i);
    let b = priority_of(assets, platform, j);
}

/// `value` is what is told of an offered release.
pub open spec fn tells_offer(value: Json, info: UpdateInfo) -> bool {
    &&& value is Object
    &&& text_field(value, "version"@) == Some(info.version@)
    &&& text_field(value, "download_url"@) == Some(info.download_url@)
    &&& text_field(value, "filename"@) == Some(info.filename@)
    &&& flag_field(value, "has_update"@) == Some(info.has_update)
    &&& forall|key: Seq<char>| #[trigger]
        fields(value).contains_key(key) ==> {
            ||| key == "version"@
            ||| key == "download_url"@
            ||| key == "filename"@
            ||| key == "has_update"@
        }
}

/// What is told of an offered release.
pub fn offer_value(info: UpdateInfo) -> (r: Json)
    ensures
        tells_offer(r, info),
{
    proof {
        reveal_strlit("version");
        reveal_strlit("download_url");
        reveal_strlit("filename");
        reveal_strlit("has_update");
        assert("version"@.len() < "filename"@.len() < "has_update"@.len() < "download_url"@.len());
    }
    let mut object = JsonObject::new();
    object.insert("version".to_owned(), Json::Text(info.version));
    object.insert("download_url".to_owned(), Json::Text(info.download_url));
    object.insert("filename".to_owned(), Json::Text(info.filename));
    object.insert("has_update".to_owned(), Json::Bool(info.has_update));
    Json::Object(object)
}

/// `info` offers the best file of `assets` under the given version.
pub open spec fn offers(
    info: UpdateInfo,
    version: Seq<char>,
    assets: Seq<GithubReleaseAsset>,
    current: Seq<char>,
    platform: Platform,
) -> bool {
    exists|i: int|
        {
            &&& #[trigger] best_asset(assets, platform, i)
            &&& info.version@ == version
            &&& info.filename@ == assets[i].name@
            &&& info.download_url@ == assets[i].browser_download_url@
            &&& info.has_update == later(version_numbers(version), version_numbers(current))
        }
}

/// What is offered of `release`, whose tag holds the version `version`; the
/// texts of the errors are given.
pub fn offer_release(
    version: Option<String>,
    release: &GithubRelease,
    current_version: &str,
    platform: Platform,
    bad_tag: String,
    no_file: String,
) -> (r: Result<UpdateInfo, String>)
    ensures
        match version {
            None => r == Err::<UpdateInfo, String>(bad_tag),
            Some(v) => if no_asset(release.assets@, platform) {
                r == Err::<UpdateInfo, String>(no_file)
            } else {
                r matches Ok(info) && offers(
                    info,
                    v@,
                    release.assets@,
                    current_version@,
                    platform,
                )
            },
        },
{
    let version = match version {
        Some(v) => v,
        None => {
            return Err(bad_tag);
        },
    };
    match select_release_asset(release, platform) {
        Some(asset) => {
            let ghost i = choose|i: int|
                #[trigger] best_asset(release.assets@, platform, i) && *asset == release.assets@[i];
            assert(priority_of(release.assets@, platform, i) is Some);
            Ok(
                UpdateInfo {
                    has_update: is_newer(&version, current_version),
                    version,
                    download_url: asset.browser_download_url.clone(),
                    filename: asset.name.clone(),
                },
            )
        },
        None => Err(no_file),
    }
}

/// The offer of a release, or the message that says why there is none.
pub open spec fn release_offer(
    r: Result<UpdateInfo, String>,
    release: GithubRelease,
    current: Seq<char>,
    platform: Platform,
    bad_tag: Seq<char>,
    no_file: Seq<char>,
) -> bool {
    match first_group(VERSION_PATTERN@, release.tag_name@) {
        None => r matches Err(e) && e@ == bad_tag,
        Some(v) => if no_asset(release.assets@, platform) {
            r matches Err(e) && e@ == no_file
        } else {
            r matches Ok(info) && offers(info, v, release.assets@, current, platform)
        },
    }
}

/// The offer that follows from the answer of the releases API; `os` is the name
/// of the operating system.
pub fn check_update_from_api(
    reply: Reply<GithubRelease>,
    current_version: &str,
    platform: Platform,
    os: &str,
) -> (r: Result<UpdateInfo, String>)
    ensures
        match reply {
            Reply::Unsent(e) => r matches Err(m) && m@ == "GitHub release check failed: "@ + e@,
            Reply::Refused(s) => r matches Err(m) && m@ == "GitHub release API returned "@ + s@,
            Reply::Malformed(e) => r matches Err(m) && m@ == "Invalid GitHub release response: "@
                + e@,
            Reply::Document(release) => release_offer(
                r,
                release,
                current_version@,
                platform,
                "Invalid GitHub release tag: "@ + release.tag_name@,
                "No supported "@ + os@ + " release asset found in "@ + REPOSITORY@,
            ),
        },
{
    match reply {
        Reply::Unsent(e) => Err(joined("GitHub release check failed: ", &e)),
        Reply::Refused(s) => Err(joined("GitHub release API returned ", &s)),
        Reply::Malformed(e) => Err(joined("Invalid GitHub release response: ", &e)),
        Reply::Document(release) => {
            let bad_tag = joined("Invalid GitHub release tag: ", &release.tag_name);
            let mut no_file = joined("No supported ", os);
            no_file.append(" release asset found in ");
            no_file.append(REPOSITORY);
            let version = extract_version(&release.tag_name);
            offer_release(version, &release, current_version, platform, bad_tag, no_file)
        },
    }
}

/// The offer that follows from the static description of the latest release.
pub fn check_update_from_manifest(
    reply: Reply<GithubRelease>,
    current_version: &str,
    platform: Platform,
    os: &str,
) -> (r: Result<UpdateInfo, String>)
    ensures
        match reply {
            Reply::Unsent(e) => r matches Err(m) && m@ == "靜態更新描述檔請求失敗："@ + e@,
            Reply::Refused(s) => r matches Err(m) && m@ == "靜態更新描述檔回傳 "@ + s@,
            Reply::Malformed(e) => r matches Err(m) && m@ == "靜態更新描述檔格式錯誤："@ + e@,
            Reply::Document(release) => release_offer(
                r,
                release,
                current_version@,
                platform,
                "靜態更新描述檔版本標籤錯誤："@ + release.tag_name@,
                "靜態更新描述檔沒有支援 "@ + os@ + " 的安裝檔"@,
            ),
        },
{
    match reply {
        Reply::Unsent(e) => Err(joined("靜態更新描述檔請求失敗：", &e)),
        Reply::Refused(s) => Err(joined("靜態更新描述檔回傳 ", &s)),
        Reply::Malformed(e) => Err(joined("靜態更新描述檔格式錯誤：", &e)),
        Reply::Document(release) => {
            let bad_tag = joined("靜態更新描述檔版本標籤錯誤：", &release.tag_name);
            let mut no_file = joined("靜態更新描述檔沒有支援 ", os);
            no_file.append(" 的安裝檔");
            let version = extract_version(&release.tag_name);
            offer_release(version, &release, current_version, platform, bad_tag, no_file)
        },
    }
}

/// The message after both ways to ask for an update have failed.
pub open spec fn both_failed(api_error: Seq<char>, manifest_error: Seq<char>) -> Seq<char> {
    "GitHub API 更新檢查失敗："@ + api_error + "；靜態描述檔 fallback 也失敗："@ + manifest_error
}

/// How an update check goes on after the API has been asked.
pub enum UpdateCheck<T> {
    /// The API's answer is the result.
    Done(T),
    /// The static description is asked next; the API's error is kept.
    AskManifest(String),
}

/// What follows on the answer of the API.
pub fn check_update<T>(api: Result<T, String>) -> (r: UpdateCheck<T>)
    ensures
        r == match api {
            Ok(info) => UpdateCheck::Done(info),
            Err(e) => UpdateCheck::AskManifest(e),
        },
{
    match api {
        Ok(info) => UpdateCheck::Done(info),
        Err(e) => UpdateCheck::AskManifest(e),
    }
}

/// The result of the static description, which is asked once the API has
/// failed with `api_error`.
pub fn finish_update_check<T>(api_error: &str, manifest: Result<T, String>) -> (r: Result<
    T,
    String,
>)
    ensures
        match manifest {
            Ok(info) => r == Ok::<T, String>(info),
            Err(e) => r matches Err(m) && m@ == both_failed(api_error@, e@),
        },
{
    match manifest {
        Ok(info) => Ok(info),
        Err(e) => {
            let mut message = joined("GitHub API 更新檢查失敗：", api_error);
            message.append("；靜態描述檔 fallback 也失敗：");
            message.append(&e);
            Err(message)
        },
    }
}

/// Why a download is not accepted; none where it is. `versioned` says whether
/// the file name holds a version.
pub open spec fn download_refusal(
    url: Seq<char>,
    filename: Seq<char>,
    platform: Platform,
    versioned: bool,
) -> Option<Seq<char>> {
    if !GITHUB_RELEASE_DOWNLOAD_PREFIX@.is_prefix_of(url) {
        Some("拒絕非 GitHub Releases 的更新下載網址"@)
    } else if !is_file_name(platform, filename) {
        Some("更新檔名無效"@)
    } else if !versioned || asset_priority(filename, platform) is None {
        Some("GitHub Releases 沒有支援目前平台的更新檔"@)
    } else {
        None
    }
}

/// Whether a download is accepted, once it is known whether the file name holds
/// a version.
pub fn judge_download_request(
    url: &str,
    filename: &str,
    platform: Platform,
    versioned: bool,
) -> (r: Result<(), String>)
    ensures
        match download_refusal(url@, filename@, platform, versioned) {
            None => r is Ok,
            Some(why) => r matches Err(e) && e@ == why,
        },
{
    if !starts_with(url, GITHUB_RELEASE_DOWNLOAD_PREFIX) {
        return Err("拒絕非 GitHub Releases 的更新下載網址".to_owned());
    }
    if !is_whole_file_name(platform, filename) {
        return Err("更新檔名無效".to_owned());
    }
    if !versioned || release_asset_priority(filename, platform).is_none() {
        return Err("GitHub Releases 沒有支援目前平台的更新檔".to_owned());
    }
    Ok(())
}

/// Whether a download is accepted: only files of this project's releases, under
/// a plain file name that holds a version and suits the platform.
pub fn validate_download_request(url: &str, filename: &str, platform: Platform) -> (r: Result<
    (),
    String,
>)
    ensures
        match download_refusal(
            url@,
            filename@,
            platform,
            first_group(VERSION_PATTERN@, filename@) is Some,
        ) {
            None => r is Ok,
            Some(why) => r matches Err(e) && e@ == why,
        },
{
    let versioned = extract_version(filename).is_some();
    judge_download_request(url, filename, platform, versioned)
}

/// A file is left over from an earlier update: it carries the name of an
/// installer of this program.
pub open spec fn old_installer(name: Seq<char>) -> bool {
    &&& "ReversedFront_v"@.is_prefix_of(name)
    &&& {
        ||| ".exe"@.is_suffix_of(name)
        ||| ".msi"@.is_suffix_of(name)
        ||| ".dmg"@.is_suffix_of(name)
        ||| ".AppImage"@.is_suffix_of(name)
        ||| ".deb"@.is_suffix_of(name)
        ||| ".tar.gz"@.is_suffix_of(name)
    }
}

/// Whether a file beside the program is removed at start: an old installer
/// that is not the running program itself.
pub fn cleanup_old_installers(name: &str, is_running_program: bool) -> (r: bool)
    ensures
        r == (!is_running_program && old_installer(name@)),
{
    !is_running_program && starts_with(name, "ReversedFront_v") && (ends_with(name, ".exe")
        || ends_with(name, ".msi") || ends_with(name, ".dmg") || ends_with(name, ".AppImage")
        || ends_with(name, ".deb") || ends_with(name, ".tar.gz"))
}

/// The stages of a download and its handover to the update mode, in their
/// order.
#[derive(Clone, Copy, Debug, PartialEq, Eq, Structural)]
pub enum DownloadStage {
    /// Take the update lock.
    Lock,
    /// Look for other windows before the download.
    FirstCheck,
    /// Set up the HTTP client.
    Client,
    /// Send the request.
    Request,
    /// Read the file.
    Read,
    /// Keep it in the download directory.
    Save,
    /// Read its permissions, where it is an AppImage.
    Inspect,
    /// Make it executable.
    Permit,
    /// Look for other windows that were opened meanwhile.
    SecondCheck,
    /// Find the running program.
    Locate,
    /// Find the directory that it is installed in.
    LocateDir,
    /// Find the download directory.
    Downloads,
    /// Create the lock file that the update mode waits for.
    CreateWaitLock,
    /// Lock it.
    HoldWaitLock,
    /// Copy the program, since a running one cannot be replaced.
    CopyHelper,
    /// Start the copy in update mode.
    Start,
}

/// How a stage ended.
pub enum DownloadEvent {
    Done,
    /// Whether another window is open.
    Others(bool),
    /// The error's text.
    Failed(String),
}

/// How the download goes on.
pub enum DownloadAction {
    Enter(DownloadStage),
    /// The update mode has taken over; the program ends.
    Exit,
    Fail(String),
}

/// The stage behind a stage that succeeded.
pub open spec fn stage_behind(stage: DownloadStage, appimage: bool) -> Option<DownloadStage> {
    match stage {
        DownloadStage::Lock => Some(DownloadStage::FirstCheck),
        DownloadStage::FirstCheck => Some(DownloadStage::Client),
        DownloadStage::Client => Some(DownloadStage::Request),
        DownloadStage::Request => Some(DownloadStage::Read),
        DownloadStage::Read => Some(DownloadStage::Save),
        DownloadStage::Save => if appimage {
            Some(DownloadStage::Inspect)
        } else {
            Some(DownloadStage::SecondCheck)
        },
        DownloadStage::Inspect => Some(DownloadStage::Permit),
        DownloadStage::Permit => Some(DownloadStage::SecondCheck),
        DownloadStage::SecondCheck => Some(DownloadStage::Locate),
        DownloadStage::Locate => Some(DownloadStage::LocateDir),
        DownloadStage::LocateDir => Some(DownloadStage::Downloads),
        DownloadStage::Downloads => Some(DownloadStage::CreateWaitLock),
        DownloadStage::CreateWaitLock => Some(DownloadStage::HoldWaitLock),
        DownloadStage::HoldWaitLock => Some(DownloadStage::CopyHelper),
        DownloadStage::CopyHelper => Some(DownloadStage::Start),
        DownloadStage::Start => None,
    }
}

/// What the message about a failed stage begins with.
pub open spec fn stage_failure(stage: DownloadStage) -> Seq<char> {
    match stage {
        DownloadStage::Lock => ""@,
        DownloadStage::FirstCheck => "無法檢查其他 ReversedFront 程序："@,
        DownloadStage::Client => ""@,
        DownloadStage::Request => "GitHub update download failed: "@,
        DownloadStage::Read => "Failed to read update: "@,
        DownloadStage::Save => ""@,
        DownloadStage::Inspect => "Failed to inspect AppImage: "@,
        DownloadStage::Permit => "Failed to prepare AppImage: "@,
        DownloadStage::SecondCheck => "無法檢查其他 ReversedFront 程序："@,
        DownloadStage::Locate => "無法取得目前 ReversedFront 路徑："@,
        DownloadStage::LocateDir => "無法取得 ReversedFront 安裝目錄"@,
        DownloadStage::Downloads => ""@,
        DownloadStage::CreateWaitLock => "無法建立更新等待鎖："@,
        DownloadStage::HoldWaitLock => "無法鎖定更新等待鎖："@,
        DownloadStage::CopyHelper => "無法建立獨立更新程序："@,
        DownloadStage::Start => "無法啟動獨立更新程序："@,
    }
}

/// The message about other windows that keep a stage from going on.
pub open spec fn others_refusal(stage: DownloadStage) -> Option<Seq<char>> {
    match stage {
        DownloadStage::FirstCheck => Some(
            "偵測到其他 ReversedFront 視窗，請先關閉其他視窗後再更新"@,
        ),
        DownloadStage::SecondCheck => Some(
            "下載完成，但偵測到其他 ReversedFront 視窗，請關閉其他視窗後再重新更新"@,
        ),
        _ => None,
    }
}

/// What follows on a stage that succeeded.
pub open spec fn onward(stage: DownloadStage, appimage: bool) -> DownloadAction {
    match stage_behind(stage, appimage) {
        Some(next) => DownloadAction::Enter(next),
        None => DownloadAction::Exit,
    }
}

/// A check ends with whether another window is open, every other stage without.
pub open spec fn ends_with_event(stage: DownloadStage, event: DownloadEvent) -> bool {
    match event {
        DownloadEvent::Done => others_refusal(stage) is None,
        DownloadEvent::Others(_) => others_refusal(stage) is Some,
        DownloadEvent::Failed(_) => true,
    }
}

/// `r` is what follows on the end of a stage.
pub open spec fn download_flow(
    stage: DownloadStage,
    event: DownloadEvent,
    appimage: bool,
    r: DownloadAction,
) -> bool {
    match event {
        DownloadEvent::Done => r == onward(stage, appimage),
        DownloadEvent::Others(open) => match others_refusal(stage) {
            Some(why) => if open {
                r matches DownloadAction::Fail(m) && m@ == why
            } else {
                r == onward(stage, appimage)
            },
            None => r == onward(stage, appimage),
        },
        DownloadEvent::Failed(e) => r matches DownloadAction::Fail(m) && m@ == stage_failure(stage)
            + e@,
    }
}

fn go_on(stage: DownloadStage, appimage: bool) -> (r: DownloadAction)
    ensures
        r == onward(stage, appimage),
{
    let next = match stage {
        DownloadStage::Lock => DownloadStage::FirstCheck,
        DownloadStage::FirstCheck => DownloadStage::Client,
        DownloadStage::Client => DownloadStage::Request,
        DownloadStage::Request => DownloadStage::Read,
        DownloadStage::Read => DownloadStage::Save,
        DownloadStage::Save => if appimage {
            DownloadStage::Inspect
        } else {
            DownloadStage::SecondCheck
        },
        DownloadStage::Inspect => DownloadStage::Permit,
        DownloadStage::Permit => DownloadStage::SecondCheck,
        DownloadStage::SecondCheck => DownloadStage::Locate,
        DownloadStage::Locate => DownloadStage::LocateDir,
        DownloadStage::LocateDir => DownloadStage::Downloads,
        DownloadStage::Downloads => DownloadStage::CreateWaitLock,
        DownloadStage::CreateWaitLock => DownloadStage::HoldWaitLock,
        DownloadStage::HoldWaitLock => DownloadStage::CopyHelper,
        DownloadStage::CopyHelper => DownloadStage::Start,
        DownloadStage::Start => {
            return DownloadAction::Exit;
        },
    };
    DownloadAction::Enter(next)
}

fn failure_text(stage: DownloadStage) -> (r: &'static str)
    ensures
        r@ == stage_failure(stage),
{
    match stage {
        DownloadStage::Lock => "",
        DownloadStage::FirstCheck => "無法檢查其他 ReversedFront 程序：",
        DownloadStage::Client => "",
        DownloadStage::Request => "GitHub update download failed: ",
        DownloadStage::Read => "Failed to read update: ",
        DownloadStage::Save => "",
        DownloadStage::Inspect => "Failed to inspect AppImage: ",
        DownloadStage::Permit => "Failed to prepare AppImage: ",
        DownloadStage::SecondCheck => "無法檢查其他 ReversedFront 程序：",
        DownloadStage::Locate => "無法取得目前 ReversedFront 路徑：",
        DownloadStage::LocateDir => "無法取得 ReversedFront 安裝目錄",
        DownloadStage::Downloads => "",
        DownloadStage::CreateWaitLock => "無法建立更新等待鎖：",
        DownloadStage::HoldWaitLock => "無法鎖定更新等待鎖：",
        DownloadStage::CopyHelper => "無法建立獨立更新程序：",
        DownloadStage::Start => "無法啟動獨立更新程序：",
    }
}

/// The beginning of a download: it is refused, or the update lock comes first.
pub fn begin_download(url: &str, filename: &str, platform: Platform) -> (r: DownloadAction)
    ensures
        match download_refusal(
            url@,
            filename@,
            platform,
            first_group(VERSION_PATTERN@, filename@) is Some,
        ) {
            None => r == DownloadAction::Enter(DownloadStage::Lock),
            Some(why) => r matches DownloadAction::Fail(m) && m@ == why,
        },
{
    match validate_download_request(url, filename, platform) {
        Ok(()) => DownloadAction::Enter(DownloadStage::Lock),
        Err(e) => DownloadAction::Fail(e),
    }
}

/// The next action after a stage has ended; `appimage` says whether the file
/// has to be made executable.
pub fn download_and_install(stage: DownloadStage, event: DownloadEvent, appimage: bool) -> (r:
    DownloadAction)
    requires
        ends_with_event(stage, event),
    ensures
        download_flow(stage, event, appimage, r),
{
    match event {
        DownloadEvent::Done => go_on(stage, appimage),
        DownloadEvent::Others(open) => {
            if open && stage == DownloadStage::FirstCheck {
                DownloadAction::Fail(
                    "偵測到其他 ReversedFront 視窗，請先關閉其他視窗後再更新".to_owned(),
                )
            } else if open && stage == DownloadStage::SecondCheck {
                DownloadAction::Fail(
                    "下載完成，但偵測到其他 ReversedFront 視窗，請關閉其他視窗後再重新更新".to_owned(),
                )
            } else {
                go_on(stage, appimage)
            }
        },
        DownloadEvent::Failed(e) => DownloadAction::Fail(joined(failure_text(stage), &e)),
    }
}

/// The position of a stage in the order.
pub open spec fn stage_position(stage: DownloadStage) -> int {
    match stage {
        DownloadStage::Lock => 0,
        DownloadStage::FirstCheck => 1,
        DownloadStage::Client => 2,
        DownloadStage::Request => 3,
        DownloadStage::Read => 4,
        DownloadStage::Save => 5,
        DownloadStage::Inspect => 6,
        DownloadStage::Permit => 7,
        DownloadStage::SecondCheck => 8,
        DownloadStage::Locate => 9,
        DownloadStage::LocateDir => 10,
        DownloadStage::Downloads => 11,
        DownloadStage::CreateWaitLock => 12,
        DownloadStage::HoldWaitLock => 13,
        DownloadStage::CopyHelper => 14,
        DownloadStage::Start => 15,
    }
}

/// No window but the program's own is open when the update is handed over: no
/// stage behind a check is entered, and nothing ends in success, after a check
/// that found another window or could not look; and no step leaps over a check.
pub proof fn law_open_windows_stop_the_update(
    stage: DownloadStage,
    event: DownloadEvent,
    appimage: bool,
    r: DownloadAction,
)
    requires
        ends_with_event(stage, event),
        download_flow(stage, event, appimage, r),
    ensures
        (stage == DownloadStage::FirstCheck || stage == DownloadStage::SecondCheck) ==> (r is Fail
            || event == DownloadEvent::Others(false)),
        event is Failed ==> r is Fail,
        r is Exit ==> stage == DownloadStage::Start,
        r matches DownloadAction::Enter(next) ==> {
            &&& stage_position(stage) < stage_position(next)
            &&& stage_position(next) > stage_position(DownloadStage::SecondCheck)
                ==> stage_position(stage) >= stage_position(DownloadStage::SecondCheck)
            &&& stage_position(next) > stage_position(DownloadStage::FirstCheck)
                ==> stage_position(stage) >= stage_position(DownloadStage::FirstCheck)
        },
{
}

/// Whether a saved download is made executable.
pub fn needs_permission(platform: Platform, extension: Option<&str>) -> (r: bool)
    ensures
        r == (platform != Platform::Windows && (extension matches Some(e) && e@ == "AppImage"@)),
{
    platform != Platform::Windows && match extension {
        Some(e) => same_text(e, "AppImage"),
        None => false,
    }
}

/// The name under which a download is written until it is complete.
pub open spec fn partial_file(filename: Seq<char>, process: nat) -> Seq<char> {
    "."@ + filename + ".part-"@ + decimal(process)
}

/// The name under which a download is written until it is complete.
pub fn partial_file_name(filename: &str, process: u32) -> (r: String)
    ensures
        r@ == partial_file(filename@, process as nat),
{
    let mut name = joined(".", filename);
    name.append(".part-");
    name.append(&decimal_text(process as u64));
    name
}

/// The name of the lock file that the program holds until it ends.
pub fn parent_lock_name(process: u32) -> (r: String)
    ensures
        r@ == ".reversedfront-update-parent-"@ + decimal(process as nat) + ".lock"@,
{
    let mut name = joined(".reversedfront-update-parent-", &decimal_text(process as u64));
    name.append(".lock");
    name
}

/// The name of the copy that runs in update mode; it keeps the program's
/// extension.
pub fn helper_name(process: u32, extension: Option<&str>) -> (r: String)
    ensures
        r@ == ".reversedfront-updater-"@ + decimal(process as nat) + match extension {
            Some(e) => "."@ + e@,
            None => Seq::<char>::empty(),
        },
{
    let mut name = joined(".reversedfront-updater-", &decimal_text(process as u64));
    match extension {
        Some(e) => {
            let dotted = joined(".", e);
            name.append(&dotted);
        },
        None => {
            assert(name@ + Seq::<char>::empty() =~= name@);
        },
    }
    name
}

/// The steps of keeping a download.
#[derive(Clone, Copy, Debug, PartialEq, Eq, Structural)]
pub enum SaveStage {
    /// Write the partial file.
    Write,
    /// Remove an earlier download of the same name.
    Remove,
    /// Give the partial file its name.
    Rename,
}

/// How keeping a download goes on.
pub enum SaveAction {
    Enter(SaveStage),
    Done,
    Fail { remove_partial: bool, message: String },
}

/// What a message about a failed step begins with: its text and the path.
pub open spec fn save_failure(
    stage: SaveStage,
    partial: Seq<char>,
    destination: Seq<char>,
) -> Seq<char> {
    match stage {
        SaveStage::Write => "無法儲存更新檔 "@ + partial,
        SaveStage::Remove => "無法覆蓋下載檔 "@ + destination,
        SaveStage::Rename => "無法完成更新檔下載 "@ + destination,
    }
}

/// The next action after a step of keeping a download: `outcome` holds, after
/// writing, whether a file of that name is there already, or the error's text.
pub fn save_download_file(
    stage: SaveStage,
    outcome: Result<bool, String>,
    partial: &str,
    destination: &str,
) -> (r: SaveAction)
    ensures
        match outcome {
            Ok(exists) => r == match stage {
                SaveStage::Write => if exists {
                    SaveAction::Enter(SaveStage::Remove)
                } else {
                    SaveAction::Enter(SaveStage::Rename)
                },
                SaveStage::Remove => SaveAction::Enter(SaveStage::Rename),
                SaveStage::Rename => SaveAction::Done,
            },
            Err(e) => r matches SaveAction::Fail { remove_partial, message } && remove_partial == (
            stage != SaveStage::Write) && message@ == save_failure(stage, partial@, destination@)
                + "："@ + e@,
        },
{
    match outcome {
        Ok(exists) => match stage {
            SaveStage::Write => if exists {
                SaveAction::Enter(SaveStage::Remove)
            } else {
                SaveAction::Enter(SaveStage::Rename)
            },
            SaveStage::Remove => SaveAction::Enter(SaveStage::Rename),
            SaveStage::Rename => SaveAction::Done,
        },
        Err(e) => {
            let mut message = match stage {
                SaveStage::Write => joined("無法儲存更新檔 ", partial),
                SaveStage::Remove => joined("無法覆蓋下載檔 ", destination),
                SaveStage::Rename => joined("無法完成更新檔下載 ", destination),
            };
            message.append("：");
            message.append(&e);
            SaveAction::Fail { remove_partial: stage != SaveStage::Write, message }
        },
    }
}

/// Whether the copy of the program is removed after a stage: where it could not
/// be started.
pub fn removes_helper(stage: DownloadStage, event: &DownloadEvent) -> (r: bool)
    ensures
        r == (stage == DownloadStage::Start && *event is Failed),
{
    match event {
        DownloadEvent::Failed(_) => stage == DownloadStage::Start,
        _ => false,
    }
}

/// Why there is no download directory.
pub enum DirectoryFault {
    /// The platform names none.
    Unknown(String),
    /// The one at this path cannot be created.
    NotCreated { directory: String, error: String },
}

/// The message about a missing download directory.
pub fn download_dir(fault: DirectoryFault) -> (r: String)
    ensures
        r@ == match fault {
            DirectoryFault::Unknown(error) => "無法取得系統下載目錄："@ + error@,
            DirectoryFault::NotCreated { directory, error } => "無法建立系統下載目錄 "@ + directory@
                + "："@ + error@,
        },
{
    match fault {
        DirectoryFault::Unknown(error) => joined("無法取得系統下載目錄：", &error),
        DirectoryFault::NotCreated { directory, error } => {
            let mut message = joined("無法建立系統下載目錄 ", &directory);
            message.append("：");
            message.append(&error);
            message
        },
    }
}

proof fn lemma_named(filename: Seq<char>, n: Seq<char>, ending: Seq<char>)
    requires
        ascii_lowercase(filename) == "reversedfront_"@ + n + ending,
    ensures
        "reversedfront_"@.is_prefix_of(ascii_lowercase(filename)),
        ending.is_suffix_of(ascii_lowercase(filename)),
{
    lemma_framed("reversedfront_"@, n, ending);
}

/// Every installer of the program, whatever stands between its first word and its
/// ending and in whatever case, is known on its platform: the preferred kind before
/// the other.
pub proof fn law_every_installer_is_known(filename: Seq<char>, n: Seq<char>)
    ensures
        ascii_lowercase(filename) == "reversedfront_"@ + n + ".exe"@ ==> asset_priority(
            filename,
            Platform::Windows,
        ) == Some(0u8),
        ascii_lowercase(filename) == "reversedfront_"@ + n + ".msi"@ ==> asset_priority(
            filename,
            Platform::Windows,
        ) == Some(1u8),
        ascii_lowercase(filename) == "reversedfront_"@ + n + ".dmg"@ ==> asset_priority(
            filename,
            Platform::MacOs,
        ) == Some(0u8),
        ascii_lowercase(filename) == "reversedfront_"@ + n + ".app.tar.gz"@ ==> asset_priority(
            filename,
            Platform::MacOs,
        ) == Some(1u8),
        ascii_lowercase(filename) == "reversedfront_"@ + n + ".appimage"@ ==> asset_priority(
            filename,
            Platform::Linux,
        ) == Some(0u8),
        ascii_lowercase(filename) == "reversedfront_"@ + n + ".deb"@ ==> asset_priority(
            filename,
            Platform::Linux,
        ) == Some(1u8),
{
    reveal_strlit(".exe");
    reveal_strlit(".msi");
    reveal_strlit(".dmg");
    reveal_strlit(".app.tar.gz");
    reveal_strlit(".appimage");
    reveal_strlit(".deb");
    let lower = ascii_lowercase(filename);
    if lower == "reversedfront_"@ + n + ".exe"@ {
        lemma_named(filename, n, ".exe"@);
    }
    if lower == "reversedfront_"@ + n + ".msi"@ {
        lemma_named(filename, n, ".msi"@);
        lemma_not_suffix(".exe"@, ".msi"@, lower, 1);
    }
    if lower == "reversedfront_"@ + n + ".dmg"@ {
        lemma_named(filename, n, ".dmg"@);
    }
    if lower == "reversedfront_"@ + n + ".app.tar.gz"@ {
        lemma_named(filename, n, ".app.tar.gz"@);
        lemma_not_suffix(".dmg"@, ".app.tar.gz"@, lower, 1);
    }
    if lower == "reversedfront_"@ + n + ".appimage"@ {
        lemma_named(filename, n, ".appimage"@);
    }
    if lower == "reversedfront_"@ + n + ".deb"@ {
        lemma_named(filename, n, ".deb"@);
        lemma_not_suffix(".appimage"@, ".deb"@, lower, 1);
    }
}

/// A file that does not begin as the program's installers do, or has none of its
/// platform's endings, is not offered; on another platform none is.
pub proof fn law_other_files_are_not_offered(filename: Seq<char>, platform: Platform)
    ensures
        !"reversedfront_"@.is_prefix_of(ascii_lowercase(filename)) ==> asset_priority(
            filename,
            platform,
        ) is None,
        asset_priority(filename, Platform::Windows) is Some ==> ".exe"@.is_suffix_of(
            ascii_lowercase(filename),
        ) || ".msi"@.is_suffix_of(ascii_lowercase(filename)),
        asset_priority(filename, Platform::MacOs) is Some ==> ".dmg"@.is_suffix_of(
            ascii_lowercase(filename),
        ) || ".app.tar.gz"@.is_suffix_of(ascii_lowercase(filename)),
        asset_priority(filename, Platform::Linux) is Some ==> ".appimage"@.is_suffix_of(
            ascii_lowercase(filename),
        ) || ".deb"@.is_suffix_of(ascii_lowercase(filename)),
        asset_priority(filename, Platform::Other) is None,
{
}

/// Of a release's files the first of the preferred kind is offered, whatever stands
/// before it; only where there is none, the first of the other kind.
pub proof fn law_preferred_installer_is_offered(
    assets: Seq<GithubReleaseAsset>,
    platform: Platform,
    i: int,
    j: int,
)
    requires
        best_asset(assets, platform, i),
        0 <= j < assets.len(),
    ensures
        asset_priority(assets[i].name@, platform) is Some,
        asset_priority(assets[j].name@, platform) == Some(0u8) ==> asset_priority(
            assets[i].name@,
            platform,
        ) == Some(0u8) && i <= j,
        asset_priority(assets[j].name@, platform) == asset_priority(assets[i].name@, platform) ==> i
            <= j,
{
    assert(priority_of(assets, platform, j) == asset_priority(assets[j].name@, platform));
}

/// An offer is the chosen file with its own address, and announces an update
/// exactly where the release's version is written with greater numbers than the
/// running one's.
pub proof fn law_offer_compares_the_versions(
    info: UpdateInfo,
    assets: Seq<GithubReleaseAsset>,
    platform: Platform,
    a: Seq<u32>,
    b: Seq<u32>,
)
    requires
        a.len() == 3,
        b.len() == 3,
        offers(info, written_version(a), assets, written_version(b), platform),
    ensures
        info.version@ == written_version(a),
        info.has_update <==> (a[0] > b[0] || (a[0] == b[0] && (a[1] > b[1] || (a[1] == b[1] && a[2]
            > b[2])))),
        exists|i: int|
            0 <= i < assets.len() && info.filename@ == (#[trigger] assets[i]).name@
                && info.download_url@ == assets[i].browser_download_url@,
{
    law_written_versions_are_ordered(a, b);
    let i = choose|i: int|
        {
            &&& #[trigger] best_asset(assets, platform, i)
            &&& info.version@ == written_version(a)
            &&& info.filename@ == assets[i].name@
            &&& info.download_url@ == assets[i].browser_download_url@
            &&& info.has_update == later(
                version_numbers(written_version(a)),
                version_numbers(written_version(b)),
            )
        };
    assert(info.filename@ == assets[i].name@);
}

/// A download from the releases of the repository is accepted exactly where its
/// name is a file's, holds a version and is that of an installer for the platform.
pub proof fn law_release_downloads_are_accepted(
    rest: Seq<char>,
    filename: Seq<char>,
    platform: Platform,
    versioned: bool,
)
    ensures
        download_refusal(
            "https://github.com/MoLinOwO/ReversedFront_Public/releases/download/"@ + rest,
            filename,
            platform,
            versioned,
        ) is None <==> is_file_name(platform, filename) && versioned && asset_priority(
            filename,
            platform,
        ) is Some,
{
    let prefix = "https://github.com/MoLinOwO/ReversedFront_Public/releases/download/"@;
    assert((prefix + rest).subrange(0, prefix.len() as int) =~= prefix);
}

/// Nothing is downloaded from elsewhere.
pub proof fn law_other_downloads_are_refused(
    url: Seq<char>,
    filename: Seq<char>,
    platform: Platform,
    versioned: bool,
)
    requires
        !"https://github.com/MoLinOwO/ReversedFront_Public/releases/download/"@.is_prefix_of(url),
    ensures
        download_refusal(url, filename, platform, versioned) is Some,
{
}

/// Every installer of an earlier version is cleared away, of whatever version and
/// kind.
pub proof fn law_every_old_installer_is_cleared(n: Seq<char>)
    ensures
        old_installer("ReversedFront_v"@ + n + ".exe"@),
        old_installer("ReversedFront_v"@ + n + ".msi"@),
        old_installer("ReversedFront_v"@ + n + ".dmg"@),
        old_installer("ReversedFront_v"@ + n + ".AppImage"@),
        old_installer("ReversedFront_v"@ + n + ".deb"@),
        old_installer("ReversedFront_v"@ + n + ".tar.gz"@),
{
    lemma_framed("ReversedFront_v"@, n, ".exe"@);
    lemma_framed("ReversedFront_v"@, n, ".msi"@);
    lemma_framed("ReversedFront_v"@, n, ".dmg"@);
    lemma_framed("ReversedFront_v"@, n, ".AppImage"@);
    lemma_framed("ReversedFront_v"@, n, ".deb"@);
    lemma_framed("ReversedFront_v"@, n, ".tar.gz"@);
}

/// Nothing else in the directory is cleared away.
pub proof fn law_other_files_are_not_cleared(name: Seq<char>)
    ensures
        !"ReversedFront_v"@.is_prefix_of(name) ==> !old_installer(name),
        !".exe"@.is_suffix_of(name) && !".msi"@.is_suffix_of(name) && !".dmg"@.is_suffix_of(name)
            && !".AppImage"@.is_suffix_of(name) && !".deb"@.is_suffix_of(name)
            && !".tar.gz"@.is_suffix_of(name) ==> !old_installer(name),
{
}

/// An update whose steps all succeed, with no other window open, goes through every
/// stage in order and ends the program; an AppImage is also made executable.
pub proof fn law_download_goes_through_every_stage(
    stage: DownloadStage,
    event: DownloadEvent,
    appimage: bool,
    r: DownloadAction,
)
    requires
        download_flow(stage, event, appimage, r),
        event is Done || event == DownloadEvent::Others(false),
    ensures
        stage == DownloadStage::Lock ==> r == DownloadAction::Enter(DownloadStage::FirstCheck),
        stage == DownloadStage::FirstCheck ==> r == DownloadAction::Enter(DownloadStage::Client),
        stage == DownloadStage::Client ==> r == DownloadAction::Enter(DownloadStage::Request),
        stage == DownloadStage::Request ==> r == DownloadAction::Enter(DownloadStage::Read),
        stage == DownloadStage::Read ==> r == DownloadAction::Enter(DownloadStage::Save),
        stage == DownloadStage::Save && appimage ==> r == DownloadAction::Enter(
            DownloadStage::Inspect,
        ),
        stage == DownloadStage::Save && !appimage ==> r == DownloadAction::Enter(
            DownloadStage::SecondCheck,
        ),
        stage == DownloadStage::Inspect ==> r == DownloadAction::Enter(DownloadStage::Permit),
        stage == DownloadStage::Permit ==> r == DownloadAction::Enter(DownloadStage::SecondCheck),
        stage == DownloadStage::SecondCheck ==> r == DownloadAction::Enter(DownloadStage::Locate),
        stage == DownloadStage::Locate ==> r == DownloadAction::Enter(DownloadStage::LocateDir),
        stage == DownloadStage::LocateDir ==> r == DownloadAction::Enter(DownloadStage::Downloads),
        stage == DownloadStage::Downloads ==> r == DownloadAction::Enter(
            DownloadStage::CreateWaitLock,
        ),
        stage == DownloadStage::CreateWaitLock ==> r == DownloadAction::Enter(
            DownloadStage::HoldWaitLock,
        ),
        stage == DownloadStage::HoldWaitLock ==> r == DownloadAction::Enter(
            DownloadStage::CopyHelper,
        ),
        stage == DownloadStage::CopyHelper ==> r == DownloadAction::Enter(DownloadStage::Start),
        stage == DownloadStage::Start ==> r == DownloadAction::Exit,
{
}

/// A stage that fails ends the update with a message that ends with the cause.
pub proof fn law_failed_stage_tells_its_cause(
    stage: DownloadStage,
    cause: String,
    appimage: bool,
    r: DownloadAction,
)
    requires
        download_flow(stage, DownloadEvent::Failed(cause), appimage, r),
    ensures
        r matches DownloadAction::Fail(message) && cause@.is_suffix_of(message@),
{
    let head = stage_failure(stage);
    let whole = head + cause@;
    assert(whole.subrange(whole.len() - cause@.len(), whole.len() as int) =~= cause@);
}

/// Two processes never write one download to one file, and the file is hidden and
/// carries the download's name.
pub proof fn law_partial_files_are_distinct(
    filename: Seq<char>,
    process: nat,
    other: nat,
)
    ensures
        partial_file(filename, process) == partial_file(filename, other) ==> process == other,
        partial_file(filename, process).len() > 0,
        partial_file(filename, process)[0] == '.',
        filename.is_prefix_of(partial_file(filename, process).skip(1)),
{
    reveal_strlit(".");
    let a = partial_file(filename, process);
    let b = partial_file(filename, other);
    let head = "."@ + filename + ".part-"@;
    assert(a.skip(head.len() as int) =~= decimal(process));
    assert(b.skip(head.len() as int) =~= decimal(other));
    if a == b {
        lemma_decimal_injective(process, other);
    }
    assert(a.skip(1).subrange(0, filename.len() as int) =~= filename);
}

/// A release is offered exactly where its tag holds a version and one of its files
/// is an installer for the platform.
pub proof fn law_release_with_an_installer_is_offered(
    r: Result<UpdateInfo, String>,
    release: GithubRelease,
    current: Seq<char>,
    platform: Platform,
    bad_tag: Seq<char>,
    no_file: Seq<char>,
)
    requires
        release_offer(r, release, current, platform, bad_tag, no_file),
    ensures
        r is Ok <==> first_group(VERSION_PATTERN@, release.tag_name@) is Some && exists|i: int|
            0 <= i < release.assets@.len() && asset_priority(
                (#[trigger] release.assets@[i]).name@,
                platform,
            ) is Some,
        r is Ok ==> Some(r->Ok_0.version@) == first_group(VERSION_PATTERN@, release.tag_name@),
        first_group(VERSION_PATTERN@, release.tag_name@) is None ==> (r matches Err(e) && e@
            == bad_tag),
        first_group(VERSION_PATTERN@, release.tag_name@) is Some && r is Err ==> (r matches Err(e)
            && e@ == no_file),
{
    let assets = release.assets@;
    if exists|i: int|
        0 <= i < assets.len() && asset_priority((#[trigger] assets[i]).name@, platform) is Some {
        let i = choose|i: int|
            0 <= i < assets.len() && asset_priority((#[trigger] assets[i]).name@, platform) is Some;
        assert(priority_of(assets, platform, i) is Some);
    }
    if !no_asset(assets, platform) {
        let i = choose|i: int|
            0 <= i < assets.len() && (#[trigger] priority_of(assets, platform, i)) is Some;
        assert(asset_priority(assets[i].name@, platform) is Some);
    }
}

/// An offer is told as it is: each of its four values under its own key.
pub proof fn law_offer_is_told_as_it_is(value: Json, info: UpdateInfo)
    requires
        tells_offer(value, info),
    ensures
        fields(value).contains_pair("has_update"@, Json::Bool(info.has_update)),
        fields(value).contains_key("version"@) && (fields(value)["version"@] matches Json::Text(t)
            && t@ == info.version@),
        fields(value).contains_key("download_url"@) && (
        fields(value)["download_url"@] matches Json::Text(t) && t@ == info.download_url@),
        fields(value).contains_key("filename"@) && (fields(value)["filename"@] matches Json::Text(t)
            && t@ == info.filename@),
{
}

/// Where both checks failed, both causes are told, the one of the manifest last.
pub proof fn law_both_causes_are_told(api_error: Seq<char>, manifest_error: Seq<char>)
    ensures
        occurs(api_error, both_failed(api_error, manifest_error)),
        manifest_error.is_suffix_of(both_failed(api_error, manifest_error)),
{
    let head = "GitHub API 更新檢查失敗："@;
    let whole = both_failed(api_error, manifest_error);
    let n = head.len() as int;
    assert(whole.subrange(n, n + api_error.len()) =~= api_error);
    assert(occurs_at(api_error, whole, n));
    assert(whole.subrange(whole.len() - manifest_error.len(), whole.len() as int)
        =~= manifest_error);
}

/// What could not be saved is told with the file that it was about: the partial one
/// while it is written, the download itself from then on.
pub proof fn law_failed_save_tells_its_file(
    stage: SaveStage,
    partial: Seq<char>,
    destination: Seq<char>,
)
    ensures
        stage == SaveStage::Write ==> partial.is_suffix_of(
            save_failure(stage, partial, destination),
        ),
        stage != SaveStage::Write ==> destination.is_suffix_of(
            save_failure(stage, partial, destination),
        ),
{
    let told = save_failure(stage, partial, destination);
    if stage == SaveStage::Write {
        assert(told.subrange(told.len() - partial.len(), told.len() as int) =~= partial);
    } else {
        assert(told.subrange(told.len() - destination.len(), told.len() as int) =~= destination);
    }
}

/// The file that is chosen of a release is an installer for the platform; one of the
/// preferred kind is never passed over, nor an earlier one of the same kind, and
/// none is chosen only where there is none.
pub proof fn law_chosen_installer_is_the_best(
    release: &GithubRelease,
    platform: Platform,
    r: Option<&GithubReleaseAsset>,
    j: int,
)
    requires
        call_ensures(select_release_asset, (release, platform), r),
        0 <= j < release.assets@.len(),
    ensures
        asset_priority(release.assets@[j].name@, platform) is Some ==> r is Some,
        r matches Some(asset) ==> release.assets@.contains(*asset) && asset_priority(
            asset.name@,
            platform,
        ) is Some,
        r matches Some(asset) ==> (asset_priority(release.assets@[j].name@, platform) == Some(0u8)
            ==> asset_priority(asset.name@, platform) == Some(0u8)),
        r matches Some(asset) ==> (asset_priority(release.assets@[j].name@, platform)
            == asset_priority(asset.name@, platform) && (forall|k: int|
            0 <= k < j ==> asset_priority((#[trigger] release.assets@[k]).name@, platform)
                != asset_priority(asset.name@, platform)) ==> *asset == release.assets@[j]),
{
    let assets = release.assets@;
    assert(priority_of(assets, platform, j) == asset_priority(assets[j].name@, platform));
    if let Some(asset) = r {
        let i = choose|i: int| #[trigger] best_asset(assets, platform, i) && *asset == assets[i];
        law_preferred_installer_is_offered(assets, platform, i, j);
        assert(assets.contains(assets[i]));
        assert(priority_of(assets, platform, i) == asset_priority(asset.name@, platform));
    }
}

/// Where the releases cannot be asked, the manifest is, and its answer stands; both
/// causes are told only where both failed.
pub proof fn law_manifest_is_asked_second<T>(
    info: T,
    api_error: &str,
    manifest_error: String,
    e: String,
    first: UpdateCheck<T>,
    second: Result<T, String>,
)
    ensures
        call_ensures(check_update::<T>, (Ok::<T, String>(info),), first) ==> first
            == UpdateCheck::Done(info),
        call_ensures(check_update::<T>, (Err::<T, String>(e),), first) ==> first
            == UpdateCheck::<T>::AskManifest(e),
        call_ensures(finish_update_check::<T>, (api_error, Ok::<T, String>(info)), second) ==> second
            == Ok::<T, String>(info),
        call_ensures(
            finish_update_check::<T>,
            (api_error, Err::<T, String>(manifest_error)),
            second,
        ) ==> (second matches Err(told) && occurs(api_error@, told@)
            && manifest_error@.is_suffix_of(told@)),
{
    law_both_causes_are_told(api_error@, manifest_error@);
}

/// A check of the releases or of the manifest that got no usable answer fails with
/// the cause; one that got a release offers it by the one rule.
pub proof fn law_both_checks_follow_one_rule(
    release: GithubRelease,
    cause: String,
    current_version: &str,
    platform: Platform,
    os: &str,
    api: Result<UpdateInfo, String>,
    manifest: Result<UpdateInfo, String>,
)
    requires
        call_ensures(
            check_update_from_api,
            (Reply::Document(release), current_version, platform, os),
            api,
        ),
        call_ensures(
            check_update_from_manifest,
            (Reply::Document(release), current_version, platform, os),
            manifest,
        ),
    ensures
        api is Ok <==> manifest is Ok,
        api is Ok <==> first_group(VERSION_PATTERN@, release.tag_name@) is Some && exists|i: int|
            0 <= i < release.assets@.len() && asset_priority(
                (#[trigger] release.assets@[i]).name@,
                platform,
            ) is Some,
        api is Ok ==> api->Ok_0.version@ == manifest->Ok_0.version@ && api->Ok_0.filename@
            == manifest->Ok_0.filename@ && api->Ok_0.download_url@ == manifest->Ok_0.download_url@
            && api->Ok_0.has_update == manifest->Ok_0.has_update,
        api is Ok ==> Some(api->Ok_0.version@) == first_group(
            VERSION_PATTERN@,
            release.tag_name@,
        ) && api->Ok_0.has_update == later(
            version_numbers(api->Ok_0.version@),
            version_numbers(current_version@),
        ),
{
    law_release_with_an_installer_is_offered(
        api,
        release,
        current_version@,
        platform,
        "Invalid GitHub release tag: "@ + release.tag_name@,
        "No supported "@ + os@ + " release asset found in "@ + REPOSITORY@,
    );
    law_release_with_an_installer_is_offered(
        manifest,
        release,
        current_version@,
        platform,
        "靜態更新描述檔版本標籤錯誤："@ + release.tag_name@,
        "靜態更新描述檔沒有支援 "@ + os@ + " 的安裝檔"@,
    );
    if api is Ok {
        let assets = release.assets@;
        let v = first_group(VERSION_PATTERN@, release.tag_name@)->0;
        let a = api->Ok_0;
        let m = manifest->Ok_0;
        let i = choose|i: int|
            {
                &&& #[trigger] best_asset(assets, platform, i)
                &&& a.version@ == v
                &&& a.filename@ == assets[i].name@
                &&& a.download_url@ == assets[i].browser_download_url@
                &&& a.has_update == later(version_numbers(v), version_numbers(current_version@))
            };
        let j = choose|j: int|
            {
                &&& #[trigger] best_asset(assets, platform, j)
                &&& m.version@ == v
                &&& m.filename@ == assets[j].name@
                &&& m.download_url@ == assets[j].browser_download_url@
                &&& m.has_update == later(version_numbers(v), version_numbers(current_version@))
            };
        law_best_asset_is_unique(assets, platform, i, j);
    }
}

/// A download begins exactly where it is accepted.
pub proof fn law_accepted_download_begins(
    url: &str,
    filename: &str,
    platform: Platform,
    judged: Result<(), String>,
    begun: DownloadAction,
)
    requires
        call_ensures(validate_download_request, (url, filename, platform), judged),
        call_ensures(begin_download, (url, filename, platform), begun),
    ensures
        judged is Ok <==>
            "https://github.com/MoLinOwO/ReversedFront_Public/releases/download/"@.is_prefix_of(url@)
            && is_file_name(platform, filename@) && first_group(VERSION_PATTERN@, filename@) is Some
            && asset_priority(filename@, platform) is Some,
        judged is Ok ==> begun == DownloadAction::Enter(DownloadStage::Lock),
        judged matches Err(e) ==> (begun matches DownloadAction::Fail(m) && m@ == e@),
{
}

/// The running program is never cleared away.
pub proof fn law_running_program_is_not_cleared(name: &str, is_running_program: bool, r: bool)
    requires
        call_ensures(cleanup_old_installers, (name, is_running_program), r),
    ensures
        is_running_program ==> !r,
        !is_running_program && "ReversedFront_v"@.is_prefix_of(name@) && (".exe"@.is_suffix_of(name@)
            || ".msi"@.is_suffix_of(name@) || ".dmg"@.is_suffix_of(name@)
            || ".AppImage"@.is_suffix_of(name@) || ".deb"@.is_suffix_of(name@)
            || ".tar.gz"@.is_suffix_of(name@)) ==> r,
        r ==> "ReversedFront_v"@.is_prefix_of(name@),
{
}

/// Only an AppImage is made executable, and not on Windows.
pub proof fn law_only_an_appimage_is_permitted(
    platform: Platform,
    extension: &str,
    r: bool,
)
    ensures
        call_ensures(needs_permission, (platform, Some(extension)), r) ==> (r <==> platform
            != Platform::Windows && extension@ == "AppImage"@),
        call_ensures(needs_permission, (platform, None::<&str>), r) ==> !r,
{
}

/// The files of two processes that hand an update over have different names.
pub proof fn law_hand_over_files_are_distinct(
    process: u32,
    other: u32,
    extension: Option<&str>,
    lock: String,
    other_lock: String,
    helper: String,
    other_helper: String,
)
    requires
        call_ensures(parent_lock_name, (process,), lock),
        call_ensures(parent_lock_name, (other,), other_lock),
        call_ensures(helper_name, (process, extension), helper),
        call_ensures(helper_name, (other, extension), other_helper),
    ensures
        lock@ == other_lock@ ==> process == other,
        helper@ == other_helper@ ==> process == other,
        ".reversedfront-update-parent-"@.is_prefix_of(lock@),
        ".lock"@.is_suffix_of(lock@),
        ".reversedfront-updater-"@.is_prefix_of(helper@),
        extension matches Some(e) ==> ("."@ + e@).is_suffix_of(helper@),
{
    let a = decimal(process as nat);
    let b = decimal(other as nat);
    lemma_framed(".reversedfront-update-parent-"@, a, ".lock"@);
    let tail = match extension {
        Some(e) => "."@ + e@,
        None => Seq::<char>::empty(),
    };
    lemma_framed(".reversedfront-updater-"@, a, tail);
    let n = ".reversedfront-update-parent-"@.len() as int;
    let m = ".reversedfront-updater-"@.len() as int;
    if lock@ == other_lock@ {
        assert(a.len() == b.len());
        assert(lock@.subrange(n, n + a.len()) =~= a);
        assert(other_lock@.subrange(n, n + b.len()) =~= b);
        lemma_decimal_injective(process as nat, other as nat);
    }
    if helper@ == other_helper@ {
        assert(a.len() == b.len());
        assert(helper@.subrange(m, m + a.len()) =~= a);
        assert(other_helper@.subrange(m, m + b.len()) =~= b);
        lemma_decimal_injective(process as nat, other as nat);
    }
}

/// A download that is there already is removed before the new one takes its place;
/// once the partial file is written, a failure removes it; the cause is always told.
pub proof fn law_saved_download_replaces_the_old_one(
    stage: SaveStage,
    present: bool,
    e: String,
    partial: &str,
    destination: &str,
    r: SaveAction,
)
    ensures
        call_ensures(
            save_download_file,
            (SaveStage::Write, Ok::<bool, String>(present), partial, destination),
            r,
        ) ==> r == SaveAction::Enter(
            if present {
                SaveStage::Remove
            } else {
                SaveStage::Rename
            },
        ),
        call_ensures(
            save_download_file,
            (SaveStage::Remove, Ok::<bool, String>(present), partial, destination),
            r,
        ) ==> r == SaveAction::Enter(SaveStage::Rename),
        call_ensures(
            save_download_file,
            (SaveStage::Rename, Ok::<bool, String>(present), partial, destination),
            r,
        ) ==> r == SaveAction::Done,
        call_ensures(
            save_download_file,
            (stage, Err::<bool, String>(e), partial, destination),
            r,
        ) ==> (r matches SaveAction::Fail { remove_partial, message } && (remove_partial <==> stage
            != SaveStage::Write) && e@.is_suffix_of(message@)),
{
    let head = save_failure(stage, partial@, destination@) + "："@;
    let whole = head + e@;
    assert(whole.subrange(whole.len() - e@.len(), whole.len() as int) =~= e@);
}

/// The helper is removed exactly where it could not be started.
pub proof fn law_helper_is_removed_where_it_did_not_start(
    stage: DownloadStage,
    event: &DownloadEvent,
    r: bool,
)
    requires
        call_ensures(removes_helper, (stage, event), r),
    ensures
        r <==> stage == DownloadStage::Start && *event is Failed,
{
}

/// Every installer of the program has its rank on its platform, in whatever case it
/// is written.
pub proof fn law_every_installer_has_its_rank(
    filename: &str,
    platform: Platform,
    n: Seq<char>,
    r: Option<u8>,
)
    requires
        call_ensures(release_asset_priority, (filename, platform), r),
    ensures
        platform == Platform::Windows && ascii_lowercase(filename@) == "reversedfront_"@ + n
            + ".exe"@ ==> r == Some(0u8),
        platform == Platform::Windows && ascii_lowercase(filename@) == "reversedfront_"@ + n
            + ".msi"@ ==> r == Some(1u8),
        platform == Platform::MacOs && ascii_lowercase(filename@) == "reversedfront_"@ + n + ".dmg"@
            ==> r == Some(0u8),
        platform == Platform::MacOs && ascii_lowercase(filename@) == "reversedfront_"@ + n
            + ".app.tar.gz"@ ==> r == Some(1u8),
        platform == Platform::Linux && ascii_lowercase(filename@) == "reversedfront_"@ + n
            + ".appimage"@ ==> r == Some(0u8),
        platform == Platform::Linux && ascii_lowercase(filename@) == "reversedfront_"@ + n + ".deb"@
            ==> r == Some(1u8),
        r is Some ==> "reversedfront_"@.is_prefix_of(ascii_lowercase(filename@)) && platform
            != Platform::Other,
{
    law_every_installer_is_known(filename@, n);
    law_other_files_are_not_offered(filename@, platform);
}

/// An offer's report carries the offer.
pub proof fn law_offer_report_carries_the_offer(info: UpdateInfo, r: Json)
    requires
        call_ensures(offer_value, (info,), r),
    ensures
        flag_field(r, "has_update"@) == Some(info.has_update),
        text_field(r, "version"@) == Some(info.version@),
        text_field(r, "download_url"@) == Some(info.download_url@),
        text_field(r, "filename"@) == Some(info.filename@),
{
}

/// A release whose version is known is offered by it, compared with the running one;
/// without a version, or without an installer, it is refused by its own cause.
pub proof fn law_known_version_is_offered(
    version: String,
    release: &GithubRelease,
    current: &str,
    platform: Platform,
    bad_tag: String,
    no_file: String,
    a: Seq<u32>,
    b: Seq<u32>,
    r: Result<UpdateInfo, String>,
)
    requires
        a.len() == 3,
        b.len() == 3,
        version@ == written_version(a),
        current@ == written_version(b),
        call_ensures(
            offer_release,
            (Some(version), release, current, platform, bad_tag, no_file),
            r,
        ),
    ensures
        r is Ok <==> exists|i: int|
            0 <= i < release.assets@.len() && asset_priority(
                (#[trigger] release.assets@[i]).name@,
                platform,
            ) is Some,
        r is Err ==> r == Err::<UpdateInfo, String>(no_file),
        r matches Ok(info) ==> info.version@ == version@ && (info.has_update <==> (a[0] > b[0] || (
        a[0] == b[0] && (a[1] > b[1] || (a[1] == b[1] && a[2] > b[2]))))),
{
    let assets = release.assets@;
    if exists|i: int|
        0 <= i < assets.len() && asset_priority((#[trigger] assets[i]).name@, platform) is Some {
        let i = choose|i: int|
            0 <= i < assets.len() && asset_priority((#[trigger] assets[i]).name@, platform) is Some;
        assert(priority_of(assets, platform, i) is Some);
    }
    if let Ok(info) = r {
        law_offer_compares_the_versions(info, assets, platform, a, b);
        let i = choose|i: int|
            0 <= i < assets.len() && (#[trigger] priority_of(assets, platform, i)) is Some;
        assert(asset_priority(assets[i].name@, platform) is Some);
    }
}

/// A download is judged by its address, its name and its kind, and by nothing else.
pub proof fn law_download_is_judged_by_its_name(
    url: &str,
    filename: &str,
    platform: Platform,
    versioned: bool,
    r: Result<(), String>,
)
    requires
        call_ensures(judge_download_request, (url, filename, platform, versioned), r),
    ensures
        r is Ok <==>
            "https://github.com/MoLinOwO/ReversedFront_Public/releases/download/"@.is_prefix_of(url@)
            && is_file_name(platform, filename@) && versioned && asset_priority(
            filename@,
            platform,
        ) is Some,
{
}

/// A stage that is done leads to the next, an open window stops the update at either
/// check, and a failure ends it with its cause.
pub proof fn law_done_download_stage_leads_on(
    stage: DownloadStage,
    cause: String,
    appimage: bool,
    r: DownloadAction,
)
    ensures
        call_ensures(download_and_install, (stage, DownloadEvent::Done, appimage), r) ==> (r is Exit
            <==> stage == DownloadStage::Start) && !(r is Fail),
        (stage == DownloadStage::FirstCheck || stage == DownloadStage::SecondCheck)
            && call_ensures(download_and_install, (stage, DownloadEvent::Others(true), appimage), r)
            ==> r is Fail,
        (stage == DownloadStage::FirstCheck || stage == DownloadStage::SecondCheck)
            && call_ensures(download_and_install, (stage, DownloadEvent::Others(false), appimage), r)
            ==> r is Enter,
        call_ensures(download_and_install, (stage, DownloadEvent::Failed(cause), appimage), r) ==> (
        r matches DownloadAction::Fail(m) && cause@.is_suffix_of(m@)),
{
    let whole = stage_failure(stage) + cause@;
    assert(whole.subrange(whole.len() - cause@.len(), whole.len() as int) =~= cause@);
}

/// A partial download is hidden, carries the download's name and belongs to its
/// process.
pub proof fn law_partial_download_belongs_to_its_process(
    filename: &str,
    process: u32,
    other: u32,
    r: String,
    s: String,
)
    requires
        call_ensures(partial_file_name, (filename, process), r),
        call_ensures(partial_file_name, (filename, other), s),
    ensures
        r@ == s@ ==> process == other,
        r@.len() > 0 && r@[0] == '.',
        filename@.is_prefix_of(r@.skip(1)),
        decimal(process as nat).is_suffix_of(r@),
{
    law_partial_files_are_distinct(filename@, process as nat, other as nat);
    lemma_framed("."@ + filename@, ".part-"@, decimal(process as nat));
}

/// A missing download directory is told with the cause.
pub proof fn law_missing_directory_tells_its_cause(
    directory: String,
    error: String,
    unknown: String,
    uncreated: String,
)
    requires
        call_ensures(download_dir, (DirectoryFault::Unknown(error),), unknown),
        call_ensures(download_dir, (DirectoryFault::NotCreated { directory, error },), uncreated),
    ensures
        error@.is_suffix_of(unknown@),
        error@.is_suffix_of(uncreated@),
        occurs(directory@, uncreated@),
{
    let head = "無法建立系統下載目錄 "@;
    let n = head.len() as int;
    assert(unknown@.subrange(unknown@.len() - error@.len(), unknown@.len() as int) =~= error@);
    assert(uncreated@.subrange(uncreated@.len() - error@.len(), uncreated@.len() as int)
        =~= error@);
    assert(uncreated@.subrange(n, n + directory@.len()) =~= directory@);
    assert(occurs_at(directory@, uncreated@, n));
}

/// An update that other windows stop tells whether the download is already there.
pub proof fn law_open_windows_are_told(stage: DownloadStage, appimage: bool, r: DownloadAction)
    requires
        stage == DownloadStage::FirstCheck || stage == DownloadStage::SecondCheck,
        call_ensures(download_and_install, (stage, DownloadEvent::Others(true), appimage), r),
    ensures
        r matches DownloadAction::Fail(m) && m@ == if stage == DownloadStage::FirstCheck {
            "偵測到其他 ReversedFront 視窗，請先關閉其他視窗後再更新"@
        } else {
            "下載完成，但偵測到其他 ReversedFront 視窗，請關閉其他視窗後再重新更新"@
        },
{
}

/// A download that is refused is refused for the first thing that is wrong with it:
/// its address, its name, its kind.
pub proof fn law_refused_download_tells_the_first_fault(
    url: &str,
    filename: &str,
    platform: Platform,
    e: String,
)
    requires
        call_ensures(validate_download_request, (url, filename, platform), Err::<(), String>(e)),
    ensures
        e@ == "拒絕非 GitHub Releases 的更新下載網址"@
            || "https://github.com/MoLinOwO/ReversedFront_Public/releases/download/"@.is_prefix_of(
            url@,
        ),
        "https://github.com/MoLinOwO/ReversedFront_Public/releases/download/"@.is_prefix_of(url@)
            ==> e@ == if is_file_name(platform, filename@) {
            "GitHub Releases 沒有支援目前平台的更新檔"@
        } else {
            "更新檔名無效"@
        },
{
}

} // verus!
