//! The commands that the page can give: data files, resources, external
//! addresses, and the settings of an account.

use crate::account_manager::{
    addressed_position, filter_in, get_account_settings, law_replaced_settings_are_found,
    settings_at, settings_of, settings_replaced, update_account_settings, AccountStore,
};
use crate::json::{field, fields, flag_field, text_field, Json, JsonObject};
use crate::mod_updater::{check_for_update, tells_check, ModUpdateInfo};
use crate::outside::{parse_url, parsed_url};
use crate::path::{
    extension, extension_of, is_file_name, law_extension_stands_behind_the_last_dot,
    law_only_name_is_the_name, only_name, sole_name, Platform,
};
use crate::text::{
    ascii_lowercase, joined, lemma_framed, same_text, slice_text, starts_with, string_of,
    string_text, to_ascii_lowercase,
};
use crate::updater::{offer_value, tells_offer, UpdateInfo};
use vstd::prelude::*;
use vstd::utf8::encode_utf8;

verus! {

/// The Fowler-Noll-Vo hash, in its variant 1a with 64 bits.
pub open spec fn fnv1a(bytes: Seq<u8>) -> u64
    decreases bytes.len(),
{
    if bytes.len() == 0 {
        0xcbf29ce484222325u64
    } else {
        (fnv1a(bytes.drop_last()) ^ (bytes.last() as u64)).wrapping_mul(0x100000001b3u64)
    }
}

/// A hash of an account under a salt that is the same in every process.
pub fn stable_account_hash(account: &str, salt: &str) -> (r: u64)
    ensures
        r == fnv1a(encode_utf8(salt@ + ":"@ + account@)),
{
    let mut text = joined(salt, ":");
    text.append(account);
    let text_slice = text.as_str();
    let bytes = text_slice.as_bytes();
    assert(bytes@ == encode_utf8(salt@ + ":"@ + account@));
    let mut hash: u64 = 0xcbf29ce484222325;
    let mut i: usize = 0;
    while i < bytes.len()
        invariant
            i <= bytes.len(),
            hash == fnv1a(bytes@.take(i as int)),
        decreases bytes.len() - i,
    {
        assert(bytes@.take(i + 1).drop_last() =~= bytes@.take(i as int));
        hash = (hash ^ (bytes[i] as u64)).wrapping_mul(0x100000001b3);
        i += 1;
    }
    assert(bytes@.take(i as int) =~= bytes@);
    hash
}

/// The lowest `count` bytes of a number, the lowest first.
pub open spec fn low_bytes(n: u64, count: nat) -> Seq<u8>
    decreases count,
{
    if count == 0 {
        Seq::empty()
    } else {
        seq![(n % 256) as u8] + low_bytes(n / 256, (count - 1) as nat)
    }
}

proof fn lemma_low_bytes_len(n: u64, count: nat)
    ensures
        low_bytes(n, count).len() == count,
    decreases count,
{
    if count > 0 {
        lemma_low_bytes_len(n / 256, (count - 1) as nat);
    }
}

/// The identifier of a data store: two hashes of its seed.
pub open spec fn data_store_identifier(seed: Seq<char>) -> Seq<u8> {
    low_bytes(fnv1a(encode_utf8("ReversedFront-macos-1"@ + ":"@ + seed)), 8) + low_bytes(
        fnv1a(encode_utf8("ReversedFront-macos-2"@ + ":"@ + seed)),
        8,
    )
}

fn byte_at(n: u64, place: usize) -> (r: u8)
    requires
        place < 8,
    ensures
        r == low_bytes(n, 8)[place as int],
{
    let ghost all = low_bytes(n, 8);
    proof {
        lemma_low_bytes_len(n, 8);
    }
    let mut rest: u64 = n;
    let mut i: usize = 0;
    assert(all =~= all.skip(0));
    while i < place
        invariant
            i <= place < 8,
            all.len() == 8,
            all.skip(i as int) == low_bytes(rest, (8 - i) as nat),
        decreases place - i,
    {
        assert(all.skip(i as int).skip(1) =~= all.skip(i + 1));
        assert(low_bytes(rest, (8 - i) as nat).skip(1) =~= low_bytes(
            (rest / 256) as u64,
            (8 - i - 1) as nat,
        ));
        rest = rest / 256;
        i += 1;
    }
    assert(all.skip(i as int)[0] == (rest % 256) as u8);
    (rest % 256) as u8
}

/// The identifier of a data store, the same in every process for one seed.
pub fn process_data_store_identifier(seed: &str) -> (r: [u8; 16])
    ensures
        r@ == data_store_identifier(seed@),
{
    let a = stable_account_hash(seed, "ReversedFront-macos-1");
    let b = stable_account_hash(seed, "ReversedFront-macos-2");
    proof {
        lemma_low_bytes_len(a, 8);
        lemma_low_bytes_len(b, 8);
    }
    let r: [u8; 16] = [
        byte_at(a, 0),
        byte_at(a, 1),
        byte_at(a, 2),
        byte_at(a, 3),
        byte_at(a, 4),
        byte_at(a, 5),
        byte_at(a, 6),
        byte_at(a, 7),
        byte_at(b, 0),
        byte_at(b, 1),
        byte_at(b, 2),
        byte_at(b, 3),
        byte_at(b, 4),
        byte_at(b, 5),
        byte_at(b, 6),
        byte_at(b, 7),
    ];
    assert(r@ =~= data_store_identifier(seed@));
    r
}

/// A data file: one name, with an extension that data files have.
pub open spec fn data_file(platform: Platform, filename: Seq<char>) -> bool {
    match only_name(platform, filename) {
        Some(name) => match extension(name) {
            Some(e) => {
                ||| ascii_lowercase(e) == "yaml"@
                ||| ascii_lowercase(e) == "yml"@
                ||| ascii_lowercase(e) == "json"@
            },
            None => false,
        },
        None => false,
    }
}

/// The name of a data file, where it is one: a single name of a YAML or JSON
/// file.
pub fn safe_data_filename<'a>(filename: &'a str, platform: Platform) -> (r: Option<&'a str>)
    ensures
        slice_text(r) == if data_file(platform, filename@) {
            Some(filename@)
        } else {
            None
        },
{
    let name = match sole_name(platform, filename) {
        Some(name) => name,
        None => return None,
    };
    let e = match extension_of(&name) {
        Some(e) => to_ascii_lowercase(&string_of(&e)),
        None => return None,
    };
    if same_text(&e, "yaml") || same_text(&e, "yml") || same_text(&e, "json") {
        Some(filename)
    } else {
        None
    }
}

/// A path below `passionfruit/`, with or without `assets/` in front.
pub open spec fn passionfruit_path(path: Seq<char>) -> bool {
    "passionfruit/"@.is_prefix_of(path) || "assets/passionfruit/"@.is_prefix_of(path)
}

fn is_passionfruit_path(path: &str) -> (r: bool)
    ensures
        r == passionfruit_path(path@),
{
    starts_with(path, "passionfruit/") || starts_with(path, "assets/passionfruit/")
}

/// Tells whether a resource that is or is not here is going to be downloaded.
pub fn check_resource_exists(resource_path: &str, here: bool) -> (r: bool)
    ensures
        r == (!here && passionfruit_path(resource_path@)),
{
    !here && is_passionfruit_path(resource_path)
}

/// Refuses to download anything but the game's resources.
pub fn download_resource(resource_path: &str) -> (r: Result<(), String>)
    ensures
        r is Ok <==> passionfruit_path(resource_path@),
        r matches Err(e) ==> e@ == "只允許下載 passionfruit 資源"@,
{
    if is_passionfruit_path(resource_path) {
        Ok(())
    } else {
        Err("只允許下載 passionfruit 資源".to_owned())
    }
}

/// What is told of a download: the resource, or why there is none.
pub fn finish_resource_download<T>(outcome: Result<Option<T>, String>) -> (r: Result<T, String>)
    ensures
        match outcome {
            Ok(Some(resource)) => r == Ok::<T, String>(resource),
            Ok(None) => r matches Err(e) && e@ == "找不到資源"@,
            Err(error) => r matches Err(e) && e@ == "資源下載失敗："@ + error@,
        },
{
    match outcome {
        Ok(Some(resource)) => Ok(resource),
        Ok(None) => Err("找不到資源".to_owned()),
        Err(error) => Err(joined("資源下載失敗：", &error)),
    }
}

/// A program with its arguments.
pub struct OpenCommand {
    pub program: &'static str,
    pub leading_argument: Option<&'static str>,
    pub url: String,
}

/// The program by which a platform opens an address.
pub open spec fn opener(platform: Platform) -> Option<(Seq<char>, Option<Seq<char>>)> {
    match platform {
        Platform::Windows => Some(("rundll32.exe"@, Some("url.dll,FileProtocolHandler"@))),
        Platform::MacOs => Some(("open"@, None)),
        Platform::Linux => Some(("xdg-open"@, None)),
        Platform::Other => None,
    }
}

/// What opening an address comes to, given the scheme and the normal form that
/// it was read to.
pub open spec fn opens(
    url: Option<(Seq<char>, Seq<char>)>,
    platform: Platform,
    r: Result<OpenCommand, String>,
) -> bool {
    match url {
        None => r matches Err(e) && e@ == "無效的網址"@,
        Some((scheme, normal)) => if scheme != "https"@ {
            r matches Err(e) && e@ == "只允許透過 HTTPS 開啟外部網址"@
        } else {
            match opener(platform) {
                Some((program, leading)) => r matches Ok(command) && command.program@ == program
                    && slice_text(command.leading_argument) == leading && command.url@ == normal,
                None => r matches Err(e) && e@ == "目前平台不支援開啟外部網址"@,
            }
        },
    }
}

/// Decides how an address that was read is opened.
pub fn open_parsed_url(url: Option<(String, String)>, platform: Platform) -> (r: Result<
    OpenCommand,
    String,
>)
    ensures
        opens(
            match url {
                Some(parts) => Some((parts.0@, parts.1@)),
                None => None,
            },
            platform,
            r,
        ),
{
    let (scheme, normal) = match url {
        Some(parts) => parts,
        None => return Err("無效的網址".to_owned()),
    };
    if !same_text(&scheme, "https") {
        return Err("只允許透過 HTTPS 開啟外部網址".to_owned());
    }
    match platform {
        Platform::Windows => Ok(
            OpenCommand {
                program: "rundll32.exe",
                leading_argument: Some("url.dll,FileProtocolHandler"),
                url: normal,
            },
        ),
        Platform::MacOs => Ok(
            OpenCommand { program: "open", leading_argument: None, url: normal },
        ),
        Platform::Linux => Ok(
            OpenCommand { program: "xdg-open", leading_argument: None, url: normal },
        ),
        Platform::Other => Err("目前平台不支援開啟外部網址".to_owned()),
    }
}

/// Decides how an address is opened in the user's browser; only HTTPS is.
pub fn open_external_url(url: &str, platform: Platform) -> (r: Result<OpenCommand, String>)
    ensures
        opens(parsed_url(url@), platform, r),
        r matches Ok(command) ==> "https:"@.is_prefix_of(command.url@),
{
    let parsed = parse_url(url);
    proof {
        reveal_strlit("https:");
        reveal_strlit("https");
        assert("https"@.push(':') =~= "https:"@);
    }
    open_parsed_url(parsed, platform)
}

/// Why the browser could not be started.
pub fn browser_failure(error: &str) -> (r: String)
    ensures
        r@ == "無法啟動預設瀏覽器："@ + error@,
{
    joined("無法啟動預設瀏覽器：", error)
}

/// Keeps the faction that reports are filtered by, for the account that a
/// request is about.
pub fn save_report_faction_filter(
    store: &mut AccountStore,
    faction: String,
    target_account: Option<Json>,
) -> (r: bool)
    ensures
        ({
            let place = addressed_position(
                old(store).accounts@,
                string_text(old(store).active_account),
                target_account,
            );
            &&& r == (place is Some)
            &&& !r ==> *final(store) == *old(store)
            &&& r ==> final(store).active_account == old(store).active_account && settings_replaced(
                old(store).accounts@,
                final(store).accounts@,
                place->0,
                settings_of(old(store).accounts@[place->0]).insert(
                    "report_faction_filter"@,
                    Json::Text(faction),
                ),
            )
        }),
{
    proof {
        reveal_strlit("report_faction_filter");
        reveal_strlit("target_account");
        reveal_strlit("bgm");
        reveal_strlit("se");
        reveal_strlit("se147Muted");
        assert("se"@.len() < "bgm"@.len() < "se147Muted"@.len() < "target_account"@.len()
            < "report_faction_filter"@.len());
    }
    let mut object = JsonObject::new();
    object.insert("report_faction_filter".to_owned(), Json::Text(faction));
    match target_account {
        Some(target) => object.insert("target_account".to_owned(), target),
        None => object.insert("target_account".to_owned(), Json::Null),
    }
    update_account_settings(store, Json::Object(object))
}

/// The faction that reports are filtered by, for the account that a request is
/// about.
pub fn get_report_faction_filter(store: &AccountStore, target_account: Option<&Json>) -> (r: String)
    ensures
        r@ == filter_in(
            settings_at(
                store.accounts@,
                addressed_position(
                    store.accounts@,
                    string_text(store.active_account),
                    match target_account {
                        Some(v) => Some(*v),
                        None => None,
                    },
                ),
            ),
        ),
{
    get_account_settings(store, target_account).report_faction_filter
}

/// `value` is the object with this text as its only value.
pub open spec fn holds_only(value: Json, key: Seq<char>, text: Seq<char>) -> bool {
    &&& value is Object
    &&& text_field(value, key) == Some(text)
    &&& forall|k: Seq<char>| #[trigger] fields(value).contains_key(k) ==> k == key
}

/// What is told of a check for an update of the program: the offer, or the error
/// alone.
pub fn check_for_updates(result: Result<UpdateInfo, String>) -> (r: Json)
    ensures
        match result {
            Ok(info) => tells_offer(r, info),
            Err(error) => holds_only(r, "error"@, error@),
        },
{
    match result {
        Ok(info) => offer_value(info),
        Err(error) => {
            let mut object = JsonObject::new();
            object.insert("error".to_owned(), Json::Text(error));
            Json::Object(object)
        },
    }
}

/// `part` tells of one check: that it went well, with what it found, or that it
/// did not, with the error.
pub open spec fn tells_part(part: Json, result: Result<Json, String>) -> bool {
    &&& part is Object
    &&& flag_field(part, "ok"@) == Some(result is Ok)
    &&& match result {
        Ok(info) => field(part, "info"@) == Some(info) && field(part, "error"@) is None,
        Err(error) => text_field(part, "error"@) == Some(error@) && field(part, "info"@) is None,
    }
    &&& forall|key: Seq<char>| #[trigger]
        fields(part).contains_key(key) ==> key == "ok"@ || key == "info"@ || key == "error"@
}

fn report_part(result: Result<Json, String>) -> (r: Json)
    ensures
        tells_part(r, result),
{
    proof {
        reveal_strlit("ok");
        reveal_strlit("info");
        reveal_strlit("error");
        assert("ok"@.len() < "info"@.len() < "error"@.len());
    }
    let mut object = JsonObject::new();
    match result {
        Ok(info) => {
            object.insert("ok".to_owned(), Json::Bool(true));
            object.insert("info".to_owned(), info);
        },
        Err(error) => {
            object.insert("ok".to_owned(), Json::Bool(false));
            object.insert("error".to_owned(), Json::Text(error));
        },
    }
    Json::Object(object)
}

/// The part of the report that tells of a check of the program.
pub open spec fn tells_program(part: Json, result: Result<UpdateInfo, String>) -> bool {
    match result {
        Ok(info) => field(part, "info"@) matches Some(told) && tells_offer(told, info)
            && tells_part(part, Ok(told)),
        Err(error) => tells_part(part, Err(error)),
    }
}

/// The part of the report that tells of a check of the Mod.
pub open spec fn tells_mod(part: Json, result: Result<ModUpdateInfo, String>) -> bool {
    match result {
        Ok(info) => field(part, "info"@) matches Some(told) && tells_check(told, info)
            && tells_part(part, Ok(told)),
        Err(error) => tells_part(part, Err(error)),
    }
}

/// The report of both checks, with one part for the program and one for the Mod;
/// neither hides the other.
pub fn check_all_updates(
    program: Result<UpdateInfo, String>,
    installed_mod: Result<ModUpdateInfo, String>,
) -> (r: Json)
    ensures
        r is Object,
        field(r, "app"@) matches Some(part) && tells_program(part, program),
        field(r, "mod"@) matches Some(part) && tells_mod(part, installed_mod),
        forall|key: Seq<char>| #[trigger]
            fields(r).contains_key(key) ==> key == "app"@ || key == "mod"@,
{
    proof {
        reveal_strlit("app");
        reveal_strlit("mod");
        assert("app"@[0] != "mod"@[0]);
    }
    let program_part = report_part(
        match program {
            Ok(info) => Ok(offer_value(info)),
            Err(error) => Err(error),
        },
    );
    let mod_part = report_part(
        match installed_mod {
            Ok(info) => Ok(check_for_update(info)),
            Err(error) => Err(error),
        },
    );
    let mut object = JsonObject::new();
    object.insert("app".to_owned(), program_part);
    object.insert("mod".to_owned(), mod_part);
    Json::Object(object)
}

/// A faction that was kept for an account is the one that is read for it.
pub proof fn law_saved_filter_is_read_back(
    before: Seq<Json>,
    after: Seq<Json>,
    active: Option<Seq<char>>,
    target: Option<Json>,
    place: int,
    faction: String,
)
    requires
        addressed_position(before, active, target) == Some(place),
        settings_replaced(
            before,
            after,
            place,
            settings_of(before[place]).insert("report_faction_filter"@, Json::Text(faction)),
        ),
    ensures
        filter_in(settings_at(after, addressed_position(after, active, target))) == faction@,
{
    law_replaced_settings_are_found(
        before,
        after,
        active,
        target,
        place,
        settings_of(before[place]).insert("report_faction_filter"@, Json::Text(faction)),
    );
}

/// The hash of no bytes is the fixed start, and each further byte is mixed into the
/// hash of those before it.
pub proof fn law_every_byte_is_mixed_in(bytes: Seq<u8>, last: u8)
    ensures
        fnv1a(Seq::empty()) == 14695981039346656037,
        fnv1a(bytes.push(last)) == (fnv1a(bytes) ^ (last as u64)).wrapping_mul(1099511628211u64),
{
    assert(bytes.push(last).drop_last() =~= bytes);
}

/// The eight bytes of a number are its digits to the base of 256, the lowest first.
pub proof fn law_bytes_are_the_digits_of_the_number(n: u64)
    ensures
        low_bytes(n, 8).len() == 8,
        low_bytes(n, 8)[0] == n % 256,
        low_bytes(n, 8)[1] == n / 256 % 256,
        low_bytes(n, 8)[2] == n / 65536 % 256,
        low_bytes(n, 8)[3] == n / 16777216 % 256,
        low_bytes(n, 8)[4] == n / 4294967296 % 256,
        low_bytes(n, 8)[5] == n / 1099511627776 % 256,
        low_bytes(n, 8)[6] == n / 281474976710656 % 256,
        low_bytes(n, 8)[7] == n / 72057594037927936 % 256,
{
    reveal_with_fuel(low_bytes, 9);
    assert(n / 256 / 256 == n / 65536);
    assert(n / 65536 / 256 == n / 16777216);
    assert(n / 16777216 / 256 == n / 4294967296);
    assert(n / 4294967296 / 256 == n / 1099511627776);
    assert(n / 1099511627776 / 256 == n / 281474976710656);
    assert(n / 281474976710656 / 256 == n / 72057594037927936);
}

/// A plain file name is a data file's exactly where its extension is one of the
/// three, in whatever case.
pub proof fn law_every_data_file_is_served(
    platform: Platform,
    stem: Seq<char>,
    ending: Seq<char>,
)
    requires
        stem.len() > 0,
        is_file_name(platform, stem + "."@ + ending),
        !stem.contains('/') && !stem.contains('\\') && !stem.contains(':'),
        !ending.contains('/') && !ending.contains('\\') && !ending.contains(':'),
        !ending.contains('.'),
    ensures
        data_file(platform, stem + "."@ + ending) <==> ascii_lowercase(ending) == "yaml"@
            || ascii_lowercase(ending) == "yml"@ || ascii_lowercase(ending) == "json"@,
{
    reveal_strlit(".");
    let name = stem + "."@ + ending;
    assert forall|i: int| 0 <= i < name.len() implies name[i] != '/' && name[i] != '\\' && name[i]
        != ':' by {
        if i < stem.len() {
            assert(stem.contains(stem[i]));
        } else if i > stem.len() {
            assert(ending.contains(ending[i - stem.len() - 1]));
        }
    }
    law_only_name_is_the_name(platform, name, name);
    law_extension_stands_behind_the_last_dot(stem, ending);
}

/// A file without an extension, and one in a directory below, is no data file.
pub proof fn law_other_files_are_not_served(platform: Platform, a: Seq<char>, b: Seq<char>)
    requires
        is_file_name(platform, a),
        is_file_name(platform, b),
        !a.contains('/') && !a.contains('\\') && !a.contains(':'),
        !b.contains('/') && !b.contains('\\') && !b.contains(':'),
    ensures
        !a.contains('.') ==> !data_file(platform, a),
        !data_file(platform, a + "/"@ + b),
        !data_file(platform, "/"@ + a),
{
    law_only_name_is_the_name(platform, a, b);
    if !a.contains('.') {
        law_extension_stands_behind_the_last_dot(a, a);
    }
}

/// Every path below the game's resources is one of them, with `assets/` in front or
/// without, and no other path is.
pub proof fn law_resource_paths_are_known(rest: Seq<char>, other: Seq<char>)
    ensures
        passionfruit_path("passionfruit/"@ + rest),
        passionfruit_path("assets/passionfruit/"@ + rest),
        passionfruit_path(other) ==> "passionfruit/"@.is_prefix_of(other)
            || "assets/passionfruit/"@.is_prefix_of(other),
{
    let none = Seq::<char>::empty();
    lemma_framed("passionfruit/"@, rest, none);
    lemma_framed("assets/passionfruit/"@, rest, none);
    assert("passionfruit/"@ + rest + none =~= "passionfruit/"@ + rest);
    assert("assets/passionfruit/"@ + rest + none =~= "assets/passionfruit/"@ + rest);
}

/// Every address that is read with the scheme `https` is opened on the three known
/// platforms, as it was read, and no other address is.
pub proof fn law_secure_addresses_are_opened(
    scheme: Seq<char>,
    normal: Seq<char>,
    platform: Platform,
    r: Result<OpenCommand, String>,
)
    requires
        opens(Some((scheme, normal)), platform, r),
    ensures
        r is Ok <==> scheme == "https"@ && platform != Platform::Other,
        r is Ok ==> r->Ok_0.url@ == normal,
        r is Ok && platform == Platform::Windows ==> r->Ok_0.program@ == "rundll32.exe"@
            && slice_text(r->Ok_0.leading_argument) == Some("url.dll,FileProtocolHandler"@),
        r is Ok && platform == Platform::MacOs ==> r->Ok_0.program@ == "open"@
            && r->Ok_0.leading_argument is None,
        r is Ok && platform == Platform::Linux ==> r->Ok_0.program@ == "xdg-open"@
            && r->Ok_0.leading_argument is None,
{
}

/// A data store's identifier has sixteen bytes, eight from each of two hashes of the
/// seed.
pub proof fn law_data_store_identifier_has_two_halves(seed: Seq<char>)
    ensures
        data_store_identifier(seed).len() == 16,
        data_store_identifier(seed).take(8) == low_bytes(
            fnv1a(encode_utf8("ReversedFront-macos-1:"@ + seed)),
            8,
        ),
        data_store_identifier(seed).skip(8) == low_bytes(
            fnv1a(encode_utf8("ReversedFront-macos-2:"@ + seed)),
            8,
        ),
{
    reveal_strlit(":");
    reveal_strlit("ReversedFront-macos-1");
    reveal_strlit("ReversedFront-macos-2");
    reveal_strlit("ReversedFront-macos-1:");
    reveal_strlit("ReversedFront-macos-2:");
    assert("ReversedFront-macos-1"@ + ":"@ + seed =~= "ReversedFront-macos-1:"@ + seed);
    assert("ReversedFront-macos-2"@ + ":"@ + seed =~= "ReversedFront-macos-2:"@ + seed);
    let first = fnv1a(encode_utf8("ReversedFront-macos-1:"@ + seed));
    let second = fnv1a(encode_utf8("ReversedFront-macos-2:"@ + seed));
    law_bytes_are_the_digits_of_the_number(first);
    law_bytes_are_the_digits_of_the_number(second);
    assert(data_store_identifier(seed).take(8) =~= low_bytes(first, 8));
    assert(data_store_identifier(seed).skip(8) =~= low_bytes(second, 8));
}

/// A check that succeeded is told with what it found, one that failed with its
/// cause, and never both.
pub proof fn law_check_is_told_by_its_result(part: Json, result: Result<Json, String>)
    requires
        tells_part(part, result),
    ensures
        fields(part).contains_pair("ok"@, Json::Bool(result is Ok)),
        result matches Ok(info) ==> fields(part).contains_pair("info"@, info),
        result matches Err(error) ==> text_field(part, "error"@) == Some(error@),
        result is Ok ==> !fields(part).contains_key("error"@),
        result is Err ==> !fields(part).contains_key("info"@),
{
}

/// A name that is accepted for a data file is handed on as it was given.
pub proof fn law_accepted_data_file_keeps_its_name<'a>(
    filename: &'a str,
    platform: Platform,
    stem: Seq<char>,
    ending: Seq<char>,
    r: Option<&'a str>,
)
    requires
        stem.len() > 0,
        filename@ == stem + "."@ + ending,
        is_file_name(platform, filename@),
        !stem.contains('/') && !stem.contains('\\') && !stem.contains(':'),
        !ending.contains('/') && !ending.contains('\\') && !ending.contains(':'),
        !ending.contains('.'),
        call_ensures(safe_data_filename, (filename, platform), r),
    ensures
        r is Some <==> ascii_lowercase(ending) == "yaml"@ || ascii_lowercase(ending) == "yml"@
            || ascii_lowercase(ending) == "json"@,
        r matches Some(name) ==> name@ == filename@,
{
    law_every_data_file_is_served(platform, stem, ending);
}

/// Only a resource of the game is asked for when it is missing, and only such a one
/// is downloaded.
pub proof fn law_only_resources_are_downloaded(
    path: &str,
    rest: Seq<char>,
    here: bool,
    asked: bool,
    r: Result<(), String>,
)
    requires
        call_ensures(check_resource_exists, (path, here), asked),
        call_ensures(download_resource, (path,), r),
    ensures
        path@ == "passionfruit/"@ + rest || path@ == "assets/passionfruit/"@ + rest ==> r is Ok
            && asked == !here,
        here ==> !asked,
        r is Ok ==> "passionfruit/"@.is_prefix_of(path@) || "assets/passionfruit/"@.is_prefix_of(
            path@,
        ),
        asked ==> r is Ok,
{
    law_resource_paths_are_known(rest, path@);
}

/// A download ends with the resource where there is one, and fails otherwise, with
/// the cause where there is one.
pub proof fn law_download_ends_with_its_resource<T>(resource: T, error: String, r: Result<T, String>)
    ensures
        call_ensures(
            finish_resource_download::<T>,
            (Ok::<Option<T>, String>(Some(resource)),),
            r,
        ) ==> r == Ok::<T, String>(resource),
        call_ensures(finish_resource_download::<T>, (Ok::<Option<T>, String>(None),), r) ==> r is Err,
        call_ensures(finish_resource_download::<T>, (Err::<Option<T>, String>(error),), r) ==> (
        r matches Err(e) && error@.is_suffix_of(e@)),
{
    let whole = "資源下載失敗："@ + error@;
    assert(whole.subrange(whole.len() - error@.len(), whole.len() as int) =~= error@);
}

/// A faction that is saved for an account is the one that is read for it, the empty
/// one too, and no other account is touched.
pub proof fn law_saved_faction_is_read(
    store: &mut AccountStore,
    faction: String,
    target: Option<&Json>,
    saved: bool,
    after: &AccountStore,
    r: String,
    i: int,
)
    requires
        addressed_position(
            old(store).accounts@,
            string_text(old(store).active_account),
            match target {
                Some(value) => Some(*value),
                None => None,
            },
        ) == Some(i),
        call_ensures(
            save_report_faction_filter,
            (
                store,
                faction,
                match target {
                    Some(value) => Some(*value),
                    None => None,
                },
            ),
            saved,
        ),
        *after == *final(store),
        call_ensures(get_report_faction_filter, (after, target), r),
    ensures
        saved,
        r@ == faction@,
        final(store).active_account == old(store).active_account,
        forall|j: int|
            0 <= j < old(store).accounts@.len() && j != i ==> #[trigger] final(store).accounts@[j]
                == old(store).accounts@[j],
{
    let chosen = match target {
        Some(value) => Some(*value),
        None => None,
    };
    law_saved_filter_is_read_back(
        old(store).accounts@,
        final(store).accounts@,
        string_text(old(store).active_account),
        chosen,
        i,
        faction,
    );
}

/// The two checks are told side by side, each by its own result.
pub proof fn law_both_checks_are_told(
    program: Result<UpdateInfo, String>,
    installed_mod: Result<ModUpdateInfo, String>,
    r: Json,
)
    requires
        call_ensures(check_all_updates, (program, installed_mod), r),
    ensures
        fields(r).contains_key("app"@) && fields(fields(r)["app"@]).contains_pair(
            "ok"@,
            Json::Bool(program is Ok),
        ),
        fields(r).contains_key("mod"@) && fields(fields(r)["mod"@]).contains_pair(
            "ok"@,
            Json::Bool(installed_mod is Ok),
        ),
        program matches Err(e) ==> text_field(fields(r)["app"@], "error"@) == Some(e@),
        installed_mod matches Err(e) ==> text_field(fields(r)["mod"@], "error"@) == Some(e@),
        program matches Ok(info) ==> flag_field(
            fields(fields(r)["app"@])["info"@],
            "has_update"@,
        ) == Some(info.has_update),
        installed_mod matches Ok(info) ==> flag_field(
            fields(fields(r)["mod"@])["info"@],
            "hasUpdate"@,
        ) == Some(info.has_update),
{
}

/// An account's hash mixes the salt, a colon and the account, byte by byte.
pub proof fn law_account_hash_mixes_salt_and_account(account: &str, salt: &str, r: u64)
    requires
        call_ensures(stable_account_hash, (account, salt), r),
    ensures
        r == fnv1a(encode_utf8(salt@ + seq![':'] + account@)),
{
    reveal_strlit(":");
    assert(":"@ =~= seq![':']);
}

/// The identifier of a data store is the lowest byte of the first hash first.
pub proof fn law_identifier_is_read_from_the_hashes(seed: &str, r: [u8; 16])
    requires
        call_ensures(process_data_store_identifier, (seed,), r),
    ensures
        r@[0] == fnv1a(encode_utf8("ReversedFront-macos-1:"@ + seed@)) % 256,
        r@[8] == fnv1a(encode_utf8("ReversedFront-macos-2:"@ + seed@)) % 256,
        r@.take(8) == low_bytes(fnv1a(encode_utf8("ReversedFront-macos-1:"@ + seed@)), 8),
        r@.skip(8) == low_bytes(fnv1a(encode_utf8("ReversedFront-macos-2:"@ + seed@)), 8),
{
    law_data_store_identifier_has_two_halves(seed@);
    let whole = data_store_identifier(seed@);
    assert(whole[0] == whole.take(8)[0]);
    assert(whole[8] == whole.skip(8)[0]);
    law_bytes_are_the_digits_of_the_number(fnv1a(encode_utf8("ReversedFront-macos-1:"@ + seed@)));
    law_bytes_are_the_digits_of_the_number(fnv1a(encode_utf8("ReversedFront-macos-2:"@ + seed@)));
}

/// An address is opened exactly where it is read with the scheme `https` on a known
/// platform, and then as it was read.
pub proof fn law_only_secure_addresses_are_opened(
    scheme: String,
    normal: String,
    platform: Platform,
    r: Result<OpenCommand, String>,
    unread: Result<OpenCommand, String>,
)
    requires
        call_ensures(open_parsed_url, (Some((scheme, normal)), platform), r),
        call_ensures(open_parsed_url, (None::<(String, String)>, platform), unread),
    ensures
        unread is Err,
        r is Ok <==> scheme@ == "https"@ && platform != Platform::Other,
        r matches Ok(command) ==> command.url@ == normal@,
{
    law_secure_addresses_are_opened(scheme@, normal@, platform, r);
}

/// What is opened is what the address was read as.
pub proof fn law_opened_address_is_the_one_read(
    url: &str,
    platform: Platform,
    r: Result<OpenCommand, String>,
)
    requires
        call_ensures(open_external_url, (url, platform), r),
    ensures
        r is Ok <==> (parsed_url(url@) matches Some((scheme, _)) && scheme == "https"@ && platform
            != Platform::Other),
        r matches Ok(command) ==> parsed_url(url@) matches Some((_, normal)) && command.url@
            == normal,
{
    if let Some((scheme, normal)) = parsed_url(url@) {
        law_secure_addresses_are_opened(scheme, normal, platform, r);
    }
}

/// A check for the program is told as the offer it found, or as its cause alone.
pub proof fn law_program_check_is_told(info: UpdateInfo, error: String, found: Json, failed: Json)
    requires
        call_ensures(check_for_updates, (Ok::<UpdateInfo, String>(info),), found),
        call_ensures(check_for_updates, (Err::<UpdateInfo, String>(error),), failed),
    ensures
        flag_field(found, "has_update"@) == Some(info.has_update),
        text_field(found, "version"@) == Some(info.version@),
        text_field(failed, "error"@) == Some(error@),
        forall|key: Seq<char>| #[trigger]
            fields(failed).contains_key(key) ==> key == "error"@,
{
}

/// A browser that did not start is told with the cause.
pub proof fn law_browser_failure_tells_its_cause(error: &str, r: String)
    requires
        call_ensures(browser_failure, (error,), r),
    ensures
        error@.is_suffix_of(r@),
{
    assert(r@.subrange(r@.len() - error@.len(), r@.len() as int) =~= error@);
}

} // verus!
