//! The stored accounts: which one is active, how logins are added, and the
//! settings that each account keeps.

use crate::json::{field, fields, Json, JsonNumber, JsonObject};
use crate::text::{
    law_trimmed_is_what_stands_between, same_text, slice_text, string_text, trim, trimmed,
    white_space,
};
use vstd::prelude::*;

verus! {

/// The accounts with the name of the active one.
pub struct AccountStore {
    pub accounts: Vec<Json>,
    pub active_account: Option<String>,
}

impl Default for AccountStore {
    fn default() -> (r: AccountStore)
        ensures
            r.accounts@ == Seq::<Json>::empty(),
            r.active_account is None,
    {
        AccountStore { accounts: Vec::new(), active_account: None }
    }
}

/// The text that a value holds, trimmed, where anything is left of it.
pub open spec fn trimmed_name(value: Option<Json>) -> Option<Seq<char>> {
    match value {
        Some(Json::Text(text)) => if trimmed(text@).len() > 0 {
            Some(trimmed(text@))
        } else {
            None
        },
        _ => None,
    }
}

/// The name of an account.
pub open spec fn name_of(account: Json) -> Option<Seq<char>> {
    trimmed_name(field(account, "account"@))
}

/// The name by which a request picks an account.
pub open spec fn target_name(target: Option<Json>) -> Option<Seq<char>> {
    match target {
        Some(value) => if field(value, "account"@) is Some {
            name_of(value)
        } else {
            trimmed_name(field(value, "accountName"@))
        },
        None => None,
    }
}

fn trim_name(value: Option<&Json>) -> (r: Option<&str>)
    ensures
        slice_text(r) == trimmed_name(
            match value {
                Some(v) => Some(*v),
                None => None,
            },
        ),
{
    match value {
        Some(Json::Text(text)) => {
            let name = trim(text);
            if name.unicode_len() > 0 {
                Some(name)
            } else {
                None
            }
        },
        _ => None,
    }
}

/// The name of an account: the trimmed text under `account`, if there is any.
pub fn account_name(account: &Json) -> (r: Option<&str>)
    ensures
        slice_text(r) == name_of(*account),
{
    trim_name(account.get("account"))
}

/// The name that a request gives under `account`, or, where it has no such key,
/// under `accountName`.
pub fn target_account_name(target: Option<&Json>) -> (r: Option<String>)
    ensures
        string_text(r) == target_name(
            match target {
                Some(v) => Some(*v),
                None => None,
            },
        ),
{
    let value = match target {
        Some(value) => value,
        None => return None,
    };
    let named = match value.get("account") {
        Some(account) => trim_name(Some(account)),
        None => trim_name(value.get("accountName")),
    };
    match named {
        Some(name) => Some(name.to_owned()),
        None => None,
    }
}

/// The place of the first account of that name at or behind position `i`.
pub open spec fn position_from(accounts: Seq<Json>, name: Seq<char>, i: int) -> Option<int>
    decreases accounts.len() - i,
{
    if i < 0 || i >= accounts.len() {
        None
    } else if name_of(accounts[i]) == Some(name) {
        Some(i)
    } else {
        position_from(accounts, name, i + 1)
    }
}

/// The place of the first account of that name.
pub open spec fn position(accounts: Seq<Json>, name: Seq<char>) -> Option<int> {
    position_from(accounts, name, 0)
}

/// The first name that an account at or behind position `i` has.
pub open spec fn first_name_from(accounts: Seq<Json>, i: int) -> Option<Seq<char>>
    decreases accounts.len() - i,
{
    if i < 0 || i >= accounts.len() {
        None
    } else if name_of(accounts[i]) is Some {
        name_of(accounts[i])
    } else {
        first_name_from(accounts, i + 1)
    }
}

proof fn lemma_position(accounts: Seq<Json>, name: Seq<char>, i: int)
    requires
        0 <= i,
    ensures
        match position_from(accounts, name, i) {
            Some(k) => i <= k < accounts.len() && name_of(accounts[k]) == Some(name) && forall|j: int|
                i <= j < k ==> name_of(#[trigger] accounts[j]) != Some(name),
            None => forall|j: int|
                i <= j < accounts.len() ==> name_of(#[trigger] accounts[j]) != Some(name),
        },
    decreases accounts.len() - i,
{
    if i < accounts.len() && name_of(accounts[i]) != Some(name) {
        lemma_position(accounts, name, i + 1);
    }
}

proof fn lemma_first_name(accounts: Seq<Json>, i: int)
    requires
        0 <= i,
    ensures
        match first_name_from(accounts, i) {
            Some(name) => exists|k: int|
                i <= k < accounts.len() && name_of(#[trigger] accounts[k]) == Some(name),
            None => forall|k: int|
                i <= k < accounts.len() ==> name_of(#[trigger] accounts[k]) is None,
        },
    decreases accounts.len() - i,
{
    if i < accounts.len() && name_of(accounts[i]) is None {
        lemma_first_name(accounts, i + 1);
    }
}

fn find_account(accounts: &Vec<Json>, name: &str) -> (r: Option<usize>)
    ensures
        match r {
            Some(i) => position(accounts@, name@) == Some(i as int),
            None => position(accounts@, name@) is None,
        },
{
    let mut i: usize = 0;
    while i < accounts.len()
        invariant
            i <= accounts.len(),
            position(accounts@, name@) == position_from(accounts@, name@, i as int),
        decreases accounts.len() - i,
    {
        match account_name(&accounts[i]) {
            Some(found) => {
                if same_text(found, name) {
                    return Some(i);
                }
            },
            None => {},
        }
        i += 1;
    }
    None
}

fn find_name(accounts: &Vec<Json>) -> (r: Option<String>)
    ensures
        string_text(r) == first_name_from(accounts@, 0),
{
    let mut i: usize = 0;
    while i < accounts.len()
        invariant
            i <= accounts.len(),
            first_name_from(accounts@, 0) == first_name_from(accounts@, i as int),
        decreases accounts.len() - i,
    {
        match account_name(&accounts[i]) {
            Some(name) => return Some(name.to_owned()),
            None => {},
        }
        i += 1;
    }
    None
}

fn name_at(accounts: &Vec<Json>, index: usize) -> (r: Option<String>)
    ensures
        string_text(r) == place_name(accounts@, index as int),
{
    if index < accounts.len() {
        match account_name(&accounts[index]) {
            Some(name) => Some(name.to_owned()),
            None => None,
        }
    } else {
        None
    }
}

/// The name of the account at a place, where there is one.
pub open spec fn place_name(accounts: Seq<Json>, index: int) -> Option<Seq<char>> {
    if 0 <= index < accounts.len() {
        name_of(accounts[index])
    } else {
        None
    }
}

/// The active account that is left standing: the one given, where an account
/// has that name, else the first that has any.
pub open spec fn normalized(accounts: Seq<Json>, active: Option<Seq<char>>) -> Option<Seq<char>> {
    match active {
        Some(name) => if position(accounts, name) is Some {
            active
        } else {
            first_name_from(accounts, 0)
        },
        None => first_name_from(accounts, 0),
    }
}

/// Lets the active account name an account that is there; tells whether that
/// changed it.
pub fn normalize_active_account(store: &mut AccountStore) -> (r: bool)
    ensures
        final(store).accounts == old(store).accounts,
        string_text(final(store).active_account) == normalized(
            old(store).accounts@,
            string_text(old(store).active_account),
        ),
        r == (string_text(final(store).active_account) != string_text(
            old(store).active_account,
        )),
{
    let valid = match &store.active_account {
        Some(name) => find_account(&store.accounts, name).is_some(),
        None => false,
    };
    if valid {
        return false;
    }
    let next = find_name(&store.accounts);
    let changed = match (&store.active_account, &next) {
        (Some(old_name), Some(new_name)) => !same_text(old_name, new_name),
        (None, None) => false,
        _ => true,
    };
    store.active_account = next;
    changed
}

/// The active account, whole.
pub fn get_active_account(store: AccountStore) -> (r: Option<Json>)
    ensures
        r == match string_text(store.active_account) {
            Some(name) => match position(store.accounts@, name) {
                Some(i) => Some(store.accounts@[i]),
                None => None,
            },
            None => None,
        },
{
    let mut accounts = store.accounts;
    match store.active_account {
        Some(name) => match find_account(&accounts, &name) {
            Some(i) => {
                proof {
                    lemma_position(accounts@, name@, 0);
                }
                Some(accounts.remove(i))
            },
            None => None,
        },
        None => None,
    }
}

/// A login that is sent again replaces this key.
pub open spec fn replaces(login: Map<Seq<char>, Json>, key: Seq<char>) -> bool {
    login.contains_key(key) && key != "settings"@ && !(login[key] is Null)
}

/// An account after a further login: every key that the login gives a value,
/// but for the settings.
pub open spec fn merged(
    account: Map<Seq<char>, Json>,
    login: Map<Seq<char>, Json>,
) -> Map<Seq<char>, Json> {
    Map::new(
        |key: Seq<char>| account.contains_key(key) || replaces(login, key),
        |key: Seq<char>|
            if replaces(login, key) {
                login[key]
            } else {
                account[key]
            },
    )
}

fn merge_login(account: &mut JsonObject, login: JsonObject)
    ensures
        final(account)@ == merged(old(account)@, login@),
{
    let ghost before = account@;
    let ghost all = login@;
    let mut entries = login.into_entries();
    let ghost given = entries@;
    let ghost mut done = Map::<Seq<char>, Json>::empty();
    assert(before =~= merged(before, done));
    while entries.len() > 0
        invariant
            entries@.len() <= given.len(),
            entries@ == given.take(entries@.len() as int),
            account@ == merged(before, done),
            forall|i: int|
                0 <= i < given.len() ==> all.contains_key((#[trigger] given[i]).0@) && all[given[i].0@]
                    == given[i].1,
            forall|i: int, j: int|
                0 <= i < given.len() && 0 <= j < given.len() && i != j ==> (#[trigger] given[i]).0@
                    != (#[trigger] given[j]).0@,
            forall|key: Seq<char>| #[trigger]
                done.contains_key(key) ==> all.contains_key(key) && done[key] == all[key],
            forall|i: int| entries@.len() <= i < given.len() ==> done.contains_key(
                (#[trigger] given[i]).0@,
            ),
            forall|i: int| 0 <= i < entries@.len() ==> !done.contains_key((#[trigger] given[i]).0@),
        decreases entries.len(),
    {
        let ghost last = entries@.len() - 1;
        let entry = entries.pop();
        if let Some((key, value)) = entry {
            proof {
                assert(given[last] == (key, value));
                assert(!done.contains_key(key@));
                let more = done.insert(key@, value);
                assert(forall|k: Seq<char>| k != key@ ==> replaces(more, k) == replaces(done, k));
                if replaces(more, key@) {
                    assert(merged(before, more) =~= merged(before, done).insert(key@, value));
                } else {
                    assert(merged(before, more) =~= merged(before, done));
                }
                assert forall|i: int| 0 <= i < last implies !more.contains_key(
                    (#[trigger] given[i]).0@,
                ) by {
                    assert(given[i].0@ != given[last].0@);
                }
                done = more;
            }
            if !same_text(&key, "settings") && !value.is_null() {
                account.insert(key, value);
            }
        }
    }
    assert(done =~= all);
}

/// Settings are there, as an object.
pub open spec fn has_settings(account: Json) -> bool {
    match field(account, "settings"@) {
        Some(Json::Object(_)) => true,
        _ => false,
    }
}

/// The settings of an account; none where they are no object.
pub open spec fn settings_of(account: Json) -> Map<Seq<char>, Json> {
    match field(account, "settings"@) {
        Some(value) => fields(value),
        None => Map::empty(),
    }
}

/// `after` is the account `before` with these settings.
pub open spec fn with_settings(
    before: Json,
    after: Json,
    settings: Map<Seq<char>, Json>,
) -> bool {
    &&& after is Object
    &&& has_settings(after)
    &&& settings_of(after) == settings
    &&& fields(after).remove("settings"@) == fields(before).remove("settings"@)
}

/// A login with a name and the accounts behind it: its account is renewed where
/// it is there, and added, with settings of its own, where it is not.
pub open spec fn login_stored(before: Seq<Json>, after: Seq<Json>, login: Json) -> bool {
    match name_of(login) {
        Some(name) => match position(before, name) {
            Some(i) => {
                &&& after.len() == before.len()
                &&& forall|j: int| 0 <= j < before.len() && j != i ==> #[trigger] after[j] == before[j]
                &&& after[i] is Object
                &&& fields(after[i]) == merged(fields(before[i]), fields(login))
            },
            None => {
                &&& after.len() == before.len() + 1
                &&& after.drop_last() == before
                &&& with_settings(login, after.last(), settings_of(login))
            },
        },
        None => after == before,
    }
}

/// Stores a login. One without a name is refused. The name becomes the active
/// account where none was.
pub fn add_account(store: &mut AccountStore, data: Json) -> (r: bool)
    ensures
        r == (name_of(data) is Some),
        login_stored(old(store).accounts@, final(store).accounts@, data),
        string_text(final(store).active_account) == if old(store).active_account is Some {
            string_text(old(store).active_account)
        } else {
            name_of(data)
        },
{
    let name = match account_name(&data) {
        Some(name) => name.to_owned(),
        None => return false,
    };
    let mut login = match data {
        Json::Object(object) => object,
        _ => return false,
    };
    let ghost before = store.accounts@;
    match find_account(&store.accounts, &name) {
        Some(i) => {
            proof {
                lemma_position(before, name@, 0);
            }
            let mut place = Json::Null;
            std::mem::swap(&mut place, &mut store.accounts[i]);
            match place {
                Json::Object(mut account) => {
                    merge_login(&mut account, login);
                    store.accounts[i] = Json::Object(account);
                },
                other => {
                    store.accounts[i] = other;
                },
            }
        },
        None => {
            let whole = match login.get("settings") {
                Some(Json::Object(_)) => true,
                _ => false,
            };
            if !whole {
                login.insert("settings".to_owned(), Json::Object(JsonObject::new()));
            }
            let account = Json::Object(login);
            proof {
                assert(fields(account).remove("settings"@) =~= fields(data).remove("settings"@));
                assert(settings_of(account) =~= settings_of(data));
            }
            store.accounts.push(account);
            assert(store.accounts@.drop_last() =~= before);
        },
    }
    if store.active_account.is_none() {
        store.active_account = Some(name);
    }
    true
}

/// The active account after the account at `index` has left: where it was the
/// active one, its neighbour takes its place.
pub open spec fn active_after_delete(
    accounts: Seq<Json>,
    active: Option<Seq<char>>,
    index: int,
) -> Option<Seq<char>> {
    let rest = accounts.remove(index);
    normalized(
        rest,
        if active == name_of(accounts[index]) {
            place_name(
                rest,
                if index < rest.len() {
                    index
                } else {
                    rest.len() - 1
                },
            )
        } else {
            active
        },
    )
}

fn same_name(a: &Option<String>, b: &Option<String>) -> (r: bool)
    ensures
        r == (string_text(*a) == string_text(*b)),
{
    match (a, b) {
        (Some(x), Some(y)) => same_text(x, y),
        (None, None) => true,
        _ => false,
    }
}

/// Removes the account at `index`; where there is none, nothing changes.
pub fn delete_account(store: &mut AccountStore, index: usize) -> (r: bool)
    ensures
        r == (index < old(store).accounts@.len()),
        !r ==> *final(store) == *old(store),
        r ==> final(store).accounts@ == old(store).accounts@.remove(index as int) && string_text(
            final(store).active_account,
        ) == active_after_delete(
            old(store).accounts@,
            string_text(old(store).active_account),
            index as int,
        ),
{
    if index >= store.accounts.len() {
        return false;
    }
    let deleted_name = name_at(&store.accounts, index);
    let _ = store.accounts.remove(index);
    if same_name(&store.active_account, &deleted_name) {
        let count = store.accounts.len();
        store.active_account =
        if index < count {
            name_at(&store.accounts, index)
        } else if count > 0 {
            name_at(&store.accounts, count - 1)
        } else {
            None
        };
    }
    let _ = normalize_active_account(store);
    true
}

/// Makes the account at `index` the active one, where it is there and named.
pub fn set_active_account(store: &mut AccountStore, index: usize) -> (r: bool)
    ensures
        r == (place_name(old(store).accounts@, index as int) is Some),
        final(store).accounts == old(store).accounts,
        string_text(final(store).active_account) == if r {
            place_name(old(store).accounts@, index as int)
        } else {
            string_text(old(store).active_account)
        },
{
    match name_at(&store.accounts, index) {
        Some(name) => {
            store.active_account = Some(name);
            true
        },
        None => false,
    }
}

/// The name of the account that a request is about: the one it names, else the
/// active one, else the first.
pub open spec fn addressed(
    accounts: Seq<Json>,
    active: Option<Seq<char>>,
    target: Option<Json>,
) -> Option<Seq<char>> {
    if target_name(target) is Some {
        target_name(target)
    } else if active is Some {
        active
    } else {
        place_name(accounts, 0)
    }
}

/// The place of the account that a request is about.
pub open spec fn addressed_position(
    accounts: Seq<Json>,
    active: Option<Seq<char>>,
    target: Option<Json>,
) -> Option<int> {
    match addressed(accounts, active, target) {
        Some(name) => position(accounts, name),
        None => None,
    }
}

fn find_addressed(store: &AccountStore, target: Option<&Json>) -> (r: Option<usize>)
    ensures
        match r {
            Some(i) => i < store.accounts@.len() && addressed_position(
                store.accounts@,
                string_text(store.active_account),
                match target {
                    Some(v) => Some(*v),
                    None => None,
                },
            ) == Some(i as int),
            None => addressed_position(
                store.accounts@,
                string_text(store.active_account),
                match target {
                    Some(v) => Some(*v),
                    None => None,
                },
            ) is None,
        },
{
    let name = match target_account_name(target) {
        Some(name) => Some(name),
        None => match &store.active_account {
            Some(name) => Some(name.clone()),
            None => name_at(&store.accounts, 0),
        },
    };
    match name {
        Some(name) => {
            proof {
                lemma_position(store.accounts@, name@, 0);
            }
            find_account(&store.accounts, &name)
        },
        None => None,
    }
}

/// What is read of an account's settings. A volume that is not set stays open.
pub struct AccountSettings {
    pub bgm: Option<JsonNumber>,
    pub se: Option<JsonNumber>,
    pub se147_muted: bool,
    pub report_faction_filter: String,
}

/// The number under a key.
pub open spec fn number_in(settings: Map<Seq<char>, Json>, key: Seq<char>) -> Option<JsonNumber> {
    if settings.contains_key(key) {
        match settings[key] {
            Json::Number(number) => Some(number),
            _ => None,
        }
    } else {
        None
    }
}

/// The flag under a key, off where none is there.
pub open spec fn flag_in(settings: Map<Seq<char>, Json>, key: Seq<char>) -> bool {
    settings.contains_key(key) && settings[key] == Json::Bool(true)
}

/// The faction that reports are filtered by, all of them where none is chosen.
pub open spec fn filter_in(settings: Map<Seq<char>, Json>) -> Seq<char> {
    if settings.contains_key("report_faction_filter"@) {
        match settings["report_faction_filter"@] {
            Json::Text(text) => text@,
            _ => "全部"@,
        }
    } else {
        "全部"@
    }
}

/// The settings at a place in the store; none where there is no such place.
pub open spec fn settings_at(accounts: Seq<Json>, place: Option<int>) -> Map<Seq<char>, Json> {
    match place {
        Some(i) => settings_of(accounts[i]),
        None => Map::empty(),
    }
}

/// What is read of these settings.
pub open spec fn reads(r: AccountSettings, settings: Map<Seq<char>, Json>) -> bool {
    &&& r.bgm == number_in(settings, "bgm_volume"@)
    &&& r.se == number_in(settings, "se_volume"@)
    &&& r.se147_muted == flag_in(settings, "se147_muted"@)
    &&& r.report_faction_filter@ == filter_in(settings)
}

fn read_number(settings: Option<&Json>, key: &str) -> (r: Option<JsonNumber>)
    ensures
        r == number_in(
            match settings {
                Some(v) => fields(*v),
                None => Map::empty(),
            },
            key@,
        ),
{
    match settings {
        Some(value) => match value.get(key) {
            Some(Json::Number(number)) => Some(*number),
            _ => None,
        },
        None => None,
    }
}

fn read_flag(settings: Option<&Json>, key: &str) -> (r: bool)
    ensures
        r == flag_in(
            match settings {
                Some(v) => fields(*v),
                None => Map::empty(),
            },
            key@,
        ),
{
    match settings {
        Some(value) => match value.get(key) {
            Some(Json::Bool(flag)) => *flag,
            _ => false,
        },
        None => false,
    }
}

fn read_filter(settings: Option<&Json>) -> (r: String)
    ensures
        r@ == filter_in(
            match settings {
                Some(v) => fields(*v),
                None => Map::empty(),
            },
        ),
{
    match settings {
        Some(value) => match value.get("report_faction_filter") {
            Some(Json::Text(text)) => text.clone(),
            _ => "全部".to_owned(),
        },
        None => "全部".to_owned(),
    }
}

/// Reads the settings of the account that a request is about.
pub fn get_account_settings(store: &AccountStore, target_account: Option<&Json>) -> (r:
    AccountSettings)
    ensures
        reads(
            r,
            settings_at(
                store.accounts@,
                addressed_position(
                    store.accounts@,
                    string_text(store.active_account),
                    match target_account {
                        Some(v) => Some(*v),
                        None => None,
                    },
                ),
            ),
        ),
{
    let settings = match find_addressed(store, target_account) {
        Some(i) => store.accounts[i].get("settings"),
        None => None,
    };
    AccountSettings {
        bgm: read_number(settings, "bgm_volume"),
        se: read_number(settings, "se_volume"),
        se147_muted: read_flag(settings, "se147_muted"),
        report_faction_filter: read_filter(settings),
    }
}

/// A request gives a value under this key.
pub open spec fn gives(request: Map<Seq<char>, Json>, key: Seq<char>) -> bool {
    request.contains_key(key) && !(request[key] is Null)
}

/// Settings after the value under `source`, where a request gives one, is
/// written under `destination`.
pub open spec fn written(
    settings: Map<Seq<char>, Json>,
    request: Map<Seq<char>, Json>,
    source: Seq<char>,
    destination: Seq<char>,
) -> Map<Seq<char>, Json> {
    if gives(request, source) {
        settings.insert(destination, request[source])
    } else {
        settings
    }
}

/// A request gives any setting.
pub open spec fn gives_any(request: Map<Seq<char>, Json>) -> bool {
    gives(request, "bgm"@) || gives(request, "se"@) || gives(request, "se147Muted"@) || gives(
        request,
        "report_faction_filter"@,
    )
}

/// Settings after every value that a request gives has been written.
pub open spec fn all_written(
    settings: Map<Seq<char>, Json>,
    request: Map<Seq<char>, Json>,
) -> Map<Seq<char>, Json> {
    written(
        written(
            written(
                written(settings, request, "bgm"@, "bgm_volume"@),
                request,
                "se"@,
                "se_volume"@,
            ),
            request,
            "se147Muted"@,
            "se147_muted"@,
        ),
        request,
        "report_faction_filter"@,
        "report_faction_filter"@,
    )
}

fn write_setting(
    settings: &mut JsonObject,
    request: &mut JsonObject,
    source: &str,
    destination: &str,
) -> (r: bool)
    ensures
        r == gives(old(request)@, source@),
        final(request)@ == old(request)@.remove(source@),
        final(settings)@ == written(old(settings)@, old(request)@, source@, destination@),
{
    match request.remove(source) {
        Some(value) => {
            if value.is_null() {
                false
            } else {
                settings.insert(destination.to_owned(), value);
                true
            }
        },
        None => false,
    }
}

fn give(request: &Json, key: &str) -> (r: bool)
    ensures
        r == gives(fields(*request), key@),
{
    match request.get(key) {
        Some(value) => !value.is_null(),
        None => false,
    }
}

/// The account at place `i`, and nothing else, has these settings now.
pub open spec fn settings_replaced(
    before: Seq<Json>,
    after: Seq<Json>,
    i: int,
    settings: Map<Seq<char>, Json>,
) -> bool {
    &&& after.len() == before.len()
    &&& forall|j: int| 0 <= j < before.len() && j != i ==> #[trigger] after[j] == before[j]
    &&& with_settings(before[i], after[i], settings)
}

/// Writes the settings that a request gives to the account that it is about.
/// A request that gives none, or is about no account, changes nothing.
pub fn update_account_settings(store: &mut AccountStore, request: Json) -> (r: bool)
    ensures
        ({
            let place = addressed_position(
                old(store).accounts@,
                string_text(old(store).active_account),
                field(request, "target_account"@),
            );
            &&& r == (place is Some && gives_any(fields(request)))
            &&& !r ==> *final(store) == *old(store)
            &&& r ==> final(store).active_account == old(store).active_account && settings_replaced(
                old(store).accounts@,
                final(store).accounts@,
                place->0,
                all_written(settings_of(old(store).accounts@[place->0]), fields(request)),
            )
        }),
{
    let i = match find_addressed(store, request.get("target_account")) {
        Some(i) => i,
        None => return false,
    };
    if !give(&request, "bgm") && !give(&request, "se") && !give(&request, "se147Muted") && !give(
        &request,
        "report_faction_filter",
    ) {
        return false;
    }
    proof {
        reveal_strlit("bgm");
        reveal_strlit("se");
        reveal_strlit("se147Muted");
        reveal_strlit("report_faction_filter");
        match addressed(
            store.accounts@,
            string_text(store.active_account),
            field(request, "target_account"@),
        ) {
            Some(name) => lemma_position(store.accounts@, name, 0),
            None => {},
        }
    }
    let ghost before = store.accounts@;
    let ghost asked = fields(request);
    let mut place = Json::Null;
    std::mem::swap(&mut place, &mut store.accounts[i]);
    assert(name_of(before[i as int]) is Some);
    assert(place is Object && request is Object);
    match (place, request) {
        (Json::Object(mut account), Json::Object(mut given)) => {
            let mut settings = match account.remove("settings") {
                Some(Json::Object(settings)) => settings,
                _ => JsonObject::new(),
            };
            assert(settings@ =~= settings_of(before[i as int]));
            let _ = write_setting(&mut settings, &mut given, "bgm", "bgm_volume");
            let _ = write_setting(&mut settings, &mut given, "se", "se_volume");
            let _ = write_setting(&mut settings, &mut given, "se147Muted", "se147_muted");
            let _ = write_setting(
                &mut settings,
                &mut given,
                "report_faction_filter",
                "report_faction_filter",
            );
            assert(settings@ == all_written(settings_of(before[i as int]), asked)) by {
                assert("bgm"@.len() < "se147Muted"@.len() < "report_faction_filter"@.len());
                assert("se"@.len() < "bgm"@.len());
            }
            account.insert("settings".to_owned(), Json::Object(settings));
            assert(account@.remove("settings"@) =~= fields(before[i as int]).remove("settings"@));
            store.accounts[i] = Json::Object(account);
            true
        },
        (other, _) => {
            store.accounts[i] = other;
            false
        },
    }
}

/// A configuration without the accounts that it used to hold.
pub open spec fn without_accounts(config: Map<Seq<char>, Json>) -> Map<Seq<char>, Json> {
    config.remove("accounts"@).remove("active_account_index"@)
}

/// The active account by its place, else the first.
pub open spec fn migrated_active(accounts: Seq<Json>, index: Option<Json>) -> Option<Seq<char>> {
    match index {
        Some(Json::Number(JsonNumber::Unsigned(n))) => if place_name(
            accounts,
            n as usize as int,
        ) is Some {
            place_name(accounts, n as usize as int)
        } else {
            place_name(accounts, 0)
        },
        _ => place_name(accounts, 0),
    }
}

/// Moves the accounts out of a configuration that still holds them: the store
/// that they make, and the configuration without them.
pub fn migrate_legacy_config(config: Json) -> (r: Option<(AccountStore, Json)>)
    ensures
        match field(config, "accounts"@) {
            Some(Json::Array(accounts)) => r matches Some((store, rest)) && store.accounts == accounts
                && string_text(store.active_account) == migrated_active(
                accounts@,
                field(config, "active_account_index"@),
            ) && rest is Object && fields(rest) == without_accounts(fields(config)),
            _ => r is None,
        },
{
    proof {
        reveal_strlit("accounts");
        reveal_strlit("active_account_index");
        assert("accounts"@.len() != "active_account_index"@.len());
    }
    let mut object = match config {
        Json::Object(object) => object,
        _ => return None,
    };
    let accounts = match object.remove("accounts") {
        Some(Json::Array(accounts)) => accounts,
        _ => return None,
    };
    let chosen = match object.remove("active_account_index") {
        Some(Json::Number(JsonNumber::Unsigned(n))) => name_at(&accounts, n as usize),
        _ => None,
    };
    let active_account = match chosen {
        Some(name) => Some(name),
        None => name_at(&accounts, 0),
    };
    Some((AccountStore { accounts, active_account }, Json::Object(object)))
}

/// Takes the accounts out of a configuration; tells whether it held any.
pub fn purge_legacy_config_accounts(config: &mut Json) -> (r: bool)
    ensures
        r == (field(*old(config), "accounts"@) is Some || field(
            *old(config),
            "active_account_index"@,
        ) is Some),
        !r ==> fields(*final(config)) == fields(*old(config)),
        *old(config) is Object ==> *final(config) is Object && fields(*final(config))
            == without_accounts(fields(*old(config))),
        !(*old(config) is Object) ==> *final(config) == *old(config),
{
    proof {
        reveal_strlit("accounts");
        reveal_strlit("active_account_index");
        assert("accounts"@.len() != "active_account_index"@.len());
    }
    match config {
        Json::Object(object) => {
            let had_accounts = object.remove("accounts").is_some();
            let had_index = object.remove("active_account_index").is_some();
            had_accounts || had_index
        },
        _ => false,
    }
}

/// What was found of the file of the accounts.
pub enum StoreFile {
    /// There is no such file: the program starts for the first time.
    Missing,
    /// It cannot be read, or what it holds is no account store.
    Unreadable,
    /// It holds these accounts.
    Holds(AccountStore),
}

/// Where the accounts come from.
pub enum LoadedStore {
    /// They were stored; the configuration, where it still held copies, is to be
    /// saved without them.
    Stored { store: AccountStore, cleaned: Option<Json> },
    /// They were in a file that an earlier version kept; they are to be stored,
    /// and then the configuration, where it still held copies, saved without
    /// them.
    Imported { store: AccountStore, cleaned: Option<Json> },
    /// They were in the configuration; once they are stored it is to be saved
    /// without them.
    Migrated { store: AccountStore, config: Json },
    /// There are none yet.
    Fresh { store: AccountStore },
}

/// `cleaned` is the configuration without accounts, where it held any.
pub open spec fn cleaned_of(config: Json, cleaned: Option<Json>) -> bool {
    &&& cleaned is Some <==> field(config, "accounts"@) is Some || field(
        config,
        "active_account_index"@,
    ) is Some
    &&& cleaned matches Some(rest) ==> rest is Object && fields(rest) == without_accounts(
        fields(config),
    )
}

/// The accounts of an earlier version: those of its database, else those of its
/// JSON file.
pub open spec fn legacy_accounts(
    database: Option<AccountStore>,
    file: Option<AccountStore>,
) -> Option<AccountStore> {
    if database is Some {
        database
    } else {
        file
    }
}

fn clean(config: Json) -> (r: Option<Json>)
    ensures
        cleaned_of(config, r),
{
    let mut rest = config;
    if purge_legacy_config_accounts(&mut rest) {
        Some(rest)
    } else {
        None
    }
}

/// The accounts that the configuration still holds, or none.
pub open spec fn loaded_from_config(config: Json, r: LoadedStore) -> bool {
    match field(config, "accounts"@) {
        Some(Json::Array(accounts)) => r matches LoadedStore::Migrated { store, config: rest }
            && store.accounts == accounts && string_text(store.active_account) == migrated_active(
            accounts@,
            field(config, "active_account_index"@),
        ) && rest is Object && fields(rest) == without_accounts(fields(config)),
        _ => r matches LoadedStore::Fresh { store } && store.accounts@.len() == 0
            && store.active_account is None,
    }
}

fn load_from_config(config: Json) -> (r: LoadedStore)
    ensures
        loaded_from_config(config, r),
{
    match migrate_legacy_config(config) {
        Some((store, config)) => LoadedStore::Migrated { store, config },
        None => LoadedStore::Fresh { store: AccountStore::default() },
    }
}

/// Finds the accounts: those that are stored; on the first start, where there is
/// no file of them yet, those of an earlier version's database or JSON file;
/// else those that the configuration still holds; else none. A file that cannot
/// be read is no first start, and lets nothing be imported.
pub fn load_store(
    stored: StoreFile,
    legacy_database: Option<AccountStore>,
    legacy_file: Option<AccountStore>,
    config: Json,
) -> (r: LoadedStore)
    ensures
        match stored {
            StoreFile::Holds(kept) => r matches LoadedStore::Stored { store, cleaned } && store
                == kept && cleaned_of(config, cleaned),
            StoreFile::Unreadable => loaded_from_config(config, r),
            StoreFile::Missing => match legacy_accounts(legacy_database, legacy_file) {
                Some(old) => r matches LoadedStore::Imported { store, cleaned } && store == old
                    && cleaned_of(config, cleaned),
                None => loaded_from_config(config, r),
            },
        },
{
    match stored {
        StoreFile::Holds(store) => LoadedStore::Stored { store, cleaned: clean(config) },
        StoreFile::Unreadable => load_from_config(config),
        StoreFile::Missing => match (legacy_database, legacy_file) {
            (Some(store), _) => LoadedStore::Imported { store, cleaned: clean(config) },
            (None, Some(store)) => LoadedStore::Imported { store, cleaned: clean(config) },
            (None, None) => load_from_config(config),
        },
    }
}

/// The active account of a normalized store is one of its accounts, and none is
/// active only where no account has a name.
pub proof fn law_active_account_is_stored(accounts: Seq<Json>, active: Option<Seq<char>>)
    ensures
        match normalized(accounts, active) {
            Some(name) => position(accounts, name) is Some,
            None => forall|i: int|
                0 <= i < accounts.len() ==> name_of(#[trigger] accounts[i]) is None,
        },
{
    lemma_first_name(accounts, 0);
    match first_name_from(accounts, 0) {
        Some(name) => lemma_position(accounts, name, 0),
        None => {},
    }
    match active {
        Some(name) => lemma_position(accounts, name, 0),
        None => {},
    }
}

/// Normalizing a second time changes nothing.
pub proof fn law_normalizing_is_idempotent(accounts: Seq<Json>, active: Option<Seq<char>>)
    ensures
        normalized(accounts, normalized(accounts, active)) == normalized(accounts, active),
{
    law_active_account_is_stored(accounts, active);
}

/// After any account is deleted, the active account is one of those left, and
/// none is active only where none that is left has a name.
pub proof fn law_deleting_keeps_active_account_stored(
    accounts: Seq<Json>,
    active: Option<Seq<char>>,
    index: int,
)
    requires
        0 <= index < accounts.len(),
    ensures
        match active_after_delete(accounts, active, index) {
            Some(name) => position(accounts.remove(index), name) is Some,
            None => forall|i: int|
                0 <= i < accounts.len() && i != index ==> name_of(#[trigger] accounts[i]) is None,
        },
{
    let rest = accounts.remove(index);
    let kept = if active == name_of(accounts[index]) {
        place_name(
            rest,
            if index < rest.len() {
                index
            } else {
                rest.len() - 1
            },
        )
    } else {
        active
    };
    law_active_account_is_stored(rest, kept);
    if normalized(rest, kept) is None {
        assert forall|i: int| 0 <= i < accounts.len() && i != index implies name_of(
            #[trigger] accounts[i],
        ) is None by {
            let j = if i < index {
                i
            } else {
                i - 1
            };
            assert(rest[j] == accounts[i]);
        }
    }
}

/// Deleting an account of another name leaves a stored active account active.
pub proof fn law_deleting_another_keeps_active_account(
    accounts: Seq<Json>,
    active: Seq<char>,
    index: int,
)
    requires
        0 <= index < accounts.len(),
        position(accounts, active) is Some,
        name_of(accounts[index]) != Some(active),
    ensures
        active_after_delete(accounts, Some(active), index) == Some(active),
{
    let rest = accounts.remove(index);
    lemma_position(accounts, active, 0);
    let i = position(accounts, active)->0;
    let j = if i < index {
        i
    } else {
        i - 1
    };
    assert(rest[j] == accounts[i]);
    lemma_position(rest, active, 0);
}

/// No two accounts have the same name.
pub open spec fn names_are_distinct(accounts: Seq<Json>) -> bool {
    forall|i: int, j: int|
        0 <= i < accounts.len() && 0 <= j < accounts.len() && i != j && name_of(accounts[i]) is Some
            ==> name_of(#[trigger] accounts[i]) != name_of(#[trigger] accounts[j])
}

/// An account that is made the active one by its place is the one that is then
/// active, and stays so, where names are distinct.
pub proof fn law_chosen_account_is_active(accounts: Seq<Json>, index: int)
    requires
        place_name(accounts, index) is Some,
        names_are_distinct(accounts),
    ensures
        position(accounts, place_name(accounts, index)->0) == Some(index),
        normalized(accounts, place_name(accounts, index)) == place_name(accounts, index),
{
    lemma_position(accounts, place_name(accounts, index)->0, 0);
}

/// A login that is stored can be found by its name, and is the only account of
/// that name where names were distinct before.
pub proof fn law_stored_login_is_found(before: Seq<Json>, after: Seq<Json>, login: Json)
    requires
        login_stored(before, after, login),
        name_of(login) is Some,
    ensures
        position(after, name_of(login)->0) is Some,
        names_are_distinct(before) ==> names_are_distinct(after),
{
    let name = name_of(login)->0;
    reveal_strlit("account");
    reveal_strlit("settings");
    assert("account"@.len() != "settings"@.len());
    lemma_position(before, name, 0);
    let i = match position(before, name) {
        Some(i) => i,
        None => before.len() as int,
    };
    assert(name_of(after[i]) == Some(name)) by {
        if position(before, name) is None {
            assert(after.last() == after[i]);
            let rest = fields(login).remove("settings"@);
            assert(rest.contains_key("account"@));
            assert(rest == fields(after[i]).remove("settings"@));
            assert(fields(after[i]).remove("settings"@).contains_key("account"@));
            assert(fields(after[i])["account"@] == rest["account"@]);
        }
    }
    assert forall|j: int| 0 <= j < before.len() && j != i implies after[j] == before[j] by {
        if position(before, name) is None {
            assert(after.drop_last()[j] == after[j]);
        }
    }
    lemma_position(after, name, 0);
}

/// A login that is sent again leaves the settings of its account as they were,
/// and every other account.
pub proof fn law_further_login_keeps_settings(
    before: Seq<Json>,
    after: Seq<Json>,
    login: Json,
    place: int,
)
    requires
        login_stored(before, after, login),
        name_of(login) is Some,
        position(before, name_of(login)->0) == Some(place),
    ensures
        field(after[place], "settings"@) == field(before[place], "settings"@),
        forall|j: int| 0 <= j < before.len() && j != place ==> #[trigger] after[j] == before[j],
{
}

proof fn lemma_settings_keep_names(
    before: Seq<Json>,
    after: Seq<Json>,
    place: int,
    settings: Map<Seq<char>, Json>,
)
    requires
        0 <= place < before.len(),
        settings_replaced(before, after, place, settings),
    ensures
        forall|j: int| 0 <= j < before.len() ==> name_of(#[trigger] after[j]) == name_of(before[j]),
{
    reveal_strlit("account");
    reveal_strlit("settings");
    assert("account"@.len() != "settings"@.len());
    let old_rest = fields(before[place]).remove("settings"@);
    let new_rest = fields(after[place]).remove("settings"@);
    assert(old_rest.contains_key("account"@) == fields(before[place]).contains_key("account"@));
    assert(new_rest.contains_key("account"@) == fields(after[place]).contains_key("account"@));
    if old_rest.contains_key("account"@) {
        assert(old_rest["account"@] == fields(before[place])["account"@]);
        assert(new_rest["account"@] == fields(after[place])["account"@]);
    }
}

proof fn lemma_same_names_same_position(a: Seq<Json>, b: Seq<Json>, name: Seq<char>, i: int)
    requires
        0 <= i,
        a.len() == b.len(),
        forall|j: int| 0 <= j < a.len() ==> name_of(#[trigger] b[j]) == name_of(a[j]),
    ensures
        position_from(a, name, i) == position_from(b, name, i),
    decreases a.len() - i,
{
    if i < a.len() {
        assert(name_of(b[i]) == name_of(a[i]));
        lemma_same_names_same_position(a, b, name, i + 1);
    }
}

/// Whatever settings an account is given, a request about the same account
/// finds them.
pub proof fn law_replaced_settings_are_found(
    before: Seq<Json>,
    after: Seq<Json>,
    active: Option<Seq<char>>,
    target: Option<Json>,
    place: int,
    settings: Map<Seq<char>, Json>,
)
    requires
        addressed_position(before, active, target) == Some(place),
        settings_replaced(before, after, place, settings),
    ensures
        addressed_position(after, active, target) == Some(place),
        settings_at(after, addressed_position(after, active, target)) == settings,
{
    let name = addressed(before, active, target)->0;
    lemma_position(before, name, 0);
    lemma_settings_keep_names(before, after, place, settings);
    assert(place_name(after, 0) == place_name(before, 0)) by {
        assert(name_of(after[0]) == name_of(before[0]));
    }
    lemma_same_names_same_position(before, after, name, 0);
}

/// Settings that were written are read back: a request about the same account
/// reads every value that was given, and what it had before of the others.
pub proof fn law_written_settings_are_read_back(
    before: Seq<Json>,
    after: Seq<Json>,
    active: Option<Seq<char>>,
    request: Json,
    place: int,
    reading: AccountSettings,
)
    requires
        addressed_position(before, active, field(request, "target_account"@)) == Some(place),
        settings_replaced(
            before,
            after,
            place,
            all_written(settings_of(before[place]), fields(request)),
        ),
        reads(
            reading,
            settings_at(
                after,
                addressed_position(after, active, field(request, "target_account"@)),
            ),
        ),
    ensures
        ({
            let given = fields(request);
            let held = settings_of(before[place]);
            &&& reading.bgm == if gives(given, "bgm"@) {
                number_in(given, "bgm"@)
            } else {
                number_in(held, "bgm_volume"@)
            }
            &&& reading.se == if gives(given, "se"@) {
                number_in(given, "se"@)
            } else {
                number_in(held, "se_volume"@)
            }
            &&& reading.se147_muted == if gives(given, "se147Muted"@) {
                flag_in(given, "se147Muted"@)
            } else {
                flag_in(held, "se147_muted"@)
            }
            &&& reading.report_faction_filter@ == if gives(given, "report_faction_filter"@) {
                filter_in(given)
            } else {
                filter_in(held)
            }
        }),
{
    law_replaced_settings_are_found(
        before,
        after,
        active,
        field(request, "target_account"@),
        place,
        all_written(settings_of(before[place]), fields(request)),
    );
    reveal_strlit("bgm_volume");
    reveal_strlit("se_volume");
    reveal_strlit("se147_muted");
    reveal_strlit("report_faction_filter");
    assert("se_volume"@.len() < "bgm_volume"@.len() < "se147_muted"@.len()
        < "report_faction_filter"@.len());
}

/// Writing the settings of one account leaves what is read of an account of any
/// other name.
pub proof fn law_settings_of_others_are_kept(
    before: Seq<Json>,
    after: Seq<Json>,
    place: int,
    settings: Map<Seq<char>, Json>,
    other: Seq<char>,
)
    requires
        0 <= place < before.len(),
        settings_replaced(before, after, place, settings),
        name_of(before[place]) != Some(other),
    ensures
        position(after, other) == position(before, other),
        settings_at(after, position(after, other)) == settings_at(before, position(before, other)),
{
    lemma_settings_keep_names(before, after, place, settings);
    lemma_same_names_same_position(before, after, other, 0);
    lemma_position(before, other, 0);
}

/// Every value of a request other than null is a setting that it gives, a false
/// flag, a zero and an empty text among them: it stands under the setting's key
/// afterwards as it was given. A setting that the request leaves out or gives as
/// null stays what it was, and so does every other.
pub proof fn law_given_values_are_written(
    before: Seq<Json>,
    after: Seq<Json>,
    i: int,
    request: Json,
)
    requires
        0 <= i < before.len(),
        settings_replaced(
            before,
            after,
            i,
            all_written(settings_of(before[i]), fields(request)),
        ),
    ensures
        forall|source: Seq<char>, destination: Seq<char>|
            #![trigger fields(request)[source], settings_of(after[i])[destination]]
            {
                ||| source == "bgm"@ && destination == "bgm_volume"@
                ||| source == "se"@ && destination == "se_volume"@
                ||| source == "se147Muted"@ && destination == "se147_muted"@
                ||| source == "report_faction_filter"@ && destination == "report_faction_filter"@
            } ==> {
                &&& fields(request).contains_key(source) && fields(request)[source] != Json::Null
                    ==> gives_any(fields(request)) && settings_of(after[i]).contains_key(destination)
                    && settings_of(after[i])[destination] == fields(request)[source]
                &&& !fields(request).contains_key(source) || fields(request)[source] == Json::Null
                    ==> settings_of(after[i]).contains_key(destination) == settings_of(
                    before[i],
                ).contains_key(destination) && settings_of(after[i])[destination] == settings_of(
                    before[i],
                )[destination]
            },
        forall|key: Seq<char>|
            #![trigger settings_of(after[i])[key]]
            #![trigger settings_of(after[i]).contains_key(key)]
            key != "bgm_volume"@ && key != "se_volume"@ && key != "se147_muted"@ && key
                != "report_faction_filter"@ ==> settings_of(after[i]).contains_key(key)
                == settings_of(before[i]).contains_key(key) && settings_of(after[i])[key]
                == settings_of(before[i])[key],
{
    reveal_strlit("bgm_volume");
    reveal_strlit("se_volume");
    reveal_strlit("se147_muted");
    reveal_strlit("report_faction_filter");
    reveal_strlit("bgm");
    reveal_strlit("se");
    reveal_strlit("se147Muted");
    assert("bgm_volume"@.len() == 10 && "se_volume"@.len() == 9 && "se147_muted"@.len() == 11
        && "report_faction_filter"@.len() == 21);
    assert("bgm"@.len() == 3 && "se"@.len() == 2 && "se147Muted"@.len() == 10);
}

/// A request changes settings exactly where one of the four values that it may
/// hold is there and is not null.
pub proof fn law_request_gives_what_is_not_null(request: Map<Seq<char>, Json>)
    ensures
        gives_any(request) <==> exists|key: Seq<char>|
            {
                &&& key == "bgm"@ || key == "se"@ || key == "se147Muted"@ || key
                    == "report_faction_filter"@
                &&& #[trigger] request.contains_key(key)
                &&& request[key] != Json::Null
            },
{
    if gives_any(request) {
        if gives(request, "bgm"@) {
            assert(request.contains_key("bgm"@));
        } else if gives(request, "se"@) {
            assert(request.contains_key("se"@));
        } else if gives(request, "se147Muted"@) {
            assert(request.contains_key("se147Muted"@));
        } else {
            assert(request.contains_key("report_faction_filter"@));
        }
    }
}

/// Settings are read as they stand: a number as that number, a flag as that flag,
/// a faction as that text; a value of another kind, or none, is read as no volume,
/// a flag that is off and every faction.
pub proof fn law_settings_are_read_as_they_stand(
    r: AccountSettings,
    settings: Map<Seq<char>, Json>,
    number: JsonNumber,
    flag: bool,
    text: String,
)
    requires
        reads(r, settings),
    ensures
        settings.contains_pair("bgm_volume"@, Json::Number(number)) ==> r.bgm == Some(number),
        r.bgm is Some ==> settings.contains_pair("bgm_volume"@, Json::Number(r.bgm->0)),
        settings.contains_pair("se_volume"@, Json::Number(number)) ==> r.se == Some(number),
        r.se is Some ==> settings.contains_pair("se_volume"@, Json::Number(r.se->0)),
        settings.contains_pair("se147_muted"@, Json::Bool(flag)) ==> r.se147_muted == flag,
        r.se147_muted ==> settings.contains_pair("se147_muted"@, Json::Bool(true)),
        settings.contains_pair("report_faction_filter"@, Json::Text(text))
            ==> r.report_faction_filter@ == text@,
        !settings.contains_key("report_faction_filter"@)
            || !(settings["report_faction_filter"@] is Text) ==> r.report_faction_filter@
            == "全部"@,
{
}

/// Where the active account is deleted, the one behind it becomes active, and the
/// one before it where it was the last.
pub proof fn law_deleting_active_account_moves_to_its_neighbour(accounts: Seq<Json>, i: int)
    requires
        0 <= i < accounts.len(),
        forall|k: int| 0 <= k < accounts.len() ==> name_of(#[trigger] accounts[k]) is Some,
    ensures
        i + 1 < accounts.len() ==> active_after_delete(accounts, name_of(accounts[i]), i)
            == name_of(accounts[i + 1]),
        i + 1 == accounts.len() && i > 0 ==> active_after_delete(
            accounts,
            name_of(accounts[i]),
            i,
        ) == name_of(accounts[i - 1]),
        accounts.len() == 1 ==> active_after_delete(accounts, name_of(accounts[i]), i) is None,
{
    let rest = accounts.remove(i);
    if accounts.len() > 1 {
        let k = if i < rest.len() {
            i
        } else {
            i - 1
        };
        let moved = if i < rest.len() {
            i + 1
        } else {
            i - 1
        };
        assert(rest[k] == accounts[moved]);
        assert(name_of(accounts[moved]) is Some);
        lemma_position(rest, name_of(rest[k])->0, 0);
    }
}

/// Where the account that was active is not there, the first that has a name
/// becomes active; where none has one, none is.
pub proof fn law_first_named_account_stands_in(
    accounts: Seq<Json>,
    active: Option<Seq<char>>,
    k: int,
)
    requires
        active matches Some(name) ==> forall|j: int|
            0 <= j < accounts.len() ==> name_of(#[trigger] accounts[j]) != Some(name),
        0 <= k <= accounts.len(),
        forall|j: int| 0 <= j < k ==> name_of(#[trigger] accounts[j]) is None,
        k < accounts.len() ==> name_of(accounts[k]) is Some,
    ensures
        normalized(accounts, active) == if k < accounts.len() {
            name_of(accounts[k])
        } else {
            None
        },
{
    if let Some(name) = active {
        lemma_position(accounts, name, 0);
    }
    lemma_first_named(accounts, 0, k);
}

proof fn lemma_first_named(accounts: Seq<Json>, i: int, k: int)
    requires
        0 <= i <= k <= accounts.len(),
        forall|j: int| i <= j < k ==> name_of(#[trigger] accounts[j]) is None,
        k < accounts.len() ==> name_of(accounts[k]) is Some,
    ensures
        first_name_from(accounts, i) == if k < accounts.len() {
            name_of(accounts[k])
        } else {
            None
        },
    decreases k - i,
{
    if i < k {
        lemma_first_named(accounts, i + 1, k);
    }
}

/// An active account that is there stays the active one.
pub proof fn law_active_account_that_is_there_stays(accounts: Seq<Json>, i: int)
    requires
        0 <= i < accounts.len(),
        name_of(accounts[i]) is Some,
    ensures
        normalized(accounts, name_of(accounts[i])) == name_of(accounts[i]),
{
    lemma_position(accounts, name_of(accounts[i])->0, 0);
}

/// An account is named by the text under `account`, without the white space
/// around it; a text of white space alone, or a value that is no text, is no name.
pub proof fn law_account_name_is_trimmed(
    account: Json,
    before: Seq<char>,
    name: Seq<char>,
    after: Seq<char>,
)
    requires
        forall|i: int| 0 <= i < before.len() ==> white_space(#[trigger] before[i]),
        forall|i: int| 0 <= i < after.len() ==> white_space(#[trigger] after[i]),
        name.len() > 0 ==> !white_space(name[0]) && !white_space(name.last()),
    ensures
        fields(account).contains_key("account"@) ==> match fields(account)["account"@] {
            Json::Text(text) => text@ == before + name + after ==> name_of(account)
                == if name.len() > 0 {
                Some(name)
            } else {
                None
            },
            _ => name_of(account) is None,
        },
        !fields(account).contains_key("account"@) ==> name_of(account) is None,
{
    law_trimmed_is_what_stands_between(before, name, after);
}

/// A request picks an account by its `account`; only where it has no such key, by
/// its `accountName`.
pub proof fn law_request_names_its_account(target: Json, account: Json)
    ensures
        fields(target).contains_key("account"@) ==> target_name(Some(target)) == name_of(target),
        !fields(target).contains_key("account"@) && fields(target).contains_key("accountName"@)
            && fields(account).contains_pair("account"@, fields(target)["accountName"@])
            ==> target_name(Some(target)) == name_of(account),
        !fields(target).contains_key("account"@) && !fields(target).contains_key("accountName"@)
            ==> target_name(Some(target)) is None,
        target_name(None) is None,
{
}

/// A request is about the first account that has the name it gives; without a name
/// it is about the active account, and where none is active about the first of all.
pub proof fn law_request_is_about_one_account(
    accounts: Seq<Json>,
    active: Option<Seq<char>>,
    target: Option<Json>,
    name: Seq<char>,
    i: int,
)
    requires
        0 <= i < accounts.len(),
        name_of(accounts[i]) == Some(name),
        forall|j: int| 0 <= j < i ==> name_of(#[trigger] accounts[j]) != Some(name),
    ensures
        target_name(target) == Some(name) ==> addressed_position(accounts, active, target) == Some(
            i,
        ),
        target_name(target) is None && active == Some(name) ==> addressed_position(
            accounts,
            active,
            target,
        ) == Some(i),
        target_name(target) is None && active is None && i == 0 ==> addressed_position(
            accounts,
            active,
            target,
        ) == Some(i),
{
    lemma_position(accounts, name, 0);
    let found = position(accounts, name)->0;
    assert(found <= i);
    assert(name_of(accounts[found]) == Some(name));
}

/// A request that names an account which is not there is about none, whatever is
/// active.
pub proof fn law_request_for_a_stranger_is_about_none(
    accounts: Seq<Json>,
    active: Option<Seq<char>>,
    target: Option<Json>,
    name: Seq<char>,
)
    requires
        target_name(target) == Some(name),
        forall|j: int| 0 <= j < accounts.len() ==> name_of(#[trigger] accounts[j]) != Some(name),
    ensures
        addressed_position(accounts, active, target) is None,
{
    lemma_position(accounts, name, 0);
}

/// A further login renews the account of its name: every value that it gives, an
/// empty text or a false flag too, replaces the one that was there, but for the
/// settings; what it leaves out or gives as null stays, and so does every other
/// account.
pub proof fn law_further_login_renews_its_account(
    before: Seq<Json>,
    after: Seq<Json>,
    login: Json,
    i: int,
)
    requires
        0 <= i < before.len(),
        name_of(login) is Some,
        name_of(before[i]) == name_of(login),
        forall|j: int| 0 <= j < i ==> name_of(#[trigger] before[j]) != name_of(login),
        login_stored(before, after, login),
    ensures
        after.len() == before.len(),
        forall|j: int| 0 <= j < before.len() && j != i ==> #[trigger] after[j] == before[j],
        forall|key: Seq<char>|
            #![trigger fields(after[i])[key]]
            #![trigger fields(after[i]).contains_key(key)]
            if key != "settings"@ && fields(login).contains_key(key) && fields(login)[key]
                != Json::Null {
                fields(after[i]).contains_key(key) && fields(after[i])[key] == fields(login)[key]
            } else {
                fields(after[i]).contains_key(key) == fields(before[i]).contains_key(key) && (
                fields(before[i]).contains_key(key) ==> fields(after[i])[key] == fields(
                    before[i],
                )[key])
            },
{
    let name = name_of(login)->0;
    lemma_position(before, name, 0);
    let found = position(before, name)->0;
    assert(found <= i);
    assert(name_of(before[found]) == Some(name));
    assert(found == i);
}

/// A first login is added behind the others with every value that it holds; its
/// settings are kept where they are an object, and are empty where not.
pub proof fn law_first_login_is_added(before: Seq<Json>, after: Seq<Json>, login: Json)
    requires
        name_of(login) is Some,
        forall|j: int| 0 <= j < before.len() ==> name_of(#[trigger] before[j]) != name_of(login),
        login_stored(before, after, login),
    ensures
        after.len() == before.len() + 1,
        forall|j: int| 0 <= j < before.len() ==> #[trigger] after[j] == before[j],
        forall|key: Seq<char>|
            #![trigger fields(after.last())[key]]
            #![trigger fields(after.last()).contains_key(key)]
            key != "settings"@ ==> fields(after.last()).contains_key(key) == fields(
                login,
            ).contains_key(key) && (fields(login).contains_key(key) ==> fields(after.last())[key]
                == fields(login)[key]),
        fields(after.last()).contains_key("settings"@),
        fields(after.last())["settings"@] is Object,
        fields(login).contains_key("settings"@) && fields(login)["settings"@] is Object ==> fields(
            fields(after.last())["settings"@],
        ) == fields(fields(login)["settings"@]),
        !fields(login).contains_key("settings"@) || !(fields(login)["settings"@] is Object)
            ==> fields(fields(after.last())["settings"@]) == Map::<Seq<char>, Json>::empty(),
{
    let name = name_of(login)->0;
    lemma_position(before, name, 0);
    assert forall|j: int| 0 <= j < before.len() implies #[trigger] after[j] == before[j] by {
        assert(after.drop_last()[j] == before[j]);
    }
    let added = fields(after.last());
    let given = fields(login);
    assert forall|key: Seq<char>|
        #![trigger added[key]]
        #![trigger added.contains_key(key)]
        key != "settings"@ implies added.contains_key(key) == given.contains_key(key) && (
    given.contains_key(key) ==> added[key] == given[key]) by {
        assert(added.remove("settings"@).contains_key(key) == added.contains_key(key));
        assert(given.remove("settings"@).contains_key(key) == given.contains_key(key));
        assert(added.remove("settings"@)[key] == given.remove("settings"@)[key]);
    }
}

/// The account whose place a configuration of an earlier version gives becomes the
/// active one; the first where that place has no account with a name, or where no
/// place is given.
pub proof fn law_active_account_is_migrated_by_its_place(
    accounts: Seq<Json>,
    index: Option<Json>,
    n: u64,
)
    requires
        n <= usize::MAX,
    ensures
        index == Some(Json::Number(JsonNumber::Unsigned(n))) && n < accounts.len() && name_of(
            accounts[n as int],
        ) is Some ==> migrated_active(accounts, index) == name_of(accounts[n as int]),
        index == Some(Json::Number(JsonNumber::Unsigned(n))) && (n >= accounts.len() || name_of(
            accounts[n as int],
        ) is None) && accounts.len() > 0 ==> migrated_active(accounts, index) == name_of(
            accounts[0],
        ),
        index is None && accounts.len() > 0 ==> migrated_active(accounts, index) == name_of(
            accounts[0],
        ),
        accounts.len() == 0 ==> migrated_active(accounts, index) is None,
{
}

/// Taking the accounts out of a configuration leaves every other key as it is.
pub proof fn law_other_configuration_is_kept(config: Map<Seq<char>, Json>, key: Seq<char>)
    ensures
        without_accounts(config).contains_key(key) == (config.contains_key(key) && key
            != "accounts"@ && key != "active_account_index"@),
        without_accounts(config).contains_key(key) ==> without_accounts(config)[key] == config[key],
{
}

/// The first account of a name is the one that is found.
pub proof fn law_first_account_of_a_name_is_found(accounts: Seq<Json>, name: Seq<char>, i: int)
    requires
        0 <= i < accounts.len(),
        name_of(accounts[i]) == Some(name),
        forall|j: int| 0 <= j < i ==> name_of(#[trigger] accounts[j]) != Some(name),
    ensures
        position(accounts, name) == Some(i),
{
    lemma_position(accounts, name, 0);
    let found = position(accounts, name)->0;
    assert(found <= i);
    assert(name_of(accounts[found]) == Some(name));
}

/// An update of the settings of an account that is there succeeds as soon as one
/// value is given, and writes each value as it was given; nothing is written where
/// none is.
pub proof fn law_update_writes_every_given_value(
    store: &mut AccountStore,
    request: Json,
    i: int,
    r: bool,
)
    requires
        call_ensures(update_account_settings, (store, request), r),
        addressed_position(
            old(store).accounts@,
            string_text(old(store).active_account),
            field(request, "target_account"@),
        ) == Some(i),
    ensures
        forall|source: Seq<char>, destination: Seq<char>|
            #![trigger fields(request)[source], settings_of(final(store).accounts@[i])[destination]]
            {
                ||| source == "bgm"@ && destination == "bgm_volume"@
                ||| source == "se"@ && destination == "se_volume"@
                ||| source == "se147Muted"@ && destination == "se147_muted"@
                ||| source == "report_faction_filter"@ && destination == "report_faction_filter"@
            } && fields(request).contains_key(source) && fields(request)[source] != Json::Null ==> {
                &&& r
                &&& settings_of(final(store).accounts@[i]).contains_key(destination)
                &&& settings_of(final(store).accounts@[i])[destination] == fields(request)[source]
            },
        r <==> exists|key: Seq<char>|
            {
                &&& key == "bgm"@ || key == "se"@ || key == "se147Muted"@ || key
                    == "report_faction_filter"@
                &&& #[trigger] fields(request).contains_key(key)
                &&& fields(request)[key] != Json::Null
            },
        !r ==> *final(store) == *old(store),
        final(store).active_account == old(store).active_account,
        final(store).accounts@.len() == old(store).accounts@.len(),
        forall|j: int|
            0 <= j < old(store).accounts@.len() && j != i ==> #[trigger] final(store).accounts@[j]
                == old(store).accounts@[j],
{
    let before = old(store).accounts@;
    let after = final(store).accounts@;
    law_request_gives_what_is_not_null(fields(request));
    lemma_addressed_is_stored(
        before,
        string_text(old(store).active_account),
        field(request, "target_account"@),
    );
    if r {
        law_given_values_are_written(before, after, i, request);
    }
    assert forall|source: Seq<char>, destination: Seq<char>|
        #![trigger fields(request)[source], settings_of(after[i])[destination]]
        {
            ||| source == "bgm"@ && destination == "bgm_volume"@
            ||| source == "se"@ && destination == "se_volume"@
            ||| source == "se147Muted"@ && destination == "se147_muted"@
            ||| source == "report_faction_filter"@ && destination == "report_faction_filter"@
        } && fields(request).contains_key(source) && fields(request)[source]
            != Json::Null implies r by {
        assert(gives(fields(request), source));
    }
}

proof fn lemma_addressed_is_stored(
    accounts: Seq<Json>,
    active: Option<Seq<char>>,
    target: Option<Json>,
)
    ensures
        addressed_position(accounts, active, target) matches Some(i) ==> 0 <= i < accounts.len(),
{
    if let Some(name) = addressed(accounts, active, target) {
        lemma_position(accounts, name, 0);
    }
}

/// What is written is read back: after an update, reading the same account gives the
/// flag, the volumes and the faction that the request gave, a flag that is off and an
/// empty faction too.
pub proof fn law_updated_settings_are_read_back(
    store: &mut AccountStore,
    request: Json,
    target: Option<&Json>,
    after: &AccountStore,
    settings: AccountSettings,
    volume: JsonNumber,
    flag: bool,
    faction: String,
)
    requires
        call_ensures(update_account_settings, (store, request), true),
        *after == *final(store),
        field(request, "target_account"@) == (match target {
            Some(value) => Some(*value),
            None => None,
        }),
        call_ensures(get_account_settings, (after, target), settings),
    ensures
        fields(request).contains_pair("bgm"@, Json::Number(volume)) ==> settings.bgm == Some(volume),
        fields(request).contains_pair("se"@, Json::Number(volume)) ==> settings.se == Some(volume),
        fields(request).contains_pair("se147Muted"@, Json::Bool(flag)) ==> settings.se147_muted
            == flag,
        fields(request).contains_pair("report_faction_filter"@, Json::Text(faction))
            ==> settings.report_faction_filter@ == faction@,
{
    let before = old(store).accounts@;
    let active = string_text(old(store).active_account);
    let chosen = field(request, "target_account"@);
    let i = addressed_position(before, active, chosen)->0;
    lemma_addressed_is_stored(before, active, chosen);
    let values = all_written(settings_of(before[i]), fields(request));
    law_replaced_settings_are_found(before, final(store).accounts@, active, chosen, i, values);
    law_given_values_are_written(before, final(store).accounts@, i, request);
    let now = settings_of(final(store).accounts@[i]);
    assert(fields(request)["bgm"@] == fields(request)["bgm"@] && now["bgm_volume"@]
        == now["bgm_volume"@]);
    assert(fields(request)["se"@] == fields(request)["se"@] && now["se_volume"@]
        == now["se_volume"@]);
    assert(fields(request)["se147Muted"@] == fields(request)["se147Muted"@] && now["se147_muted"@]
        == now["se147_muted"@]);
    assert(fields(request)["report_faction_filter"@] == fields(request)["report_faction_filter"@]
        && now["report_faction_filter"@] == now["report_faction_filter"@]);
    law_settings_are_read_as_they_stand(settings, now, volume, flag, faction);
}

/// Deleting an account takes out that one alone. Where it was the active one, the
/// account behind it becomes active, and the one before it where it was the last;
/// where another is deleted, the active one stays.
pub proof fn law_delete_moves_on_to_the_neighbour(
    store: &mut AccountStore,
    index: usize,
    k: int,
    r: bool,
)
    requires
        call_ensures(delete_account, (store, index), r),
        forall|j: int|
            0 <= j < old(store).accounts@.len() ==> name_of(
                #[trigger] old(store).accounts@[j],
            ) is Some,
        names_are_distinct(old(store).accounts@),
        0 <= k < old(store).accounts@.len(),
        string_text(old(store).active_account) == name_of(old(store).accounts@[k]),
    ensures
        r <==> index < old(store).accounts@.len(),
        !r ==> *final(store) == *old(store),
        r ==> final(store).accounts@ == old(store).accounts@.remove(index as int),
        r && k != index ==> string_text(final(store).active_account) == name_of(
            old(store).accounts@[k],
        ),
        r && k == index && k + 1 < old(store).accounts@.len() ==> string_text(
            final(store).active_account,
        ) == name_of(old(store).accounts@[k + 1]),
        r && k == index && k + 1 == old(store).accounts@.len() && k > 0 ==> string_text(
            final(store).active_account,
        ) == name_of(old(store).accounts@[k - 1]),
        r && old(store).accounts@.len() == 1 ==> final(store).active_account is None,
{
    let accounts = old(store).accounts@;
    if r {
        let i = index as int;
        law_deleting_active_account_moves_to_its_neighbour(accounts, i);
        if k != i {
            let rest = accounts.remove(i);
            let moved = if k < i {
                k
            } else {
                k - 1
            };
            assert(rest[moved] == accounts[k]);
            assert(name_of(accounts[k]) is Some && name_of(accounts[i]) is Some);
            assert(name_of(accounts[k]) != name_of(accounts[i]));
            lemma_position(rest, name_of(accounts[k])->0, 0);
        }
    }
}

/// A login with a name is stored and one without is refused; the first one becomes
/// the active account, and a later one does not take its place.
pub proof fn law_login_becomes_active_only_where_none_was(
    store: &mut AccountStore,
    data: Json,
    r: bool,
)
    requires
        call_ensures(add_account, (store, data), r),
    ensures
        r <==> name_of(data) is Some,
        !r ==> final(store).accounts@ == old(store).accounts@,
        r ==> exists|i: int|
            0 <= i < final(store).accounts@.len() && name_of(#[trigger] final(store).accounts@[i])
                == name_of(data),
        old(store).active_account is Some ==> string_text(final(store).active_account)
            == string_text(old(store).active_account),
        old(store).active_account is None ==> string_text(final(store).active_account) == name_of(
            data,
        ),
{
    if r {
        law_stored_login_is_found(old(store).accounts@, final(store).accounts@, data);
        let name = name_of(data)->0;
        lemma_position(final(store).accounts@, name, 0);
        let found = position(final(store).accounts@, name)->0;
        assert(name_of(final(store).accounts@[found]) == Some(name));
    }
}

/// Every account that has a name can be made the active one by its place, and is
/// then the one that is given; a place without such an account changes nothing.
pub proof fn law_chosen_account_is_given(
    store: &mut AccountStore,
    index: usize,
    r: bool,
    after: AccountStore,
    given: Option<Json>,
)
    requires
        call_ensures(set_active_account, (store, index), r),
        after == *final(store),
        call_ensures(get_active_account, (after,), given),
    ensures
        r <==> index < old(store).accounts@.len() && name_of(
            old(store).accounts@[index as int],
        ) is Some,
        final(store).accounts == old(store).accounts,
        r ==> string_text(final(store).active_account) == name_of(
            old(store).accounts@[index as int],
        ),
        !r ==> string_text(final(store).active_account) == string_text(old(store).active_account),
        r && names_are_distinct(old(store).accounts@) ==> given == Some(
            old(store).accounts@[index as int],
        ),
{
    let accounts = old(store).accounts@;
    if r {
        let name = name_of(accounts[index as int])->0;
        lemma_position(accounts, name, 0);
        let found = position(accounts, name)->0;
        assert(name_of(accounts[found]) == Some(name));
    }
}

/// A configuration that still holds accounts gives them all up, in their order, with
/// the active one by its place, and keeps everything else.
pub proof fn law_accounts_are_moved_out_of_the_configuration(
    config: Json,
    accounts: Vec<Json>,
    key: Seq<char>,
    r: Option<(AccountStore, Json)>,
)
    requires
        call_ensures(migrate_legacy_config, (config,), r),
    ensures
        fields(config).contains_pair("accounts"@, Json::Array(accounts)) ==> {
            &&& r is Some
            &&& (r->0).0.accounts == accounts
            &&& fields((r->0).1).contains_key(key) <==> fields(config).contains_key(key) && key
                != "accounts"@ && key != "active_account_index"@
            &&& fields((r->0).1).contains_key(key) ==> fields((r->0).1)[key] == fields(config)[key]
        },
        !fields(config).contains_key("accounts"@) || !(fields(config)["accounts"@] is Array) ==> r
            is None,
{
    law_other_configuration_is_kept(fields(config), key);
}

/// Stored accounts are always the ones that are loaded; those of an earlier version
/// only where no file of accounts is there, those of its database first.
pub proof fn law_stored_accounts_come_first(
    stored: StoreFile,
    legacy_database: Option<AccountStore>,
    legacy_file: Option<AccountStore>,
    config: Json,
    kept: AccountStore,
    r: LoadedStore,
)
    requires
        call_ensures(load_store, (stored, legacy_database, legacy_file, config), r),
    ensures
        stored == StoreFile::Holds(kept) ==> (r matches LoadedStore::Stored { store, .. } && store
            == kept),
        stored is Missing && legacy_database == Some(kept) ==> (
        r matches LoadedStore::Imported { store, .. } && store == kept),
        stored is Missing && legacy_database is None && legacy_file == Some(kept) ==> (
        r matches LoadedStore::Imported { store, .. } && store == kept),
        stored is Unreadable || stored is Missing && legacy_database is None && legacy_file is None
            ==> r is Migrated || r is Fresh,
        r matches LoadedStore::Fresh { store } ==> store.accounts@.len() == 0
            && store.active_account is None,
{
}

/// The name of an account is its text without the white space around it.
pub proof fn law_account_is_called_by_its_name(
    account: &Json,
    text: String,
    before: Seq<char>,
    name: Seq<char>,
    after: Seq<char>,
    r: Option<&str>,
)
    requires
        forall|i: int| 0 <= i < before.len() ==> white_space(#[trigger] before[i]),
        forall|i: int| 0 <= i < after.len() ==> white_space(#[trigger] after[i]),
        name.len() > 0 ==> !white_space(name[0]) && !white_space(name.last()),
        text@ == before + name + after,
        call_ensures(account_name, (account,), r),
    ensures
        fields(*account).contains_pair("account"@, Json::Text(text)) ==> if name.len() > 0 {
            r matches Some(found) && found@ == name
        } else {
            r is None
        },
        !fields(*account).contains_key("account"@) ==> r is None,
{
    law_account_name_is_trimmed(*account, before, name, after);
}

/// A request names its account under either key, the first before the second.
pub proof fn law_request_is_read_under_either_key(
    target: &Json,
    account: Json,
    r: Option<String>,
    none: Option<String>,
)
    requires
        call_ensures(target_account_name, (Some(target),), r),
        call_ensures(target_account_name, (None::<&Json>,), none),
    ensures
        fields(*target).contains_key("account"@) ==> string_text(r) == name_of(*target),
        !fields(*target).contains_key("account"@) && fields(*target).contains_key("accountName"@)
            && fields(account).contains_pair("account"@, fields(*target)["accountName"@])
            ==> string_text(r) == name_of(account),
        none is None,
{
    law_request_names_its_account(*target, account);
}

/// The active account is put right where it names none that is there, and only there;
/// whether that changed anything is told.
pub proof fn law_active_account_is_put_right(store: &mut AccountStore, k: int, r: bool)
    requires
        call_ensures(normalize_active_account, (store,), r),
        0 <= k < old(store).accounts@.len(),
        name_of(old(store).accounts@[k]) is Some,
    ensures
        final(store).accounts == old(store).accounts,
        string_text(old(store).active_account) == name_of(old(store).accounts@[k]) ==> !r
            && string_text(final(store).active_account) == name_of(old(store).accounts@[k]),
        old(store).active_account is None ==> r,
        old(store).active_account is None && (forall|j: int|
            0 <= j < k ==> name_of(#[trigger] old(store).accounts@[j]) is None) ==> string_text(
            final(store).active_account,
        ) == name_of(old(store).accounts@[k]),
{
    let accounts = old(store).accounts@;
    law_active_account_that_is_there_stays(accounts, k);
    if old(store).active_account is None {
        lemma_first_name(accounts, 0);
        if forall|j: int| 0 <= j < k ==> name_of(#[trigger] accounts[j]) is None {
            law_first_named_account_stands_in(accounts, None, k);
        }
    }
}

/// Purging takes the accounts and their active place out of a configuration, tells
/// whether there were any, and leaves everything else.
pub proof fn law_purged_configuration_keeps_the_rest(
    config: &mut Json,
    key: Seq<char>,
    r: bool,
)
    requires
        call_ensures(purge_legacy_config_accounts, (config,), r),
    ensures
        r <==> fields(*old(config)).contains_key("accounts"@) || fields(
            *old(config),
        ).contains_key("active_account_index"@),
        !fields(*final(config)).contains_key("accounts"@),
        !fields(*final(config)).contains_key("active_account_index"@),
        key != "accounts"@ && key != "active_account_index"@ ==> fields(
            *final(config),
        ).contains_key(key) == fields(*old(config)).contains_key(key),
        key != "accounts"@ && key != "active_account_index"@ && fields(
            *old(config),
        ).contains_key(key) ==> fields(*final(config))[key] == fields(*old(config))[key],
{
    law_other_configuration_is_kept(fields(*old(config)), key);
    law_other_configuration_is_kept(fields(*old(config)), "accounts"@);
    law_other_configuration_is_kept(fields(*old(config)), "active_account_index"@);
}

/// With the accounts that are loaded the configuration is cleaned exactly where it
/// still holds accounts or their active place, and keeps everything else.
pub proof fn law_configuration_is_cleaned_of_accounts(
    stored: StoreFile,
    legacy_database: Option<AccountStore>,
    legacy_file: Option<AccountStore>,
    config: Json,
    key: Seq<char>,
    r: LoadedStore,
)
    requires
        call_ensures(load_store, (stored, legacy_database, legacy_file, config), r),
        stored is Holds || stored is Missing && (legacy_database is Some || legacy_file is Some),
    ensures
        ({
            let cleaned = match r {
                LoadedStore::Stored { cleaned, .. } => cleaned,
                LoadedStore::Imported { cleaned, .. } => cleaned,
                _ => None,
            };
            &&& cleaned is Some <==> fields(config).contains_key("accounts"@) || fields(
                config,
            ).contains_key("active_account_index"@)
            &&& cleaned matches Some(rest) ==> (fields(rest).contains_key(key) <==> fields(
                config,
            ).contains_key(key) && key != "accounts"@ && key != "active_account_index"@)
            &&& cleaned matches Some(rest) ==> (fields(rest).contains_key(key) ==> fields(rest)[key]
                == fields(config)[key])
        }),
{
    law_other_configuration_is_kept(fields(config), key);
}

/// Where nothing is stored and nothing is imported, the accounts of the
/// configuration are taken over, and only where it holds a list of them.
pub proof fn law_configuration_gives_up_its_accounts(
    stored: StoreFile,
    config: Json,
    accounts: Vec<Json>,
    key: Seq<char>,
    r: LoadedStore,
)
    requires
        stored is Unreadable || stored is Missing,
        call_ensures(
            load_store,
            (stored, None::<AccountStore>, None::<AccountStore>, config),
            r,
        ),
    ensures
        fields(config).contains_pair("accounts"@, Json::Array(accounts)) ==> (
        r matches LoadedStore::Migrated { store, config: rest } && store.accounts == accounts && (
        fields(rest).contains_key(key) <==> fields(config).contains_key(key) && key != "accounts"@
            && key != "active_account_index"@)),
        !fields(config).contains_key("accounts"@) || !(fields(config)["accounts"@] is Array) ==> (
        r matches LoadedStore::Fresh { store } && store.accounts@.len() == 0
            && store.active_account is None),
{
    law_other_configuration_is_kept(fields(config), key);
}

} // verus!
