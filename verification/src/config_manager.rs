//! Where files are kept. A directory is a value of a type `P` that is handed
//! through and never looked into; what lies below it is named by segments.

use crate::json::{fields, Json, JsonObject};
use crate::path::Platform;
use crate::text::same_text;
use vstd::prelude::*;

verus! {

/// The file whose lock is held while an update runs.
pub const UPDATE_LOCK: &'static str = ".reversedfront-update.lock";

/// The directories that are fixed once the program has started.
pub struct BasePaths<P> {
    pub resource: Option<P>,
    pub user_data: Option<P>,
}

/// The directories that the process finds around it.
pub struct Environment<P> {
    /// The program is a development build.
    pub development: bool,
    /// The directory that the process works in.
    pub current_dir: P,
    /// The project's directory: the one that the process works in, or the one
    /// above where that is the source directory of the desktop shell.
    pub project_dir: P,
    /// The directory of the executable.
    pub executable_dir: P,
    /// The platform's directory for the data of this program.
    pub data_local_dir: Option<P>,
}

/// A place below a directory.
pub struct Location<'a, P> {
    pub base: &'a P,
    pub segments: Vec<&'static str>,
}

/// The texts of a row of segments.
pub open spec fn segment_texts(segments: Seq<&'static str>) -> Seq<Seq<char>> {
    segments.map_values(|segment: &'static str| segment@)
}

impl<'a, P> View for Location<'a, P> {
    type V = (P, Seq<Seq<char>>);

    open spec fn view(&self) -> (P, Seq<Seq<char>>) {
        (*self.base, segment_texts(self.segments@))
    }
}

fn below<'a, P>(location: Location<'a, P>, segment: &'static str) -> (r: Location<'a, P>)
    ensures
        r@ == (location@.0, location@.1.push(segment@)),
{
    let mut segments = location.segments;
    let ghost before = segments@;
    segments.push(segment);
    assert(segment_texts(segments@) =~= segment_texts(before).push(segment@));
    Location { base: location.base, segments }
}

fn at<P>(base: &P) -> (r: Location<'_, P>)
    ensures
        r@ == (*base, Seq::<Seq<char>>::empty()),
{
    let r = Location { base, segments: Vec::new() };
    assert(segment_texts(r.segments@) =~= Seq::<Seq<char>>::empty());
    r
}

/// Fixes the directory for accounts and downloaded resources; the first call
/// counts.
pub fn set_resource_base_path<P>(paths: &mut BasePaths<P>, path: P)
    ensures
        final(paths).user_data == old(paths).user_data,
        final(paths).resource == if old(paths).resource is Some {
            old(paths).resource
        } else {
            Some(path)
        },
{
    if paths.resource.is_none() {
        paths.resource = Some(path);
    }
}

/// Fixes the directory for the user's data; the first call counts.
pub fn set_user_data_base_path<P>(paths: &mut BasePaths<P>, path: P)
    ensures
        final(paths).resource == old(paths).resource,
        final(paths).user_data == if old(paths).user_data is Some {
            old(paths).user_data
        } else {
            Some(path)
        },
{
    if paths.user_data.is_none() {
        paths.user_data = Some(path);
    }
}

/// Where accounts and downloaded resources are kept.
pub open spec fn resource_base<P>(paths: BasePaths<P>, environment: Environment<P>) -> (
    P,
    Seq<Seq<char>>,
) {
    match paths.resource {
        Some(base) => (base, Seq::empty()),
        None => if environment.development {
            (environment.project_dir, seq!["web"@])
        } else {
            (environment.executable_dir, Seq::empty())
        },
    }
}

/// The writable directory that accounts and the game's resources share: the one
/// that was fixed, else the project's `web` in a development build and the
/// executable's in a released one.
pub fn get_resource_base_dir<'a, P>(
    paths: &'a BasePaths<P>,
    environment: &'a Environment<P>,
) -> (r: Location<'a, P>)
    ensures
        r@ == resource_base(*paths, *environment),
{
    match &paths.resource {
        Some(base) => at(base),
        None => {
            if environment.development {
                let r = below(at(&environment.project_dir), "web");
                assert(r@.1 =~= seq!["web"@]);
                r
            } else {
                at(&environment.executable_dir)
            }
        },
    }
}

/// The root that settings and Mod data are kept under.
pub open spec fn config_root<P>(paths: BasePaths<P>, environment: Environment<P>) -> (
    P,
    Seq<Seq<char>>,
) {
    if environment.development {
        (environment.project_dir, seq!["web"@])
    } else if paths.user_data is Some {
        (paths.user_data->0, Seq::empty())
    } else if paths.resource is Some {
        (paths.resource->0, Seq::empty())
    } else {
        (environment.executable_dir, Seq::empty())
    }
}

/// Where each kind of data is kept.
pub open spec fn hidden_config_dir<P>(
    paths: BasePaths<P>,
    environment: Environment<P>,
    target: Seq<char>,
) -> (P, Seq<Seq<char>>) {
    if target == "passionfruit"@ {
        (
            resource_base(paths, environment).0,
            resource_base(paths, environment).1.push("passionfruit"@),
        )
    } else if target == "root"@ {
        config_root(paths, environment)
    } else {
        (
            config_root(paths, environment).0,
            config_root(paths, environment).1.push("mod"@).push("data"@),
        )
    }
}

fn get_config_root<'a, P>(paths: &'a BasePaths<P>, environment: &'a Environment<P>) -> (r: Location<
    'a,
    P,
>)
    ensures
        r@ == config_root(*paths, *environment),
{
    if environment.development {
        let r = below(at(&environment.project_dir), "web");
        assert(r@.1 =~= seq!["web"@]);
        return r;
    }
    match (&paths.user_data, &paths.resource) {
        (Some(base), _) => at(base),
        (None, Some(base)) => at(base),
        (None, None) => at(&environment.executable_dir),
    }
}

/// The directory of one kind of data: the game's resources, the root, or the
/// settings and Mod data.
pub fn get_hidden_config_dir<'a, P>(
    paths: &'a BasePaths<P>,
    environment: &'a Environment<P>,
    target: &str,
) -> (r: Location<'a, P>)
    ensures
        r@ == hidden_config_dir(*paths, *environment, target@),
{
    if same_text(target, "passionfruit") {
        below(get_resource_base_dir(paths, environment), "passionfruit")
    } else if same_text(target, "root") {
        get_config_root(paths, environment)
    } else {
        below(below(get_config_root(paths, environment), "mod"), "data")
    }
}

/// The directory of the user's data.
pub open spec fn user_data_base<P>(paths: BasePaths<P>, environment: Environment<P>) -> P {
    if paths.user_data is Some {
        paths.user_data->0
    } else if environment.data_local_dir is Some {
        environment.data_local_dir->0
    } else {
        environment.current_dir
    }
}

/// The directory of the user's data: the one that was fixed, else the
/// platform's, else the one that the process works in.
pub fn get_user_data_base_dir<'a, P>(
    paths: &'a BasePaths<P>,
    environment: &'a Environment<P>,
) -> (r: Location<'a, P>)
    ensures
        r@ == (user_data_base(*paths, *environment), Seq::<Seq<char>>::empty()),
{
    match (&paths.user_data, &environment.data_local_dir) {
        (Some(base), _) => at(base),
        (None, Some(base)) => at(base),
        (None, None) => at(&environment.current_dir),
    }
}

/// The file of the configuration.
pub fn get_config_file<'a, P>(paths: &'a BasePaths<P>, environment: &'a Environment<P>) -> (r:
    Location<'a, P>)
    ensures
        r@.0 == config_root(*paths, *environment).0,
        r@.1 == config_root(*paths, *environment).1.push("mod"@).push("data"@).push(
            "config.json"@,
        ),
{
    proof {
        reveal_strlit("data");
        reveal_strlit("passionfruit");
        reveal_strlit("root");
        assert("data"@.len() != "passionfruit"@.len());
        assert("data"@[0] != "root"@[0]);
    }
    below(get_hidden_config_dir(paths, environment, "data"), "config.json")
}

/// The file of the accounts.
pub fn get_account_store_file<'a, P>(paths: &'a BasePaths<P>, environment: &'a Environment<P>) -> (r:
    Location<'a, P>)
    ensures
        r@.0 == resource_base(*paths, *environment).0,
        r@.1 == resource_base(*paths, *environment).1.push("accounts.db"@),
{
    below(get_resource_base_dir(paths, environment), "accounts.db")
}

/// The file that accounts were once kept in as JSON.
pub fn get_legacy_account_store_file<'a, P>(
    paths: &'a BasePaths<P>,
    environment: &'a Environment<P>,
) -> (r: Location<'a, P>)
    ensures
        r@ == (user_data_base(*paths, *environment), seq!["accounts.json"@]),
{
    let r = below(get_user_data_base_dir(paths, environment), "accounts.json");
    assert(r@.1 =~= seq!["accounts.json"@]);
    r
}

/// The file that accounts were once kept in among the user's data.
pub fn get_legacy_account_db_file<'a, P>(
    paths: &'a BasePaths<P>,
    environment: &'a Environment<P>,
) -> (r: Location<'a, P>)
    ensures
        r@ == (user_data_base(*paths, *environment), seq!["accounts.db"@]),
{
    let r = below(get_user_data_base_dir(paths, environment), "accounts.db");
    assert(r@.1 =~= seq!["accounts.db"@]);
    r
}

/// The file that is locked while an update runs.
pub fn update_lock_path<P>(app_data_dir: &P) -> (r: Location<'_, P>)
    ensures
        r@ == (*app_data_dir, seq![UPDATE_LOCK@]),
{
    let r = below(at(app_data_dir), UPDATE_LOCK);
    assert(r@.1 =~= seq![UPDATE_LOCK@]);
    r
}

/// The root of the web files: the project's in a development build, else the
/// directory that the program was installed with; none where that is not known.
pub open spec fn web_root_of<P>(development: bool, project_dir: P, resource_dir: Option<P>) -> Option<
    (P, Seq<Seq<char>>),
> {
    if development {
        Some((project_dir, seq!["web"@]))
    } else {
        match resource_dir {
            Some(dir) => Some((dir, Seq::empty())),
            None => None,
        }
    }
}

/// The root of the web files.
pub fn web_root<'a, P>(development: bool, project_dir: &'a P, resource_dir: Option<&'a P>) -> (r:
    Option<Location<'a, P>>)
    ensures
        match r {
            Some(location) => web_root_of(
                development,
                *project_dir,
                match resource_dir {
                    Some(dir) => Some(*dir),
                    None => None,
                },
            ) == Some(location@),
            None => !development && resource_dir is None,
        },
{
    if development {
        let location = below(at(project_dir), "web");
        assert(location@.1 =~= seq!["web"@]);
        return Some(location);
    }
    match resource_dir {
        Some(dir) => Some(at(dir)),
        None => None,
    }
}

/// The root of the updated Mod files, which lie with the web files.
pub fn mod_update_root<'a, P>(
    development: bool,
    project_dir: &'a P,
    resource_dir: Option<&'a P>,
) -> (r: Result<Location<'a, P>, String>)
    ensures
        match web_root_of(
            development,
            *project_dir,
            match resource_dir {
                Some(dir) => Some(*dir),
                None => None,
            },
        ) {
            Some(root) => r matches Ok(location) && location@ == (root.0, root.1.push("mod"@)),
            None => r matches Err(e) && e@ == "無法取得應用程式安裝資源目錄"@,
        },
{
    match web_root(development, project_dir, resource_dir) {
        Some(root) => Ok(below(root, "mod")),
        None => Err("無法取得應用程式安裝資源目錄".to_owned()),
    }
}

/// What was found of a configuration file.
pub enum ConfigFile {
    /// There is no such file.
    Missing,
    /// It cannot be read, or what it holds is no JSON.
    Unreadable,
    /// It holds this value.
    Holds(Json),
}

/// The configuration, and whether it is to be copied to where it belongs: the
/// one in its place, else, where there is none, the one in the project's root;
/// an empty object where that leads nowhere.
pub fn load_config(stored: ConfigFile, root: ConfigFile) -> (r: (Json, bool))
    ensures
        match (stored, root) {
            (ConfigFile::Holds(value), _) => r == (value, false),
            (ConfigFile::Missing, ConfigFile::Holds(value)) => r == (value, true),
            _ => !r.1 && (r.0 matches Json::Object(object) && object@ == Map::<
                Seq<char>,
                Json,
            >::empty()),
        },
{
    match stored {
        ConfigFile::Holds(value) => (value, false),
        ConfigFile::Unreadable => (Json::Object(JsonObject::new()), false),
        ConfigFile::Missing => match root {
            ConfigFile::Holds(value) => (value, true),
            _ => (Json::Object(JsonObject::new()), false),
        },
    }
}

/// Where accounts and resources are kept while the program runs. `executable` is
/// the directory of the executable, where it is known, with whether the program
/// can write there.
pub open spec fn storage_root<P>(
    development: bool,
    platform: Platform,
    web_root: P,
    executable: Option<(P, bool)>,
    app_data_dir: P,
) -> (P, Seq<Seq<char>>) {
    if development {
        (web_root, Seq::empty())
    } else {
        match executable {
            Some((directory, writable)) => if platform == Platform::Windows && writable {
                (directory, Seq::empty())
            } else {
                (app_data_dir, seq!["runtime"@])
            },
            None => (app_data_dir, seq!["runtime"@]),
        }
    }
}

/// Chooses where accounts and resources are kept: with the web files in a
/// development build, beside a portable Windows program that can write there,
/// and in a directory of their own among the application data otherwise.
pub fn runtime_storage_root<'a, P>(
    development: bool,
    platform: Platform,
    web_root: &'a P,
    executable: Option<(&'a P, bool)>,
    app_data_dir: &'a P,
) -> (r: Location<'a, P>)
    ensures
        r@ == storage_root(
            development,
            platform,
            *web_root,
            match executable {
                Some(known) => Some((*known.0, known.1)),
                None => None,
            },
            *app_data_dir,
        ),
{
    if development {
        return at(web_root);
    }
    match (platform, executable) {
        (Platform::Windows, Some((directory, true))) => at(directory),
        _ => {
            let r = below(at(app_data_dir), "runtime");
            assert(r@.1 =~= seq!["runtime"@]);
            r
        },
    }
}

/// Once both directories are fixed, a released program keeps accounts and
/// resources in the first and the user's data and settings in the second,
/// whatever the process finds around it.
pub proof fn law_fixed_directories_decide<P>(
    paths: BasePaths<P>,
    environment: Environment<P>,
    resource: P,
    user_data: P,
)
    requires
        paths.resource == Some(resource),
        paths.user_data == Some(user_data),
        !environment.development,
    ensures
        resource_base(paths, environment) == (resource, Seq::<Seq<char>>::empty()),
        config_root(paths, environment) == (user_data, Seq::<Seq<char>>::empty()),
        user_data_base(paths, environment) == user_data,
{
}

/// A program under development keeps everything in the project, whatever the
/// process finds around it, but for resources whose directory is fixed.
pub proof fn law_development_stays_in_the_project<P>(
    paths: BasePaths<P>,
    environment: Environment<P>,
    platform: Platform,
    web_root: P,
    executable: Option<(P, bool)>,
    app_data_dir: P,
)
    requires
        environment.development,
    ensures
        config_root(paths, environment) == (environment.project_dir, seq!["web"@]),
        paths.resource is None ==> resource_base(paths, environment) == (
            environment.project_dir,
            seq!["web"@],
        ),
        web_root_of(true, environment.project_dir, paths.resource) == Some(
            (environment.project_dir, seq!["web"@]),
        ),
        storage_root(true, platform, web_root, executable, app_data_dir) == (
            web_root,
            Seq::<Seq<char>>::empty(),
        ),
{
}

/// A fixed directory of the resources is always used for them.
pub proof fn law_fixed_resource_directory_is_used<P>(
    paths: BasePaths<P>,
    environment: Environment<P>,
    resource: P,
)
    requires
        paths.resource == Some(resource),
    ensures
        resource_base(paths, environment) == (resource, Seq::<Seq<char>>::empty()),
        web_root_of(false, environment.project_dir, paths.resource) == Some(
            (resource, Seq::<Seq<char>>::empty()),
        ),
        !environment.development && paths.user_data is None ==> config_root(paths, environment) == (
            resource,
            Seq::<Seq<char>>::empty(),
        ),
{
}

/// A released program without fixed directories keeps resources and settings beside
/// itself, and the user's data where the system keeps such data, else where it runs.
pub proof fn law_released_program_stands_on_its_own<P>(
    paths: BasePaths<P>,
    environment: Environment<P>,
    dir: P,
)
    requires
        paths.resource is None,
        paths.user_data is None,
        !environment.development,
    ensures
        resource_base(paths, environment) == (
            environment.executable_dir,
            Seq::<Seq<char>>::empty(),
        ),
        config_root(paths, environment) == (environment.executable_dir, Seq::<Seq<char>>::empty()),
        environment.data_local_dir == Some(dir) ==> user_data_base(paths, environment) == dir,
        environment.data_local_dir is None ==> user_data_base(paths, environment)
            == environment.current_dir,
        web_root_of(false, environment.project_dir, None) is None,
{
}

/// The game's resources lie in a directory of their own below the resources; the
/// root of the settings is where they are kept; everything else lies with the Mod's
/// data below that root.
pub proof fn law_every_kind_of_data_has_its_directory<P>(
    paths: BasePaths<P>,
    environment: Environment<P>,
    target: Seq<char>,
)
    ensures
        hidden_config_dir(paths, environment, "passionfruit"@) == (
            resource_base(paths, environment).0,
            resource_base(paths, environment).1 + seq!["passionfruit"@],
        ),
        hidden_config_dir(paths, environment, "root"@) == config_root(paths, environment),
        target != "passionfruit"@ && target != "root"@ ==> hidden_config_dir(
            paths,
            environment,
            target,
        ) == (
            config_root(paths, environment).0,
            config_root(paths, environment).1 + seq!["mod"@, "data"@],
        ),
{
    reveal_strlit("root");
    reveal_strlit("passionfruit");
    assert("root"@.len() < "passionfruit"@.len());
    let base = resource_base(paths, environment).1;
    let root = config_root(paths, environment).1;
    assert(base.push("passionfruit"@) =~= base + seq!["passionfruit"@]);
    assert(root.push("mod"@).push("data"@) =~= root + seq!["mod"@, "data"@]);
}

/// A released program updates itself in place only on Windows and only where its
/// own directory can be written; else below the application's data.
pub proof fn law_storage_is_beside_the_program_only_where_it_can_be<P>(
    platform: Platform,
    web_root: P,
    directory: P,
    writable: bool,
    app_data_dir: P,
)
    ensures
        platform == Platform::Windows && writable ==> storage_root(
            false,
            platform,
            web_root,
            Some((directory, writable)),
            app_data_dir,
        ) == (directory, Seq::<Seq<char>>::empty()),
        platform != Platform::Windows || !writable ==> storage_root(
            false,
            platform,
            web_root,
            Some((directory, writable)),
            app_data_dir,
        ) == (app_data_dir, seq!["runtime"@]),
        storage_root(false, platform, web_root, None::<(P, bool)>, app_data_dir) == (
            app_data_dir,
            seq!["runtime"@],
        ),
{
}

/// A directory that is fixed once stays fixed, and fixing one leaves the other.
pub proof fn law_directories_are_fixed_once<P>(paths: &mut BasePaths<P>, path: P)
    ensures
        call_ensures(set_resource_base_path::<P>, (paths, path), ()) ==> final(paths).user_data
            == old(paths).user_data && final(paths).resource is Some && (old(paths).resource is Some
            ==> final(paths).resource == old(paths).resource) && (old(paths).resource is None
            ==> final(paths).resource == Some(path)),
        call_ensures(set_user_data_base_path::<P>, (paths, path), ()) ==> final(paths).resource
            == old(paths).resource && final(paths).user_data is Some && (old(paths).user_data is Some
            ==> final(paths).user_data == old(paths).user_data) && (old(paths).user_data is None
            ==> final(paths).user_data == Some(path)),
{
}

/// A configuration that is stored is the one that is loaded; only where none is, the
/// one at the root is taken over; else it is empty.
pub proof fn law_stored_configuration_comes_first(
    value: Json,
    root: ConfigFile,
    r: (Json, bool),
)
    ensures
        call_ensures(load_config, (ConfigFile::Holds(value), root), r) ==> r == (value, false),
        call_ensures(load_config, (ConfigFile::Missing, ConfigFile::Holds(value)), r) ==> r == (
            value,
            true,
        ),
        call_ensures(load_config, (ConfigFile::Missing, ConfigFile::Missing), r) ==> !r.1 && r.0
            is Object && fields(r.0) == Map::<Seq<char>, Json>::empty(),
{
}

/// The files of the accounts and of the configuration have fixed names below their
/// directories.
pub proof fn law_files_have_fixed_names<'a, P>(
    paths: &'a BasePaths<P>,
    environment: &'a Environment<P>,
    r: Location<'a, P>,
)
    ensures
        call_ensures(get_config_file::<P>, (paths, environment), r) ==> r@ == (
            hidden_config_dir(*paths, *environment, "data"@).0,
            hidden_config_dir(*paths, *environment, "data"@).1.push("config.json"@),
        ),
        call_ensures(get_account_store_file::<P>, (paths, environment), r) ==> r@ == (
            resource_base(*paths, *environment).0,
            resource_base(*paths, *environment).1.push("accounts.db"@),
        ),
        call_ensures(get_legacy_account_store_file::<P>, (paths, environment), r) ==> r@ == (
            user_data_base(*paths, *environment),
            seq!["accounts.json"@],
        ),
        call_ensures(get_legacy_account_db_file::<P>, (paths, environment), r) ==> r@ == (
            user_data_base(*paths, *environment),
            seq!["accounts.db"@],
        ),
{
    reveal_strlit("data");
    reveal_strlit("root");
    reveal_strlit("passionfruit");
    assert("data"@[0] == 'd' && "root"@[0] == 'r' && "passionfruit"@[0] == 'p');
}

/// The directories that are handed out are those of the released program's fixed
/// paths.
pub proof fn law_fixed_directories_are_handed_out<'a, P>(
    paths: &'a BasePaths<P>,
    environment: &'a Environment<P>,
    target: &str,
    resource: P,
    user_data: P,
    base: Location<'a, P>,
    hidden: Location<'a, P>,
    user: Location<'a, P>,
)
    requires
        paths.resource == Some(resource),
        paths.user_data == Some(user_data),
        !environment.development,
        call_ensures(get_resource_base_dir::<P>, (paths, environment), base),
        call_ensures(get_hidden_config_dir::<P>, (paths, environment, target), hidden),
        call_ensures(get_user_data_base_dir::<P>, (paths, environment), user),
    ensures
        base@ == (resource, Seq::<Seq<char>>::empty()),
        user@ == (user_data, Seq::<Seq<char>>::empty()),
        target@ == "passionfruit"@ ==> hidden@ == (resource, seq!["passionfruit"@]),
        target@ == "root"@ ==> hidden@ == (user_data, Seq::<Seq<char>>::empty()),
        target@ != "passionfruit"@ && target@ != "root"@ ==> hidden@ == (
            user_data,
            seq!["mod"@, "data"@],
        ),
{
    law_fixed_directories_decide(*paths, *environment, resource, user_data);
    law_every_kind_of_data_has_its_directory(*paths, *environment, target@);
    let none = Seq::<Seq<char>>::empty();
    assert(none + seq!["passionfruit"@] =~= seq!["passionfruit"@]);
    assert(none + seq!["mod"@, "data"@] =~= seq!["mod"@, "data"@]);
}

/// The update lock lies at the top of the application's data.
pub proof fn law_update_lock_lies_in_the_application_data<P>(app_data_dir: &P, r: Location<'_, P>)
    requires
        call_ensures(update_lock_path::<P>, (app_data_dir,), r),
    ensures
        r@ == (*app_data_dir, seq![".reversedfront-update.lock"@]),
{
}

/// The page is the project's own under development and the installed one otherwise;
/// the Mod lies below it, and without it there is none.
pub proof fn law_mod_lies_below_the_page<'a, P>(
    development: bool,
    project_dir: &'a P,
    resource_dir: Option<&'a P>,
    page: Option<Location<'a, P>>,
    r: Result<Location<'a, P>, String>,
)
    requires
        call_ensures(web_root::<P>, (development, project_dir, resource_dir), page),
        call_ensures(mod_update_root::<P>, (development, project_dir, resource_dir), r),
    ensures
        development ==> (page matches Some(location) && location@ == (*project_dir, seq!["web"@])),
        !development ==> (resource_dir matches Some(dir) ==> (page matches Some(location)
            && location@ == (*dir, Seq::<Seq<char>>::empty()))),
        !development && resource_dir is None ==> page is None,
        r is Ok <==> page is Some,
        r matches Ok(location) ==> location@ == (page->0@.0, page->0@.1 + seq!["mod"@]),
{
    if page is Some {
        let below = page->0@.1;
        assert(below.push("mod"@) =~= below + seq!["mod"@]);
    }
}

/// Updates are kept beside the program only on Windows and only where that can be
/// written.
pub proof fn law_runtime_storage_follows_the_platform<'a, P>(
    platform: Platform,
    web_root: &'a P,
    directory: &'a P,
    writable: bool,
    app_data_dir: &'a P,
    r: Location<'a, P>,
)
    requires
        call_ensures(
            runtime_storage_root::<P>,
            (false, platform, web_root, Some((directory, writable)), app_data_dir),
            r,
        ),
    ensures
        r@ == if platform == Platform::Windows && writable {
            (*directory, Seq::<Seq<char>>::empty())
        } else {
            (*app_data_dir, seq!["runtime"@])
        },
{
}

} // verus!
