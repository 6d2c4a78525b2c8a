//! The game's resources: which file a request means, whether it is here
//! already, and how a missing one is fetched once and kept.

use crate::config_manager::{BasePaths, Environment, Location};
use crate::outside::{cpu_count, to_lowercase, unicode_lowercase};
use crate::path::{
    climbs, law_parent_directory_climbs, law_path_without_two_dots_does_not_climb,
    leaves_directory, rooted_on_drive, Platform,
};
use crate::text::{
    before_first, cut_before, decimal, decimal_text, first_from, joined, lemma_decimal_pair,
    lemma_first_from, lemma_first_is, replace_char, replaced, same_text, string_text, strip_prefix,
    stripped, trim_leading, without_leading,
};
use vstd::hash_set::StringHashSet;
use vstd::prelude::*;

verus! {

/// The server that resources are fetched from.
pub const SERVER_BASE_URL: &'static str = "https://media.komisureiya.com/";

/// How often a request looks for a file that another request is fetching.
pub const WAIT_ROUNDS: u32 = 600;

/// How long it waits between two looks, in milliseconds.
pub const WAIT_MILLISECONDS: u64 = 50;

/// What is told of the downloads.
#[derive(Clone, Copy, Debug, PartialEq, Eq, Structural)]
pub struct DownloadStatus {
    pub queue_length: usize,
    pub is_downloading: bool,
    pub active_downloads: usize,
    pub max_workers: usize,
    pub downloaded_count: usize,
}

/// A resource that is served: its bytes, the key that it is known by and the
/// file that it was read from.
pub struct ResourceResponse<P> {
    pub data: Vec<u8>,
    pub local_path: String,
    pub abs_path: P,
}

/// Which resources are here and which are being fetched.
pub struct ResourceManager {
    downloaded: StringHashSet,
    inflight: StringHashSet,
    active_downloads: usize,
    downloaded_count: usize,
    max_workers: usize,
}

/// The state of a resource manager.
pub struct Resources {
    /// The keys of the resources that are known to be here.
    pub downloaded: Set<Seq<char>>,
    /// The keys of the resources that are being fetched.
    pub inflight: Set<Seq<char>>,
    /// The number of requests that hold a permit.
    pub active: nat,
    /// The number of resources that were fetched.
    pub count: nat,
    /// The number of permits.
    pub workers: nat,
}

impl View for ResourceManager {
    type V = Resources;

    closed spec fn view(&self) -> Resources {
        Resources {
            downloaded: self.downloaded@,
            inflight: self.inflight@,
            active: self.active_downloads as nat,
            count: self.downloaded_count as nat,
            workers: self.max_workers as nat,
        }
    }
}

impl Resources {
    /// No more requests hold a permit than there are permits.
    pub open spec fn wf(self) -> bool {
        self.active <= self.workers && 4 <= self.workers <= 32
    }

    /// A request for this key holds a permit now, and the key is being fetched.
    pub open spec fn begun(self, key: Seq<char>) -> Resources {
        Resources { active: self.active + 1, inflight: self.inflight.insert(key), ..self }
    }

    /// A request for this key is over; where it was the one that fetched it, the
    /// key is not being fetched any more.
    pub open spec fn finished(self, key: Seq<char>, downloader: bool) -> Resources {
        Resources {
            active: if self.active > 0 {
                (self.active - 1) as nat
            } else {
                0
            },
            inflight: if downloader {
                self.inflight.remove(key)
            } else {
                self.inflight
            },
            ..self
        }
    }

    /// The resource of this key is known to be here.
    pub open spec fn found(self, key: Seq<char>) -> Resources {
        Resources { downloaded: self.downloaded.insert(key), ..self }
    }

    /// The resource of this key was fetched and is here.
    pub open spec fn fetched(self, key: Seq<char>) -> Resources {
        Resources {
            downloaded: self.downloaded.insert(key),
            count: self.count + 1,
            ..self
        }
    }
}

/// The number of workers on a machine with this number of CPUs.
pub open spec fn worker_count(cpus: nat) -> nat {
    if 2 * cpus < 4 {
        4
    } else if 2 * cpus > 32 {
        32
    } else {
        2 * cpus
    }
}

/// What a request means: the key of a resource, and its path below the
/// directory of the resources, written as the platform writes paths.
pub struct LocalPath {
    pub key: String,
    pub relative: String,
}

/// The key that a requested path means, where it stays inside the directory of
/// the resources: without its query, without a leading `assets/` and without
/// leading slashes.
pub open spec fn resource_key(platform: Platform, path: Seq<char>) -> Option<Seq<char>> {
    let clean = before_first(replaced(path, '\\', '/'), '?');
    let local = match stripped(clean, "assets/"@) {
        Some(rest) => rest,
        None => clean,
    };
    let key = without_leading(local, '/');
    if rooted_on_drive(platform, key) || climbs(platform, key) {
        None
    } else {
        Some(key)
    }
}

/// A key as the platform writes paths.
pub open spec fn native(platform: Platform, key: Seq<char>) -> Seq<char> {
    if platform == Platform::Windows {
        replaced(key, '/', '\\')
    } else {
        key
    }
}

/// Finds out what a requested path means; a path that leaves the directory of
/// the resources means nothing.
pub fn normalize_path(platform: Platform, resource_path: &str) -> (r: Option<LocalPath>)
    ensures
        match r {
            Some(local) => resource_key(platform, resource_path@) == Some(local.key@)
                && local.relative@ == native(platform, local.key@),
            None => resource_key(platform, resource_path@) is None,
        },
{
    let path = replace_char(resource_path, '\\', '/');
    let clean = cut_before(&path, '?');
    let local = match strip_prefix(clean, "assets/") {
        Some(rest) => rest,
        None => clean,
    };
    let key = trim_leading(local, '/');
    if leaves_directory(platform, key) {
        return None;
    }
    let relative = if platform == Platform::Windows {
        replace_char(key, '/', '\\')
    } else {
        key.to_owned()
    };
    Some(LocalPath { key: key.to_owned(), relative })
}

/// What to do for a request.
pub enum Lookup {
    /// Nothing is served.
    Rejected,
    /// The resource is known to be at its path.
    Known(LocalPath),
    /// The resource may be at its path, or at one that differs in case.
    Search(LocalPath),
}

/// Where a resource was read from.
#[derive(Clone, Copy, Debug, PartialEq, Eq, Structural)]
pub enum Source {
    /// From the path that it is known to be at.
    Known,
    /// From the file that a search found.
    Found,
    /// From the server.
    Fetched,
}

impl ResourceManager {
    /// Without any resource, and with as many workers as the machine's CPUs call
    /// for.
    pub fn new() -> (r: ResourceManager)
        ensures
            exists|cpus: nat| cpus >= 1 && r@.workers == #[trigger] worker_count(cpus),
            r@.wf(),
            r@.downloaded == Set::<Seq<char>>::empty(),
            r@.inflight == Set::<Seq<char>>::empty(),
            r@.active == 0,
            r@.count == 0,
    {
        let cpus = cpu_count();
        let r = ResourceManager::with_cpu_count(cpus);
        assert(r@.workers == worker_count(cpus as nat));
        r
    }

    /// Without any resource, with the workers for this number of CPUs.
    pub fn with_cpu_count(cpus: usize) -> (r: ResourceManager)
        ensures
            r@.workers == worker_count(cpus as nat),
            r@.wf(),
            r@.downloaded == Set::<Seq<char>>::empty(),
            r@.inflight == Set::<Seq<char>>::empty(),
            r@.active == 0,
            r@.count == 0,
    {
        let max_workers: usize = if cpus < 2 {
            4
        } else if cpus > 16 {
            32
        } else {
            cpus * 2
        };
        ResourceManager {
            downloaded: StringHashSet::new(),
            inflight: StringHashSet::new(),
            active_downloads: 0,
            downloaded_count: 0,
            max_workers,
        }
    }

    /// The number of requests that may hold a permit at a time.
    pub fn max_workers(&self) -> (r: usize)
        ensures
            r == self@.workers,
    {
        self.max_workers
    }

    /// Looks up what a request means and whether the resource is known to be
    /// here.
    pub fn exists_local(&self, platform: Platform, resource_path: &str) -> (r: Lookup)
        ensures
            match r {
                Lookup::Rejected => resource_key(platform, resource_path@) is None,
                Lookup::Known(local) => resource_key(platform, resource_path@) == Some(local.key@)
                    && local.relative@ == native(platform, local.key@)
                    && self@.downloaded.contains(local.key@),
                Lookup::Search(local) => resource_key(platform, resource_path@) == Some(local.key@)
                    && local.relative@ == native(platform, local.key@)
                    && !self@.downloaded.contains(local.key@),
            },
    {
        match normalize_path(platform, resource_path) {
            Some(local) => {
                if self.downloaded.contains(&local.key) {
                    Lookup::Known(local)
                } else {
                    Lookup::Search(local)
                }
            },
            None => Lookup::Rejected,
        }
    }

    /// Notes that the resource of this key is here.
    pub fn note_found(&mut self, key: String)
        ensures
            final(self)@ == old(self)@.found(key@),
    {
        let _ = self.downloaded.insert(key);
    }

    /// Begins a request that holds a permit; tells whether it is the one that
    /// fetches the resource.
    pub fn begin_fetch(&mut self, key: &str) -> (r: bool)
        requires
            old(self)@.wf(),
            old(self)@.active < old(self)@.workers,
        ensures
            final(self)@ == old(self)@.begun(key@),
            final(self)@.wf(),
            r == !old(self)@.inflight.contains(key@),
    {
        self.active_downloads = self.active_downloads + 1;
        self.inflight.insert(key.to_owned())
    }

    /// Ends a request that `begin_fetch` began.
    pub fn finish_fetch(&mut self, key: &str, downloader: bool)
        requires
            old(self)@.wf(),
        ensures
            final(self)@ == old(self)@.finished(key@, downloader),
            final(self)@.wf(),
    {
        if downloader {
            let _ = self.inflight.remove(key);
        }
        if self.active_downloads > 0 {
            self.active_downloads = self.active_downloads - 1;
        }
    }

    /// Notes that the resource of this key was fetched and is here.
    pub fn note_fetched(&mut self, key: String)
        requires
            old(self)@.count < usize::MAX,
        ensures
            final(self)@ == old(self)@.fetched(key@),
    {
        let _ = self.downloaded.insert(key);
        self.downloaded_count = self.downloaded_count + 1;
    }

    /// What is told of the downloads now.
    pub fn get_status(&self) -> (r: DownloadStatus)
        ensures
            r.queue_length == self@.inflight.len(),
            r.is_downloading == (!self@.inflight.is_empty() || self@.active > 0),
            r.active_downloads == self@.active,
            r.max_workers == self@.workers,
            r.downloaded_count == self@.count,
    {
        DownloadStatus {
            queue_length: self.inflight.len(),
            is_downloading: !self.inflight.is_empty() || self.active_downloads > 0,
            active_downloads: self.active_downloads,
            max_workers: self.max_workers,
            downloaded_count: self.downloaded_count,
        }
    }

    /// Serves a resource that was read, from where it was known to be, was found
    /// or was fetched; what was found is noted once it could be read.
    pub fn get_or_fetch<P>(
        &mut self,
        source: Source,
        local_path: String,
        abs_path: P,
        read: Result<Vec<u8>, String>,
    ) -> (r: Result<ResourceResponse<P>, String>)
        ensures
            final(self)@ == if read is Ok && source == Source::Found {
                old(self)@.found(local_path@)
            } else {
                old(self)@
            },
            match read {
                Ok(data) => r == Ok::<ResourceResponse<P>, String>(
                    (ResourceResponse { data, local_path, abs_path }),
                ),
                Err(error) => r == Err::<ResourceResponse<P>, String>(error),
            },
    {
        match read {
            Ok(data) => {
                if source == Source::Found {
                    self.note_found(local_path.clone());
                }
                Ok(ResourceResponse { data, local_path, abs_path })
            },
            Err(error) => Err(error),
        }
    }

    /// One look of a request that waits while another one fetches the resource,
    /// counted from zero. `present` tells whether the file is there.
    pub fn wait_for_fetch(&self, key: &str, round: u32, present: bool) -> (r: WaitStep)
        requires
            round < WAIT_ROUNDS,
        ensures
            r == wait_step(self@.inflight.contains(key@), round as int, present),
    {
        if present {
            WaitStep::Read
        } else if !self.inflight.contains(key) {
            WaitStep::LastLook
        } else if round + 1 < WAIT_ROUNDS {
            WaitStep::WaitAndLook(round + 1)
        } else {
            WaitStep::WaitAndLastLook
        }
    }
}

/// How a request goes on that waits for another one's download.
#[derive(Clone, Copy, Debug, PartialEq, Eq, Structural)]
pub enum WaitStep {
    /// Serve the file, and note that it is here.
    Read,
    /// Look once more, without waiting.
    LastLook,
    /// Wait, then take this look.
    WaitAndLook(u32),
    /// Wait, then look once more.
    WaitAndLastLook,
}

/// How waiting goes on after a look.
pub open spec fn wait_step(inflight: bool, round: int, present: bool) -> WaitStep {
    if present {
        WaitStep::Read
    } else if !inflight {
        WaitStep::LastLook
    } else if round + 1 < WAIT_ROUNDS {
        WaitStep::WaitAndLook((round + 1) as u32)
    } else {
        WaitStep::WaitAndLastLook
    }
}

/// The last look of a request that waited: the file is served where it is there.
pub fn finish_wait(key: &str, present: bool) -> (r: Result<(), String>)
    ensures
        present ==> r is Ok,
        !present ==> (r matches Err(e) && e@ == "concurrent resource download failed: "@ + key@),
{
    if present {
        Ok(())
    } else {
        Err(joined("concurrent resource download failed: ", key))
    }
}

/// The address that a resource is fetched from.
pub open spec fn url_of(key: Seq<char>) -> Seq<char> {
    SERVER_BASE_URL@ + match stripped(key, "passionfruit/"@) {
        Some(rest) => rest,
        None => key,
    }
}

/// The address that a resource is fetched from: the server has it under its key,
/// without the directory that it is kept in here.
pub fn resource_url(key: &str) -> (r: String)
    ensures
        r@ == url_of(key@),
{
    match strip_prefix(key, "passionfruit/") {
        Some(rest) => joined(SERVER_BASE_URL, rest),
        None => joined(SERVER_BASE_URL, key),
    }
}

/// The extension of the file that a download is written to first.
pub open spec fn temporary_extension_of(process: nat, sequence: nat) -> Seq<char> {
    "download-"@ + decimal(process) + "-"@ + decimal(sequence)
}

/// The extension of the file that a download is written to first: the process
/// and a number that it uses once.
pub fn temporary_extension(process: u32, sequence: u64) -> (r: String)
    ensures
        r@ == temporary_extension_of(process as nat, sequence as nat),
{
    let mut name = joined("download-", &decimal_text(process as u64));
    name.append("-");
    name.append(&decimal_text(sequence));
    name
}

/// The steps of fetching a resource.
#[derive(Clone, Copy, Debug, PartialEq, Eq, Structural)]
pub enum FetchStage {
    /// Send the request.
    Request,
    /// Read what the server sends.
    Body,
    /// Create the directory of the file.
    Directory,
    /// Write the temporary file.
    Store,
    /// Give it its name.
    Rename,
}

/// What came of a step.
pub enum FetchEvent {
    Done,
    /// It failed with this error.
    Failed(String),
    /// The server answered with this status, which is no success.
    Refused(String),
    /// The file could not be given its name; `present` tells whether another
    /// process has put one there.
    NotRenamed { present: bool, error: String },
}

/// How fetching goes on.
pub enum FetchAction {
    Enter(FetchStage),
    /// The resource was fetched and is here.
    Serve,
    /// Remove the temporary file and serve the one that is there.
    ServeExisting,
    /// Give up; `remove` tells whether the temporary file is to be removed.
    Fail { remove: bool, message: String },
}

/// `r` is what follows on a step of fetching a resource.
pub open spec fn fetch_flow(stage: FetchStage, event: FetchEvent, r: FetchAction) -> bool {
    match event {
        FetchEvent::Done => r == match stage {
            FetchStage::Request => FetchAction::Enter(FetchStage::Body),
            FetchStage::Body => FetchAction::Enter(FetchStage::Directory),
            FetchStage::Directory => FetchAction::Enter(FetchStage::Store),
            FetchStage::Store => FetchAction::Enter(FetchStage::Rename),
            FetchStage::Rename => FetchAction::Serve,
        },
        FetchEvent::Failed(error) => r == (FetchAction::Fail { remove: false, message: error }),
        FetchEvent::Refused(status) => r matches FetchAction::Fail { remove, message } && !remove
            && message@ == "upstream "@ + status@,
        FetchEvent::NotRenamed { present, error } => if present {
            r == FetchAction::ServeExisting
        } else {
            r == (FetchAction::Fail { remove: true, message: error })
        },
    }
}

/// The next action after a step of fetching a resource.
pub fn fetch_and_cache(stage: FetchStage, event: FetchEvent) -> (r: FetchAction)
    ensures
        fetch_flow(stage, event, r),
{
    match event {
        FetchEvent::Done => match stage {
            FetchStage::Request => FetchAction::Enter(FetchStage::Body),
            FetchStage::Body => FetchAction::Enter(FetchStage::Directory),
            FetchStage::Directory => FetchAction::Enter(FetchStage::Store),
            FetchStage::Store => FetchAction::Enter(FetchStage::Rename),
            FetchStage::Rename => FetchAction::Serve,
        },
        FetchEvent::Failed(error) => FetchAction::Fail { remove: false, message: error },
        FetchEvent::Refused(status) => FetchAction::Fail {
            remove: false,
            message: joined("upstream ", &status),
        },
        FetchEvent::NotRenamed { present, error } => {
            if present {
                FetchAction::ServeExisting
            } else {
                FetchAction::Fail { remove: true, message: error }
            }
        },
    }
}

/// How many steps lie before `stage`.
pub open spec fn fetch_position(stage: FetchStage) -> int {
    match stage {
        FetchStage::Request => 0,
        FetchStage::Body => 1,
        FetchStage::Directory => 2,
        FetchStage::Store => 3,
        FetchStage::Rename => 4,
    }
}

/// A resource appears under its name only once it was received and written as a
/// whole: each step follows on the success of the one before it, and a resource
/// is served as fetched only where the last of them succeeded.
pub proof fn law_resource_appears_whole(stage: FetchStage, event: FetchEvent, r: FetchAction)
    requires
        fetch_flow(stage, event, r),
    ensures
        match r {
            FetchAction::Enter(next) => event is Done && fetch_position(next) == fetch_position(
                stage,
            ) + 1,
            FetchAction::Serve => event is Done && stage == FetchStage::Rename,
            FetchAction::ServeExisting => event is NotRenamed,
            FetchAction::Fail { .. } => !(event is Done),
        },
{
}

/// Where a file was found.
#[derive(Clone, Copy, Debug, PartialEq, Eq, Structural)]
pub enum Existing {
    /// At the path as it was given.
    AsGiven,
    /// At the path that it resolves to.
    Resolved,
    /// At the entry of its directory with this place.
    Entry(usize),
    /// Nowhere.
    Nowhere,
}

/// The place of the first entry, at or behind place `i`, with the lower-case
/// name `target`.
pub open spec fn first_lowered(
    lowered: Seq<Option<Seq<char>>>,
    target: Seq<char>,
    i: int,
) -> Existing
    decreases lowered.len() - i,
{
    if i < 0 || i >= lowered.len() {
        Existing::Nowhere
    } else if lowered[i] == Some(target) {
        Existing::Entry(i as usize)
    } else {
        first_lowered(lowered, target, i + 1)
    }
}

/// The names of a directory's entries; none for one that is no text.
pub open spec fn optional_texts(names: Seq<Option<String>>) -> Seq<Option<Seq<char>>> {
    names.map_values(|name: Option<String>| string_text(name))
}

/// The same names in lower case.
pub open spec fn lowered_names(names: Seq<Option<Seq<char>>>) -> Seq<Option<Seq<char>>> {
    names.map_values(
        |name: Option<Seq<char>>|
            match name {
                Some(text) => Some(unicode_lowercase(text)),
                None => None,
            },
    )
}

/// The first of the lower-case names that equals `target`.
pub fn find_lowered(lowered: &Vec<Option<String>>, target: &str) -> (r: Existing)
    ensures
        r == first_lowered(optional_texts(lowered@), target@, 0),
{
    let ghost names = optional_texts(lowered@);
    let mut i: usize = 0;
    while i < lowered.len()
        invariant
            i <= lowered.len(),
            names == optional_texts(lowered@),
            first_lowered(names, target@, 0) == first_lowered(names, target@, i as int),
        decreases lowered.len() - i,
    {
        assert(names[i as int] == string_text(lowered@[i as int]));
        match &lowered[i] {
            Some(name) => {
                if same_text(name, target) {
                    return Existing::Entry(i);
                }
            },
            None => {},
        }
        i += 1;
    }
    Existing::Nowhere
}

fn lower_names(names: &Vec<Option<String>>) -> (r: Vec<Option<String>>)
    ensures
        optional_texts(r@) == lowered_names(optional_texts(names@)),
{
    let mut out: Vec<Option<String>> = Vec::new();
    let mut i: usize = 0;
    while i < names.len()
        invariant
            i <= names.len(),
            out.len() == i,
            forall|j: int|
                0 <= j < i ==> string_text(#[trigger] out@[j]) == lowered_names(
                    optional_texts(names@),
                )[j],
        decreases names.len() - i,
    {
        assert(optional_texts(names@)[i as int] == string_text(names@[i as int]));
        match &names[i] {
            Some(name) => out.push(Some(to_lowercase(name))),
            None => out.push(None),
        }
        i += 1;
    }
    assert(optional_texts(out@) =~= lowered_names(optional_texts(names@)));
    out
}

/// Finds the file of a path: as it was given, else as it resolves, else the
/// first entry of its directory whose name is the same but for case. A path
/// without a name that is text is looked up as the empty name.
pub fn find_existing_case_insensitive(
    present: bool,
    resolved_present: bool,
    entries: &Vec<Option<String>>,
    name: Option<&str>,
) -> (r: Existing)
    ensures
        r == if present {
            Existing::AsGiven
        } else if resolved_present {
            Existing::Resolved
        } else {
            first_lowered(
                lowered_names(optional_texts(entries@)),
                unicode_lowercase(
                    match name {
                        Some(text) => text@,
                        None => ""@,
                    },
                ),
                0,
            )
        },
{
    if present {
        return Existing::AsGiven;
    }
    if resolved_present {
        return Existing::Resolved;
    }
    let target = to_lowercase(
        match name {
            Some(text) => text,
            None => "",
        },
    );
    find_lowered(&lower_names(entries), &target)
}

/// The directory of one kind of data.
pub fn get_hidden_config_dir<'a, P>(
    paths: &'a BasePaths<P>,
    environment: &'a Environment<P>,
    target: &str,
) -> (r: Location<'a, P>)
    ensures
        r@ == crate::config_manager::hidden_config_dir(*paths, *environment, target@),
{
    crate::config_manager::get_hidden_config_dir(paths, environment, target)
}

/// While one request fetches a resource, no other one does: whatever other
/// requests begin and finish, a further request for the same key waits.
pub proof fn law_one_request_fetches_a_resource(
    state: Resources,
    key: Seq<char>,
    other: Seq<char>,
    other_fetches: bool,
)
    requires
        state.inflight.contains(key),
        other_fetches ==> other != key,
    ensures
        state.begun(key).inflight.contains(key),
        state.begun(other).inflight.contains(key),
        state.finished(other, other_fetches).inflight.contains(key),
        state.found(other).inflight.contains(key),
        state.fetched(other).inflight.contains(key),
{
}

/// A request that began and finished leaves the permits and what is being
/// fetched as they were, whether it fetched the resource or waited for it.
pub proof fn law_finished_request_leaves_nothing(state: Resources, key: Seq<char>)
    ensures
        state.begun(key).finished(key, !state.inflight.contains(key)) == state,
{
    let after = state.begun(key).finished(key, !state.inflight.contains(key));
    assert(after.inflight =~= state.inflight);
}

/// A resource that is known to be here stays known, whatever requests do.
pub proof fn law_known_resource_stays_known(
    state: Resources,
    key: Seq<char>,
    other: Seq<char>,
    downloader: bool,
)
    requires
        state.downloaded.contains(key),
    ensures
        state.begun(other).downloaded.contains(key),
        state.finished(other, downloader).downloaded.contains(key),
        state.found(other).downloaded.contains(key),
        state.fetched(other).downloaded.contains(key),
{
}

/// A request waits a bounded number of times: each look but the last has a
/// higher number than the one before, below the limit.
pub proof fn law_waiting_ends(inflight: bool, round: int, present: bool)
    requires
        0 <= round < WAIT_ROUNDS,
    ensures
        match wait_step(inflight, round, present) {
            WaitStep::WaitAndLook(next) => round < next < WAIT_ROUNDS,
            _ => true,
        },
{
}

/// Downloads of different processes, and different downloads of one process,
/// are written to files of different names.
pub proof fn law_temporary_files_are_distinct(
    process: nat,
    sequence: nat,
    other_process: nat,
    other_sequence: nat,
)
    requires
        (process, sequence) != (other_process, other_sequence),
    ensures
        temporary_extension_of(process, sequence) != temporary_extension_of(
            other_process,
            other_sequence,
        ),
{
    let a = temporary_extension_of(process, sequence);
    let b = temporary_extension_of(other_process, other_sequence);
    let head = "download-"@.len() as int;
    if a == b {
        assert(a.skip(head) =~= decimal(process) + "-"@ + decimal(sequence));
        assert(b.skip(head) =~= decimal(other_process) + "-"@ + decimal(other_sequence));
        lemma_decimal_pair(process, sequence, other_process, other_sequence);
    }
}

/// What a request asks behind a question mark does not change what it means.
pub proof fn law_query_is_ignored(platform: Platform, path: Seq<char>, query: Seq<char>)
    requires
        !path.contains('?'),
    ensures
        resource_key(platform, path + seq!['?'] + query) == resource_key(platform, path),
{
    let whole = replaced(path + seq!['?'] + query, '\\', '/');
    let plain = replaced(path, '\\', '/');
    let n = path.len() as int;
    assert forall|j: int| 0 <= j < n implies #[trigger] plain[j] != '?' by {
        assert(path.contains(path[j]));
    }
    assert(whole.take(n) =~= plain);
    assert forall|j: int| 0 <= j < n implies #[trigger] whole[j] != '?' by {
        assert(whole[j] == plain[j]);
    }
    lemma_first_from(whole, '?', 0, n);
    lemma_first_from(plain, '?', 0, n);
    assert(plain.take(n) =~= plain);
}

/// A resource has one key, with and without `assets/` in front of its path.
pub proof fn law_assets_share_keys(platform: Platform, path: Seq<char>)
    requires
        stripped(before_first(replaced(path, '\\', '/'), '?'), "assets/"@) is None,
    ensures
        resource_key(platform, "assets/"@ + path) == resource_key(platform, path),
{
    reveal_strlit("assets/");
    let whole = replaced("assets/"@ + path, '\\', '/');
    let plain = replaced(path, '\\', '/');
    let n = "assets/"@.len() as int;
    let k = first_from(plain, '?', 0);
    assert(whole =~= "assets/"@ + plain);
    lemma_first_is(plain, '?', 0);
    assert forall|j: int| 0 <= j < n + k implies #[trigger] whole[j] != '?' by {
        if j >= n {
            assert(whole[j] == plain[j - n]);
        }
    }
    lemma_first_from(whole, '?', 0, n + k);
    let clean = whole.take(n + k);
    assert(clean.take(n) =~= "assets/"@);
    assert("assets/"@.is_prefix_of(clean));
    assert(clean.skip(n) =~= plain.take(k));
}

proof fn lemma_without_leading(s: Seq<char>, c: char)
    ensures
        without_leading(s, c).len() > 0 ==> without_leading(s, c)[0] != c,
        forall|x: char| #[trigger] without_leading(s, c).contains(x) ==> s.contains(x),
    decreases s.len(),
{
    if s.len() > 0 && s[0] == c {
        lemma_without_leading(s.drop_first(), c);
        assert forall|x: char| #[trigger] without_leading(s, c).contains(x) implies s.contains(
            x,
        ) by {
            let k = choose|k: int| 0 <= k < s.drop_first().len() && s.drop_first()[k] == x;
            assert(s[k + 1] == x);
        }
    }
}

/// The key of a resource names no parent directory and does not begin at a root,
/// and nothing is left in it of a query or of a backslash.
pub proof fn law_resource_keys_do_not_climb(platform: Platform, path: Seq<char>)
    requires
        resource_key(platform, path) is Some,
    ensures
        ({
            let key = resource_key(platform, path)->0;
            &&& !climbs(platform, key)
            &&& !rooted_on_drive(platform, key)
            &&& key.len() > 0 ==> key[0] != '/'
            &&& !key.contains('?')
            &&& !key.contains('\\')
        }),
{
    let plain = replaced(path, '\\', '/');
    let clean = before_first(plain, '?');
    let local = match stripped(clean, "assets/"@) {
        Some(rest) => rest,
        None => clean,
    };
    lemma_first_is(plain, '?', 0);
    lemma_without_leading(local, '/');
    assert forall|x: char| local.contains(x) implies x != '?' && x != '\\' by {
        let k = choose|k: int| 0 <= k < local.len() && local[k] == x;
        let n = clean.len() - local.len();
        assert(clean[n + k] == x);
        assert(plain[n + k] == x);
    }
}

/// The media server has a resource of the game under the rest of its key, as it
/// is written: the address is the server's followed by exactly what stands behind
/// `passionfruit/`.
pub proof fn law_resource_address_is_the_rest_of_the_key(rest: Seq<char>)
    ensures
        url_of("passionfruit/"@ + rest) == "https://media.komisureiya.com/"@ + rest,
{
    let key = "passionfruit/"@ + rest;
    let n = "passionfruit/"@.len() as int;
    assert(key.subrange(0, n) =~= "passionfruit/"@);
    assert("passionfruit/"@.is_prefix_of(key));
    assert(key.skip(n) =~= rest);
}

/// Any other key is its own address below the server's.
pub proof fn law_other_key_is_its_own_address(key: Seq<char>)
    requires
        !"passionfruit/"@.is_prefix_of(key),
    ensures
        url_of(key) == "https://media.komisureiya.com/"@ + key,
{
}

/// Two resources of the game are never fetched from one address.
pub proof fn law_resources_have_addresses_of_their_own(a: Seq<char>, b: Seq<char>)
    requires
        "passionfruit/"@.is_prefix_of(a),
        "passionfruit/"@.is_prefix_of(b),
        url_of(a) == url_of(b),
    ensures
        a == b,
{
    let n = "passionfruit/"@.len() as int;
    let head = "https://media.komisureiya.com/"@.len() as int;
    assert(a =~= "passionfruit/"@ + a.skip(n));
    assert(b =~= "passionfruit/"@ + b.skip(n));
    law_resource_address_is_the_rest_of_the_key(a.skip(n));
    law_resource_address_is_the_rest_of_the_key(b.skip(n));
    assert(url_of(a).skip(head) =~= a.skip(n));
    assert(url_of(b).skip(head) =~= b.skip(n));
}

/// A plain path is its own key, letter for letter.
pub proof fn law_plain_path_is_its_key(platform: Platform, path: Seq<char>)
    requires
        !path.contains('\\'),
        !path.contains('?'),
        path.len() > 0 ==> path[0] != '/',
        !"assets/"@.is_prefix_of(path),
        platform == Platform::Windows ==> !path.contains(':'),
        forall|i: int| 0 <= i < path.len() - 1 ==> #[trigger] path[i] != '.' || path[i + 1] != '.',
    ensures
        resource_key(platform, path) == Some(path),
{
    let plain = replaced(path, '\\', '/');
    assert forall|j: int| 0 <= j < path.len() implies path[j] != '\\' && path[j] != '?' by {
        assert(path.contains(path[j]));
    }
    assert(plain =~= path);
    lemma_first_from(path, '?', 0, path.len() as int);
    assert(path.take(path.len() as int) =~= path);
    law_path_without_two_dots_does_not_climb(platform, path);
    if rooted_on_drive(platform, path) {
        assert(path.contains(path[1]));
    }
}

/// Backslashes in a path mean what slashes mean.
pub proof fn law_backslashes_are_slashes(platform: Platform, a: Seq<char>, b: Seq<char>)
    requires
        a.len() == b.len(),
        forall|i: int|
            0 <= i < a.len() ==> #[trigger] a[i] == b[i] || a[i] == '\\' && b[i] == '/',
    ensures
        resource_key(platform, a) == resource_key(platform, b),
{
    assert(replaced(a, '\\', '/') =~= replaced(b, '\\', '/'));
}

/// Slashes in front of a path do not change what it means.
pub proof fn law_leading_slash_is_dropped(platform: Platform, path: Seq<char>)
    requires
        !"assets/"@.is_prefix_of(before_first(replaced(path, '\\', '/'), '?')),
    ensures
        resource_key(platform, seq!['/'] + path) == resource_key(platform, path),
{
    reveal_strlit("assets/");
    let plain = replaced(path, '\\', '/');
    let whole = replaced(seq!['/'] + path, '\\', '/');
    assert(whole =~= seq!['/'] + plain);
    let k = first_from(plain, '?', 0);
    lemma_first_is(plain, '?', 0);
    assert forall|j: int| 0 <= j < 1 + k implies #[trigger] whole[j] != '?' by {
        if j >= 1 {
            assert(whole[j] == plain[j - 1]);
        }
    }
    lemma_first_from(whole, '?', 0, 1 + k);
    let clean = whole.take(1 + k);
    assert(clean[0] == '/');
    assert(!"assets/"@.is_prefix_of(clean)) by {
        if "assets/"@.is_prefix_of(clean) {
            assert(clean.subrange(0, 7)[0] == 'a');
        }
    }
    assert(clean.drop_first() =~= plain.take(k));
}

/// A path that leads to a parent directory, at its start, in its midst or at its
/// end, has no key.
pub proof fn law_climbing_path_has_no_key(
    platform: Platform,
    path: Seq<char>,
    before: Seq<char>,
    after: Seq<char>,
)
    requires
        !path.contains('\\'),
        !path.contains('?'),
        path.len() > 0 ==> path[0] != '/',
        !"assets/"@.is_prefix_of(path),
        path == before + "/../"@ + after || path == before + "/.."@ || path == "../"@ + after
            || path == ".."@,
    ensures
        resource_key(platform, path) is None,
{
    let plain = replaced(path, '\\', '/');
    assert forall|j: int| 0 <= j < path.len() implies path[j] != '\\' && path[j] != '?' by {
        assert(path.contains(path[j]));
    }
    assert(plain =~= path);
    lemma_first_from(path, '?', 0, path.len() as int);
    assert(path.take(path.len() as int) =~= path);
    law_parent_directory_climbs(platform, before, after);
}

/// On Windows a key is written with backslashes in place of its slashes, elsewhere
/// as it is.
pub proof fn law_native_path_has_native_separators(platform: Platform, key: Seq<char>, i: int)
    requires
        0 <= i < key.len(),
    ensures
        native(platform, key).len() == key.len(),
        platform == Platform::Windows && key[i] == '/' ==> native(platform, key)[i] == '\\',
        platform != Platform::Windows || key[i] != '/' ==> native(platform, key)[i] == key[i],
{
}

/// There are two workers for every processor, at least four and at most
/// thirty-two.
pub proof fn law_workers_follow_the_processors(cpus: nat)
    ensures
        4 <= worker_count(cpus) <= 32,
        2 <= cpus <= 16 ==> worker_count(cpus) == cpus + cpus,
        cpus < 2 ==> worker_count(cpus) == 4,
        cpus > 16 ==> worker_count(cpus) == 32,
{
}

/// A request waits as long as the resource is being fetched and is not here, six
/// hundred looks long; it reads the resource as soon as it is here, and stops
/// waiting once nobody fetches it.
pub proof fn law_waiting_goes_on_while_it_is_fetched(round: int)
    requires
        0 <= round < 600,
    ensures
        round < 599 ==> wait_step(true, round, false) == WaitStep::WaitAndLook((round + 1) as u32),
        round == 599 ==> wait_step(true, round, false) == WaitStep::WaitAndLastLook,
        wait_step(false, round, false) == WaitStep::LastLook,
        forall|inflight: bool| #[trigger] wait_step(inflight, round, true) == WaitStep::Read,
{
}

/// A resource whose steps all succeed goes through every one of them and is
/// served; one that could not be renamed is served from what is there, and is
/// taken away again only where nothing is; any other failure takes nothing away.
pub proof fn law_fetch_goes_through_every_stage(
    stage: FetchStage,
    event: FetchEvent,
    error: String,
    r: FetchAction,
)
    requires
        fetch_flow(stage, event, r),
    ensures
        event is Done && stage == FetchStage::Request ==> r == FetchAction::Enter(FetchStage::Body),
        event is Done && stage == FetchStage::Body ==> r == FetchAction::Enter(
            FetchStage::Directory,
        ),
        event is Done && stage == FetchStage::Directory ==> r == FetchAction::Enter(
            FetchStage::Store,
        ),
        event is Done && stage == FetchStage::Store ==> r == FetchAction::Enter(FetchStage::Rename),
        event is Done && stage == FetchStage::Rename ==> r == FetchAction::Serve,
        event == FetchEvent::Failed(error) ==> r == (FetchAction::Fail {
            remove: false,
            message: error,
        }),
        event == (FetchEvent::NotRenamed { present: true, error }) ==> r
            == FetchAction::ServeExisting,
        event == (FetchEvent::NotRenamed { present: false, error }) ==> r == (FetchAction::Fail {
            remove: true,
            message: error,
        }),
        event == FetchEvent::Refused(error) ==> (r matches FetchAction::Fail { remove, message }
            && !remove && error@.is_suffix_of(message@)),
{
    let whole = "upstream "@ + error@;
    assert(whole.subrange(whole.len() - error@.len(), whole.len() as int) =~= error@);
}

/// Of the entries that have the same name but for case, the first is found.
pub proof fn law_first_entry_is_found(lowered: Seq<Option<Seq<char>>>, target: Seq<char>, k: int)
    requires
        0 <= k <= lowered.len() <= usize::MAX,
        forall|j: int| 0 <= j < k ==> #[trigger] lowered[j] != Some(target),
        k < lowered.len() ==> lowered[k] == Some(target),
    ensures
        first_lowered(lowered, target, 0) == if k < lowered.len() {
            Existing::Entry(k as usize)
        } else {
            Existing::Nowhere
        },
{
    lemma_first_lowered(lowered, target, 0, k);
}

proof fn lemma_first_lowered(lowered: Seq<Option<Seq<char>>>, target: Seq<char>, i: int, k: int)
    requires
        0 <= i <= k <= lowered.len(),
        forall|j: int| i <= j < k ==> #[trigger] lowered[j] != Some(target),
        k < lowered.len() ==> lowered[k] == Some(target),
    ensures
        first_lowered(lowered, target, i) == if k < lowered.len() {
            Existing::Entry(k as usize)
        } else {
            Existing::Nowhere
        },
    decreases k - i,
{
    if i < k {
        lemma_first_lowered(lowered, target, i + 1, k);
    }
}

/// The names of a directory's entries are lowered one by one, and none is lost.
pub proof fn law_every_entry_is_lowered(names: Seq<Option<Seq<char>>>, i: int)
    requires
        0 <= i < names.len(),
    ensures
        lowered_names(names).len() == names.len(),
        lowered_names(names)[i] is Some == names[i] is Some,
        names[i] is Some ==> lowered_names(names)[i] == Some(unicode_lowercase(names[i]->0)),
{
}

/// A request takes one permit and one key, and gives both back; a resource that was
/// fetched is known and counted once, one that was found is known and not counted;
/// nothing else changes.
pub proof fn law_requests_are_counted(state: Resources, key: Seq<char>, other: Seq<char>)
    requires
        other != key,
    ensures
        state.begun(key).active == state.active + 1,
        state.begun(key).inflight.contains(key),
        state.begun(key).inflight.contains(other) == state.inflight.contains(other),
        state.begun(key).downloaded == state.downloaded,
        state.begun(key).count == state.count,
        state.active > 0 ==> state.finished(key, true).active == state.active - 1,
        state.active > 0 ==> state.finished(key, false).active == state.active - 1,
        state.active == 0 ==> state.finished(key, true).active == 0,
        !state.finished(key, true).inflight.contains(key),
        state.finished(key, true).inflight.contains(other) == state.inflight.contains(other),
        state.finished(key, false).inflight == state.inflight,
        state.finished(key, true).downloaded == state.downloaded,
        state.finished(key, true).count == state.count,
        state.fetched(key).downloaded.contains(key),
        state.fetched(key).downloaded.contains(other) == state.downloaded.contains(other),
        state.fetched(key).count == state.count + 1,
        state.found(key).downloaded.contains(key),
        state.found(key).downloaded.contains(other) == state.downloaded.contains(other),
        state.found(key).count == state.count,
        state.found(key).active == state.active,
        state.fetched(key).active == state.active,
        state.begun(key).workers == state.workers,
        state.finished(key, true).workers == state.workers,
        state.found(key).workers == state.workers,
        state.fetched(key).workers == state.workers,
{
}

/// A plain path is looked up under itself, and a path that climbs not at all.
pub proof fn law_plain_path_is_looked_up_as_it_is(
    platform: Platform,
    path: &str,
    r: Option<LocalPath>,
)
    requires
        !path@.contains('\\'),
        !path@.contains('?'),
        path@.len() > 0 ==> path@[0] != '/',
        !"assets/"@.is_prefix_of(path@),
        platform == Platform::Windows ==> !path@.contains(':'),
        forall|i: int|
            0 <= i < path@.len() - 1 ==> #[trigger] path@[i] != '.' || path@[i + 1] != '.',
        call_ensures(normalize_path, (platform, path), r),
    ensures
        r matches Some(local) && local.key@ == path@ && local.relative@.len() == path@.len(),
        platform != Platform::Windows ==> (r matches Some(local) && local.relative@ == path@),
{
    law_plain_path_is_its_key(platform, path@);
}

/// A resource is fetched from the server under the rest of its key, letter for
/// letter, and any other file under its whole key.
pub proof fn law_fetched_address_is_the_rest_of_the_key(key: &str, rest: Seq<char>, r: String)
    requires
        call_ensures(resource_url, (key,), r),
    ensures
        key@ == "passionfruit/"@ + rest ==> r@ == "https://media.komisureiya.com/"@ + rest,
        !"passionfruit/"@.is_prefix_of(key@) ==> r@ == "https://media.komisureiya.com/"@ + key@,
{
    law_resource_address_is_the_rest_of_the_key(rest);
}

/// A resource that a request waited for is served where it is there in the end, and
/// else its key is told.
pub proof fn law_waited_resource_is_there_or_told(key: &str, present: bool, r: Result<(), String>)
    requires
        call_ensures(finish_wait, (key, present), r),
    ensures
        r is Ok <==> present,
        r matches Err(e) ==> key@.is_suffix_of(e@),
{
    let whole = "concurrent resource download failed: "@ + key@;
    assert(whole.subrange(whole.len() - key@.len(), whole.len() as int) =~= key@);
}

/// A file is taken as it was given before it is looked for otherwise, and the first
/// entry that has its name but for case is taken last.
pub proof fn law_given_file_comes_first(
    present: bool,
    resolved_present: bool,
    entries: &Vec<Option<String>>,
    name: &str,
    k: int,
    r: Existing,
)
    requires
        call_ensures(
            find_existing_case_insensitive,
            (present, resolved_present, entries, Some(name)),
            r,
        ),
        0 <= k <= entries@.len() <= usize::MAX,
        forall|j: int|
            0 <= j < k ==> (#[trigger] entries@[j] matches Some(e) ==> unicode_lowercase(e@)
                != unicode_lowercase(name@)),
        k < entries@.len() ==> (entries@[k] matches Some(e) && unicode_lowercase(e@)
            == unicode_lowercase(name@)),
    ensures
        present ==> r == Existing::AsGiven,
        !present && resolved_present ==> r == Existing::Resolved,
        !present && !resolved_present && k < entries@.len() ==> r == Existing::Entry(k as usize),
        !present && !resolved_present && k == entries@.len() ==> r == Existing::Nowhere,
{
    let texts = optional_texts(entries@);
    let lowered = lowered_names(texts);
    assert forall|j: int| 0 <= j < k implies #[trigger] lowered[j] != Some(
        unicode_lowercase(name@),
    ) by {
        assert(texts[j] == string_text(entries@[j]));
    }
    if k < entries@.len() {
        assert(texts[k] == string_text(entries@[k]));
    }
    law_first_entry_is_found(lowered, unicode_lowercase(name@), k);
}

/// A download is under way as long as anything is being fetched or holds a permit,
/// and the numbers that are told are those that are kept.
pub proof fn law_status_tells_what_is_kept(manager: &ResourceManager, r: DownloadStatus)
    requires
        call_ensures(ResourceManager::get_status, (manager,), r),
    ensures
        manager@.active > 0 ==> r.is_downloading,
        manager@.inflight.is_empty() && manager@.active == 0 ==> !r.is_downloading,
        forall|key: Seq<char>| #[trigger] manager@.inflight.contains(key) ==> r.is_downloading,
        r.active_downloads == manager@.active,
        r.downloaded_count == manager@.count,
        r.queue_length == manager@.inflight.len(),
        r.max_workers == manager@.workers,
{
}

/// Of several requests for one key the first fetches and the others wait, and the
/// resource is fetched anew once that one is over.
pub proof fn law_first_request_fetches(
    manager: &mut ResourceManager,
    key: &str,
    other: Seq<char>,
    r: bool,
)
    requires
        call_ensures(ResourceManager::begin_fetch, (manager, key), r),
        other != key@,
    ensures
        r <==> !old(manager)@.inflight.contains(key@),
        final(manager)@.inflight.contains(key@),
        final(manager)@.inflight.contains(other) == old(manager)@.inflight.contains(other),
        final(manager)@.active == old(manager)@.active + 1,
        final(manager)@.downloaded == old(manager)@.downloaded,
        final(manager)@.count == old(manager)@.count,
{
}

/// A finished request gives its permit back, and its key where it was the one that
/// fetched.
pub proof fn law_finished_request_gives_back(
    manager: &mut ResourceManager,
    key: &str,
    downloader: bool,
    other: Seq<char>,
)
    requires
        call_ensures(ResourceManager::finish_fetch, (manager, key, downloader), ()),
        other != key@,
    ensures
        old(manager)@.active > 0 ==> final(manager)@.active == old(manager)@.active - 1,
        downloader ==> !final(manager)@.inflight.contains(key@),
        !downloader ==> final(manager)@.inflight == old(manager)@.inflight,
        final(manager)@.inflight.contains(other) == old(manager)@.inflight.contains(other),
        final(manager)@.downloaded == old(manager)@.downloaded,
        final(manager)@.count == old(manager)@.count,
{
}

/// A resource that was fetched is known from then on and counted; one that was found
/// is known and not counted.
pub proof fn law_fetched_resources_are_counted(
    manager: &mut ResourceManager,
    key: String,
    other: Seq<char>,
)
    requires
        other != key@,
    ensures
        call_ensures(ResourceManager::note_fetched, (manager, key), ()) ==> {
            &&& final(manager)@.downloaded.contains(key@)
            &&& final(manager)@.downloaded.contains(other) == old(manager)@.downloaded.contains(
                other,
            )
            &&& final(manager)@.count == old(manager)@.count + 1
        },
        call_ensures(ResourceManager::note_found, (manager, key), ()) ==> {
            &&& final(manager)@.downloaded.contains(key@)
            &&& final(manager)@.downloaded.contains(other) == old(manager)@.downloaded.contains(
                other,
            )
            &&& final(manager)@.count == old(manager)@.count
        },
{
}

/// A new manager knows nothing, fetches nothing, and has two workers for every
/// processor, at least four and at most thirty-two.
pub proof fn law_new_manager_starts_empty(cpus: usize, r: ResourceManager, workers: usize)
    requires
        call_ensures(ResourceManager::with_cpu_count, (cpus,), r),
        call_ensures(ResourceManager::max_workers, (&r,), workers),
    ensures
        forall|key: Seq<char>|
            !(#[trigger] r@.downloaded.contains(key)) && !r@.inflight.contains(key),
        r@.active == 0,
        r@.count == 0,
        2 <= cpus <= 16 ==> workers == cpus + cpus,
        cpus < 2 ==> workers == 4,
        cpus > 16 ==> workers == 32,
{
    law_workers_follow_the_processors(cpus as nat);
}

/// A resource is looked for on disk exactly where it has a key and is not known, and
/// is not looked for where its path climbs.
pub proof fn law_known_resource_is_not_searched(
    manager: &ResourceManager,
    platform: Platform,
    path: &str,
    r: Lookup,
)
    requires
        call_ensures(ResourceManager::exists_local, (manager, platform, path), r),
    ensures
        r is Rejected <==> resource_key(platform, path@) is None,
        r is Known <==> (resource_key(platform, path@) matches Some(key)
            && manager@.downloaded.contains(key)),
        r matches Lookup::Known(local) ==> Some(local.key@) == resource_key(platform, path@),
        r matches Lookup::Search(local) ==> Some(local.key@) == resource_key(platform, path@),
{
}

/// A resource that was read is handed out whole, with its own key and place, and is
/// known from then on where it was found on disk.
pub proof fn law_read_resource_is_handed_out<P>(
    manager: &mut ResourceManager,
    source: Source,
    local_path: String,
    abs_path: P,
    data: Vec<u8>,
    r: Result<ResourceResponse<P>, String>,
)
    requires
        call_ensures(
            ResourceManager::get_or_fetch::<P>,
            (manager, source, local_path, abs_path, Ok::<Vec<u8>, String>(data)),
            r,
        ),
    ensures
        r matches Ok(response) && response.data == data && response.local_path == local_path
            && response.abs_path == abs_path,
        source == Source::Found ==> final(manager)@.downloaded.contains(local_path@),
        source != Source::Found ==> final(manager)@ == old(manager)@,
        final(manager)@.count == old(manager)@.count,
        final(manager)@.inflight == old(manager)@.inflight,
{
}

/// A resource that could not be read changes nothing and is told with its cause.
pub proof fn law_unread_resource_changes_nothing<P>(
    manager: &mut ResourceManager,
    source: Source,
    local_path: String,
    abs_path: P,
    error: String,
    r: Result<ResourceResponse<P>, String>,
)
    requires
        call_ensures(
            ResourceManager::get_or_fetch::<P>,
            (manager, source, local_path, abs_path, Err::<Vec<u8>, String>(error)),
            r,
        ),
    ensures
        r == Err::<ResourceResponse<P>, String>(error),
        final(manager)@ == old(manager)@,
{
}

/// A request waits only for what is being fetched: it reads what is here, and looks
/// one last time once nobody fetches it.
pub proof fn law_request_waits_for_what_is_fetched(
    manager: &ResourceManager,
    key: &str,
    round: u32,
    r: WaitStep,
)
    requires
        round < 600,
    ensures
        call_ensures(ResourceManager::wait_for_fetch, (manager, key, round, true), r) ==> r is Read,
        call_ensures(ResourceManager::wait_for_fetch, (manager, key, round, false), r) ==> (r
            is LastLook <==> !manager@.inflight.contains(key@)),
        call_ensures(ResourceManager::wait_for_fetch, (manager, key, round, false), r)
            && manager@.inflight.contains(key@) && round < 599 ==> r == WaitStep::WaitAndLook(
            (round + 1) as u32,
        ),
{
    law_waiting_goes_on_while_it_is_fetched(round as int);
}

/// Two downloads never share a temporary file.
pub proof fn law_temporary_extensions_are_distinct(
    process: u32,
    sequence: u64,
    other_process: u32,
    other_sequence: u64,
    r: String,
    s: String,
)
    requires
        call_ensures(temporary_extension, (process, sequence), r),
        call_ensures(temporary_extension, (other_process, other_sequence), s),
    ensures
        r@ == s@ ==> process == other_process && sequence == other_sequence,
        "download-"@.is_prefix_of(r@),
{
    if process != other_process || sequence != other_sequence {
        law_temporary_files_are_distinct(
            process as nat,
            sequence as nat,
            other_process as nat,
            other_sequence as nat,
        );
    }
    let rest = decimal(process as nat) + "-"@ + decimal(sequence as nat);
    assert(r@ =~= "download-"@ + rest);
    assert(r@.subrange(0, "download-"@.len() as int) =~= "download-"@);
}

/// The steps of a fetch follow each other, and only what could not take its final
/// name is removed again.
pub proof fn law_fetch_steps_follow_each_other(
    stage: FetchStage,
    error: String,
    r: FetchAction,
)
    ensures
        call_ensures(fetch_and_cache, (stage, FetchEvent::Done), r) ==> match stage {
            FetchStage::Request => r == FetchAction::Enter(FetchStage::Body),
            FetchStage::Body => r == FetchAction::Enter(FetchStage::Directory),
            FetchStage::Directory => r == FetchAction::Enter(FetchStage::Store),
            FetchStage::Store => r == FetchAction::Enter(FetchStage::Rename),
            FetchStage::Rename => r == FetchAction::Serve,
        },
        call_ensures(fetch_and_cache, (stage, FetchEvent::Failed(error)), r) ==> r == (
        FetchAction::Fail { remove: false, message: error }),
        call_ensures(
            fetch_and_cache,
            (stage, FetchEvent::NotRenamed { present: true, error }),
            r,
        ) ==> r == FetchAction::ServeExisting,
        call_ensures(
            fetch_and_cache,
            (stage, FetchEvent::NotRenamed { present: false, error }),
            r,
        ) ==> r == (FetchAction::Fail { remove: true, message: error }),
{
}

} // verus!
