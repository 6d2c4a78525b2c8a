//! Updates of the Mod: which versions, files and archives are accepted, and
//! what is unpacked, kept and removed when one is applied.

use crate::json::{field, fields, flag_field, text_field, Json, JsonNumber, JsonObject};
use crate::outside::{
    archive_data, archive_entries, archive_entry, archive_len, open_archive, zip_entries,
};
use crate::path::{is_file_name, is_whole_file_name, Platform};
use crate::text::{
    ascii_hex_digit, ascii_lowercase, chars_of, contains_char, contains_text, decimal,
    decimal_text, ends_with, has_piece, joined, law_separator_parts_the_pieces,
    law_text_without_separator_is_one_piece, lemma_decimal_pair, lemma_framed, lemma_last_piece,
    lemma_not_suffix, occurs, occurs_at, same_text, slice_text, split, starts_with, strip_prefix,
    string_text, stripped, texts, to_ascii_lowercase,
};
use crate::updater::{
    Reply, SaveAction, SaveStage, GITHUB_RELEASE_DOWNLOAD_PREFIX, REPOSITORY,
};
use vstd::prelude::*;

verus! {

pub const API_BASE: &'static str = "https://api.github.com/repos/MoLinOwO/ReversedFront_Public";

pub const RAW_BASE: &'static str =
    "https://raw.githubusercontent.com/MoLinOwO/ReversedFront_Public";

/// The largest file that an update may hold, in bytes.
pub const MAX_FILE_SIZE: u64 = 16777216;

/// The largest archive that an update may come in, in bytes.
pub const MAX_ARCHIVE_SIZE: u64 = 67108864;

/// Where the Mod lies in the repository.
pub const MOD_PREFIX: &'static str = "web/mod/";

/// The file without which there is no Mod, relative to the Mod's directory.
pub const MAIN_BUNDLE: &'static str = "js/main.bundle.js";

/// A text of forty hexadecimal digits, as git names a commit.
pub open spec fn commit_name(s: Seq<char>) -> bool {
    s.len() == 40 && forall|i: int| 0 <= i < s.len() ==> ascii_hex_digit(#[trigger] s[i])
}

/// Whether `value` names a commit.
pub fn is_sha(value: &str) -> (r: bool)
    ensures
        r == commit_name(value@),
{
    let x = chars_of(value);
    if x.len() != 40 {
        return false;
    }
    let mut i: usize = 0;
    while i < x.len()
        invariant
            i <= x.len() == 40,
            x@ == value@,
            forall|j: int| 0 <= j < i ==> ascii_hex_digit(#[trigger] x[j]),
        decreases x.len() - i,
    {
        let c = x[i];
        if !(('0' <= c && c <= '9') || ('a' <= c && c <= 'f') || ('A' <= c && c <= 'F')) {
            assert(!ascii_hex_digit(value@[i as int]));
            return false;
        }
        i += 1;
    }
    true
}

/// The paths of the repository that an update may install: compiled bundles
/// and their licences, and data files, but no certificate, no configuration
/// and no `RFcity.yaml`.
pub open spec fn installable(path: Seq<char>) -> bool {
    &&& !".pfx"@.is_suffix_of(path)
    &&& !"config.json"@.is_suffix_of(path)
    &&& !"RFcity.yaml"@.is_suffix_of(path)
    &&& {
        ||| "web/mod/js/"@.is_prefix_of(path) && (".bundle.js"@.is_suffix_of(path)
            || ".LICENSE.txt"@.is_suffix_of(path))
        ||| "web/mod/data/"@.is_prefix_of(path) && (".yaml"@.is_suffix_of(path)
            || ".yml"@.is_suffix_of(path) || ".svg"@.is_suffix_of(path)
            || ".json"@.is_suffix_of(path))
    }
}

/// Whether an update may install the file at `path` of the repository.
pub fn allowed_path(path: &str) -> (r: bool)
    ensures
        r == installable(path@),
{
    if ends_with(path, ".pfx") || ends_with(path, "config.json") || ends_with(path, "RFcity.yaml") {
        return false;
    }
    (starts_with(path, "web/mod/js/") && (ends_with(path, ".bundle.js") || ends_with(
        path,
        ".LICENSE.txt",
    ))) || (starts_with(path, "web/mod/data/") && (ends_with(path, ".yaml") || ends_with(
        path,
        ".yml",
    ) || ends_with(path, ".svg") || ends_with(path, ".json")))
}

/// The path inside the Mod's directory of a path of the repository; none where
/// it lies elsewhere or could leave the directory.
pub open spec fn inside_mod(path: Seq<char>) -> Option<Seq<char>> {
    match stripped(path, MOD_PREFIX@) {
        Some(relative) => if relative.len() == 0 || "/"@.is_prefix_of(relative) || occurs(
            ".."@,
            relative,
        ) || relative.contains('\\') {
            None
        } else {
            Some(relative)
        },
        None => None,
    }
}

/// The path inside the Mod's directory of a path of the repository.
pub fn safe_relative_path(path: &str) -> (r: Option<&str>)
    ensures
        slice_text(r) == inside_mod(path@),
{
    match strip_prefix(path, MOD_PREFIX) {
        Some(relative) => {
            if relative.is_empty() || starts_with(relative, "/") || contains_text(relative, "..")
                || contains_char(relative, '\\') {
                None
            } else {
                Some(relative)
            }
        },
        None => None,
    }
}

/// Whether an update may install the file at `path` inside the Mod's directory.
pub fn allowed_mod_relative_path(path: &str) -> (r: bool)
    ensures
        r == installable(MOD_PREFIX@ + path@),
{
    allowed_path(&joined(MOD_PREFIX, path))
}

/// The name of an archive's entry without a leading `./` and then without the
/// name of the Mod's directory.
pub open spec fn entry_relative(name: Seq<char>) -> Seq<char> {
    let start = match stripped(name, "./"@) {
        Some(rest) => rest,
        None => name,
    };
    match stripped(start, "mod/"@) {
        Some(rest) => rest,
        None => match stripped(start, MOD_PREFIX@) {
            Some(rest) => rest,
            None => start,
        },
    }
}

/// A path that stays inside the directory that it is joined to: not empty, not
/// rooted, without backslash, empty piece or `..`.
pub open spec fn stays_inside(relative: Seq<char>) -> bool {
    &&& relative.len() > 0
    &&& !"/"@.is_prefix_of(relative)
    &&& !relative.contains('\\')
    &&& !split(relative, '/').contains(Seq::empty())
    &&& !split(relative, '/').contains(".."@)
}

/// The path inside the Mod's directory of an archive's entry; none where it
/// could leave the directory or may not be installed.
pub open spec fn archived(name: Seq<char>) -> Option<Seq<char>> {
    let relative = entry_relative(name);
    if stays_inside(relative) && installable(MOD_PREFIX@ + relative) {
        Some(relative)
    } else {
        None
    }
}

/// The path inside the Mod's directory of an archive's entry.
pub fn safe_archive_relative_path(path: &str) -> (r: Option<&str>)
    ensures
        slice_text(r) == archived(path@),
{
    let start = match strip_prefix(path, "./") {
        Some(rest) => rest,
        None => path,
    };
    let relative = match strip_prefix(start, "mod/") {
        Some(rest) => rest,
        None => match strip_prefix(start, MOD_PREFIX) {
            Some(rest) => rest,
            None => start,
        },
    };
    proof {
        reveal_strlit("");
        assert(""@ =~= Seq::empty());
    }
    if relative.is_empty() || starts_with(relative, "/") || contains_char(relative, '\\')
        || has_piece(relative, '/', "") || has_piece(relative, '/', "..") {
        return None;
    }
    if allowed_mod_relative_path(relative) {
        Some(relative)
    } else {
        None
    }
}

/// Why an archive is not accepted; none where it is.
pub open spec fn archive_refusal(
    remote_ref: Seq<char>,
    url: Seq<char>,
    filename: Seq<char>,
    platform: Platform,
) -> Option<Seq<char>> {
    if !commit_name(remote_ref) {
        Some("更新版本識別碼格式錯誤"@)
    } else if !GITHUB_RELEASE_DOWNLOAD_PREFIX@.is_prefix_of(url) {
        Some("拒絕非 GitHub Releases 的 Mod 更新下載網址"@)
    } else if !is_file_name(platform, filename) {
        Some("Mod 更新檔名無效"@)
    } else if !".zip"@.is_suffix_of(ascii_lowercase(filename)) {
        Some("Mod 更新檔案必須是 ZIP"@)
    } else {
        None
    }
}

/// Whether an archive is accepted: a ZIP file of this project's releases, under
/// a plain file name, for a version that a commit names.
pub fn validate_archive_request(
    remote_ref: &str,
    url: &str,
    filename: &str,
    platform: Platform,
) -> (r: Result<(), String>)
    ensures
        match archive_refusal(remote_ref@, url@, filename@, platform) {
            None => r is Ok,
            Some(why) => r matches Err(e) && e@ == why,
        },
{
    if !is_sha(remote_ref) {
        return Err("更新版本識別碼格式錯誤".to_owned());
    }
    if !starts_with(url, GITHUB_RELEASE_DOWNLOAD_PREFIX) {
        return Err("拒絕非 GitHub Releases 的 Mod 更新下載網址".to_owned());
    }
    if !is_whole_file_name(platform, filename) {
        return Err("Mod 更新檔名無效".to_owned());
    }
    if !ends_with(&to_ascii_lowercase(filename), ".zip") {
        return Err("Mod 更新檔案必須是 ZIP".to_owned());
    }
    Ok(())
}

/// A file of an update, with its path inside the Mod's directory.
pub struct StagedFile {
    pub relative: String,
    pub data: Vec<u8>,
}

/// The path and the data of a file.
pub open spec fn file_view(file: StagedFile) -> (Seq<char>, Seq<u8>) {
    (file.relative@, file.data@)
}

/// The paths and the data of several files.
pub open spec fn file_views(files: Seq<StagedFile>) -> Seq<(Seq<char>, Seq<u8>)> {
    files.map_values(|file: StagedFile| file_view(file))
}

/// The entry with this name is a directory.
pub open spec fn directory_entry(name: Seq<char>) -> bool {
    name.len() > 0 && (name.last() == '/' || name.last() == '\\')
}

/// The path under which an entry is kept, none for a directory, or the message
/// that refuses the whole archive.
pub open spec fn entry_verdict(name: Seq<char>, is_dir: bool, size: u64) -> Result<
    Option<Seq<char>>,
    Seq<char>,
> {
    if is_dir {
        Ok(None)
    } else {
        match archived(name) {
            None => Err("Mod 更新包含不允許的路徑："@ + name),
            Some(relative) => if size > MAX_FILE_SIZE {
                Err("Mod 更新檔案過大："@ + relative)
            } else {
                Ok(Some(relative))
            },
        }
    }
}

/// The path under which an entry is kept, none for a directory, or the message
/// that refuses the whole archive.
pub fn judge_archive_entry(name: &str, is_dir: bool, size: u64) -> (r: Result<
    Option<String>,
    String,
>)
    ensures
        match entry_verdict(name@, is_dir, size) {
            Ok(kept) => r matches Ok(k) && string_text(k) == kept,
            Err(why) => r matches Err(e) && e@ == why,
        },
{
    if is_dir {
        return Ok(None);
    }
    match safe_archive_relative_path(name) {
        None => Err(joined("Mod 更新包含不允許的路徑：", name)),
        Some(relative) => {
            if size > MAX_FILE_SIZE {
                Err(joined("Mod 更新檔案過大：", relative))
            } else {
                Ok(Some(relative.to_owned()))
            }
        },
    }
}

/// What an entry of an archive contributes: a file, nothing, or the message that
/// refuses the whole archive.
pub open spec fn entry_file(
    entry: (Result<(Seq<char>, u64), Seq<char>>, Result<Seq<u8>, Seq<char>>),
) -> Result<Option<(Seq<char>, Seq<u8>)>, Seq<char>> {
    match entry.0 {
        Err(e) => Err("讀取 Mod 更新項目失敗："@ + e),
        Ok((name, size)) => match entry_verdict(name, directory_entry(name), size) {
            Err(why) => Err(why),
            Ok(None) => Ok(None),
            Ok(Some(relative)) => match entry.1 {
                Ok(data) => Ok(Some((relative, data))),
                Err(e) => Err(e),
            },
        },
    }
}

/// The files of an archive with the given entries, or the message about the
/// first entry that is refused.
pub open spec fn entry_files(
    entries: Seq<(Result<(Seq<char>, u64), Seq<char>>, Result<Seq<u8>, Seq<char>>)>,
) -> Result<Seq<(Seq<char>, Seq<u8>)>, Seq<char>>
    decreases entries.len(),
{
    if entries.len() == 0 {
        Ok(Seq::empty())
    } else {
        match entry_files(entries.drop_last()) {
            Err(why) => Err(why),
            Ok(files) => match entry_file(entries.last()) {
                Err(why) => Err(why),
                Ok(None) => Ok(files),
                Ok(Some(file)) => Ok(files.push(file)),
            },
        }
    }
}

/// One of the files is the main bundle.
pub open spec fn has_main_bundle(files: Seq<(Seq<char>, Seq<u8>)>) -> bool {
    exists|i: int| 0 <= i < files.len() && (#[trigger] files[i]).0 == MAIN_BUNDLE@
}

/// The files of the archive with the given bytes, or the message that refuses
/// it.
pub open spec fn archive_files(bytes: Seq<u8>) -> Result<Seq<(Seq<char>, Seq<u8>)>, Seq<char>> {
    match zip_entries(bytes) {
        Err(e) => Err("Mod 更新壓縮檔格式錯誤："@ + e),
        Ok(entries) => match entry_files(entries) {
            Err(why) => Err(why),
            Ok(files) => if has_main_bundle(files) {
                Ok(files)
            } else {
                Err("Mod 更新內容缺少 main.bundle.js"@)
            },
        },
    }
}

/// Whether one of the files is the main bundle.
pub fn contains_main_bundle(files: &Vec<StagedFile>) -> (r: bool)
    ensures
        r == has_main_bundle(file_views(files@)),
{
    let ghost views = file_views(files@);
    let mut i: usize = 0;
    while i < files.len()
        invariant
            i <= files.len(),
            views == file_views(files@),
            forall|j: int| 0 <= j < i ==> (#[trigger] views[j]).0 != MAIN_BUNDLE@,
        decreases files.len() - i,
    {
        assert(views[i as int].0 == files[i as int].relative@);
        if same_text(&files[i].relative, MAIN_BUNDLE) {
            return true;
        }
        i += 1;
    }
    false
}

/// The files that the archive with the given bytes holds.
pub fn unpack_archive(bytes: Vec<u8>) -> (r: Result<Vec<StagedFile>, String>)
    ensures
        match archive_files(bytes@) {
            Ok(files) => r matches Ok(f) && file_views(f@) == files,
            Err(why) => r matches Err(e) && e@ == why,
        },
{
    let mut archive = match open_archive(bytes) {
        Ok(archive) => archive,
        Err(e) => {
            return Err(joined("Mod 更新壓縮檔格式錯誤：", &e));
        },
    };
    let ghost entries = archive_entries(archive);
    let count = archive_len(&archive);
    let mut files: Vec<StagedFile> = Vec::new();
    let mut index: usize = 0;
    assert(file_views(files@) =~= Seq::empty());
    assert(entries.take(0) =~= Seq::empty());
    while index < count
        invariant
            index <= count,
            count == entries.len(),
            zip_entries(bytes@) == Ok::<_, Seq<char>>(entries),
            archive_entries(archive) == entries,
            entry_files(entries.take(index as int)) == Ok::<_, Seq<char>>(file_views(files@)),
        decreases count - index,
    {
        proof {
            let upto = entries.take(index + 1);
            assert(upto.drop_last() =~= entries.take(index as int));
            assert(upto.last() == entries[index as int]);
            lemma_refusal_stays(entries, index + 1);
        }
        let (name, size, is_dir) = match archive_entry(&mut archive, index) {
            Ok(entry) => entry,
            Err(e) => {
                return Err(joined("讀取 Mod 更新項目失敗：", &e));
            },
        };
        match judge_archive_entry(&name, is_dir, size) {
            Err(e) => {
                return Err(e);
            },
            Ok(None) => {},
            Ok(Some(relative)) => {
                let data = match archive_data(&mut archive, index) {
                    Ok(data) => data,
                    Err(e) => {
                        return Err(e);
                    },
                };
                let ghost before = files@;
                files.push(StagedFile { relative, data });
                assert(file_views(files@) =~= file_views(before).push((relative@, data@)));
            },
        }
        index += 1;
    }
    assert(entries.take(count as int) =~= entries);
    if contains_main_bundle(&files) {
        Ok(files)
    } else {
        Err("Mod 更新內容缺少 main.bundle.js".to_owned())
    }
}

/// An entry that is refused refuses the archive.
proof fn lemma_refusal_stays(
    entries: Seq<(Result<(Seq<char>, u64), Seq<char>>, Result<Seq<u8>, Seq<char>>)>,
    n: int,
)
    requires
        0 <= n <= entries.len(),
    ensures
        entry_files(entries.take(n)) matches Err(why) ==> entry_files(entries) == Err::<
            Seq<(Seq<char>, Seq<u8>)>,
            _,
        >(why),
    decreases entries.len() - n,
{
    if n < entries.len() {
        assert(entries.drop_last().take(n) =~= entries.take(n));
        lemma_refusal_stays(entries.drop_last(), n);
    } else {
        assert(entries.take(n) =~= entries);
    }
}

/// Every file that is unpacked may be installed and stays inside the Mod's
/// directory, and the main bundle is among them.
pub proof fn law_unpacked_files_are_safe(bytes: Seq<u8>)
    requires
        archive_files(bytes) is Ok,
    ensures
        has_main_bundle(archive_files(bytes)->Ok_0),
        forall|i: int|
            0 <= i < archive_files(bytes)->Ok_0.len() ==> {
                let relative = (#[trigger] archive_files(bytes)->Ok_0[i]).0;
                stays_inside(relative) && installable(MOD_PREFIX@ + relative)
            },
{
    lemma_kept_entries_are_safe(zip_entries(bytes)->Ok_0);
}

proof fn lemma_kept_entries_are_safe(
    entries: Seq<(Result<(Seq<char>, u64), Seq<char>>, Result<Seq<u8>, Seq<char>>)>,
)
    requires
        entry_files(entries) is Ok,
    ensures
        forall|i: int|
            0 <= i < entry_files(entries)->Ok_0.len() ==> {
                let relative = (#[trigger] entry_files(entries)->Ok_0[i]).0;
                stays_inside(relative) && installable(MOD_PREFIX@ + relative)
            },
    decreases entries.len(),
{
    if entries.len() > 0 {
        lemma_kept_entries_are_safe(entries.drop_last());
    }
}

/// The paths of the files of an update, which are expected to be there once it
/// is applied.
pub fn staged_paths(files: &Vec<StagedFile>) -> (r: Vec<String>)
    ensures
        texts(r@) == file_views(files@).map_values(|file: (Seq<char>, Seq<u8>)| file.0),
{
    let ghost expected = file_views(files@).map_values(|file: (Seq<char>, Seq<u8>)| file.0);
    let mut out: Vec<String> = Vec::new();
    let mut i: usize = 0;
    while i < files.len()
        invariant
            i <= files.len(),
            expected == file_views(files@).map_values(|file: (Seq<char>, Seq<u8>)| file.0),
            out.len() == i,
            forall|j: int| 0 <= j < i ==> (#[trigger] out@[j])@ == expected[j],
        decreases files.len() - i,
    {
        out.push(files[i].relative.clone());
        i += 1;
    }
    assert(texts(out@) =~= expected);
    out
}

/// A file or directory of the repository.
pub struct TreeEntry {
    pub path: String,
    pub entry_type: String,
    pub size: Option<u64>,
}

/// The files of a version of the repository; `truncated` where the list is not
/// complete.
pub struct TreeResponse {
    pub tree: Vec<TreeEntry>,
    pub truncated: bool,
}

/// The entry is a file that an update installs.
pub open spec fn is_update_file(entry: TreeEntry) -> bool {
    entry.entry_type@ == "blob"@ && installable(entry.path@)
}

/// The paths of the files that an update installs, in the order of the tree.
pub open spec fn update_paths(tree: Seq<TreeEntry>) -> Seq<Seq<char>>
    decreases tree.len(),
{
    if tree.len() == 0 {
        Seq::empty()
    } else if is_update_file(tree.last()) {
        update_paths(tree.drop_last()).push(tree.last().path@)
    } else {
        update_paths(tree.drop_last())
    }
}

/// A file that an update installs is too large.
pub open spec fn oversized(entry: TreeEntry) -> bool {
    is_update_file(entry) && (entry.size matches Some(size) && size > MAX_FILE_SIZE)
}

/// The first file that is too large stands at position `i`.
pub open spec fn first_oversized(tree: Seq<TreeEntry>, i: int) -> bool {
    &&& 0 <= i < tree.len()
    &&& oversized(tree[i])
    &&& forall|j: int| 0 <= j < i ==> !oversized(#[trigger] tree[j])
}

/// The full path of the main bundle in the repository.
pub open spec fn main_bundle_path() -> Seq<char> {
    "web/mod/js/main.bundle.js"@
}

/// The files of the repository that an update installs, or the message that
/// refuses it: an incomplete list, one without the main bundle, or one with a
/// file that is too large.
pub fn plan_tree_update(response: &TreeResponse) -> (r: Result<Vec<String>, String>)
    ensures
        if response.truncated {
            r matches Err(e) && e@ == "GitHub 檔案清單過大，取消更新以避免不完整安裝"@
        } else if !update_paths(response.tree@).contains(main_bundle_path()) {
            r matches Err(e) && e@ == "更新內容缺少 main.bundle.js"@
        } else if exists|i: int| first_oversized(response.tree@, i) {
            r matches Err(e) && exists|i: int|
                #[trigger] first_oversized(response.tree@, i) && e@ == "更新檔案過大："@
                    + response.tree@[i].path@
        } else {
            r matches Ok(paths) && texts(paths@) == update_paths(response.tree@)
        },
{
    if response.truncated {
        return Err("GitHub 檔案清單過大，取消更新以避免不完整安裝".to_owned());
    }
    let tree = &response.tree;
    let mut paths: Vec<String> = Vec::new();
    let mut main = false;
    let mut large: Option<usize> = None;
    let mut i: usize = 0;
    assert(texts(paths@) =~= Seq::empty());
    assert(tree@.take(0) =~= Seq::empty());
    while i < tree.len()
        invariant
            i <= tree.len(),
            texts(paths@) == update_paths(tree@.take(i as int)),
            main == texts(paths@).contains(main_bundle_path()),
            match large {
                Some(at) => at < i && first_oversized(tree@, at as int),
                None => forall|j: int| 0 <= j < i ==> !oversized(#[trigger] tree@[j]),
            },
        decreases tree.len() - i,
    {
        let entry = &tree[i];
        proof {
            assert(tree@.take(i + 1).drop_last() =~= tree@.take(i as int));
            assert(tree@.take(i + 1).last() == entry);
        }
        if same_text(&entry.entry_type, "blob") && allowed_path(&entry.path) {
            let ghost before = paths@;
            paths.push(entry.path.clone());
            proof {
                assert(texts(paths@) =~= texts(before).push(entry.path@));
                let now = texts(paths@);
                assert(now.last() == entry.path@);
                assert forall|p: Seq<char>| now.contains(p) == (texts(before).contains(p) || p
                    == entry.path@) by {
                    if texts(before).contains(p) {
                        let k = choose|k: int| 0 <= k < texts(before).len() && texts(before)[k] == p;
                        assert(now[k] == p);
                    }
                    if now.contains(p) {
                        let k = choose|k: int| 0 <= k < now.len() && now[k] == p;
                        if k < texts(before).len() {
                            assert(texts(before)[k] == p);
                        }
                    }
                }
            }
            if same_text(&entry.path, "web/mod/js/main.bundle.js") {
                main = true;
            }
            if large.is_none() {
                match entry.size {
                    Some(size) => {
                        if size > MAX_FILE_SIZE {
                            assert(oversized(tree@[i as int]));
                            large = Some(i);
                        }
                    },
                    None => {},
                }
            }
        }
        i += 1;
    }
    assert(tree@.take(i as int) =~= tree@);
    if !main {
        return Err("更新內容缺少 main.bundle.js".to_owned());
    }
    match large {
        Some(at) => {
            assert(first_oversized(response.tree@, at as int));
            Err(joined("更新檔案過大：", &tree[at].path))
        },
        None => Ok(paths),
    }
}

/// Every file of a planned update may be installed.
pub proof fn law_planned_files_are_installable(tree: Seq<TreeEntry>)
    ensures
        forall|i: int|
            0 <= i < update_paths(tree).len() ==> installable(#[trigger] update_paths(tree)[i]),
    decreases tree.len(),
{
    if tree.len() > 0 {
        let before = update_paths(tree.drop_last());
        law_planned_files_are_installable(tree.drop_last());
        assert forall|i: int| 0 <= i < update_paths(tree).len() implies installable(
            #[trigger] update_paths(tree)[i],
        ) by {
            if i < before.len() {
                assert(installable(before[i]));
            }
        }
    }
}

/// Where a file of the repository is downloaded from and where it is staged.
pub struct TreeFile {
    pub relative: String,
    pub url: String,
}

/// Where a file of the repository is downloaded from and where it is staged,
/// or the message that refuses its path.
pub fn stage_tree_file(path: &str, remote_ref: &str) -> (r: Result<TreeFile, String>)
    ensures
        match inside_mod(path@) {
            Some(relative) => r matches Ok(file) && file.relative@ == relative && file.url@
                == RAW_BASE@ + "/"@ + remote_ref@ + "/"@ + path@,
            None => r matches Err(e) && e@ == "不安全的更新路徑："@ + path@,
        },
{
    match safe_relative_path(path) {
        Some(relative) => {
            let mut url = joined(RAW_BASE, "/");
            url.append(remote_ref);
            url.append("/");
            url.append(path);
            Ok(TreeFile { relative: relative.to_owned(), url })
        },
        None => Err(joined("不安全的更新路徑：", path)),
    }
}

/// The paths inside the Mod's directory of files of the repository.
pub open spec fn tree_relatives(paths: Seq<Seq<char>>) -> Seq<Seq<char>> {
    paths.filter_map(|path: Seq<char>| inside_mod(path))
}

/// The paths inside the Mod's directory of the files of a planned update, which
/// are expected to be there once it is applied.
pub fn expected_paths(paths: &Vec<String>) -> (r: Vec<String>)
    ensures
        texts(r@) == tree_relatives(texts(paths@)),
{
    let ghost all = texts(paths@);
    let ghost f = |path: Seq<char>| inside_mod(path);
    let mut out: Vec<String> = Vec::new();
    let mut i: usize = 0;
    assert(texts(out@) =~= Seq::empty());
    assert(all.take(0).filter_map(f) =~= Seq::empty());
    while i < paths.len()
        invariant
            i <= paths.len(),
            all == texts(paths@),
            f == (|path: Seq<char>| inside_mod(path)),
            texts(out@) == all.take(i as int).filter_map(f),
        decreases paths.len() - i,
    {
        assert(all.take(i + 1).drop_last() =~= all.take(i as int));
        assert(all.take(i + 1).last() == paths[i as int]@);
        match safe_relative_path(&paths[i]) {
            Some(relative) => {
                let ghost before = out@;
                out.push(relative.to_owned());
                assert(texts(out@) =~= texts(before) + seq![relative@]);
            },
            None => {},
        }
        i += 1;
    }
    assert(all.take(i as int) =~= all);
    out
}

/// Whether a downloaded file is within the limit, before it is read (by the
/// length that the server gives, if any) and after.
pub fn check_file_size(path: &str, size: Option<u64>) -> (r: Result<(), String>)
    ensures
        if size matches Some(n) && n > MAX_FILE_SIZE {
            r matches Err(e) && e@ == "更新檔案過大："@ + path@
        } else {
            r is Ok
        },
{
    match size {
        Some(n) => if n > MAX_FILE_SIZE {
            Err(joined("更新檔案過大：", path))
        } else {
            Ok(())
        },
        None => Ok(()),
    }
}

/// Whether a downloaded archive is within the limit, before it is read (by the
/// length that the server gives, if any) and after.
pub fn check_archive_size(size: Option<u64>) -> (r: Result<(), String>)
    ensures
        if size matches Some(n) && n > MAX_ARCHIVE_SIZE {
            r matches Err(e) && e@ == "Mod 更新壓縮檔過大"@
        } else {
            r is Ok
        },
{
    match size {
        Some(n) => if n > MAX_ARCHIVE_SIZE {
            Err("Mod 更新壓縮檔過大".to_owned())
        } else {
            Ok(())
        },
        None => Ok(()),
    }
}

/// A file in the Mod's script directory that the applied update does not hold
/// any more.
pub open spec fn stale(name: Seq<char>, expected: Seq<Seq<char>>) -> bool {
    &&& ".bundle.js"@.is_suffix_of(name) || ".LICENSE.txt"@.is_suffix_of(name)
    &&& !expected.contains("js/"@ + name)
}

/// Whether an entry of the Mod's script directory is removed: a bundle or a
/// licence that is not among the `expected` paths of the update.
pub fn is_stale_bundle(name: &str, is_file: bool, expected: &Vec<String>) -> (r: bool)
    ensures
        r == (is_file && stale(name@, texts(expected@))),
{
    if !is_file || !(ends_with(name, ".bundle.js") || ends_with(name, ".LICENSE.txt")) {
        return false;
    }
    let relative = joined("js/", name);
    let ghost paths = texts(expected@);
    let mut i: usize = 0;
    while i < expected.len()
        invariant
            i <= expected.len(),
            paths == texts(expected@),
            relative@ == "js/"@ + name@,
            forall|j: int| 0 <= j < i ==> paths[j] != relative@,
        decreases expected.len() - i,
    {
        assert(paths[i as int] == expected[i as int]@);
        if same_text(&expected[i], &relative) {
            return false;
        }
        i += 1;
    }
    true
}

/// How a download of the Mod is carried out.
pub enum ModDownload<'a> {
    /// From an archive of a release, under this file name.
    Archive { url: &'a str, filename: &'a str },
    /// File by file from the repository.
    Files,
}

/// How a download of the Mod is carried out: from an archive where one is
/// named, else file by file; or the message that refuses it.
pub fn download_and_install<'a>(
    remote_ref: &str,
    download_url: Option<&'a str>,
    filename: Option<&'a str>,
    platform: Platform,
) -> (r: Result<ModDownload<'a>, String>)
    ensures
        match (download_url, filename) {
            (Some(u), Some(f)) => match archive_refusal(remote_ref@, u@, f@, platform) {
                None => r == Ok::<ModDownload<'a>, String>(
                    ModDownload::Archive { url: u, filename: f },
                ),
                Some(why) => r matches Err(e) && e@ == why,
            },
            (None, Some(_)) => r matches Err(e) && e@ == "缺少 Mod 更新下載網址"@,
            (Some(_), None) => r matches Err(e) && e@ == "缺少 Mod 更新檔名"@,
            (None, None) => if commit_name(remote_ref@) {
                r == Ok::<ModDownload<'a>, String>(ModDownload::Files)
            } else {
                r matches Err(e) && e@ == "更新版本識別碼格式錯誤"@
            },
        },
{
    match download_url {
        Some(url) => match filename {
            Some(filename) => match validate_archive_request(remote_ref, url, filename, platform) {
                Ok(()) => Ok(ModDownload::Archive { url, filename }),
                Err(e) => Err(e),
            },
            None => Err("缺少 Mod 更新檔名".to_owned()),
        },
        None => match filename {
            Some(_) => Err("缺少 Mod 更新下載網址".to_owned()),
            None => if is_sha(remote_ref) {
                Ok(ModDownload::Files)
            } else {
                Err("更新版本識別碼格式錯誤".to_owned())
            },
        },
    }
}

/// The version of the Mod in use: the one that the last update recorded, where
/// it names a commit, else the bundled one.
pub open spec fn current_ref(recorded: Option<Seq<char>>, bundled: Seq<char>) -> Seq<char> {
    match recorded {
        Some(name) => if commit_name(name) {
            name
        } else {
            bundled
        },
        None => bundled,
    }
}

/// The version of the Mod in use.
pub fn local_ref(recorded: Option<String>, bundled: &str) -> (r: String)
    ensures
        r@ == current_ref(string_text(recorded), bundled@),
{
    match recorded {
        Some(name) => if is_sha(&name) {
            name
        } else {
            bundled.to_owned()
        },
        None => bundled.to_owned(),
    }
}

/// Whether the Mod has an update, and from where.
pub struct ModUpdateInfo {
    pub has_update: bool,
    pub current_ref: String,
    pub remote_ref: String,
    /// The archive and its file name, where a release holds one.
    pub archive: Option<(String, String)>,
    pub source: &'static str,
}

/// The Mod's part of the static description of the latest release.
pub struct StaticModUpdate {
    pub remote_ref: String,
    pub download_url: String,
    pub filename: String,
}

/// What is known of the Mod's update from the answer of the commits API;
/// `current` is the version in use, or the error that kept it from being found.
pub fn check_for_update_from_api(reply: Reply<String>, current: Result<String, String>) -> (r:
    Result<ModUpdateInfo, String>)
    ensures
        match reply {
            Reply::Unsent(e) => r == Err::<ModUpdateInfo, String>(e),
            Reply::Refused(e) => r == Err::<ModUpdateInfo, String>(e),
            Reply::Malformed(e) => r == Err::<ModUpdateInfo, String>(e),
            Reply::Document(sha) => if !commit_name(sha@) {
                r matches Err(e) && e@ == "GitHub 回傳的版本識別碼格式錯誤"@
            } else {
                match current {
                    Err(e) => r == Err::<ModUpdateInfo, String>(e),
                    Ok(local) => {
                        &&& r matches Ok(info)
                        &&& info.has_update == (local@ != sha@)
                        &&& info.current_ref@ == local@
                        &&& info.remote_ref@ == sha@
                        &&& info.archive is None
                        &&& info.source@ == "GitHub main"@
                        &&& consistent(info)
                    },
                }
            },
        },
{
    match reply {
        Reply::Unsent(e) => Err(e),
        Reply::Refused(e) => Err(e),
        Reply::Malformed(e) => Err(e),
        Reply::Document(sha) => {
            if !is_sha(&sha) {
                return Err("GitHub 回傳的版本識別碼格式錯誤".to_owned());
            }
            match current {
                Err(e) => Err(e),
                Ok(local) => Ok(
                    ModUpdateInfo {
                        has_update: !same_text(&local, &sha),
                        current_ref: local,
                        remote_ref: sha,
                        archive: None,
                        source: "GitHub main",
                    },
                ),
            }
        },
    }
}

/// What is known of the Mod's update from the static description of the latest
/// release, which may lack the Mod's part.
pub fn check_for_update_from_manifest(
    reply: Reply<Option<StaticModUpdate>>,
    current: Result<String, String>,
) -> (r: Result<ModUpdateInfo, String>)
    ensures
        match reply {
            Reply::Unsent(e) => r == Err::<ModUpdateInfo, String>(e),
            Reply::Refused(e) => r == Err::<ModUpdateInfo, String>(e),
            Reply::Malformed(e) => r == Err::<ModUpdateInfo, String>(e),
            Reply::Document(None) => r matches Err(e) && e@ == "靜態更新描述檔缺少 Mod 資訊"@,
            Reply::Document(Some(update)) => if !commit_name(update.remote_ref@) {
                r matches Err(e) && e@ == "靜態更新描述檔的 Mod 版本識別碼格式錯誤"@
            } else {
                match current {
                    Err(e) => r == Err::<ModUpdateInfo, String>(e),
                    Ok(local) => {
                        &&& r matches Ok(info)
                        &&& info.has_update == (local@ != update.remote_ref@)
                        &&& info.current_ref@ == local@
                        &&& info.remote_ref@ == update.remote_ref@
                        &&& info.archive == Some((update.download_url, update.filename))
                        &&& info.source@ == "GitHub Release update.json"@
                        &&& consistent(info)
                    },
                }
            },
        },
{
    match reply {
        Reply::Unsent(e) => Err(e),
        Reply::Refused(e) => Err(e),
        Reply::Malformed(e) => Err(e),
        Reply::Document(None) => Err("靜態更新描述檔缺少 Mod 資訊".to_owned()),
        Reply::Document(Some(update)) => {
            if !is_sha(&update.remote_ref) {
                return Err("靜態更新描述檔的 Mod 版本識別碼格式錯誤".to_owned());
            }
            match current {
                Err(e) => Err(e),
                Ok(local) => Ok(
                    ModUpdateInfo {
                        has_update: !same_text(&local, &update.remote_ref),
                        current_ref: local,
                        remote_ref: update.remote_ref,
                        archive: Some((update.download_url, update.filename)),
                        source: "GitHub Release update.json",
                    },
                ),
            }
        },
    }
}

/// An update is told exactly where the two versions differ, and the one on offer
/// is named by a commit.
pub open spec fn consistent(info: ModUpdateInfo) -> bool {
    info.has_update == (info.current_ref@ != info.remote_ref@) && commit_name(info.remote_ref@)
}

/// `value` is what is told of a check: whether there is an update, both
/// versions, the repository, where it was looked for, and the archive where
/// there is one.
pub open spec fn tells_check(value: Json, info: ModUpdateInfo) -> bool {
    &&& value is Object
    &&& flag_field(value, "hasUpdate"@) == Some(info.has_update)
    &&& text_field(value, "currentRef"@) == Some(info.current_ref@)
    &&& text_field(value, "remoteRef"@) == Some(info.remote_ref@)
    &&& text_field(value, "repository"@) == Some(REPOSITORY@)
    &&& text_field(value, "source"@) == Some(info.source@)
    &&& match info.archive {
        Some((url, filename)) => text_field(value, "downloadUrl"@) == Some(url@) && text_field(
            value,
            "filename"@,
        ) == Some(filename@),
        None => field(value, "downloadUrl"@) is None && field(value, "filename"@) is None,
    }
    &&& forall|key: Seq<char>| #[trigger]
        fields(value).contains_key(key) ==> {
            ||| key == "hasUpdate"@
            ||| key == "currentRef"@
            ||| key == "remoteRef"@
            ||| key == "repository"@
            ||| key == "source"@
            ||| key == "downloadUrl"@
            ||| key == "filename"@
        }
}

/// What is told of a check for an update of the Mod.
pub fn check_for_update(info: ModUpdateInfo) -> (r: Json)
    ensures
        tells_check(r, info),
{
    proof {
        reveal_strlit("hasUpdate");
        reveal_strlit("currentRef");
        reveal_strlit("remoteRef");
        reveal_strlit("repository");
        reveal_strlit("source");
        reveal_strlit("downloadUrl");
        reveal_strlit("filename");
        assert("source"@.len() < "filename"@.len() < "hasUpdate"@.len() < "currentRef"@.len()
            < "downloadUrl"@.len());
        assert("hasUpdate"@.len() == "remoteRef"@.len() && "hasUpdate"@[0] != "remoteRef"@[0]);
        assert("currentRef"@.len() == "repository"@.len() && "currentRef"@[0] != "repository"@[0]);
    }
    let mut object = JsonObject::new();
    object.insert("hasUpdate".to_owned(), Json::Bool(info.has_update));
    object.insert("currentRef".to_owned(), Json::Text(info.current_ref));
    object.insert("remoteRef".to_owned(), Json::Text(info.remote_ref));
    object.insert("repository".to_owned(), Json::Text(REPOSITORY.to_owned()));
    object.insert("source".to_owned(), Json::Text(info.source.to_owned()));
    match info.archive {
        Some((url, filename)) => {
            object.insert("downloadUrl".to_owned(), Json::Text(url));
            object.insert("filename".to_owned(), Json::Text(filename));
        },
        None => {},
    }
    Json::Object(object)
}

/// What is told of a check names this project's repository and a commit, and
/// tells an update exactly where that commit is not the one in use.
pub proof fn law_told_update_is_true(value: Json, info: ModUpdateInfo)
    requires
        tells_check(value, info),
        consistent(info),
    ensures
        text_field(value, "repository"@) == Some(REPOSITORY@),
        flag_field(value, "hasUpdate"@) == Some(
            text_field(value, "currentRef"@) != text_field(value, "remoteRef"@),
        ),
        text_field(value, "remoteRef"@) matches Some(name) && commit_name(name),
{
}

/// A version that has been installed is the one in use: the record that an
/// accepted update leaves is read back as it is, whatever the bundled version.
pub proof fn law_installed_version_is_current(installed: Seq<char>, bundled: Seq<char>)
    requires
        commit_name(installed),
    ensures
        current_ref(Some(installed), bundled) == installed,
{
}

/// An archive is accepted only for a version that a commit names, from the
/// releases of the repository, and under the name of a file.
pub proof fn law_accepted_version_is_a_commit(
    remote_ref: Seq<char>,
    url: Seq<char>,
    filename: Seq<char>,
    platform: Platform,
)
    requires
        archive_refusal(remote_ref, url, filename, platform) is None,
    ensures
        commit_name(remote_ref),
        is_file_name(platform, filename),
        GITHUB_RELEASE_DOWNLOAD_PREFIX@.is_prefix_of(url),
{
}

/// Whether the Mod of an earlier version, which lay among the application data,
/// is taken over: where no update is recorded at the new place, the old record
/// names a commit and the old main bundle is there. Gives the recorded version.
pub fn migrate_legacy_update_root(
    target_recorded: bool,
    legacy_record: Option<String>,
    legacy_main_bundle: bool,
) -> (r: Option<String>)
    ensures
        r == if !target_recorded && legacy_main_bundle && (legacy_record matches Some(name)
            && commit_name(name@)) {
            legacy_record
        } else {
            None
        },
{
    if target_recorded || !legacy_main_bundle {
        return None;
    }
    match legacy_record {
        Some(name) => if is_sha(&name) {
            Some(name)
        } else {
            None
        },
        None => None,
    }
}

/// What is done with an entry of the earlier Mod's directory; paths are relative
/// to that directory.
pub enum LegacyCopy {
    /// Look into the directory.
    Descend(String),
    /// Copy the file to the same relative path.
    Copy(String),
    Skip,
}

/// The relative path of an entry in the directory `relative`, which is empty
/// for the topmost one.
pub open spec fn child_path(relative: Seq<char>, name: Seq<char>) -> Seq<char> {
    if relative.len() == 0 {
        name
    } else {
        relative + "/"@ + name
    }
}

fn join_child(relative: &str, name: &str) -> (r: String)
    ensures
        r@ == child_path(relative@, name@),
{
    if relative.is_empty() {
        name.to_owned()
    } else {
        let mut path = joined(relative, "/");
        path.append(name);
        path
    }
}

/// What is done with the entry `name` of the directory `relative` when the
/// earlier Mod is taken over: directories are entered and files copied that an
/// update could have installed.
pub fn copy_legacy_mod_tree(relative: &str, name: &str, is_dir: bool, is_file: bool) -> (r:
    LegacyCopy)
    ensures
        if is_dir {
            r matches LegacyCopy::Descend(path) && path@ == child_path(relative@, name@)
        } else if is_file && installable(MOD_PREFIX@ + child_path(relative@, name@)) {
            r matches LegacyCopy::Copy(path) && path@ == child_path(relative@, name@)
        } else {
            r is Skip
        },
{
    let child = join_child(relative, name);
    if is_dir {
        LegacyCopy::Descend(child)
    } else if is_file && allowed_mod_relative_path(&child) {
        LegacyCopy::Copy(child)
    } else {
        LegacyCopy::Skip
    }
}

/// What is done with an entry of a staged directory; paths are relative to the
/// staging directory and to the destination alike.
pub enum StagedCopy {
    /// Make the directory in the destination and go on inside both.
    Descend(String),
    /// Copy the file to the same relative path.
    Copy(String),
}

/// What is done with the entry `name` of the staged directory `relative`: it
/// goes to the same relative path, so that subdirectories are preserved.
pub fn copy_staged_files(relative: &str, name: &str, is_dir: bool) -> (r: StagedCopy)
    ensures
        if is_dir {
            r matches StagedCopy::Descend(path) && path@ == child_path(relative@, name@)
        } else {
            r matches StagedCopy::Copy(path) && path@ == child_path(relative@, name@)
        },
{
    let child = join_child(relative, name);
    if is_dir {
        StagedCopy::Descend(child)
    } else {
        StagedCopy::Copy(child)
    }
}

/// The name of the directory in which an update is staged.
pub open spec fn staging_name(remote_ref: Seq<char>, process: nat, sequence: nat) -> Seq<char> {
    ".reversedfront-mod-staging-"@ + remote_ref + "-"@ + decimal(process) + "-"@ + decimal(sequence)
}

/// The name of the directory in which an update is staged.
pub fn staging_dir(remote_ref: &str, process: u32, sequence: u64) -> (r: String)
    ensures
        r@ == staging_name(remote_ref@, process as nat, sequence as nat),
{
    let mut name = joined(".reversedfront-mod-staging-", remote_ref);
    name.append("-");
    name.append(&decimal_text(process as u64));
    name.append("-");
    name.append(&decimal_text(sequence));
    name
}

/// Updates of different processes, and different updates of one process, are
/// staged in different directories.
pub proof fn law_staging_directories_are_distinct(
    remote_ref: Seq<char>,
    process: nat,
    sequence: nat,
    other_ref: Seq<char>,
    other_process: nat,
    other_sequence: nat,
)
    requires
        commit_name(remote_ref),
        commit_name(other_ref),
        (process, sequence) != (other_process, other_sequence),
    ensures
        staging_name(remote_ref, process, sequence) != staging_name(
            other_ref,
            other_process,
            other_sequence,
        ),
{
    let a = staging_name(remote_ref, process, sequence);
    let b = staging_name(other_ref, other_process, other_sequence);
    reveal_strlit("-");
    let head = ".reversedfront-mod-staging-"@.len() + remote_ref.len() + 1;
    if a == b {
        assert(a.skip(head as int) =~= decimal(process) + "-"@ + decimal(sequence));
        assert(b.skip(head as int) =~= decimal(other_process) + "-"@ + decimal(other_sequence));
        lemma_decimal_pair(process, sequence, other_process, other_sequence);
    }
}

/// The stages in which a staged update is applied, in their order.
#[derive(Clone, Copy, Debug, PartialEq, Eq, Structural)]
pub enum ApplyStage {
    /// Stage every file of the update.
    Stage,
    /// Take the lock that only one process may hold.
    Lock,
    /// Remove the bundles that the update does not hold any more.
    RemoveStale,
    /// Copy the staged files.
    Copy,
    /// Remove the staging directory.
    RemoveStaging,
    /// Record the version.
    Record,
    /// Release the lock.
    Unlock,
}

/// How applying an update goes on.
pub enum ApplyAction {
    Enter(ApplyStage),
    Done,
    Fail(String),
}

/// What follows on a stage: the next one, or the error that stopped it.
pub open spec fn apply_flow(stage: ApplyStage, outcome: Result<(), String>) -> ApplyAction {
    match outcome {
        Err(e) => ApplyAction::Fail(e),
        Ok(()) => match stage {
            ApplyStage::Stage => ApplyAction::Enter(ApplyStage::Lock),
            ApplyStage::Lock => ApplyAction::Enter(ApplyStage::RemoveStale),
            ApplyStage::RemoveStale => ApplyAction::Enter(ApplyStage::Copy),
            ApplyStage::Copy => ApplyAction::Enter(ApplyStage::RemoveStaging),
            ApplyStage::RemoveStaging => ApplyAction::Enter(ApplyStage::Record),
            ApplyStage::Record => ApplyAction::Enter(ApplyStage::Unlock),
            ApplyStage::Unlock => ApplyAction::Done,
        },
    }
}

/// The next action of applying an update.
pub fn apply_update(stage: ApplyStage, outcome: Result<(), String>) -> (r: ApplyAction)
    ensures
        r == apply_flow(stage, outcome),
{
    match outcome {
        Err(e) => ApplyAction::Fail(e),
        Ok(()) => match stage {
            ApplyStage::Stage => ApplyAction::Enter(ApplyStage::Lock),
            ApplyStage::Lock => ApplyAction::Enter(ApplyStage::RemoveStale),
            ApplyStage::RemoveStale => ApplyAction::Enter(ApplyStage::Copy),
            ApplyStage::Copy => ApplyAction::Enter(ApplyStage::RemoveStaging),
            ApplyStage::RemoveStaging => ApplyAction::Enter(ApplyStage::Record),
            ApplyStage::Record => ApplyAction::Enter(ApplyStage::Unlock),
            ApplyStage::Unlock => ApplyAction::Done,
        },
    }
}

/// How many stages lie before `stage`.
pub open spec fn apply_position(stage: ApplyStage) -> int {
    match stage {
        ApplyStage::Stage => 0,
        ApplyStage::Lock => 1,
        ApplyStage::RemoveStale => 2,
        ApplyStage::Copy => 3,
        ApplyStage::RemoveStaging => 4,
        ApplyStage::Record => 5,
        ApplyStage::Unlock => 6,
    }
}

/// The installed Mod is not touched before the update is staged as a whole and
/// the lock is held, and the version is recorded only once everything is
/// copied: each stage follows only on the success of the one before it, and a
/// failure stops the update.
pub proof fn law_update_is_applied_whole(stage: ApplyStage, outcome: Result<(), String>)
    ensures
        match apply_flow(stage, outcome) {
            ApplyAction::Enter(next) => outcome is Ok && apply_position(next) == apply_position(
                stage,
            ) + 1,
            ApplyAction::Done => outcome is Ok && stage == ApplyStage::Unlock,
            ApplyAction::Fail(e) => outcome == Err::<(), String>(e),
        },
{
}

/// What the message about a failed archive download begins with.
#[derive(Clone, Copy, Debug, PartialEq, Eq, Structural)]
pub enum ArchiveFetch {
    /// Sending the request, or the server's refusal.
    Request,
    /// Reading the archive.
    Read,
    /// Keeping it in the download directory.
    Save,
}

/// The message about a failed archive download.
pub fn archive_fetch_error(step: ArchiveFetch, error: &str) -> (r: String)
    ensures
        r@ == match step {
            ArchiveFetch::Request => "Mod 更新下載失敗："@,
            ArchiveFetch::Read => "讀取 Mod 更新失敗："@,
            ArchiveFetch::Save => "儲存 Mod 更新包失敗："@,
        } + error@,
{
    match step {
        ArchiveFetch::Request => joined("Mod 更新下載失敗：", error),
        ArchiveFetch::Read => joined("讀取 Mod 更新失敗：", error),
        ArchiveFetch::Save => joined("儲存 Mod 更新包失敗：", error),
    }
}

/// The next action after a step of keeping an archive: `outcome` holds, after
/// writing, whether a file of that name is there already, or the error's text.
pub fn save_download_file(stage: SaveStage, outcome: Result<bool, String>) -> (r: SaveAction)
    ensures
        r == match outcome {
            Ok(present) => match stage {
                SaveStage::Write => if present {
                    SaveAction::Enter(SaveStage::Remove)
                } else {
                    SaveAction::Enter(SaveStage::Rename)
                },
                SaveStage::Remove => SaveAction::Enter(SaveStage::Rename),
                SaveStage::Rename => SaveAction::Done,
            },
            Err(e) => SaveAction::Fail { remove_partial: stage == SaveStage::Rename, message: e },
        },
{
    match outcome {
        Ok(present) => match stage {
            SaveStage::Write => if present {
                SaveAction::Enter(SaveStage::Remove)
            } else {
                SaveAction::Enter(SaveStage::Rename)
            },
            SaveStage::Remove => SaveAction::Enter(SaveStage::Rename),
            SaveStage::Rename => SaveAction::Done,
        },
        Err(e) => SaveAction::Fail { remove_partial: stage == SaveStage::Rename, message: e },
    }
}

/// `value` is what is told of an update that was installed from an archive.
pub open spec fn tells_archive_install(
    value: Json,
    remote_ref: Seq<char>,
    filename: Seq<char>,
    download_path: Seq<char>,
) -> bool {
    &&& value is Object
    &&& flag_field(value, "updated"@) == Some(true)
    &&& text_field(value, "remoteRef"@) == Some(remote_ref)
    &&& text_field(value, "filename"@) == Some(filename)
    &&& text_field(value, "downloadPath"@) == Some(download_path)
    &&& text_field(value, "source"@) == Some("GitHub Release update.json"@)
    &&& flag_field(value, "restartRequired"@) == Some(true)
    &&& forall|key: Seq<char>| #[trigger]
        fields(value).contains_key(key) ==> {
            ||| key == "updated"@
            ||| key == "remoteRef"@
            ||| key == "filename"@
            ||| key == "downloadPath"@
            ||| key == "source"@
            ||| key == "restartRequired"@
        }
}

/// What is told of an update that was installed from an archive: the version,
/// and the archive with the path that it is kept under.
pub fn archive_install_report(remote_ref: &str, filename: &str, download_path: &str) -> (r: Json)
    ensures
        tells_archive_install(r, remote_ref@, filename@, download_path@),
{
    proof {
        reveal_strlit("updated");
        reveal_strlit("remoteRef");
        reveal_strlit("filename");
        reveal_strlit("downloadPath");
        reveal_strlit("source");
        reveal_strlit("restartRequired");
        assert("source"@.len() < "updated"@.len() < "filename"@.len() < "remoteRef"@.len()
            < "downloadPath"@.len() < "restartRequired"@.len());
    }
    let mut object = JsonObject::new();
    object.insert("updated".to_owned(), Json::Bool(true));
    object.insert("remoteRef".to_owned(), Json::Text(remote_ref.to_owned()));
    object.insert("filename".to_owned(), Json::Text(filename.to_owned()));
    object.insert("downloadPath".to_owned(), Json::Text(download_path.to_owned()));
    object.insert("source".to_owned(), Json::Text("GitHub Release update.json".to_owned()));
    object.insert("restartRequired".to_owned(), Json::Bool(true));
    Json::Object(object)
}

/// `value` is what is told of an update that was installed file by file.
pub open spec fn tells_file_install(value: Json, remote_ref: Seq<char>, count: u64) -> bool {
    &&& value is Object
    &&& flag_field(value, "updated"@) == Some(true)
    &&& text_field(value, "remoteRef"@) == Some(remote_ref)
    &&& field(value, "fileCount"@) == Some(Json::Number(JsonNumber::Unsigned(count)))
    &&& flag_field(value, "restartRequired"@) == Some(true)
    &&& forall|key: Seq<char>| #[trigger]
        fields(value).contains_key(key) ==> {
            ||| key == "updated"@
            ||| key == "remoteRef"@
            ||| key == "fileCount"@
            ||| key == "restartRequired"@
        }
}

/// What is told of an update that was installed file by file: the version and
/// the number of its files.
pub fn file_install_report(remote_ref: &str, paths: &Vec<String>) -> (r: Json)
    ensures
        tells_file_install(r, remote_ref@, paths@.len() as u64),
{
    proof {
        reveal_strlit("updated");
        reveal_strlit("remoteRef");
        reveal_strlit("fileCount");
        reveal_strlit("restartRequired");
        assert("updated"@.len() < "remoteRef"@.len() < "restartRequired"@.len());
        assert("remoteRef"@.len() == "fileCount"@.len() && "remoteRef"@[0] != "fileCount"@[0]);
    }
    let mut object = JsonObject::new();
    object.insert("updated".to_owned(), Json::Bool(true));
    object.insert("remoteRef".to_owned(), Json::Text(remote_ref.to_owned()));
    object.insert(
        "fileCount".to_owned(),
        Json::Number(JsonNumber::Unsigned(paths.len() as u64)),
    );
    object.insert("restartRequired".to_owned(), Json::Bool(true));
    Json::Object(object)
}

/// The version that the program is built with: the one that the build system
/// names, else git's; the fallback where that does not name a commit.
pub fn bundled_ref(github_sha: Option<String>, git_sha: Option<String>, fallback: &str) -> (r:
    String)
    ensures
        r@ == current_ref(
            string_text(
                if github_sha is Some {
                    github_sha
                } else {
                    git_sha
                },
            ),
            fallback@,
        ),
{
    match github_sha {
        Some(name) => local_ref(Some(name), fallback),
        None => local_ref(git_sha, fallback),
    }
}

/// No update installs a certificate, a configuration file or `RFcity.yaml`, nor
/// anything outside the Mod's script and data directories.
pub proof fn law_private_files_are_never_installed(path: Seq<char>)
    ensures
        installable(path) ==> {
            &&& "web/mod/js/"@.is_prefix_of(path) || "web/mod/data/"@.is_prefix_of(path)
            &&& !".pfx"@.is_suffix_of(path)
            &&& !"config.json"@.is_suffix_of(path)
            &&& !"RFcity.yaml"@.is_suffix_of(path)
        },
{
}

/// Of the name of an archive's entry one root is dropped and no more: what
/// stands behind `mod/` or `web/mod/` is kept as it is, with `./` in front of the
/// root or without.
pub proof fn law_one_archive_root_is_dropped(rest: Seq<char>)
    ensures
        entry_relative("mod/"@ + rest) == rest,
        entry_relative(MOD_PREFIX@ + rest) == rest,
        entry_relative("./"@ + ("mod/"@ + rest)) == rest,
        entry_relative("./"@ + (MOD_PREFIX@ + rest)) == rest,
{
    reveal_strlit("./");
    reveal_strlit("mod/");
    reveal_strlit("web/mod/");
    let below_mod = "mod/"@ + rest;
    let below_web = MOD_PREFIX@ + rest;
    assert(MOD_PREFIX@ == "web/mod/"@);
    assert(below_mod.subrange(0, 2)[0] == 'm');
    assert(below_web.subrange(0, 2)[0] == 'w');
    assert(below_web.subrange(0, 4)[0] == 'w');
    assert(!"./"@.is_prefix_of(below_mod));
    assert(!"./"@.is_prefix_of(below_web));
    assert(!"mod/"@.is_prefix_of(below_web));
    assert(below_mod.subrange(0, 4) =~= "mod/"@);
    assert(below_web.subrange(0, 8) =~= "web/mod/"@);
    assert(below_mod.skip(4) =~= rest);
    assert(below_web.skip(8) =~= rest);
    let dot_mod = "./"@ + below_mod;
    let dot_web = "./"@ + below_web;
    assert(dot_mod.subrange(0, 2) =~= "./"@);
    assert(dot_web.subrange(0, 2) =~= "./"@);
    assert(dot_mod.skip(2) =~= below_mod);
    assert(dot_web.skip(2) =~= below_web);
}

/// A path inside the Mod's directory is accepted from an archive alike whether
/// the archive holds it bare, below `mod/` or below `web/mod/`, each with `./` in
/// front or without.
pub proof fn law_archive_roots_are_equivalent(relative: Seq<char>)
    requires
        archived(relative) == Some(relative),
    ensures
        archived("./"@ + relative) == Some(relative),
        archived("mod/"@ + relative) == Some(relative),
        archived(MOD_PREFIX@ + relative) == Some(relative),
        archived("./"@ + ("mod/"@ + relative)) == Some(relative),
        archived("./"@ + (MOD_PREFIX@ + relative)) == Some(relative),
{
    law_one_archive_root_is_dropped(relative);
    lemma_dot_is_dropped(relative);
    lemma_same_entry("./"@ + relative, relative);
    lemma_same_entry("mod/"@ + relative, relative);
    lemma_same_entry(MOD_PREFIX@ + relative, relative);
    lemma_same_entry("./"@ + ("mod/"@ + relative), relative);
    lemma_same_entry("./"@ + (MOD_PREFIX@ + relative), relative);
}

proof fn lemma_dot_is_dropped(relative: Seq<char>)
    requires
        entry_relative(relative) == relative,
    ensures
        entry_relative("./"@ + relative) == relative,
{
    reveal_strlit("./");
    let dotted = "./"@ + relative;
    assert(dotted.subrange(0, 2) =~= "./"@);
    assert(dotted.skip(2) =~= relative);
    lemma_one_root(relative);
}

/// A name that is its own path begins with no root.
proof fn lemma_one_root(relative: Seq<char>)
    requires
        entry_relative(relative) == relative,
    ensures
        stripped(relative, "./"@) is None,
        stripped(relative, "mod/"@) is None,
        stripped(relative, MOD_PREFIX@) is None,
{
    reveal_strlit("./");
    reveal_strlit("mod/");
    reveal_strlit("web/mod/");
}

/// Whether an entry is accepted depends on its path inside the Mod alone.
proof fn lemma_same_entry(name: Seq<char>, relative: Seq<char>)
    requires
        entry_relative(name) == relative,
        archived(relative) == Some(relative),
    ensures
        archived(name) == Some(relative),
{
    let inner = entry_relative(relative);
    assert(inner == relative);
}

/// A file that an accepted update holds is never removed as stale, nor is any
/// file that is neither a bundle nor a licence.
pub proof fn law_expected_files_are_kept(name: Seq<char>, expected: Seq<Seq<char>>)
    ensures
        expected.contains("js/"@ + name) ==> !stale(name, expected),
        !".bundle.js"@.is_suffix_of(name) && !".LICENSE.txt"@.is_suffix_of(name) ==> !stale(
            name,
            expected,
        ),
{
}

/// A path of the repository that is accepted stays inside the Mod's directory.
pub proof fn law_repository_paths_stay_inside(path: Seq<char>)
    requires
        inside_mod(path) is Some,
    ensures
        path == MOD_PREFIX@ + inside_mod(path)->0,
        !occurs(".."@, inside_mod(path)->0),
        !inside_mod(path)->0.contains('\\'),
        !"/"@.is_prefix_of(inside_mod(path)->0),
{
    let relative = inside_mod(path)->0;
    assert(path =~= MOD_PREFIX@ + relative);
}

/// Every compiled bundle below the Mod's scripts, the main one and the split ones
/// alike, may be installed, and so may every licence beside it, in whatever
/// directory below.
pub proof fn law_every_bundle_is_installed(name: Seq<char>)
    ensures
        installable("web/mod/js/"@ + name + ".bundle.js"@),
        installable("web/mod/js/"@ + name + ".LICENSE.txt"@),
{
    reveal_strlit(".bundle.js");
    reveal_strlit(".LICENSE.txt");
    reveal_strlit(".pfx");
    reveal_strlit("config.json");
    reveal_strlit("RFcity.yaml");
    let bundle = "web/mod/js/"@ + name + ".bundle.js"@;
    let licence = "web/mod/js/"@ + name + ".LICENSE.txt"@;
    lemma_framed("web/mod/js/"@, name, ".bundle.js"@);
    lemma_framed("web/mod/js/"@, name, ".LICENSE.txt"@);
    lemma_not_suffix(".pfx"@, ".bundle.js"@, bundle, 1);
    lemma_not_suffix("config.json"@, ".bundle.js"@, bundle, 1);
    lemma_not_suffix("RFcity.yaml"@, ".bundle.js"@, bundle, 1);
    lemma_not_suffix(".pfx"@, ".LICENSE.txt"@, licence, 1);
    lemma_not_suffix("config.json"@, ".LICENSE.txt"@, licence, 1);
    lemma_not_suffix("RFcity.yaml"@, ".LICENSE.txt"@, licence, 1);
}

/// Every data file of the Mod may be installed but a configuration and
/// `RFcity.yaml`.
pub proof fn law_every_data_file_is_installed(name: Seq<char>)
    ensures
        !"RFcity.yaml"@.is_suffix_of("web/mod/data/"@ + name + ".yaml"@) ==> installable(
            "web/mod/data/"@ + name + ".yaml"@,
        ),
        installable("web/mod/data/"@ + name + ".yml"@),
        installable("web/mod/data/"@ + name + ".svg"@),
        !"config.json"@.is_suffix_of("web/mod/data/"@ + name + ".json"@) ==> installable(
            "web/mod/data/"@ + name + ".json"@,
        ),
{
    reveal_strlit(".yaml");
    reveal_strlit(".yml");
    reveal_strlit(".svg");
    reveal_strlit(".json");
    reveal_strlit(".pfx");
    reveal_strlit("config.json");
    reveal_strlit("RFcity.yaml");
    let head = "web/mod/data/"@;
    lemma_framed(head, name, ".yaml"@);
    lemma_framed(head, name, ".yml"@);
    lemma_framed(head, name, ".svg"@);
    lemma_framed(head, name, ".json"@);
    lemma_not_suffix(".pfx"@, ".yaml"@, head + name + ".yaml"@, 1);
    lemma_not_suffix("config.json"@, ".yaml"@, head + name + ".yaml"@, 1);
    lemma_not_suffix(".pfx"@, ".yml"@, head + name + ".yml"@, 1);
    lemma_not_suffix("config.json"@, ".yml"@, head + name + ".yml"@, 1);
    lemma_not_suffix("RFcity.yaml"@, ".yml"@, head + name + ".yml"@, 3);
    lemma_not_suffix(".pfx"@, ".svg"@, head + name + ".svg"@, 1);
    lemma_not_suffix("config.json"@, ".svg"@, head + name + ".svg"@, 1);
    lemma_not_suffix("RFcity.yaml"@, ".svg"@, head + name + ".svg"@, 1);
    lemma_not_suffix(".pfx"@, ".json"@, head + name + ".json"@, 1);
    lemma_not_suffix("RFcity.yaml"@, ".json"@, head + name + ".json"@, 1);
}

/// A commit is named by forty digits, of which those above nine are letters from
/// `a` to `f` in either case.
pub proof fn law_commit_is_forty_hexadecimal_digits(s: Seq<char>)
    ensures
        commit_name(s) <==> s.len() == 40 && forall|i: int|
            0 <= i < s.len() ==> {
                ||| '0' <= #[trigger] s[i] <= '9'
                ||| 'a' <= s[i] <= 'f'
                ||| 'A' <= s[i] <= 'F'
            },
{
}

/// A version that is recorded under no commit's name is not believed: the bundled
/// one is current.
pub proof fn law_bundled_version_stands_in(recorded: Option<Seq<char>>, bundled: Seq<char>)
    requires
        recorded matches Some(name) ==> !commit_name(name),
    ensures
        current_ref(recorded, bundled) == bundled,
{
}

/// A path of the repository below the Mod's directory is the rest of it, as it is
/// written, unless that rest could lead out of the directory.
pub proof fn law_path_inside_the_mod_is_the_rest(relative: Seq<char>)
    requires
        relative.len() > 0,
        relative[0] != '/',
        !relative.contains('\\'),
        forall|i: int| 0 <= i < relative.len() - 1 ==> #[trigger] relative[i] != '.' || relative[i
            + 1] != '.',
    ensures
        inside_mod("web/mod/"@ + relative) == Some(relative),
{
    reveal_strlit("/");
    reveal_strlit("..");
    let path = "web/mod/"@ + relative;
    let n = "web/mod/"@.len() as int;
    assert(path.subrange(0, n) =~= "web/mod/"@);
    assert(path.skip(n) =~= relative);
    assert(!"/"@.is_prefix_of(relative)) by {
        if "/"@.is_prefix_of(relative) {
            assert(relative.subrange(0, 1)[0] == '/');
        }
    }
    assert forall|i: int| !occurs_at(".."@, relative, i) by {
        if occurs_at(".."@, relative, i) {
            let part = relative.subrange(i, i + 2);
            assert(part[0] == relative[i] && part[1] == relative[i + 1]);
        }
    }
}

proof fn lemma_two_pieces(head: Seq<char>, name: Seq<char>)
    requires
        !head.contains('/'),
        !name.contains('/'),
    ensures
        split(head.push('/') + name, '/') == seq![head, name],
{
    let none = Seq::<char>::empty();
    assert(split(none, '/') =~= seq![none]);
    lemma_last_piece(none, head, '/');
    assert(none + head =~= head);
    assert(split(head, '/') =~= seq![head]);
    assert(head.push('/').drop_last() =~= head);
    assert(split(head.push('/'), '/') =~= seq![head, none]);
    lemma_last_piece(head.push('/'), name, '/');
    assert(none + name =~= name);
    assert(split(head.push('/') + name, '/') =~= seq![head, name]);
}

proof fn lemma_entry_is_kept(head: Seq<char>, name: Seq<char>)
    requires
        head == "js"@ || head == "data"@,
        name.len() > 2,
        !name.contains('/'),
        !name.contains('\\'),
        installable("web/mod/"@ + (head.push('/') + name)),
    ensures
        archived(head.push('/') + name) == Some(head.push('/') + name),
{
    reveal_strlit("js");
    reveal_strlit("data");
    reveal_strlit("./");
    reveal_strlit("mod/");
    reveal_strlit("web/mod/");
    reveal_strlit("/");
    reveal_strlit("..");
    let relative = head.push('/') + name;
    assert(relative[0] == head[0]);
    assert(relative.subrange(0, 1)[0] == head[0]);
    assert(relative.subrange(0, 2)[0] == head[0]);
    assert(relative.len() >= 4 ==> relative.subrange(0, 4)[0] == head[0]);
    assert(relative.len() >= 8 ==> relative.subrange(0, 8)[0] == head[0]);
    assert(!"./"@.is_prefix_of(relative));
    assert(!"mod/"@.is_prefix_of(relative));
    assert(!"web/mod/"@.is_prefix_of(relative));
    assert(!"/"@.is_prefix_of(relative));
    assert(entry_relative(relative) == relative);
    lemma_two_pieces(head, name);
    assert(head.len() >= 2 && head[0] != '.');
    assert(!split(relative, '/').contains(Seq::empty()));
    assert(!split(relative, '/').contains(".."@));
    assert forall|i: int| 0 <= i < relative.len() implies relative[i] != '\\' by {
        if i > head.len() {
            assert(name.contains(name[i - head.len() - 1]));
        }
    }
}

proof fn lemma_file_is_kept(top: Seq<char>, head: Seq<char>, name: Seq<char>, kind: Seq<char>)
    requires
        head == "js"@ || head == "data"@,
        top == head.push('/'),
        !name.contains('/'),
        !name.contains('\\'),
        kind.len() > 2,
        !kind.contains('/'),
        !kind.contains('\\'),
        installable("web/mod/"@ + top + name + kind),
    ensures
        archived(top + name + kind) == Some(top + name + kind),
{
    let file = name + kind;
    assert forall|i: int| 0 <= i < file.len() implies file[i] != '/' && file[i] != '\\' by {
        if i < name.len() {
            assert(name.contains(name[i]));
        } else {
            assert(kind.contains(kind[i - name.len()]));
        }
    }
    assert("web/mod/"@ + top + name + kind =~= "web/mod/"@ + (head.push('/') + file));
    assert(top + name + kind =~= head.push('/') + file);
    lemma_entry_is_kept(head, file);
}

proof fn lemma_archived_bundle(name: Seq<char>, kind: Seq<char>)
    requires
        !name.contains('/'),
        !name.contains('\\'),
        kind == ".bundle.js"@ || kind == ".LICENSE.txt"@,
    ensures
        archived("js/"@ + name + kind) == Some("js/"@ + name + kind),
{
    assert("js/"@ == "js"@.push('/') && "web/mod/"@ + "js/"@ == "web/mod/js/"@) by {
        reveal_strlit("js");
        reveal_strlit("js/");
        reveal_strlit("web/mod/");
        reveal_strlit("web/mod/js/");
        assert("js/"@ =~= "js"@.push('/'));
        assert("web/mod/"@ + "js/"@ =~= "web/mod/js/"@);
    }
    assert(kind.len() > 2 && !kind.contains('/') && !kind.contains('\\')) by {
        reveal_strlit(".bundle.js");
        reveal_strlit(".LICENSE.txt");
    }
    law_every_bundle_is_installed(name);
    lemma_file_is_kept("js/"@, "js"@, name, kind);
}

/// An archive's entry for a bundle of whatever name, or for its licence, is kept
/// under the Mod's scripts: bare, below `mod/` or below `web/mod/`, with `./` in
/// front or without.
pub proof fn law_every_archived_bundle_is_kept(name: Seq<char>, kind: Seq<char>)
    requires
        !name.contains('/'),
        !name.contains('\\'),
        kind == ".bundle.js"@ || kind == ".LICENSE.txt"@,
    ensures
        archived("js/"@ + name + kind) == Some("js/"@ + name + kind),
        archived("./"@ + ("js/"@ + name + kind)) == Some("js/"@ + name + kind),
        archived("mod/"@ + ("js/"@ + name + kind)) == Some("js/"@ + name + kind),
        archived("web/mod/"@ + ("js/"@ + name + kind)) == Some("js/"@ + name + kind),
        archived("./"@ + ("mod/"@ + ("js/"@ + name + kind))) == Some("js/"@ + name + kind),
        archived("./"@ + ("web/mod/"@ + ("js/"@ + name + kind))) == Some("js/"@ + name + kind),
{
    lemma_archived_bundle(name, kind);
    law_archive_roots_are_equivalent("js/"@ + name + kind);
}

proof fn lemma_archived_data(name: Seq<char>, kind: Seq<char>)
    requires
        !name.contains('/'),
        !name.contains('\\'),
        kind == ".yaml"@ || kind == ".yml"@ || kind == ".svg"@ || kind == ".json"@,
        !"config.json"@.is_suffix_of("web/mod/data/"@ + name + kind),
        !"RFcity.yaml"@.is_suffix_of("web/mod/data/"@ + name + kind),
    ensures
        archived("data/"@ + name + kind) == Some("data/"@ + name + kind),
{
    assert("data/"@ == "data"@.push('/') && "web/mod/"@ + "data/"@ == "web/mod/data/"@) by {
        reveal_strlit("data");
        reveal_strlit("data/");
        reveal_strlit("web/mod/");
        reveal_strlit("web/mod/data/");
        assert("data/"@ =~= "data"@.push('/'));
        assert("web/mod/"@ + "data/"@ =~= "web/mod/data/"@);
    }
    assert(kind.len() > 2 && !kind.contains('/') && !kind.contains('\\')) by {
        reveal_strlit(".yaml");
        reveal_strlit(".yml");
        reveal_strlit(".svg");
        reveal_strlit(".json");
    }
    law_every_data_file_is_installed(name);
    lemma_file_is_kept("data/"@, "data"@, name, kind);
}

/// An archive's entry for a data file is kept likewise, but for a configuration
/// and `RFcity.yaml`.
pub proof fn law_every_archived_data_file_is_kept(name: Seq<char>, kind: Seq<char>)
    requires
        !name.contains('/'),
        !name.contains('\\'),
        kind == ".yaml"@ || kind == ".yml"@ || kind == ".svg"@ || kind == ".json"@,
        !"config.json"@.is_suffix_of("web/mod/data/"@ + name + kind),
        !"RFcity.yaml"@.is_suffix_of("web/mod/data/"@ + name + kind),
    ensures
        archived("data/"@ + name + kind) == Some("data/"@ + name + kind),
        archived("./"@ + ("data/"@ + name + kind)) == Some("data/"@ + name + kind),
        archived("mod/"@ + ("data/"@ + name + kind)) == Some("data/"@ + name + kind),
        archived("web/mod/"@ + ("data/"@ + name + kind)) == Some("data/"@ + name + kind),
        archived("./"@ + ("mod/"@ + ("data/"@ + name + kind))) == Some("data/"@ + name + kind),
        archived("./"@ + ("web/mod/"@ + ("data/"@ + name + kind))) == Some("data/"@ + name + kind),
{
    lemma_archived_data(name, kind);
    law_archive_roots_are_equivalent("data/"@ + name + kind);
}

/// A script that is neither a bundle nor a licence, and a data file of another
/// kind, is not installed, nor is what lies elsewhere.
pub proof fn law_other_files_are_not_installed(path: Seq<char>)
    ensures
        "web/mod/js/"@.is_prefix_of(path) && !".bundle.js"@.is_suffix_of(path)
            && !".LICENSE.txt"@.is_suffix_of(path) ==> !installable(path),
        "web/mod/data/"@.is_prefix_of(path) && !".yaml"@.is_suffix_of(path)
            && !".yml"@.is_suffix_of(path) && !".svg"@.is_suffix_of(path)
            && !".json"@.is_suffix_of(path) ==> !installable(path),
        !"web/mod/js/"@.is_prefix_of(path) && !"web/mod/data/"@.is_prefix_of(path) ==> !installable(
            path,
        ),
{
    reveal_strlit("web/mod/js/");
    reveal_strlit("web/mod/data/");
    if "web/mod/js/"@.is_prefix_of(path) && "web/mod/data/"@.is_prefix_of(path) {
        assert(path.subrange(0, 11)[8] == path.subrange(0, 13)[8]);
    }
}

/// A file of up to sixteen mebibytes is unpacked and a larger one is refused; a
/// directory is passed over whatever its name.
pub proof fn law_archived_files_have_a_size_limit(name: Seq<char>, size: u64)
    ensures
        entry_verdict(name, true, size) == Ok::<Option<Seq<char>>, Seq<char>>(None),
        archived(name) is None ==> entry_verdict(name, false, size) is Err,
        archived(name) is Some && size <= 16777216 ==> entry_verdict(name, false, size) == Ok::<
            Option<Seq<char>>,
            Seq<char>,
        >(archived(name)),
        archived(name) is Some && size > 16777216 ==> entry_verdict(name, false, size) is Err,
{
}

/// The name of an archive's directory ends with a slash or a backslash, and no
/// file's does.
pub proof fn law_directories_end_with_a_slash(name: Seq<char>, last: char)
    ensures
        directory_entry(name.push(last)) <==> last == '/' || last == '\\',
        !directory_entry(Seq::empty()),
{
}

/// Every file of an archive is unpacked, in its order, under its path inside the
/// Mod and with its own bytes.
pub proof fn law_every_entry_is_unpacked(
    entries: Seq<(Result<(Seq<char>, u64), Seq<char>>, Result<Seq<u8>, Seq<char>>)>,
    names: Seq<Seq<char>>,
    data: Seq<Seq<u8>>,
    files: Seq<(Seq<char>, Seq<u8>)>,
)
    requires
        entries.len() == names.len() == data.len() == files.len(),
        forall|i: int|
            #![trigger entries[i]]
            0 <= i < entries.len() ==> {
                &&& entries[i].0 matches Ok((name, size)) && name == names[i] && size <= 16777216
                &&& entries[i].1 == Ok::<Seq<u8>, Seq<char>>(data[i])
                &&& !directory_entry(names[i])
                &&& archived(names[i]) == Some(files[i].0)
                &&& files[i].1 == data[i]
            },
    ensures
        entry_files(entries) == Ok::<Seq<(Seq<char>, Seq<u8>)>, Seq<char>>(files),
    decreases entries.len(),
{
    if entries.len() > 0 {
        let less = entries.drop_last();
        assert forall|i: int| #![trigger less[i]] 0 <= i < less.len() implies {
            &&& less[i].0 matches Ok((name, size)) && name == names.drop_last()[i] && size
                <= 16777216
            &&& less[i].1 == Ok::<Seq<u8>, Seq<char>>(data.drop_last()[i])
            &&& !directory_entry(names.drop_last()[i])
            &&& archived(names.drop_last()[i]) == Some(files.drop_last()[i].0)
            &&& files.drop_last()[i].1 == data.drop_last()[i]
        } by {
            assert(less[i] == entries[i]);
        }
        law_every_entry_is_unpacked(
            less,
            names.drop_last(),
            data.drop_last(),
            files.drop_last(),
        );
        let last = entries[entries.len() - 1];
        assert(entry_file(last) == Ok::<Option<(Seq<char>, Seq<u8>)>, Seq<char>>(
            Some(files.last()),
        ));
        assert(files.drop_last().push(files.last()) =~= files);
    } else {
        assert(files =~= Seq::empty());
    }
}

/// An entry that is not accepted spoils its whole archive, wherever it stands.
pub proof fn law_one_bad_entry_spoils_the_archive(
    entries: Seq<(Result<(Seq<char>, u64), Seq<char>>, Result<Seq<u8>, Seq<char>>)>,
    i: int,
)
    requires
        0 <= i < entries.len(),
        match entries[i].0 {
            Err(_) => true,
            Ok((name, size)) => !directory_entry(name) && (archived(name) is None || size > 16777216
                || entries[i].1 is Err),
        },
    ensures
        entry_files(entries) is Err,
    decreases entries.len(),
{
    if i < entries.len() - 1 {
        assert(entries.drop_last()[i] == entries[i]);
        law_one_bad_entry_spoils_the_archive(entries.drop_last(), i);
    }
}

/// The directories of an archive, wherever they stand, add nothing to what is
/// unpacked.
pub proof fn law_directories_add_nothing(
    before: Seq<(Result<(Seq<char>, u64), Seq<char>>, Result<Seq<u8>, Seq<char>>)>,
    directory: (Result<(Seq<char>, u64), Seq<char>>, Result<Seq<u8>, Seq<char>>),
    after: Seq<(Result<(Seq<char>, u64), Seq<char>>, Result<Seq<u8>, Seq<char>>)>,
)
    requires
        directory.0 matches Ok((name, _)) && directory_entry(name),
    ensures
        entry_files(before.push(directory) + after) == entry_files(before + after),
    decreases after.len(),
{
    if after.len() == 0 {
        assert(before.push(directory) + after =~= before.push(directory));
        assert(before + after =~= before);
        assert(before.push(directory).drop_last() =~= before);
    } else {
        let less = after.drop_last();
        law_directories_add_nothing(before, directory, less);
        assert((before.push(directory) + after).drop_last() =~= before.push(directory) + less);
        assert((before + after).drop_last() =~= before + less);
    }
}

/// The files of an update are exactly those of the tree that may be installed:
/// one by one, in the tree's order.
pub proof fn law_every_update_file_is_planned(
    before: Seq<TreeEntry>,
    entry: TreeEntry,
    after: Seq<TreeEntry>,
)
    ensures
        update_paths(before.push(entry) + after) == update_paths(before) + (if entry.entry_type@
            == "blob"@ && installable(entry.path@) {
            seq![entry.path@]
        } else {
            seq![]
        }) + update_paths(after),
        update_paths(Seq::empty()) == Seq::<Seq<char>>::empty(),
    decreases after.len(),
{
    if after.len() == 0 {
        assert(before.push(entry) + after =~= before.push(entry));
        assert(before.push(entry).drop_last() =~= before);
        assert(update_paths(after) =~= Seq::empty());
    } else {
        let less = after.drop_last();
        law_every_update_file_is_planned(before, entry, less);
        assert((before.push(entry) + after).drop_last() =~= before.push(entry) + less);
        assert((before.push(entry) + after).last() == after.last());
    }
}

/// A file of the tree that may be installed is too large above sixteen mebibytes;
/// one whose size is not told is not.
pub proof fn law_planned_files_have_a_size_limit(entry: TreeEntry, size: u64)
    requires
        entry.entry_type@ == "blob"@,
        installable(entry.path@),
    ensures
        entry.size == Some(size) ==> (oversized(entry) <==> size > 16777216),
        entry.size is None ==> !oversized(entry),
{
}

/// A bundle or a licence that an update does not hold is removed.
pub proof fn law_left_over_bundles_are_removed(name: Seq<char>, expected: Seq<Seq<char>>)
    requires
        !expected.contains("js/"@ + name + ".bundle.js"@),
        !expected.contains("js/"@ + name + ".LICENSE.txt"@),
    ensures
        stale(name + ".bundle.js"@, expected),
        stale(name + ".LICENSE.txt"@, expected),
{
    let none = Seq::<char>::empty();
    lemma_framed(none, name, ".bundle.js"@);
    lemma_framed(none, name, ".LICENSE.txt"@);
    assert(none + name + ".bundle.js"@ =~= name + ".bundle.js"@);
    assert(none + name + ".LICENSE.txt"@ =~= name + ".LICENSE.txt"@);
    assert("js/"@ + (name + ".bundle.js"@) =~= "js/"@ + name + ".bundle.js"@);
    assert("js/"@ + (name + ".LICENSE.txt"@) =~= "js/"@ + name + ".LICENSE.txt"@);
}

/// Every ZIP file of a release of the repository is accepted for every commit.
pub proof fn law_release_archives_are_accepted(
    remote_ref: Seq<char>,
    rest: Seq<char>,
    filename: Seq<char>,
    platform: Platform,
)
    requires
        commit_name(remote_ref),
        is_file_name(platform, filename),
    ensures
        archive_refusal(
            remote_ref,
            "https://github.com/MoLinOwO/ReversedFront_Public/releases/download/"@ + rest,
            filename,
            platform,
        ) is None <==> ".zip"@.is_suffix_of(ascii_lowercase(filename)),
{
    let prefix = "https://github.com/MoLinOwO/ReversedFront_Public/releases/download/"@;
    assert((prefix + rest).subrange(0, prefix.len() as int) =~= prefix);
}

/// The main bundle counts wherever it stands among the files of an update, and under
/// no other path.
pub proof fn law_archive_holds_the_main_bundle(files: Seq<(Seq<char>, Seq<u8>)>)
    ensures
        has_main_bundle(files) <==> exists|i: int|
            0 <= i < files.len() && (#[trigger] files[i]).0 == "js/main.bundle.js"@,
{
}

/// A file in a directory has the directory's path, a slash and its own name; at
/// the top it has its name alone.
pub proof fn law_child_lies_below_its_directory(relative: Seq<char>, name: Seq<char>)
    ensures
        child_path(Seq::empty(), name) == name,
        relative.len() > 0 ==> child_path(relative, name) == relative + seq!['/'] + name,
{
    reveal_strlit("/");
    assert("/"@ =~= seq!['/']);
}

/// An update that succeeds goes through all of its stages, one behind the other.
pub proof fn law_update_goes_through_every_stage(done: Result<(), String>, e: String)
    requires
        done is Ok,
    ensures
        apply_flow(ApplyStage::Stage, done) == ApplyAction::Enter(ApplyStage::Lock),
        apply_flow(ApplyStage::Lock, done) == ApplyAction::Enter(ApplyStage::RemoveStale),
        apply_flow(ApplyStage::RemoveStale, done) == ApplyAction::Enter(ApplyStage::Copy),
        apply_flow(ApplyStage::Copy, done) == ApplyAction::Enter(ApplyStage::RemoveStaging),
        apply_flow(ApplyStage::RemoveStaging, done) == ApplyAction::Enter(ApplyStage::Record),
        apply_flow(ApplyStage::Record, done) == ApplyAction::Enter(ApplyStage::Unlock),
        apply_flow(ApplyStage::Unlock, done) == ApplyAction::Done,
        forall|stage: ApplyStage| #[trigger]
            apply_flow(stage, Err(e)) == ApplyAction::Fail(e),
{
}

/// A check is told as it is: what is in use, what there is, and where it comes from.
pub proof fn law_check_is_told_as_it_is(value: Json, info: ModUpdateInfo)
    requires
        tells_check(value, info),
    ensures
        fields(value).contains_pair("hasUpdate"@, Json::Bool(info.has_update)),
        text_field(value, "currentRef"@) == Some(info.current_ref@),
        text_field(value, "remoteRef"@) == Some(info.remote_ref@),
        text_field(value, "repository"@) == Some("MoLinOwO/ReversedFront_Public"@),
        text_field(value, "source"@) == Some(info.source@),
        info.archive matches Some((url, _)) ==> text_field(value, "downloadUrl"@) == Some(url@),
        info.archive matches Some((_, filename)) ==> text_field(value, "filename"@) == Some(
            filename@,
        ),
        info.archive is None ==> !fields(value).contains_key("downloadUrl"@)
            && !fields(value).contains_key("filename"@),
{
}

/// An installed update is told with its version, and asks for a restart.
pub proof fn law_installed_update_is_told(
    value: Json,
    remote_ref: Seq<char>,
    filename: Seq<char>,
    download_path: Seq<char>,
    count: u64,
)
    ensures
        tells_archive_install(value, remote_ref, filename, download_path) ==> fields(
            value,
        ).contains_pair("updated"@, Json::Bool(true)) && fields(value).contains_pair(
            "restartRequired"@,
            Json::Bool(true),
        ) && text_field(value, "remoteRef"@) == Some(remote_ref) && text_field(value, "filename"@)
            == Some(filename) && text_field(value, "downloadPath"@) == Some(download_path),
        tells_file_install(value, remote_ref, count) ==> fields(value).contains_pair(
            "updated"@,
            Json::Bool(true),
        ) && fields(value).contains_pair("restartRequired"@, Json::Bool(true)) && text_field(
            value,
            "remoteRef"@,
        ) == Some(remote_ref) && fields(value).contains_pair(
            "fileCount"@,
            Json::Number(JsonNumber::Unsigned(count)),
        ),
{
}

/// A path of the repository is allowed where it names a bundle, a licence or a data
/// file below the Mod, whatever the file is called.
pub proof fn law_every_file_of_the_mod_is_allowed(
    bundle: &str,
    data: &str,
    name: Seq<char>,
    kind: Seq<char>,
    r: bool,
)
    requires
        bundle@ == "web/mod/js/"@ + name + ".bundle.js"@ || bundle@ == "web/mod/js/"@ + name
            + ".LICENSE.txt"@,
        data@ == "web/mod/data/"@ + name + kind,
        kind == ".yaml"@ || kind == ".yml"@ || kind == ".svg"@ || kind == ".json"@,
    ensures
        call_ensures(allowed_path, (bundle,), r) ==> r,
        call_ensures(allowed_path, (data,), r) ==> (r <==> !"config.json"@.is_suffix_of(data@)
            && !"RFcity.yaml"@.is_suffix_of(data@)),
{
    law_every_bundle_is_installed(name);
    law_every_data_file_is_installed(name);
    law_private_files_are_never_installed(data@);
}

/// An entry of an archive is taken under its path inside the Mod, whichever root the
/// archive has.
pub proof fn law_every_archived_file_is_taken(
    entry: &str,
    name: Seq<char>,
    kind: Seq<char>,
    r: Option<&str>,
)
    requires
        !name.contains('/'),
        !name.contains('\\'),
        kind == ".bundle.js"@ || kind == ".LICENSE.txt"@,
        entry@ == "js/"@ + name + kind || entry@ == "mod/"@ + ("js/"@ + name + kind) || entry@
            == "web/mod/"@ + ("js/"@ + name + kind) || entry@ == "./"@ + ("js/"@ + name + kind),
        call_ensures(safe_archive_relative_path, (entry,), r),
    ensures
        r matches Some(relative) && relative@ == "js/"@ + name + kind,
{
    law_every_archived_bundle_is_kept(name, kind);
}

/// A whole tree is planned with every file that may be installed, in its order,
/// exactly where the main bundle is there and none of these files is too large.
pub proof fn law_whole_tree_is_planned(response: &TreeResponse, r: Result<Vec<String>, String>)
    requires
        call_ensures(plan_tree_update, (response,), r),
    ensures
        r is Ok <==> !response.truncated && update_paths(response.tree@).contains(
            "web/mod/js/main.bundle.js"@,
        ) && forall|i: int|
            0 <= i < response.tree@.len() ==> !(#[trigger] response.tree@[i].entry_type@ == "blob"@
                && installable(response.tree@[i].path@) && (
            response.tree@[i].size matches Some(n) && n > 16777216)),
        r matches Ok(paths) ==> texts(paths@) == update_paths(response.tree@),
{
    let tree = response.tree@;
    if exists|i: int| first_oversized(tree, i) {
        let i = choose|i: int| first_oversized(tree, i);
        assert(tree[i].entry_type@ == "blob"@);
    } else {
        assert forall|i: int| 0 <= i < tree.len() implies !oversized(#[trigger] tree[i]) by {
            if oversized(tree[i]) {
                lemma_first_oversized(tree, i);
            }
        }
        assert forall|i: int| 0 <= i < tree.len() implies !(#[trigger] tree[i].entry_type@
            == "blob"@ && installable(tree[i].path@) && (tree[i].size matches Some(n) && n
            > 16777216)) by {
            assert(!oversized(tree[i]));
        }
    }
}

proof fn lemma_first_oversized(tree: Seq<TreeEntry>, i: int)
    requires
        0 <= i < tree.len(),
        oversized(tree[i]),
    ensures
        exists|k: int| first_oversized(tree, k),
    decreases i,
{
    if exists|j: int| 0 <= j < i && oversized(#[trigger] tree[j]) {
        let j = choose|j: int| 0 <= j < i && oversized(#[trigger] tree[j]);
        lemma_first_oversized(tree, j);
    } else {
        assert(first_oversized(tree, i));
    }
}

/// A file of up to sixteen mebibytes and an archive of up to sixty-four are taken,
/// as is one whose size is not known before it is read; larger ones are not.
pub proof fn law_downloads_have_a_size_limit(
    path: &str,
    size: Option<u64>,
    file: Result<(), String>,
    archive: Result<(), String>,
)
    requires
        call_ensures(check_file_size, (path, size), file),
        call_ensures(check_archive_size, (size,), archive),
    ensures
        size is None ==> file is Ok && archive is Ok,
        size matches Some(n) ==> (file is Ok <==> n <= 16777216) && (archive is Ok <==> n
            <= 67108864),
        file matches Err(e) ==> path@.is_suffix_of(e@),
{
    let told = "更新檔案過大："@ + path@;
    assert(told.subrange(told.len() - path@.len(), told.len() as int) =~= path@);
}

/// A file of the tree is fetched from the repository as it was at that commit, and
/// kept under its path inside the Mod.
pub proof fn law_tree_file_is_fetched_at_its_commit(
    path: &str,
    remote_ref: &str,
    relative: Seq<char>,
    r: Result<TreeFile, String>,
)
    requires
        relative.len() > 0,
        relative[0] != '/',
        !relative.contains('\\'),
        forall|i: int| 0 <= i < relative.len() - 1 ==> #[trigger] relative[i] != '.' || relative[i
            + 1] != '.',
        path@ == "web/mod/"@ + relative,
        call_ensures(stage_tree_file, (path, remote_ref), r),
    ensures
        r matches Ok(file) && file.relative@ == relative && file.url@
            == "https://raw.githubusercontent.com/MoLinOwO/ReversedFront_Public"@ + "/"@
            + remote_ref@ + "/"@ + path@,
{
    law_path_inside_the_mod_is_the_rest(relative);
}

/// A file is removed as left over exactly where it is a bundle or a licence that the
/// update does not hold.
pub proof fn law_only_left_over_files_are_removed(
    name: &str,
    is_file: bool,
    expected: &Vec<String>,
    r: bool,
)
    requires
        call_ensures(is_stale_bundle, (name, is_file, expected), r),
    ensures
        r <==> is_file && (".bundle.js"@.is_suffix_of(name@) || ".LICENSE.txt"@.is_suffix_of(
            name@,
        )) && !texts(expected@).contains("js/"@ + name@),
{
}

/// An update is asked for as an archive or as files: as files where neither address
/// nor name is given, as an archive where both are, and not at all where one is
/// missing.
pub proof fn law_update_is_an_archive_or_files<'a>(
    remote_ref: &str,
    download_url: Option<&'a str>,
    filename: Option<&'a str>,
    platform: Platform,
    r: Result<ModDownload<'a>, String>,
)
    requires
        call_ensures(download_and_install, (remote_ref, download_url, filename, platform), r),
    ensures
        r is Ok ==> commit_name(remote_ref@),
        r matches Ok(ModDownload::Files) ==> download_url is None && filename is None,
        r matches Ok(ModDownload::Archive { url, filename: name }) ==> download_url == Some(url)
            && filename == Some(name) && is_file_name(platform, name@),
        download_url is None && filename is None && commit_name(remote_ref@) ==> r == Ok::<
            ModDownload<'a>,
            String,
        >(ModDownload::Files),
        download_url is Some != filename is Some ==> r is Err,
{
}

/// A commit on the main branch is an update exactly where it is not the one in use,
/// and comes without an archive.
pub proof fn law_other_commit_is_an_update(
    sha: String,
    local: String,
    r: Result<ModUpdateInfo, String>,
)
    requires
        call_ensures(
            check_for_update_from_api,
            (Reply::Document(sha), Ok::<String, String>(local)),
            r,
        ),
    ensures
        r is Ok <==> commit_name(sha@),
        r matches Ok(info) ==> info.has_update == (local@ != sha@) && info.current_ref@ == local@
            && info.remote_ref@ == sha@ && info.archive is None,
{
}

/// The manifest's commit is an update likewise, and comes as its archive.
pub proof fn law_manifest_names_its_archive(
    update: StaticModUpdate,
    local: String,
    r: Result<ModUpdateInfo, String>,
)
    requires
        call_ensures(
            check_for_update_from_manifest,
            (Reply::Document(Some(update)), Ok::<String, String>(local)),
            r,
        ),
    ensures
        r is Ok <==> commit_name(update.remote_ref@),
        r matches Ok(info) ==> info.has_update == (local@ != update.remote_ref@)
            && info.current_ref@ == local@ && info.remote_ref@ == update.remote_ref@
            && info.archive == Some((update.download_url, update.filename)),
{
}

/// A check that got no answer fails with the cause that was given.
pub proof fn law_unanswered_check_fails(
    e: String,
    current: Result<String, String>,
    api: Result<ModUpdateInfo, String>,
    manifest: Result<ModUpdateInfo, String>,
)
    ensures
        call_ensures(check_for_update_from_api, (Reply::<String>::Unsent(e), current), api) ==> api
            == Err::<ModUpdateInfo, String>(e),
        call_ensures(check_for_update_from_api, (Reply::<String>::Refused(e), current), api) ==> api
            == Err::<ModUpdateInfo, String>(e),
        call_ensures(check_for_update_from_api, (Reply::<String>::Malformed(e), current), api)
            ==> api == Err::<ModUpdateInfo, String>(e),
        call_ensures(
            check_for_update_from_manifest,
            (Reply::<Option<StaticModUpdate>>::Unsent(e), current),
            manifest,
        ) ==> manifest == Err::<ModUpdateInfo, String>(e),
        call_ensures(
            check_for_update_from_manifest,
            (Reply::<Option<StaticModUpdate>>::Refused(e), current),
            manifest,
        ) ==> manifest == Err::<ModUpdateInfo, String>(e),
        call_ensures(
            check_for_update_from_manifest,
            (Reply::<Option<StaticModUpdate>>::Malformed(e), current),
            manifest,
        ) ==> manifest == Err::<ModUpdateInfo, String>(e),
{
}

/// The Mod of an earlier version is taken over exactly where nothing is recorded at
/// the new place, its own record names a commit and its main bundle is there.
pub proof fn law_earlier_mod_is_taken_over_once(
    target_recorded: bool,
    record: String,
    legacy_main_bundle: bool,
    r: Option<String>,
)
    requires
        call_ensures(
            migrate_legacy_update_root,
            (target_recorded, Some(record), legacy_main_bundle),
            r,
        ),
    ensures
        r is Some <==> !target_recorded && legacy_main_bundle && commit_name(record@),
        r is Some ==> r == Some(record),
{
}

/// Of the Mod of an earlier version every file that an update might install is
/// copied under its own path, and nothing else is; every directory is entered.
pub proof fn law_earlier_mod_is_copied_by_the_same_rule(
    relative: &str,
    name: &str,
    is_file: bool,
    r: LegacyCopy,
)
    ensures
        call_ensures(copy_legacy_mod_tree, (relative, name, true, is_file), r) ==> r is Descend,
        call_ensures(copy_legacy_mod_tree, (relative, name, false, is_file), r) ==> (r is Copy
            <==> is_file && installable("web/mod/"@ + child_path(relative@, name@))),
        call_ensures(copy_legacy_mod_tree, (relative, name, false, is_file), r) ==> (
        r matches LegacyCopy::Copy(path) ==> path@ == child_path(relative@, name@)),
{
}

/// Every staged file is copied under its own path and every staged directory is
/// entered.
pub proof fn law_every_staged_file_is_copied(relative: &str, name: &str, r: StagedCopy)
    ensures
        call_ensures(copy_staged_files, (relative, name, true), r) ==> (
        r matches StagedCopy::Descend(path) && path@ == child_path(relative@, name@)),
        call_ensures(copy_staged_files, (relative, name, false), r) ==> (
        r matches StagedCopy::Copy(path) && path@ == child_path(relative@, name@)),
{
}

/// A download that is there already is removed before the new one takes its place;
/// only where that last step fails, the partial file is removed.
pub proof fn law_saved_archive_replaces_the_old_one(
    stage: SaveStage,
    present: bool,
    e: String,
    r: SaveAction,
)
    ensures
        call_ensures(save_download_file, (SaveStage::Write, Ok::<bool, String>(present)), r) ==> r
            == SaveAction::Enter(
            if present {
                SaveStage::Remove
            } else {
                SaveStage::Rename
            },
        ),
        call_ensures(save_download_file, (SaveStage::Remove, Ok::<bool, String>(present)), r) ==> r
            == SaveAction::Enter(SaveStage::Rename),
        call_ensures(save_download_file, (SaveStage::Rename, Ok::<bool, String>(present)), r) ==> r
            == SaveAction::Done,
        call_ensures(save_download_file, (stage, Err::<bool, String>(e)), r) ==> (
        r matches SaveAction::Fail { remove_partial, message } && message == e && (remove_partial
            <==> stage == SaveStage::Rename)),
{
}

/// The bundled version is the commit that the build names, the automatic build's
/// before the working copy's, where it is a commit; else the fallback.
pub proof fn law_bundled_version_is_a_commit_where_one_is_known(
    github_sha: Option<String>,
    git_sha: Option<String>,
    fallback: &str,
    r: String,
)
    requires
        call_ensures(bundled_ref, (github_sha, git_sha, fallback), r),
    ensures
        github_sha matches Some(name) ==> r@ == if commit_name(name@) {
            name@
        } else {
            fallback@
        },
        github_sha is None ==> (git_sha matches Some(name) ==> r@ == if commit_name(name@) {
            name@
        } else {
            fallback@
        }),
        github_sha is None && git_sha is None ==> r@ == fallback@,
{
}

/// A text is a commit's name exactly where it has forty hexadecimal digits.
pub proof fn law_commit_names_are_recognized(value: &str, r: bool)
    requires
        call_ensures(is_sha, (value,), r),
    ensures
        r <==> value@.len() == 40 && forall|i: int|
            0 <= i < value@.len() ==> {
                ||| '0' <= #[trigger] value@[i] <= '9'
                ||| 'a' <= value@[i] <= 'f'
                ||| 'A' <= value@[i] <= 'F'
            },
{
    law_commit_is_forty_hexadecimal_digits(value@);
}

/// A path of the repository is used without the Mod's directory in front.
pub proof fn law_repository_path_is_used_inside_the_mod(
    path: &str,
    relative: Seq<char>,
    r: Option<&str>,
)
    requires
        call_ensures(safe_relative_path, (path,), r),
    ensures
        relative.len() > 0 && relative[0] != '/' && !relative.contains('\\') && (forall|i: int|
            0 <= i < relative.len() - 1 ==> #[trigger] relative[i] != '.' || relative[i + 1] != '.')
            && path@ == "web/mod/"@ + relative ==> (r matches Some(inner) && inner@ == relative),
        r matches Some(inner) ==> path@ == "web/mod/"@ + inner@ && inner@.len() > 0,
{
    if relative.len() > 0 && relative[0] != '/' && !relative.contains('\\') && (forall|i: int|
        0 <= i < relative.len() - 1 ==> #[trigger] relative[i] != '.' || relative[i + 1] != '.') {
        law_path_inside_the_mod_is_the_rest(relative);
    }
    if let Some(inner) = r {
        law_repository_paths_stay_inside(path@);
    }
}

/// A path inside the Mod is allowed where the same path of the repository is.
pub proof fn law_relative_paths_follow_the_same_rule(
    relative: &str,
    path: &str,
    inner: bool,
    outer: bool,
)
    requires
        path@ == "web/mod/"@ + relative@,
        call_ensures(allowed_mod_relative_path, (relative,), inner),
        call_ensures(allowed_path, (path,), outer),
    ensures
        inner == outer,
{
}

/// An archive is accepted exactly for a commit, from the repository's releases, as a
/// ZIP file.
pub proof fn law_accepted_archive_is_a_release_file(
    remote_ref: &str,
    url: &str,
    filename: &str,
    platform: Platform,
    r: Result<(), String>,
)
    requires
        call_ensures(validate_archive_request, (remote_ref, url, filename, platform), r),
    ensures
        r is Ok <==> commit_name(remote_ref@)
            && "https://github.com/MoLinOwO/ReversedFront_Public/releases/download/"@.is_prefix_of(
            url@,
        ) && is_file_name(platform, filename@) && ".zip"@.is_suffix_of(ascii_lowercase(filename@)),
{
}

/// An entry is judged by its path and its size: kept up to sixteen mebibytes, passed
/// over where it is a directory, refused otherwise.
pub proof fn law_entries_are_judged_one_by_one(
    name: &str,
    size: u64,
    file: Result<Option<String>, String>,
    directory: Result<Option<String>, String>,
)
    requires
        call_ensures(judge_archive_entry, (name, false, size), file),
        call_ensures(judge_archive_entry, (name, true, size), directory),
    ensures
        directory == Ok::<Option<String>, String>(None),
        file is Ok <==> archived(name@) is Some && size <= 16777216,
        file matches Ok(kept) ==> string_text(kept) == archived(name@),
{
    law_archived_files_have_a_size_limit(name@, size);
}

/// The main bundle is found wherever it stands among the files.
pub proof fn law_main_bundle_is_found_anywhere(files: &Vec<StagedFile>, r: bool)
    requires
        call_ensures(contains_main_bundle, (files,), r),
    ensures
        r <==> exists|i: int|
            0 <= i < files@.len() && (#[trigger] files@[i]).relative@ == "js/main.bundle.js"@,
{
    let views = file_views(files@);
    assert(views.len() == files@.len());
    if r {
        let i = choose|i: int| 0 <= i < views.len() && (#[trigger] views[i]).0 == MAIN_BUNDLE@;
        assert(files@[i].relative@ == "js/main.bundle.js"@);
    }
    if exists|i: int|
        0 <= i < files@.len() && (#[trigger] files@[i]).relative@ == "js/main.bundle.js"@ {
        let i = choose|i: int|
            0 <= i < files@.len() && (#[trigger] files@[i]).relative@ == "js/main.bundle.js"@;
        assert(views[i].0 == MAIN_BUNDLE@);
    }
}

/// An archive is unpacked exactly where it can be read, each of its entries is
/// accepted and the main bundle is among them; the files are then those of its
/// entries.
pub proof fn law_archive_is_unpacked_whole(
    bytes: Vec<u8>,
    entries: Seq<(Result<(Seq<char>, u64), Seq<char>>, Result<Seq<u8>, Seq<char>>)>,
    r: Result<Vec<StagedFile>, String>,
)
    requires
        call_ensures(unpack_archive, (bytes,), r),
        zip_entries(bytes@) == Ok::<
            Seq<(Result<(Seq<char>, u64), Seq<char>>, Result<Seq<u8>, Seq<char>>)>,
            Seq<char>,
        >(entries),
    ensures
        r is Ok <==> (entry_files(entries) matches Ok(files) && exists|i: int|
            0 <= i < files.len() && (#[trigger] files[i]).0 == "js/main.bundle.js"@),
        r matches Ok(files) ==> entry_files(entries) == Ok::<Seq<(Seq<char>, Seq<u8>)>, Seq<char>>(
            file_views(files@),
        ),
{
    if let Ok(files) = entry_files(entries) {
        law_archive_holds_the_main_bundle(files);
    }
}

/// Every staged file is expected afterwards, under its own path and in its order.
pub proof fn law_every_staged_file_is_expected(files: &Vec<StagedFile>, i: int, r: Vec<String>)
    requires
        0 <= i < files@.len(),
        call_ensures(staged_paths, (files,), r),
    ensures
        r@.len() == files@.len(),
        r@[i]@ == files@[i].relative@,
{
    let views = file_views(files@);
    let wanted = views.map_values(|file: (Seq<char>, Seq<u8>)| file.0);
    assert(texts(r@).len() == r@.len());
    assert(texts(r@)[i] == r@[i]@);
    assert(wanted[i] == files@[i].relative@);
}

/// Every planned file inside the Mod is expected, and nothing else is.
pub proof fn law_every_planned_file_is_expected(
    paths: &Vec<String>,
    relatives: Seq<Seq<char>>,
    r: Vec<String>,
)
    requires
        relatives.len() == paths@.len(),
        forall|i: int|
            0 <= i < relatives.len() ==> inside_mod((#[trigger] paths@[i])@) == Some(relatives[i]),
        call_ensures(expected_paths, (paths,), r),
    ensures
        texts(r@) == relatives,
{
    let views = texts(paths@);
    assert forall|i: int| 0 <= i < relatives.len() implies inside_mod(#[trigger] views[i]) == Some(
        relatives[i],
    ) by {
        assert(views[i] == paths@[i]@);
    }
    lemma_all_inside(views, relatives);
}

proof fn lemma_all_inside(paths: Seq<Seq<char>>, relatives: Seq<Seq<char>>)
    requires
        relatives.len() == paths.len(),
        forall|i: int|
            0 <= i < relatives.len() ==> inside_mod(#[trigger] paths[i]) == Some(relatives[i]),
    ensures
        tree_relatives(paths) == relatives,
    decreases paths.len(),
{
    if paths.len() == 0 {
        assert(tree_relatives(paths) =~= relatives);
    } else {
        let less = paths.drop_last();
        assert forall|i: int| 0 <= i < less.len() implies inside_mod(#[trigger] less[i]) == Some(
            relatives.drop_last()[i],
        ) by {
            assert(less[i] == paths[i]);
        }
        lemma_all_inside(less, relatives.drop_last());
        assert(inside_mod(paths[paths.len() - 1]) == Some(relatives[paths.len() - 1]));
        assert(tree_relatives(paths) =~= tree_relatives(less).push(relatives.last()));
        assert(relatives.drop_last().push(relatives.last()) =~= relatives);
    }
}

/// The version in use is the recorded one where it names a commit, else the bundled.
pub proof fn law_recorded_commit_is_in_use(
    recorded: Option<String>,
    bundled: &str,
    r: String,
)
    requires
        call_ensures(local_ref, (recorded, bundled), r),
    ensures
        recorded matches Some(name) ==> r@ == if commit_name(name@) {
            name@
        } else {
            bundled@
        },
        recorded is None ==> r@ == bundled@,
{
}

/// A staging directory carries the version that is staged, hidden among its
/// neighbours.
pub proof fn law_staging_directory_carries_its_version(
    remote_ref: &str,
    process: u32,
    sequence: u64,
    r: String,
)
    requires
        call_ensures(staging_dir, (remote_ref, process, sequence), r),
    ensures
        ".reversedfront-mod-staging-"@.is_prefix_of(r@),
        remote_ref@.is_prefix_of(r@.skip(".reversedfront-mod-staging-"@.len() as int)),
        decimal(sequence as nat).is_suffix_of(r@),
{
    let head = ".reversedfront-mod-staging-"@;
    let middle = remote_ref@ + "-"@ + decimal(process as nat) + "-"@;
    lemma_framed(head, middle, decimal(sequence as nat));
    assert(r@ =~= head + middle + decimal(sequence as nat));
    let rest = r@.skip(head.len() as int);
    assert(rest.subrange(0, remote_ref@.len() as int) =~= remote_ref@);
}

/// A failed archive download tells its cause.
pub proof fn law_failed_archive_tells_its_cause(step: ArchiveFetch, error: &str, r: String)
    requires
        call_ensures(archive_fetch_error, (step, error), r),
    ensures
        error@.is_suffix_of(r@),
        r@.len() > error@.len(),
{
    reveal_strlit("Mod 更新下載失敗：");
    reveal_strlit("讀取 Mod 更新失敗：");
    reveal_strlit("儲存 Mod 更新包失敗：");
    assert(r@.subrange(r@.len() - error@.len(), r@.len() as int) =~= error@);
}

/// The reports of an installed update carry what was installed.
pub proof fn law_install_reports_carry_what_was_installed(
    remote_ref: &str,
    filename: &str,
    download_path: &str,
    paths: &Vec<String>,
    archive: Json,
    files: Json,
)
    requires
        call_ensures(archive_install_report, (remote_ref, filename, download_path), archive),
        call_ensures(file_install_report, (remote_ref, paths), files),
    ensures
        text_field(archive, "remoteRef"@) == Some(remote_ref@),
        text_field(archive, "filename"@) == Some(filename@),
        text_field(archive, "downloadPath"@) == Some(download_path@),
        flag_field(archive, "updated"@) == Some(true),
        flag_field(archive, "restartRequired"@) == Some(true),
        text_field(files, "remoteRef"@) == Some(remote_ref@),
        flag_field(files, "updated"@) == Some(true),
        flag_field(files, "restartRequired"@) == Some(true),
        fields(files).contains_pair(
            "fileCount"@,
            Json::Number(JsonNumber::Unsigned(paths@.len() as u64)),
        ),
{
}

/// A check is told with what it found.
pub proof fn law_check_result_is_told(info: ModUpdateInfo, r: Json)
    requires
        call_ensures(check_for_update, (info,), r),
    ensures
        flag_field(r, "hasUpdate"@) == Some(info.has_update),
        text_field(r, "currentRef"@) == Some(info.current_ref@),
        text_field(r, "remoteRef"@) == Some(info.remote_ref@),
        text_field(r, "repository"@) == Some("MoLinOwO/ReversedFront_Public"@),
{
}

/// A stage of an update that is done leads to the next, and one that failed ends it.
pub proof fn law_done_stage_leads_to_the_next(stage: ApplyStage, e: String, r: ApplyAction)
    ensures
        call_ensures(apply_update, (stage, Ok::<(), String>(())), r) ==> match stage {
            ApplyStage::Stage => r == ApplyAction::Enter(ApplyStage::Lock),
            ApplyStage::Lock => r == ApplyAction::Enter(ApplyStage::RemoveStale),
            ApplyStage::RemoveStale => r == ApplyAction::Enter(ApplyStage::Copy),
            ApplyStage::Copy => r == ApplyAction::Enter(ApplyStage::RemoveStaging),
            ApplyStage::RemoveStaging => r == ApplyAction::Enter(ApplyStage::Record),
            ApplyStage::Record => r == ApplyAction::Enter(ApplyStage::Unlock),
            ApplyStage::Unlock => r == ApplyAction::Done,
        },
        call_ensures(apply_update, (stage, Err::<(), String>(e)), r) ==> r == ApplyAction::Fail(e),
{
}

/// One `./` in front of an entry's name is dropped and no more, and a name without a
/// root is kept as it is.
pub proof fn law_names_without_a_root_are_kept(rest: Seq<char>)
    requires
        !"mod/"@.is_prefix_of(rest),
        !"web/mod/"@.is_prefix_of(rest),
    ensures
        entry_relative("./"@ + rest) == rest,
        !"./"@.is_prefix_of(rest) ==> entry_relative(rest) == rest,
{
    reveal_strlit("./");
    let dotted = "./"@ + rest;
    assert(dotted.subrange(0, 2) =~= "./"@);
    assert(dotted.skip(2) =~= rest);
}

/// A path stays inside the Mod exactly where each of its names does: a name that is
/// there, is not the parent directory and holds no backslash.
pub proof fn law_every_name_stays_inside(a: Seq<char>, b: Seq<char>)
    ensures
        stays_inside(a + "/"@ + b) <==> stays_inside(a) && stays_inside(b),
        !a.contains('/') ==> (stays_inside(a) <==> a.len() > 0 && a != ".."@ && !a.contains('\\')),
{
    reveal_strlit("/");
    reveal_strlit("..");
    let none = Seq::<char>::empty();
    let whole = a + "/"@ + b;
    assert(whole =~= a + seq!['/'] + b);
    law_separator_parts_the_pieces(a, '/', b);
    let left = split(a, '/');
    let right = split(b, '/');
    let all = split(whole, '/');
    assert(all =~= left + right);
    lemma_contained_on_a_side(left, right, none);
    lemma_contained_on_a_side(left, right, ".."@);
    if a.contains('\\') {
        let k = choose|k: int| 0 <= k < a.len() && a[k] == '\\';
        assert(whole[k] == '\\');
    }
    if b.contains('\\') {
        let k = choose|k: int| 0 <= k < b.len() && b[k] == '\\';
        assert(whole[a.len() + 1 + k] == '\\');
    }
    if whole.contains('\\') {
        let k = choose|k: int| 0 <= k < whole.len() && whole[k] == '\\';
        assert(k < a.len() ==> a[k] == '\\');
        assert(k > a.len() ==> b[k - a.len() - 1] == '\\');
    }
    lemma_leading_slash(a);
    lemma_leading_slash(b);
    lemma_leading_slash(whole);
    if a.len() == 0 {
        assert(a =~= none);
        law_text_without_separator_is_one_piece(none, '/');
        assert(left[0] == none);
    }
    if b.len() == 0 {
        assert(b =~= none);
        law_text_without_separator_is_one_piece(none, '/');
        assert(right[0] == none);
    }
    if !a.contains('/') {
        law_text_without_separator_is_one_piece(a, '/');
        assert(left[0] == a);
        if "/"@.is_prefix_of(a) {
            assert(a.subrange(0, 1)[0] == '/');
            assert(a.contains(a[0]));
        }
    }
    if a.len() > 0 {
        assert(whole[0] == a[0]);
        assert(whole.subrange(0, 1) =~= a.subrange(0, 1));
    }
}

proof fn lemma_contained_on_a_side(
    left: Seq<Seq<char>>,
    right: Seq<Seq<char>>,
    piece: Seq<char>,
)
    ensures
        (left + right).contains(piece) <==> left.contains(piece) || right.contains(piece),
{
    let all = left + right;
    if left.contains(piece) {
        let k = choose|k: int| 0 <= k < left.len() && left[k] == piece;
        assert(all[k] == piece);
    }
    if right.contains(piece) {
        let k = choose|k: int| 0 <= k < right.len() && right[k] == piece;
        assert(all[left.len() + k] == piece);
    }
    if all.contains(piece) {
        let k = choose|k: int| 0 <= k < all.len() && all[k] == piece;
        assert(k < left.len() ==> left[k] == piece);
        assert(k >= left.len() ==> right[k - left.len()] == piece);
    }
}

/// A path that begins with a slash has an empty piece.
proof fn lemma_leading_slash(s: Seq<char>)
    ensures
        "/"@.is_prefix_of(s) ==> split(s, '/').contains(Seq::empty()),
{
    reveal_strlit("/");
    let none = Seq::<char>::empty();
    if "/"@.is_prefix_of(s) {
        assert(s.subrange(0, 1)[0] == '/');
        let rest = s.skip(1);
        assert(s =~= none + seq!['/'] + rest);
        law_separator_parts_the_pieces(none, '/', rest);
        law_text_without_separator_is_one_piece(none, '/');
        assert(split(s, '/')[0] == none);
    }
}

/// An entry is kept exactly where its path stays inside the Mod and may be installed
/// there.
pub proof fn law_entry_is_kept_where_it_may_be_installed(name: Seq<char>, relative: Seq<char>)
    requires
        relative == entry_relative(name),
    ensures
        archived(name) is Some <==> stays_inside(relative) && installable("web/mod/"@ + relative),
        archived(name) is Some ==> archived(name) == Some(relative),
{
}

/// An archive that is refused is refused for the first thing that is wrong with it:
/// its version, its address, its name, its kind.
pub proof fn law_refused_archive_tells_the_first_fault(
    remote_ref: &str,
    url: &str,
    filename: &str,
    platform: Platform,
    e: String,
)
    requires
        call_ensures(
            validate_archive_request,
            (remote_ref, url, filename, platform),
            Err::<(), String>(e),
        ),
    ensures
        e@ == "更新版本識別碼格式錯誤"@ || commit_name(remote_ref@),
        commit_name(remote_ref@) ==> e@ == "拒絕非 GitHub Releases 的 Mod 更新下載網址"@
            || "https://github.com/MoLinOwO/ReversedFront_Public/releases/download/"@.is_prefix_of(
            url@,
        ),
        commit_name(remote_ref@)
            && "https://github.com/MoLinOwO/ReversedFront_Public/releases/download/"@.is_prefix_of(
            url@,
        ) ==> e@ == if is_file_name(platform, filename@) {
            "Mod 更新檔案必須是 ZIP"@
        } else {
            "Mod 更新檔名無效"@
        },
{
}

} // verus!
