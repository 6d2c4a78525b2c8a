//! The local web server of a process: which file a request opens and what it is
//! answered, and the session that each slot keeps for itself.

use crate::outside::{percent_decode, percent_decoded};
use crate::path::{is_below, lies_below, Platform};
use crate::resource_manager::ResourceResponse;
use crate::text::{
    contains_char, decimal, decimal_text, has_piece, joined, law_separator_parts_the_pieces,
    law_text_without_separator_is_one_piece, lemma_decimal_injective, lemma_framed, same_text,
    slice_text, split, strip_prefix, stripped, trim_leading, without_leading,
};
use vstd::prelude::*;
use vstd::utf8::{
    decode_utf8, encode_utf8, encode_utf8_decode_utf8, encode_utf8_valid_utf8, is_ascii_chars,
    is_ascii_chars_encode_utf8, valid_utf8,
};

verus! {

/// The directory of the sessions, inside the application data.
pub const SESSION_DIR: &'static str = "account-slots";

/// An answer to a request.
pub struct HttpReply {
    pub status: u16,
    pub content_type: Option<&'static str>,
    /// The answer is not to be reused without asking again.
    pub no_cache: bool,
    pub body: Vec<u8>,
}

/// An answer without a body.
pub open spec fn bare(reply: HttpReply, status: u16) -> bool {
    reply.status == status && reply.content_type is None && !reply.no_cache && reply.body@.len() == 0
}

fn bare_reply(status: u16) -> (r: HttpReply)
    ensures
        bare(r, status),
{
    HttpReply { status, content_type: None, no_cache: false, body: Vec::new() }
}

/// The answer to a path that is not served.
pub fn forbidden_reply() -> (r: HttpReply)
    ensures
        bare(r, 403),
{
    bare_reply(403)
}

/// An answer with a body of this type.
pub open spec fn carries(reply: HttpReply, content_type: Seq<char>, no_cache: bool, body: Vec<u8>) -> bool {
    &&& reply.status == 200
    &&& slice_text(reply.content_type) == Some(content_type)
    &&& reply.no_cache == no_cache
    &&& reply.body == body
}

/// The directory that a file is looked for in.
#[derive(Clone, Copy, Debug, PartialEq, Eq, Structural)]
pub enum FileRoot {
    /// The web files that came with the program.
    Web,
    /// The updated Mod files.
    ModUpdate,
}

/// What to do for a request for a file.
pub enum StaticStep<'a> {
    /// The path is not served; `forbidden_reply` is the answer.
    Forbidden,
    /// Open this file that came with the program.
    Open(&'a str),
    /// Look whether there is an update of the Mod file, and open the one that
    /// `choose_mod_file` chooses.
    OpenMod { update: &'a str, bundled: &'a str },
}

/// A path that is not served: it names a parent directory, or holds a
/// backslash.
pub open spec fn forbidden(relative: Seq<char>) -> bool {
    split(relative, '/').contains(".."@) || relative.contains('\\')
}

/// Decides which file a request opens.
pub fn handle_static_file<'a>(path: &'a str) -> (r: StaticStep<'a>)
    ensures
        ({
            let relative = without_leading(path@, '/');
            if forbidden(relative) {
                r is Forbidden
            } else if relative.len() == 0 {
                r matches StaticStep::Open(file) && file@ == "index.html"@
            } else if stripped(relative, "mod/"@) is Some {
                r matches StaticStep::OpenMod { update, bundled } && update@ == stripped(
                    relative,
                    "mod/"@,
                )->0 && bundled@ == relative
            } else {
                r matches StaticStep::Open(file) && file@ == relative
            }
        }),
{
    let relative = trim_leading(path, '/');
    if has_piece(relative, '/', "..") || contains_char(relative, '\\') {
        return StaticStep::Forbidden;
    }
    if relative.unicode_len() == 0 {
        return StaticStep::Open("index.html");
    }
    match strip_prefix(relative, "mod/") {
        Some(update) => StaticStep::OpenMod { update, bundled: relative },
        None => StaticStep::Open(relative),
    }
}

/// Chooses the file that a request for a Mod file opens: its update, where there
/// is one, else the one that came with the program.
pub fn choose_mod_file<'a>(update: &'a str, bundled: &'a str, updated: bool) -> (r: (
    FileRoot,
    &'a str,
))
    ensures
        r == if updated {
            (FileRoot::ModUpdate, update)
        } else {
            (FileRoot::Web, bundled)
        },
{
    if updated {
        (FileRoot::ModUpdate, update)
    } else {
        (FileRoot::Web, bundled)
    }
}

/// The media type of a web file, by its extension.
pub open spec fn web_type(extension: Option<Seq<char>>) -> Seq<char> {
    match extension {
        Some(e) => if e == "html"@ {
            "text/html; charset=utf-8"@
        } else if e == "js"@ {
            "application/javascript; charset=utf-8"@
        } else if e == "css"@ {
            "text/css; charset=utf-8"@
        } else if e == "json"@ {
            "application/json"@
        } else if e == "png"@ {
            "image/png"@
        } else if e == "jpg"@ || e == "jpeg"@ {
            "image/jpeg"@
        } else if e == "gif"@ {
            "image/gif"@
        } else if e == "svg"@ {
            "image/svg+xml"@
        } else if e == "ico"@ {
            "image/x-icon"@
        } else if e == "mp3"@ {
            "audio/mpeg"@
        } else if e == "mp4"@ {
            "video/mp4"@
        } else if e == "webm"@ {
            "video/webm"@
        } else if e == "yaml"@ || e == "yml"@ {
            "text/yaml"@
        } else {
            "application/octet-stream"@
        },
        None => "application/octet-stream"@,
    }
}

fn web_type_of(extension: Option<&str>) -> (r: &'static str)
    ensures
        r@ == web_type(slice_text(extension)),
{
    let e = match extension {
        Some(e) => e,
        None => return "application/octet-stream",
    };
    if same_text(e, "html") {
        "text/html; charset=utf-8"
    } else if same_text(e, "js") {
        "application/javascript; charset=utf-8"
    } else if same_text(e, "css") {
        "text/css; charset=utf-8"
    } else if same_text(e, "json") {
        "application/json"
    } else if same_text(e, "png") {
        "image/png"
    } else if same_text(e, "jpg") || same_text(e, "jpeg") {
        "image/jpeg"
    } else if same_text(e, "gif") {
        "image/gif"
    } else if same_text(e, "svg") {
        "image/svg+xml"
    } else if same_text(e, "ico") {
        "image/x-icon"
    } else if same_text(e, "mp3") {
        "audio/mpeg"
    } else if same_text(e, "mp4") {
        "video/mp4"
    } else if same_text(e, "webm") {
        "video/webm"
    } else if same_text(e, "yaml") || same_text(e, "yml") {
        "text/yaml"
    } else {
        "application/octet-stream"
    }
}

/// The extension of a file.
#[derive(Clone, Copy)]
pub enum FileExtension<'a> {
    /// It has none.
    Absent,
    /// It is no text.
    Foreign,
    Text(&'a str),
}

/// The extension, where it is text.
pub open spec fn extension_text(extension: FileExtension) -> Option<Seq<char>> {
    match extension {
        FileExtension::Text(e) => Some(e@),
        _ => None,
    }
}

/// What follows once a file was opened.
pub enum StaticReply {
    Reply(HttpReply),
    /// Open the entry page and answer with `index_reply`.
    ReadIndex,
}

/// Answers a request for the file `relative` of the directory `root`; `data`
/// holds what it was read to. A path that leads out of the directory is not
/// served. A file that cannot be read and has no extension stands for a page
/// that the entry page shows.
pub fn static_reply(
    platform: Platform,
    root: &str,
    relative: &str,
    data: Option<Vec<u8>>,
    extension: FileExtension,
) -> (r: StaticReply)
    ensures
        if !lies_below(platform, root@, relative@) {
            r matches StaticReply::Reply(reply) && bare(reply, 403)
        } else {
            match data {
                Some(body) => r matches StaticReply::Reply(reply) && carries(
                    reply,
                    web_type(extension_text(extension)),
                    true,
                    body,
                ),
                None => if extension is Absent {
                    r is ReadIndex
                } else {
                    r matches StaticReply::Reply(reply) && bare(reply, 404)
                },
            }
        },
{
    if !is_below(platform, root, relative) {
        return StaticReply::Reply(forbidden_reply());
    }
    match data {
        Some(body) => {
            let content_type = match extension {
                FileExtension::Text(e) => web_type_of(Some(e)),
                _ => web_type_of(None),
            };
            StaticReply::Reply(
                HttpReply { status: 200, content_type: Some(content_type), no_cache: true, body },
            )
        },
        None => match extension {
            FileExtension::Absent => StaticReply::ReadIndex,
            _ => StaticReply::Reply(bare_reply(404)),
        },
    }
}

/// Answers with the entry page, where it can be read.
pub fn index_reply(data: Option<Vec<u8>>) -> (r: HttpReply)
    ensures
        match data {
            Some(body) => carries(r, "text/html; charset=utf-8"@, true, body),
            None => bare(r, 404),
        },
{
    match data {
        Some(body) => HttpReply {
            status: 200,
            content_type: Some("text/html; charset=utf-8"),
            no_cache: true,
            body,
        },
        None => bare_reply(404),
    }
}

/// The resource that a request below `passionfruit/` means, given the text that
/// its path decodes to.
pub open spec fn passionfruit_key(decoded: Option<Seq<char>>) -> Seq<char> {
    "passionfruit/"@ + match decoded {
        Some(text) => without_leading(text, '/'),
        None => ""@,
    }
}

/// The text that a path decodes to, where it is one.
pub open spec fn decoded_path(path: Seq<char>) -> Option<Seq<char>> {
    let bytes = percent_decoded(encode_utf8(path));
    if valid_utf8(bytes) {
        Some(decode_utf8(bytes))
    } else {
        None
    }
}

/// The resource that a decoded path means.
pub fn passionfruit_resource(decoded: Option<&str>) -> (r: String)
    ensures
        r@ == passionfruit_key(slice_text(decoded)),
{
    let tail = match decoded {
        Some(text) => trim_leading(text, '/'),
        None => "",
    };
    joined("passionfruit/", tail)
}

/// The resource that a request below `passionfruit/` means: its path with the
/// percent escapes read and without leading slashes; the empty one where the
/// escapes do not write text.
pub fn handle_passionfruit_request(path: &str) -> (r: String)
    ensures
        r@ == passionfruit_key(decoded_path(path@)),
{
    match percent_decode(path) {
        Some(text) => {
            proof {
                encode_utf8_decode_utf8(text@);
            }
            passionfruit_resource(Some(&text))
        },
        None => passionfruit_resource(None),
    }
}

/// The media type of a resource, by its extension.
pub open spec fn media_type(extension: Option<Seq<char>>) -> Seq<char> {
    match extension {
        Some(e) => if e == "png"@ {
            "image/png"@
        } else if e == "jpg"@ || e == "jpeg"@ {
            "image/jpeg"@
        } else if e == "gif"@ {
            "image/gif"@
        } else if e == "mp4"@ {
            "video/mp4"@
        } else if e == "webm"@ {
            "video/webm"@
        } else if e == "mp3"@ {
            "audio/mpeg"@
        } else if e == "wav"@ {
            "audio/wav"@
        } else {
            "application/octet-stream"@
        },
        None => "application/octet-stream"@,
    }
}

fn media_type_of(extension: Option<&str>) -> (r: &'static str)
    ensures
        r@ == media_type(slice_text(extension)),
{
    let e = match extension {
        Some(e) => e,
        None => return "application/octet-stream",
    };
    if same_text(e, "png") {
        "image/png"
    } else if same_text(e, "jpg") || same_text(e, "jpeg") {
        "image/jpeg"
    } else if same_text(e, "gif") {
        "image/gif"
    } else if same_text(e, "mp4") {
        "video/mp4"
    } else if same_text(e, "webm") {
        "video/webm"
    } else if same_text(e, "mp3") {
        "audio/mpeg"
    } else if same_text(e, "wav") {
        "audio/wav"
    } else {
        "application/octet-stream"
    }
}

/// Answers a request for a resource: with it, that there is none, or that it
/// could not be had. `extension` is that of the file that it was read from,
/// where it is text.
pub fn resource_reply<P>(
    outcome: Result<Option<ResourceResponse<P>>, String>,
    extension: Option<&str>,
) -> (r: HttpReply)
    ensures
        match outcome {
            Ok(Some(resource)) => carries(
                r,
                media_type(slice_text(extension)),
                false,
                resource.data,
            ),
            Ok(None) => bare(r, 404),
            Err(_) => bare(r, 502),
        },
{
    match outcome {
        Ok(Some(resource)) => HttpReply {
            status: 200,
            content_type: Some(media_type_of(extension)),
            no_cache: false,
            body: resource.data,
        },
        Ok(None) => bare_reply(404),
        Err(_) => bare_reply(502),
    }
}

/// The name of a slot's session directory.
pub fn session_dir_name(slot: usize) -> (r: String)
    ensures
        r@ == decimal(slot as nat),
{
    decimal_text(slot as u64)
}

/// The address that a slot's window opens.
pub open spec fn session_url_of(base: Seq<char>, slot: nat) -> Seq<char> {
    base + "/?rf_account_slot="@ + decimal(slot)
}

/// The address that a slot's window opens on the server of its process.
pub fn session_url(base: &str, slot: usize) -> (r: String)
    ensures
        r@ == session_url_of(base@, slot as nat),
{
    let mut url = joined(base, "/?rf_account_slot=");
    url.append(&decimal_text(slot as u64));
    url
}

/// The seed of a slot's data store.
pub open spec fn session_seed_of(slot: nat) -> Seq<char> {
    "main-slot:"@ + decimal(slot)
}

/// The seed of a slot's data store.
pub fn session_seed(slot: usize) -> (r: String)
    ensures
        r@ == session_seed_of(slot as nat),
{
    joined("main-slot:", &decimal_text(slot as u64))
}

/// Why a process does not start while an update runs; none where it may.
pub fn startup_refusal(updating: bool) -> (r: Option<&'static str>)
    ensures
        slice_text(r) == if updating {
            Some("ReversedFront 正在更新，請稍後再啟動"@)
        } else {
            None
        },
{
    if updating {
        Some("ReversedFront 正在更新，請稍後再啟動")
    } else {
        None
    }
}

/// Different slots keep their sessions in different directories, under
/// different seeds, and open different addresses.
pub proof fn law_sessions_are_apart(base: Seq<char>, slot: nat, other: nat)
    requires
        slot != other,
    ensures
        decimal(slot) != decimal(other),
        session_seed_of(slot) != session_seed_of(other),
        session_url_of(base, slot) != session_url_of(base, other),
{
    let seed = "main-slot:"@;
    let head = base + "/?rf_account_slot="@;
    if decimal(slot) == decimal(other) {
        lemma_decimal_injective(slot, other);
    }
    if session_seed_of(slot) == session_seed_of(other) {
        assert(session_seed_of(slot).skip(seed.len() as int) =~= decimal(slot));
        assert(session_seed_of(other).skip(seed.len() as int) =~= decimal(other));
    }
    if session_url_of(base, slot) == session_url_of(base, other) {
        assert(session_url_of(base, slot).skip(head.len() as int) =~= decimal(slot));
        assert(session_url_of(base, other).skip(head.len() as int) =~= decimal(other));
    }
}

/// A request is forbidden where one of the names between its slashes is that of the
/// parent directory or holds a backslash, and only there.
pub proof fn law_forbidden_names_are_found_anywhere(a: Seq<char>, b: Seq<char>)
    ensures
        forbidden(a + "/"@ + b) <==> forbidden(a) || forbidden(b),
        !a.contains('/') ==> (forbidden(a) <==> a == ".."@ || a.contains('\\')),
{
    reveal_strlit("/");
    let whole = a + "/"@ + b;
    assert(whole =~= a + seq!['/'] + b);
    law_separator_parts_the_pieces(a, '/', b);
    let left = split(a, '/');
    let right = split(b, '/');
    let all = split(whole, '/');
    assert(all =~= left + right);
    if left.contains(".."@) {
        let k = choose|k: int| 0 <= k < left.len() && left[k] == ".."@;
        assert(all[k] == ".."@);
    }
    if right.contains(".."@) {
        let k = choose|k: int| 0 <= k < right.len() && right[k] == ".."@;
        assert(all[left.len() + k] == ".."@);
    }
    if all.contains(".."@) {
        let k = choose|k: int| 0 <= k < all.len() && all[k] == ".."@;
        assert(k < left.len() ==> left[k] == ".."@);
        assert(k >= left.len() ==> right[k - left.len()] == ".."@);
    }
    if a.contains('\\') {
        let k = choose|k: int| 0 <= k < a.len() && a[k] == '\\';
        assert(whole[k] == '\\');
    }
    if b.contains('\\') {
        let k = choose|k: int| 0 <= k < b.len() && b[k] == '\\';
        assert(whole[a.len() + 1 + k] == '\\');
    }
    if whole.contains('\\') {
        let k = choose|k: int| 0 <= k < whole.len() && whole[k] == '\\';
        assert(k < a.len() ==> a[k] == '\\');
        assert(k > a.len() ==> b[k - a.len() - 1] == '\\');
    }
    if !a.contains('/') {
        law_text_without_separator_is_one_piece(a, '/');
        assert(left[0] == a);
    }
}

/// A file of the page whose extension is none of the known ones is sent as bytes;
/// extensions are known in lower case only.
pub proof fn law_unknown_files_are_sent_as_bytes(extension: Seq<char>)
    ensures
        web_type(None) == "application/octet-stream"@,
        media_type(None) == "application/octet-stream"@,
        extension != "html"@ && extension != "js"@ && extension != "css"@ && extension != "json"@
            && extension != "png"@ && extension != "jpg"@ && extension != "jpeg"@ && extension
            != "gif"@ && extension != "svg"@ && extension != "ico"@ && extension != "mp3"@
            && extension != "mp4"@ && extension != "webm"@ && extension != "yaml"@ && extension
            != "yml"@ ==> web_type(Some(extension)) == "application/octet-stream"@,
        extension != "png"@ && extension != "jpg"@ && extension != "jpeg"@ && extension != "gif"@
            && extension != "mp4"@ && extension != "webm"@ && extension != "mp3"@ && extension
            != "wav"@ ==> media_type(Some(extension)) == "application/octet-stream"@,
{
}

/// A picture, a film or a sound has the same type in the page and among the game's
/// resources.
pub proof fn law_media_have_one_type(extension: Seq<char>)
    requires
        media_type(Some(extension)) != "application/octet-stream"@,
        extension != "wav"@,
    ensures
        web_type(Some(extension)) == media_type(Some(extension)),
{
    reveal_strlit("html");
    reveal_strlit("js");
    reveal_strlit("css");
    reveal_strlit("json");
    reveal_strlit("png");
    reveal_strlit("jpg");
    reveal_strlit("jpeg");
    reveal_strlit("gif");
    reveal_strlit("svg");
    reveal_strlit("ico");
    reveal_strlit("mp3");
    reveal_strlit("mp4");
    reveal_strlit("webm");
    assert("html"@[0] == 'h' && "js"@.len() == 2 && "css"@[0] == 'c' && "json"@[1] == 's');
    assert("png"@[0] == 'p' && "jpg"@[0] == 'j' && "jpeg"@[1] == 'p' && "gif"@[0] == 'g');
    assert("svg"@[0] == 's' && "ico"@[0] == 'i' && "mp3"@[2] == '3' && "mp4"@[2] == '4');
    assert("webm"@[0] == 'w' && "mp3"@[0] == 'm' && "mp4"@[0] == 'm');
    assert("png"@.len() == 3 && "jpg"@.len() == 3 && "jpeg"@.len() == 4 && "gif"@.len() == 3);
    assert("html"@.len() == 4 && "css"@.len() == 3 && "json"@.len() == 4 && "webm"@.len() == 4);
}

/// The key of a resource that a request asks for is its decoded path as it is
/// written, without the slashes in front; one that cannot be decoded names none.
pub proof fn law_requested_resource_lies_below_its_directory(path: Seq<char>)
    ensures
        path.len() == 0 || path[0] != '/' ==> passionfruit_key(Some(path)) == "passionfruit/"@
            + path,
        passionfruit_key(Some("/"@ + path)) == passionfruit_key(Some(path)),
        passionfruit_key(None) == "passionfruit/"@,
{
    reveal_strlit("/");
    reveal_strlit("");
    assert(("/"@ + path).drop_first() =~= path);
    assert("passionfruit/"@ + ""@ =~= "passionfruit/"@);
}

proof fn lemma_nothing_to_decode(bytes: Seq<u8>)
    requires
        !bytes.contains(37),
    ensures
        percent_decoded(bytes) == bytes,
    decreases bytes.len(),
{
    if bytes.len() > 0 {
        let rest = bytes.skip(1);
        assert(bytes.contains(bytes[0]));
        assert forall|i: int| 0 <= i < rest.len() implies rest[i] != 37 by {
            assert(bytes.contains(bytes[i + 1]));
        }
        lemma_nothing_to_decode(rest);
        assert(seq![bytes[0]] + rest =~= bytes);
    }
}

/// A path of ASCII without a percent sign means what it says: nothing in it is
/// decoded.
pub proof fn law_plain_path_is_not_decoded(path: Seq<char>)
    requires
        is_ascii_chars(path),
        !path.contains('%'),
    ensures
        decoded_path(path) == Some(path),
{
    is_ascii_chars_encode_utf8(path);
    let bytes = encode_utf8(path);
    assert forall|i: int| 0 <= i < bytes.len() implies bytes[i] != 37 by {
        assert(path.contains(path[i]));
    }
    lemma_nothing_to_decode(bytes);
    encode_utf8_valid_utf8(path);
    encode_utf8_decode_utf8(path);
}

/// A session's address is the server's with the number of its slot behind it.
pub proof fn law_session_address_carries_its_slot(base: Seq<char>, slot: nat)
    ensures
        base.is_prefix_of(session_url_of(base, slot)),
        decimal(slot).is_suffix_of(session_url_of(base, slot)),
        session_url_of(base, slot).len() == base.len() + "/?rf_account_slot="@.len() + decimal(
            slot,
        ).len(),
        "/?rf_account_slot="@.is_prefix_of(session_url_of(base, slot).skip(base.len() as int)),
        decimal(slot).is_suffix_of(session_seed_of(slot)),
        "main-slot:"@.is_prefix_of(session_seed_of(slot)),
        session_seed_of(slot).len() == "main-slot:"@.len() + decimal(slot).len(),
{
    lemma_framed(base, "/?rf_account_slot="@, decimal(slot));
    let none = Seq::<char>::empty();
    lemma_framed("/?rf_account_slot="@, none, decimal(slot));
    assert("/?rf_account_slot="@ + none + decimal(slot) =~= session_url_of(base, slot).skip(
        base.len() as int,
    ));
    lemma_framed("main-slot:"@, none, decimal(slot));
    assert("main-slot:"@ + none + decimal(slot) =~= session_seed_of(slot));
}

/// A request opens the file that it names: the page's start for no name, the Mod's
/// own file first for a name below `mod/`, and nothing where the name is forbidden.
/// A slash in front makes no difference.
pub proof fn law_request_opens_the_file_it_names<'a>(
    path: &'a str,
    name: Seq<char>,
    r: StaticStep<'a>,
)
    requires
        name.len() > 0 ==> name[0] != '/',
        path@ == name || path@ == "/"@ + name,
        call_ensures(handle_static_file, (path,), r),
    ensures
        r is Forbidden <==> forbidden(name),
        !forbidden(name) && name.len() == 0 ==> (r matches StaticStep::Open(file) && file@
            == "index.html"@),
        !forbidden(name) && name.len() > 0 && !"mod/"@.is_prefix_of(name) ==> (
        r matches StaticStep::Open(file) && file@ == name),
        !forbidden(name) && "mod/"@.is_prefix_of(name) ==> (
        r matches StaticStep::OpenMod { update, bundled } && "mod/"@ + update@ == name && bundled@
            == name),
{
    reveal_strlit("/");
    reveal_strlit("mod/");
    assert(("/"@ + name).drop_first() =~= name);
    assert(without_leading(name, '/') == name);
    assert(without_leading(path@, '/') == name);
    if "mod/"@.is_prefix_of(name) {
        assert("mod/"@ + name.skip(4) =~= name);
    }
}

/// The Mod's updated file is used where it is there, else the bundled one.
pub proof fn law_updated_file_comes_first<'a>(
    update: &'a str,
    bundled: &'a str,
    r: (FileRoot, &'a str),
)
    ensures
        call_ensures(choose_mod_file, (update, bundled, true), r) ==> r == (
            FileRoot::ModUpdate,
            update,
        ),
        call_ensures(choose_mod_file, (update, bundled, false), r) ==> r == (
            FileRoot::Web,
            bundled,
        ),
{
}

/// A file that was read is answered with all of its bytes, and is not to be cached;
/// one that is not there is answered so, unless a name without an extension asks for
/// the page itself; nothing outside the directory is answered.
pub proof fn law_read_file_is_answered(
    platform: Platform,
    root: &str,
    relative: &str,
    body: Vec<u8>,
    extension: FileExtension,
    r: StaticReply,
)
    ensures
        call_ensures(static_reply, (platform, root, relative, Some(body), extension), r)
            && lies_below(platform, root@, relative@) ==> (r matches StaticReply::Reply(reply)
            && reply.status == 200 && reply.body == body && reply.no_cache),
        call_ensures(
            static_reply,
            (platform, root, relative, None::<Vec<u8>>, FileExtension::Absent),
            r,
        ) && lies_below(platform, root@, relative@) ==> r is ReadIndex,
        call_ensures(static_reply, (platform, root, relative, None::<Vec<u8>>, extension), r)
            && lies_below(platform, root@, relative@) && !(extension is Absent) ==> (
        r matches StaticReply::Reply(reply) && reply.status == 404 && reply.body@.len() == 0),
        call_ensures(static_reply, (platform, root, relative, Some(body), extension), r)
            && !lies_below(platform, root@, relative@) ==> (r matches StaticReply::Reply(reply)
            && reply.status == 403 && reply.body@.len() == 0),
{
}

/// The page is answered as HTML with all of its bytes, and as missing where it is.
pub proof fn law_page_is_answered(body: Vec<u8>, r: HttpReply)
    ensures
        call_ensures(index_reply, (Some(body),), r) ==> r.status == 200 && r.body == body
            && r.no_cache && slice_text(r.content_type) == Some("text/html; charset=utf-8"@),
        call_ensures(index_reply, (None::<Vec<u8>>,), r) ==> r.status == 404 && r.body@.len() == 0,
{
}

/// A resource is answered with all of its bytes; one that is not there and one that
/// could not be fetched are told apart.
pub proof fn law_resource_is_answered<P>(
    resource: ResourceResponse<P>,
    error: String,
    extension: Option<&str>,
    r: HttpReply,
)
    ensures
        call_ensures(
            resource_reply::<P>,
            (Ok::<Option<ResourceResponse<P>>, String>(Some(resource)), extension),
            r,
        ) ==> r.status == 200 && r.body == resource.data && !r.no_cache && slice_text(
            r.content_type,
        ) == Some(media_type(slice_text(extension))),
        call_ensures(
            resource_reply::<P>,
            (Ok::<Option<ResourceResponse<P>>, String>(None), extension),
            r,
        ) ==> r.status == 404 && r.body@.len() == 0,
        call_ensures(
            resource_reply::<P>,
            (Err::<Option<ResourceResponse<P>>, String>(error), extension),
            r,
        ) ==> r.status == 502 && r.body@.len() == 0,
{
}

/// A request for a resource by a plain path asks for the resource of that path.
pub proof fn law_plain_request_asks_for_its_resource(path: &str, r: String)
    requires
        is_ascii_chars(path@),
        !path@.contains('%'),
        path@.len() > 0 ==> path@[0] != '/',
        call_ensures(handle_passionfruit_request, (path,), r),
    ensures
        r@ == "passionfruit/"@ + path@,
{
    law_plain_path_is_not_decoded(path@);
    law_requested_resource_lies_below_its_directory(path@);
}

/// The program does not start while it is being updated, and starts otherwise.
pub proof fn law_program_starts_unless_it_is_updated(updating: bool, r: Option<&'static str>)
    requires
        call_ensures(startup_refusal, (updating,), r),
    ensures
        r is Some <==> updating,
{
}

/// A session has its own directory, address and seed, each by the number of its slot.
pub proof fn law_session_is_named_by_its_slot(
    base: &str,
    slot: usize,
    directory: String,
    url: String,
    seed: String,
)
    requires
        call_ensures(session_dir_name, (slot,), directory),
        call_ensures(session_url, (base, slot), url),
        call_ensures(session_seed, (slot,), seed),
    ensures
        base@.is_prefix_of(url@),
        directory@.is_suffix_of(url@),
        directory@.is_suffix_of(seed@),
        directory@ == decimal(slot as nat),
        url@.len() == base@.len() + "/?rf_account_slot="@.len() + directory@.len(),
        "main-slot:"@.is_prefix_of(seed@),
{
    law_session_address_carries_its_slot(base@, slot as nat);
}

/// A forbidden request is answered so and with nothing else, and a decoded path asks
/// for the resource it names.
pub proof fn law_forbidden_request_gets_nothing(r: HttpReply, path: &str, key: String)
    requires
        call_ensures(forbidden_reply, (), r),
        call_ensures(passionfruit_resource, (Some(path),), key),
    ensures
        r.status == 403,
        r.body@.len() == 0,
        r.content_type is None,
        path@.len() > 0 && path@[0] != '/' ==> key@ == "passionfruit/"@ + path@,
{
    law_requested_resource_lies_below_its_directory(path@);
}

} // verus!
